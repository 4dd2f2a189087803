//! Turning JVM names and descriptors into C++ identifiers and types.
use vstd::prelude::*;
use crate::text::{char_at, char_len, push_char, push_str, replace_char, replace_char_str, str_eq, to_owned_string};

verus! {

/// Whether every character of `s` is ASCII. Descriptor positions below are
/// counted in characters; on ASCII text they coincide with byte offsets.
pub open spec fn ascii(s: Seq<char>) -> bool {
    forall|i: int| 0 <= i < s.len() ==> (s[i] as u32) < 128
}

/// Whether a string slice is ASCII (`str::is_ascii`).
pub fn is_ascii_str(s: &str) -> (r: bool)
    ensures
        r == ascii(s@),
{
    let n = char_len(s);
    let mut i: usize = 0;
    while i < n
        invariant
            n == s@.len(),
            i <= n,
            forall|j: int| 0 <= j < i ==> (s@[j] as u32) < 128,
        decreases n - i,
    {
        if (char_at(s, i) as u32) >= 128 {
            return false;
        }
        i = i + 1;
    }
    true
}

/// C++ name of a JVM method name: constructors and class initialisers get
/// names that C++ accepts.
pub open spec fn spec_method_name_to_c_name(name: Seq<char>) -> Seq<char> {
    if name == seq!['<', 'i', 'n', 'i', 't', '>'] {
        seq!['_', 'i', 'n', 'i', 't', '_']
    } else if name == seq!['<', 'c', 'l', 'i', 'n', 'i', 't', '>'] {
        seq!['_', 'c', 'l', 'i', 'n', 'i', 't', '_']
    } else {
        name
    }
}

/// `"<init>"` becomes `"_init_"`, `"<clinit>"` becomes `"_clinit_"`, any other
/// name stays as it is.
pub fn method_name_to_c_name(method_name: &str) -> (r: String)
    ensures
        r@ == spec_method_name_to_c_name(method_name@),
{
    proof {
        reveal_strlit("<init>");
        reveal_strlit("<clinit>");
        reveal_strlit("_init_");
        reveal_strlit("_clinit_");
        assert("<init>"@ =~= seq!['<', 'i', 'n', 'i', 't', '>']);
        assert("<clinit>"@ =~= seq!['<', 'c', 'l', 'i', 'n', 'i', 't', '>']);
        assert("_init_"@ =~= seq!['_', 'i', 'n', 'i', 't', '_']);
        assert("_clinit_"@ =~= seq!['_', 'c', 'l', 'i', 'n', 'i', 't', '_']);
    }
    if str_eq(method_name, "<init>") {
        to_owned_string("_init_")
    } else if str_eq(method_name, "<clinit>") {
        to_owned_string("_clinit_")
    } else {
        to_owned_string(method_name)
    }
}

/// `"_cs_"`: what a `/` of a class path becomes.
pub open spec fn cs_sep() -> Seq<char> {
    seq!['_', 'c', 's', '_']
}

/// `"_dolsig_"`: what a `$` of a class path becomes.
pub open spec fn dolsig() -> Seq<char> {
    seq!['_', 'd', 'o', 'l', 's', 'i', 'g', '_']
}

/// A class path as a C++ identifier: the path's `/`-separated segments joined
/// by `_cs_`, then each `$` replaced by `_dolsig_`.
pub open spec fn spec_class_path_mangled(path: Seq<char>) -> Seq<char> {
    replace_char(replace_char(path, '/', cs_sep()), '$', dolsig())
}

/// Mangles a class path such as `java/lang/Object` into `java_cs_lang_cs_Object`.
pub fn class_path_to_class_mangled(class_path: &str) -> (r: String)
    ensures
        r@ == spec_class_path_mangled(class_path@),
{
    proof {
        reveal_strlit("_cs_");
        reveal_strlit("_dolsig_");
        assert("_cs_"@ =~= cs_sep());
        assert("_dolsig_"@ =~= dolsig());
    }
    let joined = replace_char_str(class_path, '/', "_cs_");
    replace_char_str(joined.as_str(), '$', "_dolsig_")
}

/// The state of the descriptor scan after its first `k` characters: the text
/// written so far, whether the scan is inside a class name, and where the
/// current class name begins.
pub open spec fn desc_scan(d: Seq<char>, k: nat) -> (Seq<char>, bool, int)
    decreases k,
{
    if k == 0 || k > d.len() {
        (Seq::empty(), false, 0)
    } else {
        let prev = desc_scan(d, (k - 1) as nat);
        let idx = k - 1;
        let c = d[idx];
        let within = if c == 'L' { true } else { prev.1 };
        let beg = if c == 'L' { idx + 1 } else { prev.2 };
        if c == ';' {
            (prev.0 + spec_class_path_mangled(d.subrange(beg, idx)) + seq!['_', 'a', 's', '_'], false, beg)
        } else if c == '(' {
            (prev.0 + seq!['_', 'a', 'b', '_'], within, beg)
        } else if c == ')' {
            (prev.0 + seq!['a', 'e', '_'], within, beg)
        } else if !within {
            (prev.0.push(c), within, beg)
        } else {
            (prev.0, within, beg)
        }
    }
}

/// The mangled form of a method descriptor: `(` becomes `_ab_`, `)` becomes
/// `ae_`, each class name (from the last `L` to its `;`) becomes its mangled
/// path followed by `_as_`, other characters outside class names stay, and
/// finally each `[` becomes `_arr_`.
pub open spec fn spec_desc_to_mangled(d: Seq<char>) -> Seq<char> {
    replace_char(desc_scan(d, d.len()).0, '[', seq!['_', 'a', 'r', 'r', '_'])
}

proof fn lemma_desc_scan_beg(d: Seq<char>, k: nat)
    requires
        k <= d.len(),
    ensures
        0 <= desc_scan(d, k).2 <= k,
    decreases k,
{
    if k > 0 {
        lemma_desc_scan_beg(d, (k - 1) as nat);
    }
}

/// Mangles a method descriptor such as `(ILjava/lang/Object;)V`.
pub fn desc_to_mangled(desc: &str) -> (r: String)
    requires
        ascii(desc@),
    ensures
        r@ == spec_desc_to_mangled(desc@),
{
    proof {
        reveal_strlit("_as_");
        reveal_strlit("_ab_");
        reveal_strlit("ae_");
        reveal_strlit("_arr_");
        assert("_as_"@ =~= seq!['_', 'a', 's', '_']);
        assert("_ab_"@ =~= seq!['_', 'a', 'b', '_']);
        assert("ae_"@ =~= seq!['a', 'e', '_']);
        assert("_arr_"@ =~= seq!['_', 'a', 'r', 'r', '_']);
    }
    let n = char_len(desc);
    let mut classname_beg: usize = 0;
    let mut within_class = false;
    let mut res = String::new();
    let mut index: usize = 0;
    while index < n
        invariant
            n == desc@.len(),
            index <= n,
            desc_scan(desc@, index as nat) == (res@, within_class, classname_beg as int),
            "_as_"@ =~= seq!['_', 'a', 's', '_'],
            "_ab_"@ =~= seq!['_', 'a', 'b', '_'],
            "ae_"@ =~= seq!['a', 'e', '_'],
        decreases n - index,
    {
        proof {
            lemma_desc_scan_beg(desc@, index as nat);
        }
        let curr = char_at(desc, index);
        if curr == 'L' {
            within_class = true;
            classname_beg = index + 1;
        }
        if curr == ';' {
            within_class = false;
            let class = desc.substring_char(classname_beg, index);
            let class = class_path_to_class_mangled(class);
            push_str(&mut res, class.as_str());
            push_str(&mut res, "_as_");
        } else if curr == '(' {
            push_str(&mut res, "_ab_");
        } else if curr == ')' {
            push_str(&mut res, "ae_");
        } else if !within_class {
            push_char(&mut res, curr);
        }
        index = index + 1;
    }
    replace_char_str(res.as_str(), '[', "_arr_")
}

/// `"_ne_"`: the separator between a method's name and its descriptor.
pub open spec fn ne_sep() -> Seq<char> {
    seq!['_', 'n', 'e', '_']
}

/// The C++ name of a method: its C name, `_ne_`, its mangled descriptor.
pub open spec fn spec_mangle_method_name(method: Seq<char>, desc: Seq<char>) -> Seq<char> {
    spec_method_name_to_c_name(method) + ne_sep() + spec_desc_to_mangled(desc)
}

/// The C++ name of a method, such as `Add_ne__ab_IIae_I` for `Add(II)I`.
pub fn mangle_method_name(method: &str, desc: &str) -> (r: String)
    requires
        ascii(desc@),
    ensures
        r@ == spec_mangle_method_name(method@, desc@),
{
    proof {
        reveal_strlit("_ne_");
        assert("_ne_"@ =~= ne_sep());
    }
    let desc = desc_to_mangled(desc);
    let mut out = method_name_to_c_name(method);
    push_str(&mut out, "_ne_");
    push_str(&mut out, desc.as_str());
    out
}

/// The class-less C++ name of a method, used for virtual calls; it is spelled
/// as `mangle_method_name` spells it.
pub fn mangle_method_name_partial(method: &str, desc: &str) -> (r: String)
    requires
        ascii(desc@),
    ensures
        r@ == spec_mangle_method_name(method@, desc@),
{
    mangle_method_name(method, desc)
}

} // verus!
