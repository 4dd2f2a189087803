//! The C++-side types of Java fields, arguments and results, read from JVM
//! descriptors.
use vstd::prelude::*;
use crate::text::{char_at, char_len, push_str, to_owned_string};
use crate::mangling::{ascii, class_path_to_class_mangled, spec_class_path_mangled};
use crate::importer::{ImportedJavaClass, in_pool, spec_lookup_utf8};

verus! {

/// The type of a field, an argument or a result, as the C++ writer sees it.
#[derive(Debug)]
pub enum VariableType {
    Void,
    Char,
    Bool,
    Byte,
    Short,
    Int,
    Long,
    Float,
    Double,
    ObjectRef { name: String },
    ArrayRef(Box<VariableType>),
}

/// The mathematical value of a `VariableType`.
pub enum SpecVarType {
    Void,
    Char,
    Bool,
    Byte,
    Short,
    Int,
    Long,
    Float,
    Double,
    ObjectRef(Seq<char>),
    ArrayRef(Box<SpecVarType>),
}

impl View for VariableType {
    type V = SpecVarType;

    open spec fn view(&self) -> SpecVarType
        decreases self,
    {
        match self {
            VariableType::Void => SpecVarType::Void,
            VariableType::Char => SpecVarType::Char,
            VariableType::Bool => SpecVarType::Bool,
            VariableType::Byte => SpecVarType::Byte,
            VariableType::Short => SpecVarType::Short,
            VariableType::Int => SpecVarType::Int,
            VariableType::Long => SpecVarType::Long,
            VariableType::Float => SpecVarType::Float,
            VariableType::Double => SpecVarType::Double,
            VariableType::ObjectRef { name } => SpecVarType::ObjectRef(name@),
            VariableType::ArrayRef(t) => SpecVarType::ArrayRef(Box::new((**t).view())),
        }
    }
}

/// The class a type refers to, looking through arrays.
pub open spec fn spec_dependency(t: SpecVarType) -> Option<Seq<char>>
    decreases t,
{
    match t {
        SpecVarType::ObjectRef(name) => Some(name),
        SpecVarType::ArrayRef(inner) => spec_dependency(*inner),
        _ => None,
    }
}

/// The C++ spelling of a type.
pub open spec fn spec_c_type(t: SpecVarType) -> Seq<char>
    decreases t,
{
    match t {
        SpecVarType::Float => seq!['f', 'l', 'o', 'a', 't'],
        SpecVarType::Double => seq!['d', 'o', 'u', 'b', 'l', 'e'],
        SpecVarType::Long => seq!['l', 'o', 'n', 'g'],
        SpecVarType::Int => seq!['i', 'n', 't'],
        SpecVarType::Bool => seq!['b', 'o', 'o', 'l'],
        SpecVarType::Byte => seq!['c', 'h', 'a', 'r'],
        SpecVarType::Short => seq!['s', 'h', 'o', 'r', 't'],
        SpecVarType::Char => seq!['s', 'h', 'o', 'r', 't'],
        SpecVarType::Void => seq!['v', 'o', 'i', 'd'],
        SpecVarType::ObjectRef(name) => name.push('*'),
        SpecVarType::ArrayRef(inner) => seq!['R', 'u', 'n', 't', 'i', 'm', 'e', 'A', 'r', 'r', 'a', 'y', '<']
            + spec_c_type(*inner) + seq!['>', '*'],
    }
}

/// Whether a type has a one-letter (or two-letter) postfix for local names:
/// every type but `void` and `char`.
pub open spec fn has_postfix(t: SpecVarType) -> bool {
    !(t is Void) && !(t is Char)
}

/// The postfix that local variables of a type carry in their names.
pub open spec fn spec_type_postfix(t: SpecVarType) -> Seq<char> {
    match t {
        SpecVarType::Float => seq!['f'],
        SpecVarType::Double => seq!['d'],
        SpecVarType::Long => seq!['l'],
        SpecVarType::Int => seq!['i'],
        SpecVarType::Bool => seq!['z'],
        SpecVarType::Byte => seq!['b'],
        SpecVarType::Short => seq!['s'],
        SpecVarType::ObjectRef(_) => seq!['a'],
        SpecVarType::ArrayRef(_) => seq!['a', 'a'],
        _ => Seq::empty(),
    }
}

impl VariableType {
    /// The class this type depends on (the class of an object reference,
    /// looking through arrays); `None` for primitives.
    pub fn dependency(&self) -> (r: Option<&str>)
        ensures
            r matches Some(s) ==> spec_dependency(self@) == Some(s@),
            r is None ==> spec_dependency(self@) is None,
        decreases self,
    {
        match self {
            VariableType::ObjectRef { name } => Some(name.as_str()),
            VariableType::ArrayRef(var) => var.dependency(),
            _ => None,
        }
    }

    /// Whether this is an array type.
    pub fn is_array(&self) -> (r: bool)
        ensures
            r == (self@ is ArrayRef),
    {
        match self {
            VariableType::ArrayRef(_) => true,
            _ => false,
        }
    }

    /// The C++ spelling of this type, such as `int`, `java_cs_lang_cs_String*`
    /// or `RuntimeArray<float>*`.
    pub fn c_type(&self) -> (r: String)
        ensures
            r@ == spec_c_type(self@),
        decreases self,
    {
        proof {
            reveal_strlit("float");
            reveal_strlit("double");
            reveal_strlit("long");
            reveal_strlit("int");
            reveal_strlit("bool");
            reveal_strlit("char");
            reveal_strlit("short");
            reveal_strlit("void");
            reveal_strlit("*");
            reveal_strlit("RuntimeArray<");
            reveal_strlit(">*");
        }
        match self {
            VariableType::Float => {
                assert("float"@ =~= seq!['f', 'l', 'o', 'a', 't']);
                to_owned_string("float")
            },
            VariableType::Double => {
                assert("double"@ =~= seq!['d', 'o', 'u', 'b', 'l', 'e']);
                to_owned_string("double")
            },
            VariableType::Long => {
                assert("long"@ =~= seq!['l', 'o', 'n', 'g']);
                to_owned_string("long")
            },
            VariableType::Int => {
                assert("int"@ =~= seq!['i', 'n', 't']);
                to_owned_string("int")
            },
            VariableType::Bool => {
                assert("bool"@ =~= seq!['b', 'o', 'o', 'l']);
                to_owned_string("bool")
            },
            VariableType::Byte => {
                assert("char"@ =~= seq!['c', 'h', 'a', 'r']);
                to_owned_string("char")
            },
            VariableType::Short => {
                assert("short"@ =~= seq!['s', 'h', 'o', 'r', 't']);
                to_owned_string("short")
            },
            VariableType::Char => {
                assert("short"@ =~= seq!['s', 'h', 'o', 'r', 't']);
                to_owned_string("short")
            },
            VariableType::Void => {
                assert("void"@ =~= seq!['v', 'o', 'i', 'd']);
                to_owned_string("void")
            },
            VariableType::ObjectRef { name } => {
                let mut out = to_owned_string(name.as_str());
                push_str(&mut out, "*");
                assert("*"@ =~= seq!['*']);
                assert(out@ =~= name@.push('*'));
                out
            },
            VariableType::ArrayRef(atype) => {
                let inner = atype.c_type();
                let mut out = to_owned_string("RuntimeArray<");
                push_str(&mut out, inner.as_str());
                push_str(&mut out, ">*");
                assert("RuntimeArray<"@ =~= seq!['R', 'u', 'n', 't', 'i', 'm', 'e', 'A', 'r', 'r', 'a', 'y', '<']);
                assert(">*"@ =~= seq!['>', '*']);
                out
            },
        }
    }

    /// The postfix of local-variable names of this type (`i` for `int`, `a`
    /// for references, `aa` for arrays, ...). There is none for `void` and
    /// `char`.
    pub fn type_postifx(&self) -> (r: String)
        requires
            has_postfix(self@),
        ensures
            r@ == spec_type_postfix(self@),
    {
        proof {
            reveal_strlit("f");
            reveal_strlit("d");
            reveal_strlit("l");
            reveal_strlit("i");
            reveal_strlit("z");
            reveal_strlit("b");
            reveal_strlit("s");
            reveal_strlit("a");
            reveal_strlit("aa");
            assert("f"@ =~= seq!['f']);
            assert("d"@ =~= seq!['d']);
            assert("l"@ =~= seq!['l']);
            assert("i"@ =~= seq!['i']);
            assert("z"@ =~= seq!['z']);
            assert("b"@ =~= seq!['b']);
            assert("s"@ =~= seq!['s']);
            assert("a"@ =~= seq!['a']);
            assert("aa"@ =~= seq!['a', 'a']);
        }
        match self {
            VariableType::Float => to_owned_string("f"),
            VariableType::Double => to_owned_string("d"),
            VariableType::Long => to_owned_string("l"),
            VariableType::Int => to_owned_string("i"),
            VariableType::Bool => to_owned_string("z"),
            VariableType::Byte => to_owned_string("b"),
            VariableType::Short => to_owned_string("s"),
            VariableType::ObjectRef { .. } => to_owned_string("a"),
            VariableType::ArrayRef(_) => to_owned_string("aa"),
            VariableType::Void => to_owned_string(""),
            VariableType::Char => to_owned_string(""),
        }
    }

    /// A copy of this type with the same value.
    pub fn duplicate(&self) -> (r: VariableType)
        ensures
            r@ == self@,
        decreases self,
    {
        match self {
            VariableType::Void => VariableType::Void,
            VariableType::Char => VariableType::Char,
            VariableType::Bool => VariableType::Bool,
            VariableType::Byte => VariableType::Byte,
            VariableType::Short => VariableType::Short,
            VariableType::Int => VariableType::Int,
            VariableType::Long => VariableType::Long,
            VariableType::Float => VariableType::Float,
            VariableType::Double => VariableType::Double,
            VariableType::ObjectRef { name } => VariableType::ObjectRef { name: to_owned_string(name.as_str()) },
            VariableType::ArrayRef(t) => VariableType::ArrayRef(Box::new(t.duplicate())),
        }
    }

    /// Whether two types are the same.
    pub fn same_as(&self, other: &VariableType) -> (r: bool)
        ensures
            r == (self@ == other@),
        decreases self,
    {
        match (self, other) {
            (VariableType::Void, VariableType::Void) => true,
            (VariableType::Char, VariableType::Char) => true,
            (VariableType::Bool, VariableType::Bool) => true,
            (VariableType::Byte, VariableType::Byte) => true,
            (VariableType::Short, VariableType::Short) => true,
            (VariableType::Int, VariableType::Int) => true,
            (VariableType::Long, VariableType::Long) => true,
            (VariableType::Float, VariableType::Float) => true,
            (VariableType::Double, VariableType::Double) => true,
            (VariableType::ObjectRef { name: a }, VariableType::ObjectRef { name: b }) => crate::text::str_eq(a.as_str(), b.as_str()),
            (VariableType::ArrayRef(a), VariableType::ArrayRef(b)) => a.same_as(b),
            _ => false,
        }
    }
}

/// The length of the part of `s` before the first `c` (all of `s` when there
/// is none).
pub open spec fn prefix_len_before(s: Seq<char>, c: char) -> nat
    decreases s.len(),
{
    if s.len() == 0 {
        0
    } else if s[0] == c {
        0
    } else {
        1 + prefix_len_before(s.skip(1), c)
    }
}

proof fn lemma_prefix_len_before(s: Seq<char>, c: char, k: int)
    requires
        0 <= k <= s.len(),
        forall|j: int| 0 <= j < k ==> s[j] != c,
    ensures
        prefix_len_before(s, c) >= k,
        prefix_len_before(s, c) <= s.len(),
        k < s.len() && s[k] == c ==> prefix_len_before(s, c) == k,
    decreases k,
{
    if k > 0 {
        lemma_prefix_len_before(s.skip(1), c, k - 1);
    } else {
        lemma_prefix_len_le(s, c);
    }
}

proof fn lemma_prefix_len_le(s: Seq<char>, c: char)
    ensures
        prefix_len_before(s, c) <= s.len(),
    decreases s.len(),
{
    if s.len() > 0 && s[0] != c {
        lemma_prefix_len_le(s.skip(1), c);
    }
}

/// The part of `s` before the first `c` (`s.split(c).next()`).
pub fn before_char(s: &str, c: char) -> (r: &str)
    ensures
        r@ == s@.take(prefix_len_before(s@, c) as int),
{
    let n = char_len(s);
    let mut i: usize = 0;
    while i < n
        invariant
            n == s@.len(),
            i <= n,
            forall|j: int| 0 <= j < i ==> s@[j] != c,
        decreases n - i,
    {
        if char_at(s, i) == c {
            proof {
                lemma_prefix_len_before(s@, c, i as int);
            }
            return s.substring_char(0, i);
        }
        i = i + 1;
    }
    proof {
        lemma_prefix_len_before(s@, c, n as int);
    }
    s.substring_char(0, n)
}

/// The type that the field descriptor `d` names at character position `th`,
/// or `None` where reading it fails (a position past the end, an unknown
/// letter, or an `L` with no room for a class name before the last character).
/// An `L` type names the mangled class path between the `L` and the first `;`
/// that follows it, looking no further than the descriptor's last character.
pub open spec fn spec_field_desc_type(d: Seq<char>, th: int) -> Option<SpecVarType>
    decreases d.len() - th,
{
    if th < 0 || th >= d.len() {
        None
    } else {
        let c = d[th];
        if c == 'B' {
            Some(SpecVarType::Byte)
        } else if c == 'C' {
            Some(SpecVarType::Char)
        } else if c == 'D' {
            Some(SpecVarType::Double)
        } else if c == 'F' {
            Some(SpecVarType::Float)
        } else if c == 'I' {
            Some(SpecVarType::Int)
        } else if c == 'J' {
            Some(SpecVarType::Long)
        } else if c == 'L' {
            if th + 1 <= d.len() - 1 {
                let inner = d.subrange(th + 1, d.len() - 1);
                Some(SpecVarType::ObjectRef(spec_class_path_mangled(inner.take(prefix_len_before(inner, ';') as int))))
            } else {
                None
            }
        } else if c == '[' {
            match spec_field_desc_type(d, th + 1) {
                Some(t) => Some(SpecVarType::ArrayRef(Box::new(t))),
                None => None,
            }
        } else if c == 'S' {
            Some(SpecVarType::Short)
        } else if c == 'Z' {
            Some(SpecVarType::Bool)
        } else if c == 'V' {
            Some(SpecVarType::Void)
        } else {
            None
        }
    }
}

/// Whether `field_desc_str_to_ftype` can read a type at position `th` of
/// `desc_str` (the test to make before calling it).
pub fn field_desc_readable(desc_str: &str, th: usize) -> (r: bool)
    ensures
        r == spec_field_desc_type(desc_str@, th as int) is Some,
    decreases desc_str@.len() - th,
{
    let n = char_len(desc_str);
    if th >= n {
        return false;
    }
    let beg = char_at(desc_str, th);
    if beg == 'L' {
        th + 1 <= n - 1
    } else if beg == '[' {
        field_desc_readable(desc_str, th + 1)
    } else {
        beg == 'B' || beg == 'C' || beg == 'D' || beg == 'F' || beg == 'I' || beg == 'J' || beg == 'S'
            || beg == 'Z' || beg == 'V'
    }
}

/// Reads the type that a field descriptor names at character position `th`:
/// `B C D F I J S Z V` are the primitive types, `[` an array of the type that
/// follows, `L...;` a reference to a class.
pub fn field_desc_str_to_ftype(desc_str: &str, th: usize) -> (r: VariableType)
    requires
        ascii(desc_str@),
        spec_field_desc_type(desc_str@, th as int) is Some,
    ensures
        Some(r@) == spec_field_desc_type(desc_str@, th as int),
    decreases desc_str@.len() - th,
{
    let n = char_len(desc_str);
    let beg = char_at(desc_str, th);
    match beg {
        'B' => VariableType::Byte,
        'C' => VariableType::Char,
        'D' => VariableType::Double,
        'F' => VariableType::Float,
        'I' => VariableType::Int,
        'J' => VariableType::Long,
        'L' => {
            let inner = desc_str.substring_char(th + 1, n - 1);
            let name = before_char(inner, ';');
            VariableType::ObjectRef { name: class_path_to_class_mangled(name) }
        },
        '[' => VariableType::ArrayRef(Box::new(field_desc_str_to_ftype(desc_str, th + 1))),
        'S' => VariableType::Short,
        'Z' => VariableType::Bool,
        _ => VariableType::Void,
    }
}

/// The scan for the parentheses of a method descriptor after its first `k`
/// characters: the position of the last `(` seen, the position of the `)`
/// seen, and whether the scan is still sound. It fails on a `(` when one was
/// already seen past position 0, and on a second `)`.
pub open spec fn paren_scan(d: Seq<char>, k: nat) -> (int, int, bool)
    decreases k,
{
    if k == 0 || k > d.len() {
        (0, 0, true)
    } else {
        let prev = paren_scan(d, (k - 1) as nat);
        let idx = k - 1;
        if d[idx] == '(' {
            (idx, prev.1, prev.2 && prev.0 == 0)
        } else if d[idx] == ')' {
            (prev.0, idx, prev.2 && prev.1 == 0)
        } else {
            prev
        }
    }
}

/// Whether a method descriptor has the shape the argument counters accept:
/// it starts with `(`, the parenthesis scan is sound, and the `)` comes after
/// the `(`.
pub open spec fn argc_readable(d: Seq<char>) -> bool {
    let s = paren_scan(d, d.len());
    &&& d.len() > 0
    &&& d[0] == '('
    &&& s.2
    &&& s.0 + 1 <= s.1
}

/// The number of argument types in the argument part of a descriptor, and
/// whether the count ends inside a class name. Each primitive letter counts
/// once, `[` counts nothing, and a class name counts once at its `L`.
pub open spec fn count_arg_types(span: Seq<char>) -> (nat, bool)
    decreases span.len(),
{
    if span.len() == 0 {
        (0, false)
    } else {
        let prev = count_arg_types(span.drop_last());
        let c = span.last();
        if prev.1 {
            (prev.0, c != ';')
        } else if c == 'L' {
            (prev.0 + 1, true)
        } else if c == '[' {
            (prev.0, false)
        } else {
            (prev.0 + 1, false)
        }
    }
}

/// The number of arguments of a method descriptor, as a `u8` (kept modulo 256).
pub open spec fn spec_method_desc_argc(d: Seq<char>) -> u8 {
    let s = paren_scan(d, d.len());
    (count_arg_types(d.subrange(s.0 + 1, s.1)).0 % 256) as u8
}

/// The parentheses found in the first `k` characters lie within them.
pub proof fn lemma_paren_scan_bounds(d: Seq<char>, k: nat)
    requires
        k <= d.len(),
    ensures
        0 <= paren_scan(d, k).0 <= k,
        0 <= paren_scan(d, k).1 <= k,
    decreases k,
{
    if k > 0 {
        lemma_paren_scan_bounds(d, (k - 1) as nat);
    }
}

proof fn lemma_count_bound(span: Seq<char>)
    ensures
        count_arg_types(span).0 <= span.len(),
    decreases span.len(),
{
    if span.len() > 0 {
        lemma_count_bound(span.drop_last());
    }
}

/// Whether `method_desc_to_argc` accepts a descriptor (the test to make
/// before calling it).
pub fn argc_desc_readable(desc: &str) -> (r: bool)
    ensures
        r == argc_readable(desc@),
{
    let n = char_len(desc);
    if n == 0 || char_at(desc, 0) != '(' {
        return false;
    }
    let (char_beg, char_end, sound) = scan_parens(desc);
    sound && char_beg < char_end
}

/// The positions of the `(` and the `)` of a method descriptor that the
/// argument counters accept.
pub fn paren_positions(desc: &str) -> (r: (usize, usize))
    requires
        argc_readable(desc@),
    ensures
        r.0 as int == paren_scan(desc@, desc@.len()).0,
        r.1 as int == paren_scan(desc@, desc@.len()).1,
        r.0 < r.1,
{
    let (char_beg, char_end, _sound) = scan_parens(desc);
    (char_beg, char_end)
}

/// Runs the parenthesis scan over the whole descriptor.
fn scan_parens(desc: &str) -> (r: (usize, usize, bool))
    ensures
        (r.0 as int, r.1 as int, r.2) == paren_scan(desc@, desc@.len()),
        r.0 <= desc@.len(),
        r.1 <= desc@.len(),
        desc@.len() <= usize::MAX,
{
    let n = char_len(desc);
    proof {
        lemma_paren_scan_bounds(desc@, desc@.len());
    }
    let mut char_beg: usize = 0;
    let mut char_end: usize = 0;
    let mut sound = true;
    let mut index: usize = 0;
    while index < n
        invariant
            n == desc@.len(),
            index <= n,
            (char_beg as int, char_end as int, sound) == paren_scan(desc@, index as nat),
        decreases n - index,
    {
        let character = char_at(desc, index);
        if character == '(' {
            sound = sound && char_beg == 0;
            char_beg = index;
        } else if character == ')' {
            sound = sound && char_end == 0;
            char_end = index;
        }
        index = index + 1;
    }
    (char_beg, char_end, sound)
}

/// The number of arguments of a method descriptor: `(IJF)I` has three,
/// `(Ljava/lang/Object;)V` one, `([[[D)V` one.
pub fn method_desc_to_argc(desc: &str) -> (r: u8)
    requires
        ascii(desc@.take(paren_scan(desc@, desc@.len()).1)),
        argc_readable(desc@),
    ensures
        r == spec_method_desc_argc(desc@),
{
    let (char_beg, char_end, _sound) = scan_parens(desc);
    let ghost span = desc@.subrange(char_beg + 1, char_end as int);
    proof {
        lemma_paren_scan_bounds(desc@, desc@.len());
    }
    let mut res: usize = 0;
    let mut ident = false;
    let mut i: usize = char_beg + 1;
    while i < char_end
        invariant
            char_beg + 1 <= i <= char_end <= desc@.len(),
            span == desc@.subrange(char_beg + 1, char_end as int),
            (res as nat, ident) == count_arg_types(span.take(i - char_beg - 1)),
        decreases char_end - i,
    {
        let curr = char_at(desc, i);
        assert(span.take(i - char_beg).drop_last() =~= span.take(i - char_beg - 1));
        assert(span.take(i - char_beg).last() == curr);
        proof {
            lemma_count_bound(span.take(i - char_beg - 1));
        }
        if ident {
            if curr == ';' {
                ident = false;
            }
        } else if curr == 'L' {
            ident = true;
            res = res + 1;
        } else if curr != '[' {
            res = res + 1;
        }
        i = i + 1;
    }
    assert(span.take(char_end - char_beg - 1) =~= span);
    (res % 256) as u8
}

/// The scan that collects the argument types of a method descriptor's
/// argument part `a`, after its first `k` characters: the types read so far
/// (`None` once one cannot be read), whether the scan is inside a type it has
/// already read, and whether it is inside a class name. A type is read at
/// each position outside a type. `L` opens a class name, which `;` closes;
/// `[` opens an array type, which its element type closes: a primitive letter
/// at once, a class name at its `;`.
pub open spec fn args_scan(a: Seq<char>, k: nat) -> (Option<Seq<SpecVarType>>, bool, bool)
    decreases k,
{
    if k == 0 || k > a.len() {
        (Some(Seq::empty()), false, false)
    } else {
        let prev = args_scan(a, (k - 1) as nat);
        let idx = k - 1;
        let c = a[idx];
        let types = if !prev.1 {
            match (prev.0, spec_field_desc_type(a, idx)) {
                (Some(ts), Some(t)) => Some(ts.push(t)),
                _ => None,
            }
        } else {
            prev.0
        };
        let (within, in_class) = next_scan_state(prev.1, prev.2, c);
        (types, within, in_class)
    }
}

/// The scan state after character `c`, from the state before it: whether
/// the scan is inside a type, and whether it is inside a class name.
pub open spec fn next_scan_state(within: bool, in_class: bool, c: char) -> (bool, bool) {
    if !within {
        (c == 'L' || c == '[', c == 'L')
    } else if in_class {
        if c == ';' { (false, false) } else { (true, true) }
    } else if c == '[' {
        (true, false)
    } else if c == 'L' {
        (true, true)
    } else {
        (false, false)
    }
}

/// Steps the scan state over one character.
fn scan_state_step(within: bool, in_class: bool, c: char) -> (r: (bool, bool))
    ensures
        r == next_scan_state(within, in_class, c),
{
    if !within {
        (c == 'L' || c == '[', c == 'L')
    } else if in_class {
        if c == ';' { (false, false) } else { (true, true) }
    } else if c == '[' {
        (true, false)
    } else if c == 'L' {
        (true, true)
    } else {
        (false, false)
    }
}

/// The position of the first `c` in `s`, if there is one.
pub open spec fn first_pos(s: Seq<char>, c: char) -> Option<int> {
    if prefix_len_before(s, c) < s.len() { Some(prefix_len_before(s, c) as int) } else { None }
}

/// What `method_desc_to_args` returns for a descriptor: the argument types
/// between the first `(` and the first `)` and the result type after that
/// `)`; `None` where the descriptor cannot be read.
pub open spec fn spec_method_desc_args(d: Seq<char>) -> Option<(Seq<SpecVarType>, SpecVarType)> {
    match (first_pos(d, '('), first_pos(d, ')')) {
        (Some(open), Some(close)) => if open + 1 <= close {
            let a = d.subrange(open + 1, close);
            match (args_scan(a, a.len()).0, spec_field_desc_type(d, close + 1)) {
                (Some(args), Some(ret)) => Some((args, ret)),
                _ => None,
            }
        } else {
            None
        },
        _ => None,
    }
}

proof fn lemma_first_pos(s: Seq<char>, c: char)
    ensures
        first_pos(s, c) matches Some(p) ==> 0 <= p < s.len() && s[p] == c
            && forall|j: int| 0 <= j < p ==> s[j] != c,
        first_pos(s, c) is None ==> forall|j: int| 0 <= j < s.len() ==> s[j] != c,
    decreases s.len(),
{
    lemma_prefix_len_le(s, c);
    if s.len() > 0 && s[0] != c {
        lemma_first_pos(s.skip(1), c);
        assert forall|j: int| 0 <= j < prefix_len_before(s, c) implies s[j] != c by {
            if j > 0 {
                assert(s[j] == s.skip(1)[j - 1]);
            }
        }
        if first_pos(s, c) is None {
            assert forall|j: int| 0 <= j < s.len() implies s[j] != c by {
                if j > 0 {
                    assert(s[j] == s.skip(1)[j - 1]);
                }
            }
        }
    }
}

/// Finds the first position of `c` in `s`.
pub(crate) fn find_char(s: &str, c: char) -> (r: Option<usize>)
    ensures
        r matches Some(p) ==> first_pos(s@, c) == Some(p as int) && p < s@.len(),
        s@.len() <= usize::MAX,
        r is None ==> first_pos(s@, c) is None,
{
    let n = char_len(s);
    let mut i: usize = 0;
    proof {
        lemma_first_pos(s@, c);
    }
    while i < n
        invariant
            n == s@.len(),
            i <= n,
            forall|j: int| 0 <= j < i ==> s@[j] != c,
            first_pos(s@, c) matches Some(p) ==> 0 <= p < s@.len() && s@[p] == c
                && forall|j: int| 0 <= j < p ==> s@[j] != c,
            first_pos(s@, c) is None ==> forall|j: int| 0 <= j < s@.len() ==> s@[j] != c,
        decreases n - i,
    {
        if char_at(s, i) == c {
            return Some(i);
        }
        i = i + 1;
    }
    None
}

/// Whether `method_desc_to_args` accepts a descriptor (the test to make before
/// calling it).
pub fn args_desc_readable(desc: &str) -> (r: bool)
    requires
        ascii(desc@),
    ensures
        r == spec_method_desc_args(desc@) is Some,
{
    match (find_char(desc, '('), find_char(desc, ')')) {
        (Some(open), Some(close)) => {
            if open + 1 > close {
                return false;
            }
            let arg_desc = desc.substring_char(open + 1, close);
            let ghost a = arg_desc@;
            let n = close - open - 1;
            let mut within_type = false;
            let mut in_class = false;
            let mut ok = true;
            let mut index: usize = 0;
            while index < n
                invariant
                    n == a.len(),
                    a == arg_desc@,
                    index <= n,
                    (ok, within_type, in_class) == (
                        args_scan(a, index as nat).0 is Some,
                        args_scan(a, index as nat).1,
                        args_scan(a, index as nat).2,
                    ),
                decreases n - index,
            {
                if !within_type {
                    ok = ok && field_desc_readable(arg_desc, index);
                }
                let curr = char_at(arg_desc, index);
                let (w, c) = scan_state_step(within_type, in_class, curr);
                within_type = w;
                in_class = c;
                index = index + 1;
            }
            ok && field_desc_readable(desc, close + 1)
        },
        _ => false,
    }
}

/// The argument types and the result type of a method descriptor. The
/// argument part is scanned left to right, and a type is read at each
/// position that is not inside one already read: `([II)V` gives an `int`
/// array and an `int`.
pub fn method_desc_to_args(desc: &str) -> (r: (Vec<VariableType>, VariableType))
    requires
        ascii(desc@),
        spec_method_desc_args(desc@) is Some,
    ensures
        r.0@.map_values(|t: VariableType| t@) == spec_method_desc_args(desc@).unwrap().0,
        r.1@ == spec_method_desc_args(desc@).unwrap().1,
{
    let arg_beg = find_char(desc, '(').unwrap() + 1;
    let arg_end = find_char(desc, ')').unwrap();
    let arg_desc = desc.substring_char(arg_beg, arg_end);
    let ghost a = arg_desc@;
    assert(ascii(a)) by {
        assert forall|i: int| 0 <= i < a.len() implies #[verifier::truncate] (a[i] as u32) < 128 by {
            assert(a[i] == desc@[arg_beg + i]);
        }
    }
    let ret_val = field_desc_str_to_ftype(desc, arg_end + 1);
    let n = arg_end - arg_beg;
    let mut within_type = false;
    let mut in_class = false;
    let mut args: Vec<VariableType> = Vec::new();
    let mut index: usize = 0;
    while index < n
        invariant
            n == a.len(),
            a == arg_desc@,
            ascii(a),
            index <= n,
            args_scan(a, a.len()).0 is Some,
            args_scan(a, index as nat).0 == Some(args@.map_values(|t: VariableType| t@)),
            args_scan(a, index as nat).1 == within_type,
            args_scan(a, index as nat).2 == in_class,
        decreases n - index,
    {
        proof {
            lemma_args_scan_none(a, (index + 1) as nat, a.len());
        }
        if !within_type {
            let t = field_desc_str_to_ftype(arg_desc, index);
            let ghost before = args@;
            args.push(t);
            assert(args@.map_values(|t: VariableType| t@) =~= before.map_values(|t: VariableType| t@).push(t@));
        }
        let curr = char_at(arg_desc, index);
        let (w, c) = scan_state_step(within_type, in_class, curr);
        within_type = w;
        in_class = c;
        index = index + 1;
    }
    (args, ret_val)
}

proof fn lemma_args_scan_none(a: Seq<char>, k: nat, m: nat)
    requires
        k <= m <= a.len(),
        args_scan(a, m).0 is Some,
    ensures
        args_scan(a, k).0 is Some,
    decreases m,
{
    if m > k {
        lemma_args_scan_none(a, k, (m - 1) as nat);
    }
}


/// The type that the field descriptor at `descriptor` of `class`'s constant
/// pool names.
pub fn field_descriptor_to_ftype(descriptor: u16, class: &ImportedJavaClass) -> (r: VariableType)
    requires
        in_pool(class.const_items@.len() as int, descriptor),
        spec_lookup_utf8(class.const_items.deep_view(), descriptor) matches Some(d)
            && ascii(d) && spec_field_desc_type(d, 0) is Some,
    ensures
        Some(r@) == spec_field_desc_type(spec_lookup_utf8(class.const_items.deep_view(), descriptor)->0, 0),
{
    let descriptor = class.lookup_utf8(descriptor).unwrap();
    field_desc_str_to_ftype(descriptor, 0)
}

/// The argument scan and the argument count walk the argument part in step:
/// the count's class-name state is the scan's, the scan has read one type
/// more than the count while it is inside an array's `[`s, and there an
/// element type is still to come.
proof fn lemma_scan_matches_count(a: Seq<char>, k: nat)
    requires
        k <= a.len(),
        args_scan(a, a.len()).0 is Some,
    ensures
        ({
            let (types, within, in_class) = args_scan(a, k);
            let (cnt, ident) = count_arg_types(a.take(k as int));
            &&& types is Some
            &&& in_class ==> within
            &&& ident == in_class
            &&& types->0.len() == cnt + (if within && !in_class { 1nat } else { 0nat })
            &&& (within && !in_class) ==> spec_field_desc_type(a, k as int) is Some
        }),
    decreases k,
{
    lemma_args_scan_none(a, k, a.len());
    if k == 0 {
        assert(a.take(0) =~= Seq::<char>::empty());
    } else {
        lemma_scan_matches_count(a, (k - 1) as nat);
        assert(a.take(k as int).drop_last() =~= a.take(k - 1));
        assert(a.take(k as int).last() == a[k - 1]);
        let prev = args_scan(a, (k - 1) as nat);
        if prev.1 && !prev.2 && a[k - 1] == '[' {
            assert(spec_field_desc_type(a, k - 1) is Some);
        }
        if !prev.1 && a[k - 1] == '[' {
            assert(spec_field_desc_type(a, k - 1) is Some);
        }
    }
}

/// With a `(` in front, the parenthesis scan finds the first `(`; with no
/// `(` after the front, it stays there.
proof fn lemma_paren_open(d: Seq<char>, k: nat)
    requires
        k <= d.len(),
        forall|j: int| 1 <= j < d.len() ==> d[j] != '(',
    ensures
        paren_scan(d, k).0 == 0,
    decreases k,
{
    if k > 0 {
        lemma_paren_open(d, (k - 1) as nat);
    }
}

/// Where the parenthesis scan stays sound on a descriptor starting with
/// `(`, the `)` it finds is the first one.
proof fn lemma_paren_close(d: Seq<char>, k: nat)
    requires
        k <= d.len(),
        d.len() > 0,
        d[0] == '(',
        paren_scan(d, k).2,
    ensures
        paren_scan(d, k).1 == 0 ==> forall|j: int| 0 <= j < k ==> d[j] != ')',
        paren_scan(d, k).1 != 0 ==> 0 < paren_scan(d, k).1 < k && d[paren_scan(d, k).1] == ')'
            && forall|j: int| 0 <= j < paren_scan(d, k).1 ==> d[j] != ')',
    decreases k,
{
    if k > 0 {
        let prev = paren_scan(d, (k - 1) as nat);
        assert(prev.2);
        lemma_paren_close(d, (k - 1) as nat);
    }
}

/// For a method descriptor that both readers accept and whose only `(` is
/// its first character, `method_desc_to_args` reads as many argument types
/// as `method_desc_to_argc` counts (modulo 256, the count being a byte).
pub proof fn law_args_match_argc(d: Seq<char>)
    requires
        argc_readable(d),
        spec_method_desc_args(d) is Some,
        forall|j: int| 1 <= j < d.len() ==> d[j] != '(',
    ensures
        (spec_method_desc_args(d)->0).0.len() % 256 == spec_method_desc_argc(d) as nat,
{
    lemma_paren_open(d, d.len());
    lemma_paren_close(d, d.len());
    lemma_first_pos(d, '(');
    lemma_first_pos(d, ')');
    let s = paren_scan(d, d.len());
    assert(first_pos(d, '(') == Some(0int));
    assert(first_pos(d, ')') == Some(s.1));
    let a = d.subrange(1, s.1);
    lemma_scan_matches_count(a, a.len());
    assert(a.take(a.len() as int) =~= a);
}


/// The letter that starts a JVM field descriptor of a type: `I` for `int`,
/// `J` for `long`, `Z` for `boolean`, `L` for a class, `[` for an array,
/// and so on.
pub open spec fn jvm_descriptor_letter(t: SpecVarType) -> char {
    match t {
        SpecVarType::Byte => 'B',
        SpecVarType::Char => 'C',
        SpecVarType::Double => 'D',
        SpecVarType::Float => 'F',
        SpecVarType::Int => 'I',
        SpecVarType::Long => 'J',
        SpecVarType::ObjectRef(_) => 'L',
        SpecVarType::ArrayRef(_) => '[',
        SpecVarType::Short => 'S',
        SpecVarType::Bool => 'Z',
        SpecVarType::Void => 'V',
    }
}

/// A type read from a descriptor is the one its first letter names in the
/// JVM's descriptor grammar, and an array type is an array of the type
/// read just after its `[`.
pub proof fn law_descriptor_letter(d: Seq<char>, th: int)
    requires
        spec_field_desc_type(d, th) is Some,
    ensures
        0 <= th < d.len(),
        d[th] == jvm_descriptor_letter(spec_field_desc_type(d, th)->0),
        spec_field_desc_type(d, th)->0 matches SpecVarType::ArrayRef(inner)
            ==> spec_field_desc_type(d, th + 1) == Some(*inner),
{
}

} // verus!
