//! Java class paths and their C++ spellings.
use vstd::prelude::*;
use crate::text::{char_at, char_len, push_char, replace_char, replace_char_str};
use crate::vartype::VariableType;
use crate::method::{Method, MethodView, method_view, spec_raw_method};
use crate::mangling::{spec_class_path_mangled, cs_sep, dolsig, ascii, is_ascii_str, spec_mangle_method_name, mangle_method_name};
use crate::vartype::{SpecVarType, spec_field_desc_type, field_desc_readable, field_desc_str_to_ftype};
use crate::executor::fatops::{class_at, utf8_at, spec_class_at, spec_utf8_at};
use crate::importer::{ImportedJavaClass, SpecClass, SpecMember};
use crate::text::to_owned_string;

verus! {

/// `s` with each non-overlapping occurrence of `"::"`, taken from the left,
/// replaced by `"_cs_"` (what `str::replace("::", "_cs_")` gives).
pub open spec fn replace_double_colon(s: Seq<char>) -> Seq<char>
    decreases s.len(),
{
    if s.len() == 0 {
        Seq::empty()
    } else if s.len() >= 2 && s[0] == ':' && s[1] == ':' {
        seq!['_', 'c', 's', '_'] + replace_double_colon(s.skip(2))
    } else {
        seq![s[0]] + replace_double_colon(s.skip(1))
    }
}

/// The C++ spelling of a Java class path: each `/` becomes `::`.
pub fn java_class_to_cpp_class(path: &str) -> (r: String)
    ensures
        r@ == replace_char(path@, '/', seq![':', ':']),
{
    proof {
        reveal_strlit("::");
        assert("::"@ =~= seq![':', ':']);
    }
    replace_char_str(path, '/', "::")
}

/// The file-name spelling of a C++ class: each `::` becomes `_cs_`.
pub fn cpp_class_to_path(class: &str) -> (r: String)
    ensures
        r@ == replace_double_colon(class@),
{
    let n = char_len(class);
    let mut out = String::new();
    let mut i: usize = 0;
    assert(class@.skip(0) =~= class@);
    while i < n
        invariant
            n == class@.len(),
            i <= n,
            out@ + replace_double_colon(class@.skip(i as int)) == replace_double_colon(class@),
        decreases n - i,
    {
        let c = char_at(class, i);
        let ghost rest = class@.skip(i as int);
        if c == ':' && i + 1 < n && char_at(class, i + 1) == ':' {
            assert(rest.skip(2) =~= class@.skip(i + 2));
            push_char(&mut out, '_');
            push_char(&mut out, 'c');
            push_char(&mut out, 's');
            push_char(&mut out, '_');
            assert(out@ + replace_double_colon(class@.skip(i + 2)) =~= replace_double_colon(class@));
            i = i + 2;
        } else {
            assert(rest.skip(1) =~= class@.skip(i + 1));
            push_char(&mut out, c);
            assert(out@ + replace_double_colon(class@.skip(i + 1)) =~= replace_double_colon(class@));
            i = i + 1;
        }
    }
    assert(class@.skip(n as int) =~= Seq::<char>::empty());
    assert(out@ =~= replace_double_colon(class@));
    out
}

/// The file-name spelling of a C++ class.
pub open spec fn spec_cpp_class_to_path(class: Seq<char>) -> Seq<char> {
    replace_double_colon(class)
}

/// A converted class: its C++ name, its parent's C++ name, its interfaces,
/// its fields and static fields, and its static and virtual methods, each
/// with its C++ name.
pub struct Class {
    pub name: String,
    pub parrent: String,
    pub ifaces: Vec<String>,
    pub fields: Vec<(String, VariableType)>,
    pub static_fields: Vec<(String, VariableType)>,
    pub static_methods: Vec<(String, Method)>,
    pub virtual_methods: Vec<(String, Method)>,
}

impl Class {
    /// The file-name spelling of the class.
    pub fn path(&self) -> (r: String)
        ensures
            r@ == spec_cpp_class_to_path(self.name@),
    {
        cpp_class_to_path(self.name.as_str())
    }

    /// The class's C++ name.
    pub fn cpp_name(&self) -> (r: &str)
        ensures
            r@ == self.name@,
    {
        self.name.as_str()
    }

    /// The parent class's C++ name.
    pub fn parrent_cpp_name(&self) -> (r: &str)
        ensures
            r@ == self.parrent@,
    {
        self.parrent.as_str()
    }

    /// The file-name spelling of the parent class.
    pub fn parrent_path(&self) -> (r: String)
        ensures
            r@ == spec_cpp_class_to_path(self.parrent@),
    {
        cpp_class_to_path(self.parrent.as_str())
    }

    /// The static methods, each with its C++ name.
    pub fn static_methods(&self) -> (r: &Vec<(String, Method)>)
        ensures
            r == &self.static_methods,
    {
        &self.static_methods
    }

    /// The virtual methods, each with its C++ name.
    pub fn virtual_methods(&self) -> (r: &Vec<(String, Method)>)
        ensures
            r == &self.virtual_methods,
    {
        &self.virtual_methods
    }

    /// The instance fields with their types.
    pub fn fields(&self) -> (r: &Vec<(String, VariableType)>)
        ensures
            r == &self.fields,
    {
        &self.fields
    }

    /// The static fields with their types.
    pub fn static_fields(&self) -> (r: &Vec<(String, VariableType)>)
        ensures
            r == &self.static_fields,
    {
        &self.static_fields
    }
}

/// Whether `s` splits, from the left, into pieces that are each `::` or one
/// character other than `:`.
pub open spec fn colon_paired(s: Seq<char>) -> bool
    decreases s.len(),
{
    if s.len() == 0 {
        true
    } else if s[0] != ':' {
        colon_paired(s.skip(1))
    } else {
        s.len() >= 2 && s[1] == ':' && colon_paired(s.skip(2))
    }
}

proof fn lemma_paired_concat(a: Seq<char>, b: Seq<char>)
    requires
        colon_paired(a),
        colon_paired(b),
    ensures
        colon_paired(a + b),
        replace_double_colon(a + b) == replace_double_colon(a) + replace_double_colon(b),
    decreases a.len(),
{
    if a.len() == 0 {
        assert(a + b =~= b);
    } else if a[0] != ':' {
        lemma_paired_concat(a.skip(1), b);
        assert((a + b).skip(1) =~= a.skip(1) + b);
        assert(seq![a[0]] + replace_double_colon(a.skip(1)) + replace_double_colon(b)
            =~= seq![a[0]] + (replace_double_colon(a.skip(1)) + replace_double_colon(b)));
    } else {
        lemma_paired_concat(a.skip(2), b);
        assert((a + b).skip(2) =~= a.skip(2) + b);
        assert(seq!['_', 'c', 's', '_'] + replace_double_colon(a.skip(2)) + replace_double_colon(b)
            =~= seq!['_', 'c', 's', '_'] + (replace_double_colon(a.skip(2)) + replace_double_colon(b)));
    }
}

proof fn lemma_slashes_to_colons(p: Seq<char>)
    requires
        forall|i: int| 0 <= i < p.len() ==> p[i] != ':',
    ensures
        colon_paired(replace_char(p, '/', seq![':', ':'])),
        replace_double_colon(replace_char(p, '/', seq![':', ':'])) == replace_char(p, '/', cs_sep()),
    decreases p.len(),
{
    if p.len() > 0 {
        let q = p.drop_last();
        lemma_slashes_to_colons(q);
        let last = p.last();
        assert(p[p.len() - 1] != ':');
        let piece = if last == '/' { seq![':', ':'] } else { seq![last] };
        assert(colon_paired(Seq::<char>::empty()));
        assert(replace_double_colon(Seq::<char>::empty()) =~= Seq::<char>::empty());
        assert(colon_paired(piece)) by {
            if last == '/' {
                assert(piece.skip(2) =~= Seq::<char>::empty());
            } else {
                assert(piece.skip(1) =~= Seq::<char>::empty());
            }
        }
        lemma_paired_concat(replace_char(q, '/', seq![':', ':']), piece);
        if last == '/' {
            assert(piece.skip(2) =~= Seq::<char>::empty());
            assert(replace_double_colon(piece) =~= cs_sep());
        } else {
            assert(piece.skip(1) =~= Seq::<char>::empty());
            assert(replace_double_colon(piece) =~= seq![last]);
        }
    }
}

/// The file name of a class's header, made from its C++ name, is the name
/// that type references give the class once each `$` in it is replaced by
/// `_dolsig_`: for a class path with no `:`, turning `/` into `::`, then
/// `::` into `_cs_`, then `$` into `_dolsig_` mangles the path.
pub proof fn law_header_path_is_mangled_path(p: Seq<char>)
    requires
        forall|i: int| 0 <= i < p.len() ==> p[i] != ':',
    ensures
        replace_char(spec_cpp_class_to_path(replace_char(p, '/', seq![':', ':'])), '$', dolsig()) == spec_class_path_mangled(p),
{
    lemma_slashes_to_colons(p);
}

/// Why an imported class cannot be converted.
#[derive(Debug, Clone, Copy, PartialEq, Eq, Structural)]
pub enum ClassConversionError {
    /// Its `this_class` entry does not name a class.
    ThisInvalid,
    /// Its `super_class` entry does not name a class.
    SuperInvalid,
    /// A field's name or type cannot be read.
    BadField,
    /// A method's name or descriptor cannot be read, or its code cannot be
    /// resolved.
    BadMethod,
}

/// What a converted class holds, as values.
pub struct ClassView {
    pub name: Seq<char>,
    pub parrent: Seq<char>,
    pub ifaces: Seq<Seq<char>>,
    pub fields: Seq<(Seq<char>, SpecVarType)>,
    pub static_fields: Seq<(Seq<char>, SpecVarType)>,
    pub static_methods: Seq<(Seq<char>, MethodView)>,
    pub virtual_methods: Seq<(Seq<char>, MethodView)>,
}

/// The views of named types.
pub open spec fn entries_view(v: Seq<(String, VariableType)>) -> Seq<(Seq<char>, SpecVarType)> {
    v.map_values(|e: (String, VariableType)| (e.0@, e.1@))
}

/// The views of named methods.
pub open spec fn methods_view(v: Seq<(String, Method)>) -> Seq<(Seq<char>, MethodView)> {
    v.map_values(|e: (String, Method)| (e.0@, method_view(e.1)))
}

/// The view of a converted class.
pub open spec fn class_view(c: Class) -> ClassView {
    ClassView {
        name: c.name@,
        parrent: c.parrent@,
        ifaces: c.ifaces.deep_view(),
        fields: entries_view(c.fields@),
        static_fields: entries_view(c.static_fields@),
        static_methods: methods_view(c.static_methods@),
        virtual_methods: methods_view(c.virtual_methods@),
    }
}

/// A field of class `c`: its name and the type its descriptor gives.
pub open spec fn spec_field_entry(c: SpecClass, f: SpecMember) -> Option<(Seq<char>, SpecVarType)> {
    match (spec_utf8_at(c.const_items, f.name_index), spec_utf8_at(c.const_items, f.descriptor_index)) {
        (Some(n), Some(d)) => if ascii(d) {
            match spec_field_desc_type(d, 0) {
                Some(t) => Some((n, t)),
                None => None,
            }
        } else {
            None
        },
        _ => None,
    }
}

/// The first `k` fields of class `c`, split into instance fields and static
/// fields (`ACC_STATIC`), each in order; `None` when one cannot be read.
pub open spec fn spec_split_fields(c: SpecClass, k: nat) -> Option<(Seq<(Seq<char>, SpecVarType)>, Seq<(Seq<char>, SpecVarType)>)>
    decreases k,
{
    if k == 0 || k > c.fields.len() {
        Some((Seq::empty(), Seq::empty()))
    } else {
        match (spec_split_fields(c, (k - 1) as nat), spec_field_entry(c, c.fields[k - 1])) {
            (Some((fs, ss)), Some(e)) => if c.fields[k - 1].flags.mask & 0x0008 != 0 {
                Some((fs, ss.push(e)))
            } else {
                Some((fs.push(e), ss))
            },
            _ => None,
        }
    }
}

/// A method of class `c`, with its C++ name made from its name and
/// descriptor.
pub open spec fn spec_method_entry(c: SpecClass, m: SpecMember) -> Option<(Seq<char>, MethodView)> {
    match (spec_utf8_at(c.const_items, m.name_index), spec_utf8_at(c.const_items, m.descriptor_index)) {
        (Some(n), Some(d)) => if ascii(d) {
            let mangled = spec_mangle_method_name(n, d);
            match spec_raw_method(c, m, mangled) {
                Some(v) => Some((mangled, v)),
                None => None,
            }
        } else {
            None
        },
        _ => None,
    }
}

/// The first `k` methods of class `c`, split into static and virtual
/// methods, each in order; `None` when one cannot be converted.
pub open spec fn spec_split_methods(c: SpecClass, k: nat) -> Option<(Seq<(Seq<char>, MethodView)>, Seq<(Seq<char>, MethodView)>)>
    decreases k,
{
    if k == 0 || k > c.methods.len() {
        Some((Seq::empty(), Seq::empty()))
    } else {
        match (spec_split_methods(c, (k - 1) as nat), spec_method_entry(c, c.methods[k - 1])) {
            (Some((ss, vs)), Some(e)) => if e.1.is_virtual {
                Some((ss, vs.push(e)))
            } else {
                Some((ss.push(e), vs))
            },
            _ => None,
        }
    }
}

/// The conversion of an imported class: its C++ name and its parent's,
/// no interfaces, its fields and statics, and its static and virtual
/// methods.
pub open spec fn spec_from_java_class(c: SpecClass) -> Result<ClassView, ClassConversionError> {
    match (spec_class_at(c.const_items, c.this_class), spec_class_at(c.const_items, c.super_class)) {
        (None, _) => Err(ClassConversionError::ThisInvalid),
        (Some(_), None) => Err(ClassConversionError::SuperInvalid),
        (Some(name), Some(parrent)) => match spec_split_fields(c, c.fields.len()) {
            None => Err(ClassConversionError::BadField),
            Some((fs, ss)) => match spec_split_methods(c, c.methods.len()) {
                None => Err(ClassConversionError::BadMethod),
                Some((sm, vm)) => Ok(ClassView {
                    name: replace_char(name, '/', seq![':', ':']),
                    parrent: replace_char(parrent, '/', seq![':', ':']),
                    ifaces: Seq::empty(),
                    fields: fs,
                    static_fields: ss,
                    static_methods: sm,
                    virtual_methods: vm,
                }),
            },
        },
    }
}

impl Class {
    /// Converts an imported class (see `spec_from_java_class`).
    pub fn from_java_class(java_class: &ImportedJavaClass) -> (r: Result<Class, ClassConversionError>)
        ensures
            match r {
                Ok(x) => spec_from_java_class(java_class.deep_view()) == Ok::<ClassView, ClassConversionError>(class_view(x)),
                Err(e) => spec_from_java_class(java_class.deep_view()) == Err::<ClassView, ClassConversionError>(e),
            },
    {
        let ghost c = java_class.deep_view();
        let name = match class_at(java_class, java_class.this_class()) {
            Some(n) => n,
            None => return Err(ClassConversionError::ThisInvalid),
        };
        let parrent = match class_at(java_class, java_class.super_class()) {
            Some(n) => n,
            None => return Err(ClassConversionError::SuperInvalid),
        };
        let mut fields: Vec<(String, VariableType)> = Vec::new();
        let mut static_fields: Vec<(String, VariableType)> = Vec::new();
        let mut i: usize = 0;
        assert(entries_view(fields@) =~= Seq::<(Seq<char>, SpecVarType)>::empty());
        while i < java_class.fields.len()
            invariant
                i <= java_class.fields@.len(),
                c == java_class.deep_view(),
                c.fields.len() == java_class.fields@.len(),
                spec_split_fields(c, i as nat) == Some((entries_view(fields@), entries_view(static_fields@))),
                spec_class_at(c.const_items, c.this_class) == Some(name@),
                spec_class_at(c.const_items, c.super_class) == Some(parrent@),
            decreases java_class.fields@.len() - i,
        {
            let field = &java_class.fields[i];
            assert(c.fields[i as int] == field.deep_view());
            let fname = match utf8_at(java_class, field.name_index) {
                Some(n) => n,
                None => {
                    proof {
                        lemma_split_fields_stuck(c, (i + 1) as nat, c.fields.len());
                    }
                    return Err(ClassConversionError::BadField);
                },
            };
            let d = match utf8_at(java_class, field.descriptor_index) {
                Some(d) => d,
                None => {
                    proof {
                        lemma_split_fields_stuck(c, (i + 1) as nat, c.fields.len());
                    }
                    return Err(ClassConversionError::BadField);
                },
            };
            if !is_ascii_str(d) || !field_desc_readable(d, 0) {
                proof {
                    lemma_split_fields_stuck(c, (i + 1) as nat, c.fields.len());
                }
                return Err(ClassConversionError::BadField);
            }
            let t = field_desc_str_to_ftype(d, 0);
            let ghost fs = entries_view(fields@);
            let ghost ss = entries_view(static_fields@);
            if field.flags.is_static() {
                static_fields.push((to_owned_string(fname), t));
                assert(entries_view(static_fields@) =~= ss.push((fname@, t@)));
            } else {
                fields.push((to_owned_string(fname), t));
                assert(entries_view(fields@) =~= fs.push((fname@, t@)));
            }
            i = i + 1;
        }
        let mut static_methods: Vec<(String, Method)> = Vec::new();
        let mut virtual_methods: Vec<(String, Method)> = Vec::new();
        let mut k: usize = 0;
        assert(methods_view(static_methods@) =~= Seq::<(Seq<char>, MethodView)>::empty());
        while k < java_class.methods.len()
            invariant
                k <= java_class.methods@.len(),
                c == java_class.deep_view(),
                c.methods.len() == java_class.methods@.len(),
                spec_split_methods(c, k as nat) == Some((methods_view(static_methods@), methods_view(virtual_methods@))),
                spec_split_fields(c, c.fields.len()) == Some((entries_view(fields@), entries_view(static_fields@))),
                spec_class_at(c.const_items, c.this_class) == Some(name@),
                spec_class_at(c.const_items, c.super_class) == Some(parrent@),
            decreases java_class.methods@.len() - k,
        {
            let method = &java_class.methods[k];
            assert(c.methods[k as int] == method.deep_view());
            let mname = match utf8_at(java_class, method.name_index()) {
                Some(n) => n,
                None => {
                    proof {
                        lemma_split_methods_stuck(c, (k + 1) as nat, c.methods.len());
                    }
                    return Err(ClassConversionError::BadMethod);
                },
            };
            let d = match utf8_at(java_class, method.descriptor_index()) {
                Some(d) => d,
                None => {
                    proof {
                        lemma_split_methods_stuck(c, (k + 1) as nat, c.methods.len());
                    }
                    return Err(ClassConversionError::BadMethod);
                },
            };
            if !is_ascii_str(d) {
                proof {
                    lemma_split_methods_stuck(c, (k + 1) as nat, c.methods.len());
                }
                return Err(ClassConversionError::BadMethod);
            }
            let mangled = mangle_method_name(mname, d);
            let converted = match Method::from_raw_method(method, mangled.as_str(), java_class) {
                Some(m) => m,
                None => {
                    proof {
                        lemma_split_methods_stuck(c, (k + 1) as nat, c.methods.len());
                    }
                    return Err(ClassConversionError::BadMethod);
                },
            };
            let ghost sm = methods_view(static_methods@);
            let ghost vm = methods_view(virtual_methods@);
            let ghost e = (mangled@, method_view(converted));
            if converted.is_virtual {
                virtual_methods.push((mangled, converted));
                assert(methods_view(virtual_methods@) =~= vm.push(e));
            } else {
                static_methods.push((mangled, converted));
                assert(methods_view(static_methods@) =~= sm.push(e));
            }
            k = k + 1;
        }
        let r = Class {
            name: java_class_to_cpp_class(name),
            parrent: java_class_to_cpp_class(parrent),
            ifaces: Vec::new(),
            fields,
            static_fields,
            static_methods,
            virtual_methods,
        };
        assert(r.ifaces.deep_view() =~= Seq::<Seq<char>>::empty());
        Ok(r)
    }
}

proof fn lemma_split_fields_stuck(c: SpecClass, k: nat, n: nat)
    requires
        0 < k <= n,
        n == c.fields.len(),
        spec_split_fields(c, k) is None,
    ensures
        spec_split_fields(c, n) is None,
    decreases n - k,
{
    if k < n {
        lemma_split_fields_stuck(c, k + 1, n);
    }
}

proof fn lemma_split_methods_stuck(c: SpecClass, k: nat, n: nat)
    requires
        0 < k <= n,
        n == c.methods.len(),
        spec_split_methods(c, k) is None,
    ensures
        spec_split_methods(c, n) is None,
    decreases n - k,
{
    if k < n {
        lemma_split_methods_stuck(c, k + 1, n);
    }
}

} // verus!
