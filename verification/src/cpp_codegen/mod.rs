//! Writing C++ headers for converted classes.
pub mod method_writer;
pub mod method;

use vstd::prelude::*;
use crate::text::{push_str, push_char, to_owned_string, find_double_colon, first_dc_from, str_eq, str_contains, seq_contains_seq};
use crate::vartype::{VariableType, SpecVarType, spec_c_type, spec_dependency, has_postfix, spec_type_postfix};
use crate::text::{push_decimal, spec_decimal};
use crate::class::{Class, spec_cpp_class_to_path};
use crate::method::Method;

verus! {

/// The line that includes the header of `name`: `#name "name.hpp"`.
pub open spec fn include_line(name: Seq<char>) -> Seq<char> {
    seq!['#', 'i', 'n', 'c', 'l', 'u', 'd', 'e', ' ', '"'] + name + seq!['.', 'h', 'p', 'p', '"', '\n']
}

/// The name lines of a list of headers, in order.
pub open spec fn include_lines(names: Seq<Seq<char>>) -> Seq<char>
    decreases names.len(),
{
    if names.len() == 0 {
        Seq::empty()
    } else {
        include_lines(names.drop_last()) + include_line(names.last())
    }
}

/// What adding an name does to the known headers and the name text:
/// a header already known changes nothing, a new one is listed and gets its
/// name line.
pub open spec fn spec_add_include(known: Seq<Seq<char>>, text: Seq<char>, name: Seq<char>) -> (Seq<Seq<char>>, Seq<char>) {
    if known.contains(name) {
        (known, text)
    } else {
        (known.push(name), text + include_line(name))
    }
}

/// Adding the same name twice is the same as adding it once.
pub proof fn law_include_added_once(known: Seq<Seq<char>>, text: Seq<char>, name: Seq<char>)
    ensures
        ({
            let (k1, t1) = spec_add_include(known, text, name);
            spec_add_include(k1, t1, name)
        }) == spec_add_include(known, text, name),
{
    let (k1, t1) = spec_add_include(known, text, name);
    if !known.contains(name) {
        assert(k1[k1.len() - 1] == name);
        assert(k1.contains(name));
    }
}

/// The includes of a file being written, each written at most once.
pub struct IncludeBuilder {
    header: String,
    includes: Vec<String>,
}

impl IncludeBuilder {
    /// The headers known so far: the file itself, then each included one.
    pub closed spec fn known(&self) -> Seq<Seq<char>> {
        self.includes.deep_view()
    }

    /// The name text written so far.
    pub closed spec fn text(&self) -> Seq<char> {
        self.header@
    }

    /// No header is known twice, the file itself comes first, and the text
    /// holds one name line for each of the others, in order.
    pub closed spec fn wf(&self) -> bool {
        &&& self.known().len() >= 1
        &&& self.known().no_duplicates()
        &&& self.text() == include_lines(self.known().skip(1))
    }

    /// A builder for the file `this_file`, which is never included.
    pub fn new(this_file: &str) -> (r: IncludeBuilder)
        ensures
            r.wf(),
            r.known() == seq![this_file@],
            r.text() == Seq::<char>::empty(),
    {
        proof {
            reveal_strlit("");
        }
        let mut includes: Vec<String> = Vec::new();
        includes.push(to_owned_string(this_file));
        let r = IncludeBuilder { header: to_owned_string(""), includes };
        assert(r.known() =~= seq![this_file@]);
        assert(r.known().skip(1) =~= Seq::<Seq<char>>::empty());
        assert(r.text() =~= Seq::<char>::empty());
        assert(include_lines(Seq::<Seq<char>>::empty()) =~= Seq::<char>::empty());
        assert(r.known().no_duplicates());
        r
    }

    /// Includes the header of `name`, unless it is known already.
    pub fn add_include(&mut self, name: &str)
        requires
            old(self).wf(),
        ensures
            final(self).wf(),
            (final(self).known(), final(self).text()) == spec_add_include(old(self).known(), old(self).text(), name@),
            final(self).known().len() >= 1,
            final(self).known()[0] == old(self).known()[0],
    {
        let ghost known = self.includes.deep_view();
        let mut i: usize = 0;
        while i < self.includes.len()
            invariant
                known == self.includes.deep_view(),
                known.len() == self.includes@.len(),
                *self == *old(self),
                self.wf(),
                i <= known.len(),
                forall|j: int| 0 <= j < i ==> known[j] != name@,
            decreases known.len() - i,
        {
            assert(known[i as int] == self.includes@[i as int].deep_view());
            if str_eq(self.includes[i].as_str(), name) {
                assert(known.contains(name@));
                return;
            }
            i = i + 1;
        }
        assert(!known.contains(name@));
        proof {
            reveal_strlit("#include \"");
            reveal_strlit(".hpp\"\n");
            assert("#include \""@ =~= seq!['#', 'i', 'n', 'c', 'l', 'u', 'd', 'e', ' ', '"']);
            assert(".hpp\"\n"@ =~= seq!['.', 'h', 'p', 'p', '"', '\n']);
        }
        push_str(&mut self.header, "#include \"");
        push_str(&mut self.header, name);
        push_str(&mut self.header, ".hpp\"\n");
        self.includes.push(to_owned_string(name));
        assert(self.includes.deep_view() =~= known.push(name@));
        assert(known.push(name@).skip(1).drop_last() =~= known.skip(1));
        assert(self.header@ =~= include_lines(known.skip(1)) + include_line(name@));
    }

    /// A well-formed builder knows its own file, first: including that
    /// file's header changes nothing.
    pub proof fn law_own_file_not_included(&self)
        requires
            self.wf(),
        ensures
            self.known().len() >= 1,
            spec_add_include(self.known(), self.text(), self.known()[0]) == (self.known(), self.text()),
    {
        assert(self.known().contains(self.known()[0]));
    }

    /// The name text written so far.
    pub fn get_code(&self) -> (r: &str)
        ensures
            r@ == self.text(),
    {
        self.header.as_str()
    }
}

/// The forward declaration of a C++ class inside its namespaces:
/// `a::b::C` gives `namespace a{namespace b{struct C;};};`.
pub open spec fn spec_namespace_def(name: Seq<char>) -> Seq<char>
    decreases name.len(),
{
    match first_dc_from(name, 0) {
        Some(i) => if 0 <= i && i + 2 <= name.len() {
            seq!['n', 'a', 'm', 'e', 's', 'p', 'a', 'c', 'e', ' '] + name.subrange(0, i) + seq!['{']
                + spec_namespace_def(name.subrange(i + 2, name.len() as int)) + seq!['}', ';']
        } else {
            Seq::empty()
        },
        None => seq!['s', 't', 'r', 'u', 'c', 't', ' '] + name + seq![';'],
    }
}

/// The forward declaration of a C++ class inside its namespaces.
pub fn create_namespace_def(cpp_class_name: &str) -> (r: String)
    ensures
        r@ == spec_namespace_def(cpp_class_name@),
    decreases cpp_class_name@.len(),
{
    proof {
        reveal_strlit("struct ");
        reveal_strlit("namespace ");
        reveal_strlit(";");
        reveal_strlit("{");
        reveal_strlit("};");
        assert("struct "@ =~= seq!['s', 't', 'r', 'u', 'c', 't', ' ']);
        assert("namespace "@ =~= seq!['n', 'a', 'm', 'e', 's', 'p', 'a', 'c', 'e', ' ']);
        assert(";"@ =~= seq![';']);
        assert("{"@ =~= seq!['{']);
        assert("};"@ =~= seq!['}', ';']);
    }
    let n = cpp_class_name.unicode_len();
    match find_double_colon(cpp_class_name) {
        None => {
            let mut res = to_owned_string("struct ");
            push_str(&mut res, cpp_class_name);
            push_str(&mut res, ";");
            res
        },
        Some(i) => {
            let head = cpp_class_name.substring_char(0, i);
            let tail = cpp_class_name.substring_char(i + 2, n);
            let inner = create_namespace_def(tail);
            let mut res = to_owned_string("namespace ");
            push_str(&mut res, head);
            push_str(&mut res, "{");
            push_str(&mut res, inner.as_str());
            push_str(&mut res, "};");
            res
        },
    }
}

/// The C++ types of a list of types, separated by commas.
pub open spec fn spec_c_type_list(args: Seq<SpecVarType>) -> Seq<char>
    decreases args.len(),
{
    if args.len() == 0 {
        Seq::empty()
    } else if args.len() == 1 {
        spec_c_type(args[0])
    } else {
        spec_c_type_list(args.drop_last()) + seq![','] + spec_c_type(args.last())
    }
}

/// The views of a list of types.
pub open spec fn type_views(v: Seq<VariableType>) -> Seq<SpecVarType> {
    v.map_values(|t: VariableType| t@)
}

/// The declaration of a method: `ret name(arg,arg)`.
pub open spec fn spec_method_sig(method_name: Seq<char>, ret: SpecVarType, args: Seq<SpecVarType>) -> Seq<char> {
    spec_c_type(ret) + seq![' '] + method_name + seq!['('] + spec_c_type_list(args) + seq![')']
}

/// Appends the declaration of a method.
pub fn push_method_sig(target: &mut String, method_name: &str, method: &Method)
    ensures
        final(target)@ == old(target)@ + spec_method_sig(method_name@, method.ret_val@, type_views(method.args@)),
{
    let ret = method.ret_val().c_type();
    push_str(target, ret.as_str());
    push_char(target, ' ');
    push_str(target, method_name);
    push_char(target, '(');
    let args = method.args();
    let ghost start = target@;
    let mut i: usize = 0;
    while i < args.len()
        invariant
            i <= args@.len(),
            target@ == start + spec_c_type_list(type_views(args@.take(i as int))),
        decreases args@.len() - i,
    {
        if i > 0 {
            push_char(target, ',');
        }
        let c = args[i].c_type();
        push_str(target, c.as_str());
        proof {
            let t = type_views(args@.take(i + 1));
            assert(type_views(args@.take(i + 1)).drop_last() =~= type_views(args@.take(i as int)));
            assert(t.last() == args@[i as int]@);
            if i == 0 {
                assert(t.len() == 1);
            }
        }
        i = i + 1;
    }
    assert(args@.take(args@.len() as int) =~= args@);
    push_char(target, ')');
}

/// What adding the includes of a list of dependencies does, in order; a
/// dependency that is `None` adds nothing.
pub open spec fn spec_add_deps(state: (Seq<Seq<char>>, Seq<char>), deps: Seq<Option<Seq<char>>>) -> (Seq<Seq<char>>, Seq<char>)
    decreases deps.len(),
{
    if deps.len() == 0 {
        state
    } else {
        let prev = spec_add_deps(state, deps.drop_last());
        match deps.last() {
            Some(d) => spec_add_include(prev.0, prev.1, d),
            None => prev,
        }
    }
}

/// Adding the includes of two lists one after the other is adding those of
/// the joined list.
pub proof fn lemma_add_deps_append(state: (Seq<Seq<char>>, Seq<char>), a: Seq<Option<Seq<char>>>, b: Seq<Option<Seq<char>>>)
    ensures
        spec_add_deps(state, a + b) == spec_add_deps(spec_add_deps(state, a), b),
    decreases b.len(),
{
    if b.len() == 0 {
        assert(a + b =~= a);
    } else {
        assert((a + b).drop_last() =~= a + b.drop_last());
        lemma_add_deps_append(state, a, b.drop_last());
    }
}

/// The dependencies of a method: those of its arguments, then that of its
/// result.
pub open spec fn method_deps(m: Method) -> Seq<Option<Seq<char>>> {
    type_views(m.args@).map_values(|t: SpecVarType| spec_dependency(t)).push(spec_dependency(m.ret_val@))
}

/// The dependencies of a list of methods, in order.
pub open spec fn methods_deps(ms: Seq<(String, Method)>) -> Seq<Option<Seq<char>>>
    decreases ms.len(),
{
    if ms.len() == 0 {
        Seq::empty()
    } else {
        methods_deps(ms.drop_last()) + method_deps(ms.last().1)
    }
}

/// The dependencies of a list of fields, in order.
pub open spec fn fields_deps(fs: Seq<(String, VariableType)>) -> Seq<Option<Seq<char>>> {
    fs.map_values(|f: (String, VariableType)| spec_dependency(f.1@))
}

/// The declarations of a list of methods, each on its own line after a tab
/// and `prefix`.
pub open spec fn methods_text(ms: Seq<(String, Method)>, prefix: Seq<char>) -> Seq<char>
    decreases ms.len(),
{
    if ms.len() == 0 {
        Seq::empty()
    } else {
        methods_text(ms.drop_last(), prefix) + seq!['\t'] + prefix
            + spec_method_sig(ms.last().0@, ms.last().1.ret_val@, type_views(ms.last().1.args@)) + seq![';', '\n']
    }
}

/// The declarations of a list of fields, each on its own line after a tab
/// (and `static ` for static fields).
pub open spec fn fields_text(fs: Seq<(String, VariableType)>, is_static: bool) -> Seq<char>
    decreases fs.len(),
{
    if fs.len() == 0 {
        Seq::empty()
    } else {
        fields_text(fs.drop_last(), is_static) + seq!['\t']
            + (if is_static { seq!['s', 't', 'a', 't', 'i', 'c', ' '] } else { Seq::empty() })
            + spec_c_type(fs.last().1@) + seq![' '] + fs.last().0@ + seq![';', '\n']
    }
}

/// Adds the includes a method needs.
fn add_method_deps(includes: &mut IncludeBuilder, method: &Method)
    requires
        old(includes).wf(),
    ensures
        final(includes).wf(),
        (final(includes).known(), final(includes).text()) == spec_add_deps((old(includes).known(), old(includes).text()), method_deps(*method)),
{
    let ghost start = (includes.known(), includes.text());
    let ghost all = type_views(method.args@).map_values(|t: SpecVarType| spec_dependency(t));
    let args = method.args();
    let mut i: usize = 0;
    while i < args.len()
        invariant
            i <= args@.len(),
            all == type_views(args@).map_values(|t: SpecVarType| spec_dependency(t)),
            includes.wf(),
            (includes.known(), includes.text()) == spec_add_deps(start, all.take(i as int)),
        decreases args@.len() - i,
    {
        assert(all.take(i + 1).drop_last() =~= all.take(i as int));
        match args[i].dependency() {
            Some(dep) => includes.add_include(dep),
            None => {},
        }
        i = i + 1;
    }
    assert(all.take(args@.len() as int) =~= all);
    assert(method_deps(*method).drop_last() =~= all);
    match method.ret_val().dependency() {
        Some(dep) => includes.add_include(dep),
        None => {},
    }
}

/// Writes the declarations of a list of methods and adds the includes they
/// need.
fn write_methods(out: &mut String, includes: &mut IncludeBuilder, methods: &Vec<(String, Method)>, prefix: &str)
    requires
        old(includes).wf(),
    ensures
        final(includes).wf(),
        final(out)@ == old(out)@ + methods_text(methods@, prefix@),
        (final(includes).known(), final(includes).text()) == spec_add_deps((old(includes).known(), old(includes).text()), methods_deps(methods@)),
{
    let ghost start = (includes.known(), includes.text());
    let ghost out0 = out@;
    let mut i: usize = 0;
    while i < methods.len()
        invariant
            i <= methods@.len(),
            includes.wf(),
            out@ == out0 + methods_text(methods@.take(i as int), prefix@),
            (includes.known(), includes.text()) == spec_add_deps(start, methods_deps(methods@.take(i as int))),
        decreases methods@.len() - i,
    {
        let (method_name, method) = &methods[i];
        assert(methods@.take(i + 1).drop_last() =~= methods@.take(i as int));
        push_char(out, '\t');
        push_str(out, prefix);
        push_method_sig(out, method_name.as_str(), method);
        push_char(out, ';');
        push_char(out, '\n');
        proof {
            lemma_add_deps_append(start, methods_deps(methods@.take(i as int)), method_deps(*method));
        }
        add_method_deps(includes, method);
        i = i + 1;
    }
    assert(methods@.take(methods@.len() as int) =~= methods@);
}

/// Writes the declarations of a list of fields and adds the includes they
/// need.
fn write_fields(out: &mut String, includes: &mut IncludeBuilder, fields: &Vec<(String, VariableType)>, is_static: bool)
    requires
        old(includes).wf(),
    ensures
        final(includes).wf(),
        final(out)@ == old(out)@ + fields_text(fields@, is_static),
        (final(includes).known(), final(includes).text()) == spec_add_deps((old(includes).known(), old(includes).text()), fields_deps(fields@)),
{
    proof {
        reveal_strlit("static ");
        assert("static "@ =~= seq!['s', 't', 'a', 't', 'i', 'c', ' ']);
    }
    let ghost start = (includes.known(), includes.text());
    let ghost out0 = out@;
    let mut i: usize = 0;
    while i < fields.len()
        invariant
            i <= fields@.len(),
            includes.wf(),
            out@ == out0 + fields_text(fields@.take(i as int), is_static),
            (includes.known(), includes.text()) == spec_add_deps(start, fields_deps(fields@.take(i as int))),
        decreases fields@.len() - i,
    {
        let (field_name, field_type) = &fields[i];
        assert(fields@.take(i + 1).drop_last() =~= fields@.take(i as int));
        assert(fields_deps(fields@.take(i + 1)).drop_last() =~= fields_deps(fields@.take(i as int)));
        assert(fields@.take(i + 1).last() == fields@[i as int]);
        let ghost before = out@;
        push_char(out, '\t');
        if is_static {
            proof {
                reveal_strlit("static ");
                assert("static "@ =~= seq!['s', 't', 'a', 't', 'i', 'c', ' ']);
            }
            push_str(out, "static ");
        }
        let c = field_type.c_type();
        push_str(out, c.as_str());
        push_char(out, ' ');
        push_str(out, field_name.as_str());
        push_char(out, ';');
        push_char(out, '\n');
        assert(out@ =~= before + seq!['\t'] + (if is_static { seq!['s', 't', 'a', 't', 'i', 'c', ' '] } else { Seq::empty() })
            + spec_c_type(field_type@) + seq![' '] + field_name@ + seq![';', '\n']);
        assert(out@ =~= out0 + fields_text(fields@.take(i + 1), is_static));
        match field_type.dependency() {
            Some(dep) => includes.add_include(dep),
            None => {},
        }
        i = i + 1;
    }
    assert(fields@.take(fields@.len() as int) =~= fields@);
}

/// The includes a class's header needs, in the order the writer meets them:
/// the parent, the static methods, the virtual methods, the static fields
/// and the fields.
pub open spec fn class_deps(c: Class) -> Seq<Option<Seq<char>>> {
    seq![Some(spec_cpp_class_to_path(c.parrent@))] + methods_deps(c.static_methods@) + methods_deps(c.virtual_methods@)
        + fields_deps(c.static_fields@) + fields_deps(c.fields@)
}

/// The header of a converted class: the namespace declaration (for a class
/// inside a namespace), `#pragma once`, the includes, and the struct with its
/// fields and method declarations.
pub open spec fn spec_header(c: Class) -> Seq<char> {
    let includes = spec_add_deps((seq![spec_cpp_class_to_path(c.name@)], Seq::empty()), class_deps(c)).1;
    (if seq_contains_seq(c.name@, seq![':', ':']) { spec_namespace_def(c.name@) + seq!['\n'] } else { Seq::empty() })
        + seq!['#', 'p', 'r', 'a', 'g', 'm', 'a', ' ', 'o', 'n', 'c', 'e', '\n'] + includes
        + seq!['\n', 's', 't', 'r', 'u', 'c', 't', ' '] + c.name@ + seq![':', ' '] + c.parrent@ + seq!['{', '\n']
        + fields_text(c.static_fields@, true) + fields_text(c.fields@, false)
        + methods_text(c.static_methods@, seq!['s', 't', 'a', 't', 'i', 'c', ' '])
        + methods_text(c.virtual_methods@, seq!['v', 'i', 'r', 't', 'u', 'a', 'l', ' '])
        + seq!['}', ';']
}

/// The header of a converted class.
pub fn create_header(class: &Class) -> (r: String)
    ensures
        r@ == spec_header(*class),
{
    proof {
        reveal_strlit("static ");
        reveal_strlit("virtual ");
        reveal_strlit("::");
        reveal_strlit("#pragma once\n");
        reveal_strlit("\nstruct ");
        reveal_strlit(": ");
        reveal_strlit("{\n");
        reveal_strlit("};");
        assert("static "@ =~= seq!['s', 't', 'a', 't', 'i', 'c', ' ']);
        assert("virtual "@ =~= seq!['v', 'i', 'r', 't', 'u', 'a', 'l', ' ']);
        assert("::"@ =~= seq![':', ':']);
        assert("#pragma once\n"@ =~= seq!['#', 'p', 'r', 'a', 'g', 'm', 'a', ' ', 'o', 'n', 'c', 'e', '\n']);
        assert("\nstruct "@ =~= seq!['\n', 's', 't', 'r', 'u', 'c', 't', ' ']);
        assert(": "@ =~= seq![':', ' ']);
        assert("{\n"@ =~= seq!['{', '\n']);
        assert("};"@ =~= seq!['}', ';']);
    }
    let path = class.path();
    let mut includes = IncludeBuilder::new(path.as_str());
    let parrent_path = class.parrent_path();
    includes.add_include(parrent_path.as_str());
    let ghost s0 = (seq![spec_cpp_class_to_path(class.name@)], Seq::<char>::empty());
    let ghost d0: Seq<Option<Seq<char>>> = seq![Some(spec_cpp_class_to_path(class.parrent@))];
    let ghost d1 = methods_deps(class.static_methods@);
    let ghost d2 = methods_deps(class.virtual_methods@);
    let ghost d3 = fields_deps(class.static_fields@);
    let ghost d4 = fields_deps(class.fields@);
    assert(d0.drop_last() =~= Seq::<Option<Seq<char>>>::empty());
    assert(spec_add_deps(s0, d0.drop_last()) == s0);
    assert(d0.last() == Some(spec_cpp_class_to_path(class.parrent@)));
    assert((includes.known(), includes.text()) == spec_add_deps(s0, d0));
    let mut class_methods = String::new();
    write_methods(&mut class_methods, &mut includes, class.static_methods(), "static ");
    write_methods(&mut class_methods, &mut includes, class.virtual_methods(), "virtual ");
    let mut class_fields = String::new();
    write_fields(&mut class_fields, &mut includes, class.static_fields(), true);
    write_fields(&mut class_fields, &mut includes, class.fields(), false);
    proof {
        lemma_add_deps_append(s0, d0, d1);
        lemma_add_deps_append(s0, d0 + d1, d2);
        lemma_add_deps_append(s0, d0 + d1 + d2, d3);
        lemma_add_deps_append(s0, d0 + d1 + d2 + d3, d4);
    }
    let mut out = String::new();
    if str_contains(class.cpp_name(), "::") {
        let ns = create_namespace_def(class.cpp_name());
        push_str(&mut out, ns.as_str());
        push_char(&mut out, '\n');
    }
    push_str(&mut out, "#pragma once\n");
    push_str(&mut out, includes.get_code());
    push_str(&mut out, "\nstruct ");
    push_str(&mut out, class.cpp_name());
    push_str(&mut out, ": ");
    push_str(&mut out, class.parrent_cpp_name());
    push_str(&mut out, "{\n");
    push_str(&mut out, class_fields.as_str());
    push_str(&mut out, class_methods.as_str());
    push_str(&mut out, "};");
    assert(out@ =~= spec_header(*class));
    out
}

/// One named argument of a method definition: its C++ type, then the local
/// it arrives in, `l<id>` with the type's postfix.
pub open spec fn named_arg(t: SpecVarType, id: nat) -> Seq<char> {
    spec_c_type(t) + seq![' ', 'l'] + spec_decimal(id) + spec_type_postfix(t)
}

/// The named arguments of a method definition, separated by commas, the
/// first one arriving in local `first`.
pub open spec fn named_args(args: Seq<SpecVarType>, first: nat) -> Seq<char>
    decreases args.len(),
{
    if args.len() == 0 {
        Seq::empty()
    } else if args.len() == 1 {
        named_arg(args[0], first)
    } else {
        named_args(args.drop_last(), first) + seq![','] + named_arg(args.last(), (first + args.len() - 1) as nat)
    }
}

/// The head of a method definition: `ret name(type l0i,type l1f)`, the
/// locals numbered from 1 for a virtual method (local 0 is the object).
pub open spec fn spec_method_sig_args(method_name: Seq<char>, m: Method) -> Seq<char> {
    spec_c_type(m.ret_val@) + seq![' '] + method_name + seq!['(']
        + named_args(type_views(m.args@), if m.is_virtual { 1 } else { 0 }) + seq![')']
}

/// Appends the head of a method definition, with its arguments named by the
/// locals they arrive in.
pub fn push_method_sig_args(target: &mut String, method_name: &str, method: &Method)
    requires
        forall|i: int| 0 <= i < method.args@.len() ==> has_postfix((#[trigger] method.args@[i])@),
        method.args@.len() < usize::MAX - 1,
    ensures
        final(target)@ == old(target)@ + spec_method_sig_args(method_name@, *method),
{
    let first: usize = if method.is_virtual() { 1 } else { 0 };
    let ret = method.ret_val().c_type();
    push_str(target, ret.as_str());
    push_char(target, ' ');
    push_str(target, method_name);
    push_char(target, '(');
    let args = method.args();
    let ghost start = target@;
    let mut i: usize = 0;
    while i < args.len()
        invariant
            i <= args@.len(),
            args@.len() < usize::MAX - 1,
            first <= 1,
            forall|j: int| 0 <= j < args@.len() ==> has_postfix((#[trigger] args@[j])@),
            target@ == start + named_args(type_views(args@.take(i as int)), first as nat),
        decreases args@.len() - i,
    {
        if i > 0 {
            push_char(target, ',');
        }
        let c = args[i].c_type();
        push_str(target, c.as_str());
        push_char(target, ' ');
        push_char(target, 'l');
        push_decimal(target, first + i);
        let p = args[i].type_postifx();
        push_str(target, p.as_str());
        proof {
            let t = type_views(args@.take(i + 1));
            assert(t.drop_last() =~= type_views(args@.take(i as int)));
            assert(t.last() == args@[i as int]@);
            if i == 0 {
                assert(t.len() == 1);
            }
        }
        i = i + 1;
    }
    assert(args@.take(args@.len() as int) =~= args@);
    push_char(target, ')');
}

} // verus!
