//! Writing the C++ body of a method from its resolved instructions: each
//! instruction becomes at most one statement, and the values it leaves on
//! the Java stack become named C++ values on the writer's value stack.
use vstd::prelude::*;
use crate::cpp_codegen::spec_add_include;
use crate::cpp_codegen::method_writer::{MethodWriter, LocalKind, spec_local_name, tabs, stack_views, local_decl_line};
use crate::executor::fatops::{FatOp, SpecFatOp, spec_jump_target};
use crate::text::{push_str, push_char, push_decimal, spec_decimal, char_len, to_owned_string, str_eq};
use crate::vartype::{VariableType, SpecVarType, spec_c_type, has_postfix};
use crate::method::Method;
use crate::cpp_codegen::{push_method_sig_args, spec_method_sig_args};
use crate::class::{java_class_to_cpp_class, cpp_class_to_path, replace_double_colon};
use crate::mangling::{class_path_to_class_mangled, spec_class_path_mangled};
use crate::text::{replace_char, first_dc_from, find_double_colon};
use crate::vartype::{first_pos, spec_method_desc_args, find_char, args_desc_readable, method_desc_to_args};
use crate::mangling::{ascii, is_ascii_str, spec_mangle_method_name, mangle_method_name};

verus! {

/// What a method writer holds, as values: its code, its local declarations
/// and their names, the known types of the locals, the value stack, the
/// counter of intermediate values, the included headers and their lines,
/// the indentation and the signature.
pub struct WriterView {
    pub code: Seq<char>,
    pub local_decl: Seq<char>,
    pub locals: Seq<Seq<char>>,
    pub types: Seq<Option<SpecVarType>>,
    pub vstack: Seq<(SpecVarType, Seq<char>)>,
    pub im_id: nat,
    pub known: Seq<Seq<char>>,
    pub inc_text: Seq<char>,
    pub ident_level: nat,
    pub sig: Seq<char>,
}

impl View for MethodWriter {
    type V = WriterView;

    open spec fn view(&self) -> WriterView {
        WriterView {
            code: self.code@,
            local_decl: self.local_decl@,
            locals: self.local_names(),
            types: self.types(),
            vstack: stack_views(self.vstack@),
            im_id: self.im_id as nat,
            known: self.includes.known(),
            inc_text: self.includes.text(),
            ident_level: self.ident_level as nat,
            sig: self.sig@,
        }
    }
}

/// The writer after the statement `code`, written on a line of its own at
/// the current indentation; an empty statement writes nothing.
pub open spec fn w_line(w: WriterView, code: Seq<char>) -> WriterView {
    if code.len() == 0 {
        w
    } else {
        WriterView { code: w.code + tabs(w.ident_level) + code + seq!['\n'], ..w }
    }
}

/// The name of the next intermediate value: `i` and the counter.
pub open spec fn w_fresh(w: WriterView) -> Seq<char> {
    seq!['i'] + spec_decimal(w.im_id)
}

/// The writer with its counter of intermediate values one further.
pub open spec fn w_bump(w: WriterView) -> WriterView {
    WriterView { im_id: w.im_id + 1, ..w }
}

/// The writer with a value pushed on its value stack.
pub open spec fn w_push(w: WriterView, name: Seq<char>, t: SpecVarType) -> WriterView {
    WriterView { vstack: w.vstack.push((t, name)), ..w }
}

/// The writer with `k` values taken off its value stack.
pub open spec fn w_pop(w: WriterView, k: nat) -> WriterView {
    WriterView { vstack: w.vstack.take(w.vstack.len() - k), ..w }
}

/// The name of the value `k` places below the top of the value stack.
pub open spec fn w_top(w: WriterView, k: nat) -> Seq<char> {
    w.vstack[w.vstack.len() - 1 - k].1
}

/// The writer with the header of `name` included.
pub open spec fn w_include(w: WriterView, name: Seq<char>) -> WriterView {
    WriterView {
        known: spec_add_include(w.known, w.inc_text, name).0,
        inc_text: spec_add_include(w.known, w.inc_text, name).1,
        ..w
    }
}

/// The type of an object whose class is not known.
pub open spec fn unknown_obj() -> SpecVarType {
    SpecVarType::ObjectRef(Seq::empty())
}

/// The C++ name of a Java class path: each `/` becomes `::`.
pub open spec fn cpp_name(class: Seq<char>) -> Seq<char> {
    replace_char(class, '/', seq![':', ':'])
}

/// The decimal spelling of an integer, with a `-` when it is negative.
pub open spec fn spec_int_text(v: int) -> Seq<char> {
    if v < 0 {
        seq!['-'] + spec_decimal((-v) as nat)
    } else {
        spec_decimal(v as nat)
    }
}

/// Whether the writer has `k` values on its value stack and can name
/// `fresh` more intermediate values.
pub open spec fn w_ready(w: WriterView, k: nat, fresh: nat) -> bool {
    w.vstack.len() >= k && w.im_id + fresh <= usize::MAX
}

/// Loading local `id`: its name is pushed with type `t`; no statement.
pub open spec fn spec_load(w: WriterView, id: u8, kind: LocalKind, t: SpecVarType) -> WriterView {
    w_push(w, spec_local_name(id, kind), t)
}

/// The type an object local is known to have, or an unknown object type.
pub open spec fn object_local_type(w: WriterView, id: u8) -> SpecVarType {
    if (id as int) < w.types.len() && w.types[id as int] is Some {
        w.types[id as int]->0
    } else {
        unknown_obj()
    }
}

/// Reading field `field` of the object on top of the stack into a fresh
/// value of type `t`.
pub open spec fn spec_get_field(w: WriterView, field: Seq<char>, t: SpecVarType) -> Option<WriterView> {
    if w_ready(w, 1, 1) {
        let im = w_fresh(w);
        let owner = w_top(w, 0);
        Some(w_line(
            w_push(w_bump(w_pop(w, 1)), im, t),
            spec_c_type(t) + seq![' '] + im + " = "@ + owner + "->"@ + field + seq![';'],
        ))
    } else {
        None
    }
}

/// Binary arithmetic of C++ type `t` with operator `op` on the two values
/// on top of the stack, into a fresh value.
pub open spec fn spec_arith(w: WriterView, t: SpecVarType, op: Seq<char>) -> Option<WriterView> {
    if w_ready(w, 2, 1) {
        let im = w_fresh(w);
        let b = w_top(w, 0);
        let a = w_top(w, 1);
        Some(w_line(
            w_push(w_bump(w_pop(w, 2)), im, t),
            spec_c_type(t) + seq![' '] + im + " = "@ + a + op + b + seq![';'],
        ))
    } else {
        None
    }
}

/// Reading static `name` of class `class` into a fresh value of type `t`;
/// the class's header is included.
pub open spec fn spec_get_static(w: WriterView, class: Seq<char>, name: Seq<char>, t: SpecVarType) -> Option<WriterView> {
    if w_ready(w, 0, 1) {
        let im = w_fresh(w);
        Some(w_line(
            w_include(w_push(w_bump(w), im, t), spec_class_path_mangled(class)),
            spec_c_type(t) + seq![' '] + im + " = "@ + cpp_name(class) + "::"@ + name + seq![';'],
        ))
    } else {
        None
    }
}

/// Storing into an array: array, index and value are taken off the stack.
pub open spec fn spec_arr_store(w: WriterView) -> Option<WriterView> {
    if w_ready(w, 3, 0) {
        Some(w_line(w_pop(w, 3), w_top(w, 2) + "->Set("@ + w_top(w, 1) + seq![','] + w_top(w, 0) + ");"@))
    } else {
        None
    }
}

/// Loading from an array into a fresh value of type `t`, declared as
/// `decl` and converted by `cast`.
pub open spec fn spec_arr_load(w: WriterView, decl: Seq<char>, cast: Seq<char>, t: SpecVarType) -> Option<WriterView> {
    if w_ready(w, 2, 1) {
        let im = w_fresh(w);
        Some(w_line(
            w_push(w_bump(w_pop(w, 2)), im, t),
            decl + seq![' '] + im + " = "@ + cast + w_top(w, 1) + "->Get("@ + w_top(w, 0) + ");"@,
        ))
    } else {
        None
    }
}

/// The length of the array on top of the stack, into a fresh `int`.
pub open spec fn spec_array_length(w: WriterView) -> Option<WriterView> {
    if w_ready(w, 1, 1) {
        let im = w_fresh(w);
        Some(w_line(
            w_push(w_bump(w_pop(w, 1)), im, SpecVarType::Int),
            "int "@ + im + " = "@ + w_top(w, 0) + "->GetLength();"@,
        ))
    } else {
        None
    }
}

/// Storing the top of the stack into local `id` of a kind, declared with
/// the value's type the first time it is met.
pub open spec fn spec_store(w: WriterView, id: u8, kind: LocalKind) -> Option<WriterView> {
    if w_ready(w, 1, 0) {
        let t = w.vstack.last().0;
        let name = spec_local_name(id, kind);
        let w1 = w_pop(w, 1);
        let w2 = if w.locals.contains(name) {
            w1
        } else {
            WriterView {
                locals: w1.locals.push(name),
                local_decl: w1.local_decl + local_decl_line(spec_c_type(t), name),
                ..w1
            }
        };
        Some(w_line(w2, name + " = "@ + w_top(w, 0) + seq![';']))
    } else {
        None
    }
}

/// Setting field `field` of an object to a value, converted by `cast`.
pub open spec fn spec_put_field(w: WriterView, field: Seq<char>, cast: Seq<char>) -> Option<WriterView> {
    if w_ready(w, 2, 0) {
        Some(w_line(w_pop(w, 2), w_top(w, 1) + "->"@ + field + " = "@ + cast + w_top(w, 0) + seq![';']))
    } else {
        None
    }
}

/// Setting static `field` of class `class` to the value on top of the stack.
pub open spec fn spec_put_static(w: WriterView, class: Seq<char>, field: Seq<char>) -> Option<WriterView> {
    if w_ready(w, 1, 0) {
        Some(w_line(w_pop(w, 1), cpp_name(class) + "::"@ + field + " = "@ + w_top(w, 0) + seq![';']))
    } else {
        None
    }
}

/// Converting the value on top of the stack to type `t`, into a fresh value.
pub open spec fn spec_convert(w: WriterView, t: SpecVarType) -> Option<WriterView> {
    if w_ready(w, 1, 1) {
        let im = w_fresh(w);
        Some(w_line(
            w_push(w_bump(w_pop(w, 1)), im, t),
            spec_c_type(t) + seq![' '] + im + " = ("@ + spec_c_type(t) + seq![')'] + w_top(w, 0) + seq![';'],
        ))
    } else {
        None
    }
}

/// Returning the value on top of the stack.
pub open spec fn spec_return_value(w: WriterView) -> Option<WriterView> {
    if w_ready(w, 1, 0) {
        Some(w_line(w_pop(w, 1), "return "@ + w_top(w, 0) + seq![';']))
    } else {
        None
    }
}

/// A jump to block `target` when the two values on top of the stack compare
/// by `rel`.
pub open spec fn spec_cond2(w: WriterView, rel: Seq<char>, target: usize) -> Option<WriterView> {
    if w_ready(w, 2, 0) {
        Some(w_line(w_pop(w, 2), "if("@ + w_top(w, 1) + rel + w_top(w, 0) + ") goto bb"@ + spec_decimal(target as nat) + seq![';']))
    } else {
        None
    }
}

/// A jump to block `target` when the value on top of the stack compares by
/// `rel` with `value`.
pub open spec fn spec_cond1(w: WriterView, rel: Seq<char>, value: Seq<char>, target: usize) -> Option<WriterView> {
    if w_ready(w, 1, 0) {
        Some(w_line(w_pop(w, 1), "if("@ + w_top(w, 0) + rel + value + ") goto bb"@ + spec_decimal(target as nat) + seq![';']))
    } else {
        None
    }
}

/// A fresh object of class `class`.
pub open spec fn spec_new(w: WriterView, class: Seq<char>) -> Option<WriterView> {
    if w_ready(w, 0, 1) {
        let im = w_fresh(w);
        Some(w_line(
            w_include(w_push(w_bump(w), im, SpecVarType::ObjectRef(class)), spec_class_path_mangled(class)),
            "ManagedPointer<"@ + cpp_name(class) + "> "@ + im + " = new_managed("@ + cpp_name(class) + ",);"@,
        ))
    } else {
        None
    }
}

/// A check that the object on top of the stack is of class `class`.
pub open spec fn spec_checked_cast(w: WriterView, class: Seq<char>) -> Option<WriterView> {
    if w_ready(w, 1, 0) {
        Some(w_line(
            w_include(w, spec_class_path_mangled(class)),
            "if(typeid(*"@ + w_top(w, 0) + ") != typeid("@ + cpp_name(class) + ")) throw new java::lang::ClassCastException();"@,
        ))
    } else {
        None
    }
}

/// Whether the object on top of the stack is of class `class`, into a
/// fresh `int`.
pub open spec fn spec_instance_of(w: WriterView, class: Seq<char>) -> Option<WriterView> {
    if w_ready(w, 1, 1) {
        let im = w_fresh(w);
        Some(w_line(
            w_include(w_push(w_bump(w_pop(w, 1)), im, SpecVarType::Int), spec_class_path_mangled(class)),
            "int "@ + im + " = typeid(*"@ + w_top(w, 0) + ") == typeid("@ + cpp_name(class) + ") ? 1:0;"@,
        ))
    } else {
        None
    }
}

/// A fresh array of objects of class `class`, its length taken off the
/// stack.
pub open spec fn spec_new_array(w: WriterView, class: Seq<char>) -> Option<WriterView> {
    if w_ready(w, 1, 1) {
        let im = w_fresh(w);
        Some(w_line(
            w_include(
                w_push(w_bump(w_pop(w, 1)), im, SpecVarType::ArrayRef(Box::new(SpecVarType::ObjectRef(class)))),
                spec_class_path_mangled(class),
            ),
            "ManagedPointer<RuntimeArray<ManagedPointer<"@ + cpp_name(class) + ">>> "@ + im
                + " = managed_from_raw(new RuntimeArray<ManagedPointer<"@ + cpp_name(class) + ">>("@ + w_top(w, 0) + "));"@,
        ))
    } else {
        None
    }
}

/// A string constant, as a fresh `java::lang::String`.
pub open spec fn spec_string_const(w: WriterView, text: Seq<char>) -> Option<WriterView> {
    if w_ready(w, 0, 1) {
        let im = w_fresh(w);
        Some(w_line(
            w_push(w_include(w_bump(w), "java_cs_lang_cs_String"@), im, SpecVarType::ObjectRef("java/lang/String"@)),
            "ManagedPointer<java::lang::String> "@ + im + " = managed_from_raw(new java::lang::String(u\""@ + text + "\"));"@,
        ))
    } else {
        None
    }
}

/// Names joined by commas.
pub open spec fn join_names(ns: Seq<Seq<char>>) -> Seq<char>
    decreases ns.len(),
{
    if ns.len() == 0 {
        Seq::empty()
    } else if ns.len() == 1 {
        ns[0]
    } else {
        join_names(ns.drop_last()) + seq![','] + ns.last()
    }
}

/// The names of the top `k` values of the value stack, the deepest first
/// (the order they were pushed in).
pub open spec fn w_top_names(w: WriterView, k: nat) -> Seq<Seq<char>> {
    w.vstack.subrange(w.vstack.len() - k, w.vstack.len() as int).map_values(|e: (SpecVarType, Seq<char>)| e.1)
}

/// The class, method name and descriptor in an interpreter method name
/// `class::method(..)..`: the class before the first `::`, the name up to
/// the first `(` after it, the descriptor from there on.
pub open spec fn spec_call_target(name: Seq<char>) -> Option<(Seq<char>, Seq<char>, Seq<char>)> {
    match first_dc_from(name, 0) {
        Some(p) => {
            let rest = name.skip(p + 2);
            match first_pos(rest, '(') {
                Some(q) => Some((name.take(p), rest.take(q), rest.skip(q))),
                None => None,
            }
        },
        None => None,
    }
}

/// The number of arguments and the result type that a method descriptor
/// gives, where it can be read.
pub open spec fn desc_call_info(d: Seq<char>) -> Option<(nat, SpecVarType)> {
    if ascii(d) {
        match spec_method_desc_args(d) {
            Some((args, ret)) => Some((args.len(), ret)),
            None => None,
        }
    } else {
        None
    }
}

/// The text of a call taking the top `k` values of the stack as its
/// arguments: `Class::method(a,b)` for a static or special call, or
/// `obj->method(b)` for a call on the first of them.
pub open spec fn call_text(w: WriterView, class: Seq<char>, cname: Seq<char>, k: nat, member: bool) -> Seq<char> {
    let names = w_top_names(w, k);
    if member {
        names[0] + "->"@ + cname + seq!['('] + join_names(names.skip(1)) + ");"@
    } else {
        cpp_name(class) + "::"@ + cname + seq!['('] + join_names(names) + ");"@
    }
}

/// A call of method `cname` of class `class` with `nargs` arguments (and
/// the object it is called on first, `with_obj`), written on the object
/// (`member`) or on the class, whose header is then included; a result
/// that is not `void` goes into a fresh value.
pub open spec fn spec_call(
    w: WriterView,
    class: Seq<char>,
    cname: Seq<char>,
    nargs: nat,
    with_obj: bool,
    member: bool,
    ret: SpecVarType,
) -> Option<WriterView> {
    let k: nat = if with_obj { nargs + 1 } else { nargs };
    let fresh: nat = if ret == SpecVarType::Void { 0 } else { 1 };
    if w_ready(w, k, fresh) {
        let call = call_text(w, class, cname, k, member);
        let w1 = w_pop(w, k);
        let w2 = if member { w1 } else { w_include(w1, spec_class_path_mangled(class)) };
        if ret == SpecVarType::Void {
            Some(w_line(w2, call))
        } else {
            let im = w_fresh(w);
            Some(w_line(w_push(w_bump(w2), im, ret), spec_c_type(ret) + seq![' '] + im + " = "@ + call))
        }
    } else {
        None
    }
}

/// A call through an interpreter method name: its class and descriptor are
/// read from the name, and the method gets its C++ name.
pub open spec fn spec_named_call(w: WriterView, name: Seq<char>, with_obj: bool, member: bool) -> Option<WriterView> {
    match spec_call_target(name) {
        Some((c, m, d)) => match desc_call_info(d) {
            Some((n, ret)) => spec_call(w, c, spec_mangle_method_name(m, d), n, with_obj, member, ret),
            None => None,
        },
        None => None,
    }
}

/// Reading field `field` of an object of unknown type into a fresh value.
pub open spec fn spec_get_object_field(w: WriterView, field: Seq<char>) -> Option<WriterView> {
    if w_ready(w, 1, 1) {
        let im = w_fresh(w);
        Some(w_line(
            w_push(w_bump(w_pop(w, 1)), im, unknown_obj()),
            "auto "@ + im + " = "@ + w_top(w, 0) + "->"@ + field + seq![';'],
        ))
    } else {
        None
    }
}

/// Reading static `name` of class `class`, an object of unknown type, into
/// a fresh value; the class's header is included.
pub open spec fn spec_get_object_static(w: WriterView, class: Seq<char>, name: Seq<char>) -> Option<WriterView> {
    if w_ready(w, 0, 1) {
        let im = w_fresh(w);
        Some(w_line(
            w_include(w_push(w_bump(w), im, unknown_obj()), spec_class_path_mangled(class)),
            "auto "@ + im + " = "@ + cpp_name(class) + "::"@ + name + seq![';'],
        ))
    } else {
        None
    }
}

/// A call of function `f` on the two values on top of the stack, into a
/// fresh value of type `t`.
pub open spec fn spec_fn2(w: WriterView, t: SpecVarType, f: Seq<char>) -> Option<WriterView> {
    if w_ready(w, 2, 1) {
        let im = w_fresh(w);
        Some(w_line(
            w_push(w_bump(w_pop(w, 2)), im, t),
            spec_c_type(t) + seq![' '] + im + " = "@ + f + seq!['('] + w_top(w, 1) + seq![','] + w_top(w, 0) + ");"@,
        ))
    } else {
        None
    }
}

/// A three-way comparison of the two values on top of the stack (`a`
/// under `b`), into a fresh `int`: 1 when `a > b`, 0 when equal, -1 when
/// `a < b`; when one is NaN, -1 (`nan_high` false) or 1 (`nan_high`).
pub open spec fn spec_compare(w: WriterView, nan_high: bool) -> Option<WriterView> {
    if w_ready(w, 2, 1) {
        let im = w_fresh(w);
        let a = w_top(w, 1);
        let b = w_top(w, 0);
        let text = if nan_high {
            "int "@ + im + " = "@ + a + " < "@ + b + " ? -1 : ("@ + a + " == "@ + b + " ? 0 : 1);"@
        } else {
            "int "@ + im + " = "@ + a + " > "@ + b + " ? 1 : ("@ + a + " == "@ + b + " ? 0 : -1);"@
        };
        Some(w_line(w_push(w_bump(w_pop(w, 2)), im, SpecVarType::Int), text))
    } else {
        None
    }
}

/// What writing one instruction does to the writer; `None` for an
/// instruction that cannot be written (its kind is not supported, the value
/// stack holds too few values, or no fresh name is left).
#[verifier::opaque]
pub open spec fn spec_write_op(op: SpecFatOp, w: WriterView) -> Option<WriterView> {
    match op {
        SpecFatOp::ALoad(id) => Some(spec_load(w, id, LocalKind::ObjectRef, object_local_type(w, id))),
        SpecFatOp::DLoad(id) => Some(spec_load(w, id, LocalKind::Float, SpecVarType::Double)),
        SpecFatOp::FLoad(id) => Some(spec_load(w, id, LocalKind::Float, SpecVarType::Float)),
        SpecFatOp::ILoad(id) => Some(spec_load(w, id, LocalKind::Int, SpecVarType::Int)),
        SpecFatOp::AConstNull => Some(w_push(w, "nullptr"@, unknown_obj())),
        SpecFatOp::BConst(v) => Some(w_push(w, spec_int_text(v as int), SpecVarType::Int)),
        SpecFatOp::IConst(v) => Some(w_push(w, spec_int_text(v as int), SpecVarType::Int)),
        SpecFatOp::SConst(v) => Some(w_push(w, spec_int_text(v as int), SpecVarType::Int)),
        SpecFatOp::FGetField(_, f) => spec_get_field(w, f, SpecVarType::Float),
        SpecFatOp::BGetField(_, f) => spec_get_field(w, f, SpecVarType::Byte),
        SpecFatOp::ZGetField(_, f) => spec_get_field(w, f, SpecVarType::Bool),
        SpecFatOp::IGetField(_, f) => spec_get_field(w, f, SpecVarType::Int),
        SpecFatOp::FGetStatic(c, n) => spec_get_static(w, c, n, SpecVarType::Float),
        SpecFatOp::AAStore => spec_arr_store(w),
        SpecFatOp::AALoad => spec_arr_load(w, "auto"@, Seq::empty(), unknown_obj()),
        SpecFatOp::BALoad => spec_arr_load(w, "uint8_t"@, "(uint8_t)"@, SpecVarType::Byte),
        SpecFatOp::ArrayLength => spec_array_length(w),
        SpecFatOp::AStore(id) => spec_store(w, id, LocalKind::ObjectRef),
        SpecFatOp::FStore(id) => spec_store(w, id, LocalKind::Float),
        SpecFatOp::IStore(id) => spec_store(w, id, LocalKind::Int),
        SpecFatOp::APutField(_, f) => spec_put_field(w, f, Seq::empty()),
        SpecFatOp::ZPutField(_, f) => spec_put_field(w, f, "(bool)"@),
        SpecFatOp::BPutField(_, f) => spec_put_field(w, f, "(uint8_t)"@),
        SpecFatOp::FPutField(_, f) => spec_put_field(w, f, Seq::empty()),
        SpecFatOp::IPutField(_, f) => spec_put_field(w, f, Seq::empty()),
        SpecFatOp::APutStatic(c, f) => spec_put_static(w, c, f),
        SpecFatOp::FPutStatic(c, f) => spec_put_static(w, c, f),
        SpecFatOp::IInc(id, by) => Some(w_line(w, spec_local_name(id, LocalKind::Int) + " += "@ + spec_int_text(by as int) + seq![';'])),
        SpecFatOp::FAdd => spec_arith(w, SpecVarType::Float, "+"@),
        SpecFatOp::FSub => spec_arith(w, SpecVarType::Float, "-"@),
        SpecFatOp::FMul => spec_arith(w, SpecVarType::Float, "*"@),
        SpecFatOp::FDiv => spec_arith(w, SpecVarType::Float, "/"@),
        SpecFatOp::IAdd => spec_arith(w, SpecVarType::Int, "+"@),
        SpecFatOp::ISub => spec_arith(w, SpecVarType::Int, "-"@),
        SpecFatOp::IMul => spec_arith(w, SpecVarType::Int, "*"@),
        SpecFatOp::IDiv => spec_arith(w, SpecVarType::Int, "/"@),
        SpecFatOp::IShl => spec_arith(w, SpecVarType::Int, "<<"@),
        SpecFatOp::IRem => spec_arith(w, SpecVarType::Int, "%"@),
        SpecFatOp::LAdd => spec_arith(w, SpecVarType::Long, "+"@),
        SpecFatOp::LSub => spec_arith(w, SpecVarType::Long, "-"@),
        SpecFatOp::D2F => spec_convert(w, SpecVarType::Float),
        SpecFatOp::F2D => spec_convert(w, SpecVarType::Double),
        SpecFatOp::I2L => spec_convert(w, SpecVarType::Long),
        SpecFatOp::L2I => spec_convert(w, SpecVarType::Int),
        SpecFatOp::AReturn => spec_return_value(w),
        SpecFatOp::FReturn => spec_return_value(w),
        SpecFatOp::IReturn => spec_return_value(w),
        SpecFatOp::Return => Some(w_line(w, "return;"@)),
        SpecFatOp::IfIGreterEqual(t) => spec_cond2(w, ">="@, t),
        SpecFatOp::IfICmpNe(t) => spec_cond2(w, "!="@, t),
        SpecFatOp::IfICmpEq(t) => spec_cond2(w, "=="@, t),
        SpecFatOp::IfICmpLess(t) => spec_cond2(w, "<"@, t),
        SpecFatOp::IfZero(t) => spec_cond1(w, "=="@, "0"@, t),
        SpecFatOp::IfNotZero(t) => spec_cond1(w, "!="@, "0"@, t),
        SpecFatOp::IfLessEqualZero(t) => spec_cond1(w, "<="@, "0"@, t),
        SpecFatOp::IfGreterEqualZero(t) => spec_cond1(w, ">="@, "0"@, t),
        SpecFatOp::IfNotNull(t) => spec_cond1(w, "!="@, "nullptr"@, t),
        SpecFatOp::GoTo(t) => Some(w_line(w, "goto bb"@ + spec_decimal(t as nat) + seq![';'])),
        SpecFatOp::Dup => if w_ready(w, 1, 0) { Some(w_push(w, w.vstack.last().1, w.vstack.last().0)) } else { None },
        SpecFatOp::Pop => if w_ready(w, 1, 0) { Some(w_pop(w, 1)) } else { None },
        SpecFatOp::AGetField(_, f) => spec_get_object_field(w, f),
        SpecFatOp::AGetStatic(c, n) => spec_get_object_static(w, c, n),
        SpecFatOp::DAdd => spec_arith(w, SpecVarType::Double, "+"@),
        SpecFatOp::DSub => spec_arith(w, SpecVarType::Double, "-"@),
        SpecFatOp::DMul => spec_arith(w, SpecVarType::Double, "*"@),
        SpecFatOp::DDiv => spec_arith(w, SpecVarType::Double, "/"@),
        SpecFatOp::LMul => spec_arith(w, SpecVarType::Long, "*"@),
        SpecFatOp::LDiv => spec_arith(w, SpecVarType::Long, "/"@),
        SpecFatOp::LRem => spec_arith(w, SpecVarType::Long, "%"@),
        SpecFatOp::FRem => spec_fn2(w, SpecVarType::Float, "fmod"@),
        SpecFatOp::I2F => spec_convert(w, SpecVarType::Float),
        SpecFatOp::FCmpL => spec_compare(w, false),
        SpecFatOp::DCmpL => spec_compare(w, false),
        SpecFatOp::FCmpG => spec_compare(w, true),
        SpecFatOp::DCmpG => spec_compare(w, true),
        SpecFatOp::InvokeStatic(name, _) => spec_named_call(w, name, false, false),
        SpecFatOp::InvokeSpecial(name, _) => spec_named_call(w, name, true, false),
        SpecFatOp::InvokeInterface(name, _) => spec_named_call(w, name, true, true),
        SpecFatOp::InvokeVirtual(c, m, _, d) => match desc_call_info(d) {
            Some((n, ret)) => spec_call(w, c, m, n, true, true, ret),
            None => None,
        },
        SpecFatOp::New(c) => spec_new(w, c),
        SpecFatOp::CheckedCast(c) => spec_checked_cast(w, c),
        SpecFatOp::InstanceOf(c) => spec_instance_of(w, c),
        SpecFatOp::ANewArray(c) => spec_new_array(w, c),
        SpecFatOp::StringConst(text) => spec_string_const(w, text),
        _ => None,
    }
}

/// The decimal spelling of `v`, appended to `s`.
fn push_int(s: &mut String, v: i32)
    ensures
        final(s)@ == old(s)@ + spec_int_text(v as int),
{
    if v < 0 {
        push_char(s, '-');
        let m: usize = if v == i32::MIN { 2147483648usize } else { (-v) as usize };
        push_decimal(s, m);
        assert(old(s)@ + seq!['-'] + spec_decimal(m as nat) =~= old(s)@ + spec_int_text(v as int));
    } else {
        push_decimal(s, v as usize);
    }
}

/// Writes statement `code` when it is not empty.
fn write_line(mw: &mut MethodWriter, code: &str)
    ensures
        final(mw)@ == w_line(old(mw)@, code@),
        final(mw).includes == old(mw).includes,
{
    if char_len(code) > 0 {
        mw.write_raw(code);
    }
}

/// Pops the top of the value stack, which is known to be there.
fn pop_value(mw: &mut MethodWriter) -> (r: (VariableType, String))
    requires
        old(mw)@.vstack.len() >= 1,
    ensures
        (r.0@, r.1@) == old(mw)@.vstack.last(),
        final(mw)@ == w_pop(old(mw)@, 1),
        final(mw).includes == old(mw).includes,
{
    let r = mw.vstack_pop();
    assert(final(mw)@.vstack =~= w_pop(old(mw)@, 1).vstack);
    match r {
        Some(e) => e,
        None => (VariableType::Void, String::new()),
    }
}

/// Pushes a value on the value stack.
fn push_value(mw: &mut MethodWriter, name: &str, t: VariableType)
    ensures
        final(mw)@ == w_push(old(mw)@, name@, t@),
        final(mw).includes == old(mw).includes,
{
    mw.vstack_push(name, t);
}

/// A fresh intermediate value's name.
fn fresh(mw: &mut MethodWriter) -> (r: String)
    requires
        old(mw)@.im_id < usize::MAX,
    ensures
        r@ == w_fresh(old(mw)@),
        final(mw)@ == w_bump(old(mw)@),
        final(mw).includes == old(mw).includes,
{
    mw.get_intermidiate()
}

/// Loads local `id` of a kind as a value of type `t`.
fn write_load(mw: &mut MethodWriter, id: u8, kind: LocalKind, t: VariableType)
    ensures
        final(mw)@ == spec_load(old(mw)@, id, kind, t@),
        final(mw).includes == old(mw).includes,
{
    let local = mw.get_local(id, kind);
    push_value(mw, local.0.as_str(), t);
}

/// Loads object local `id`, with the type it is known to have.
fn write_object_load(mw: &mut MethodWriter, id: u8)
    ensures
        final(mw)@ == spec_load(old(mw)@, id, LocalKind::ObjectRef, object_local_type(old(mw)@, id)),
        final(mw).includes == old(mw).includes,
{
    let t = match mw.get_local_type(id) {
        Some(t) => t,
        None => VariableType::ObjectRef { name: String::new() },
    };
    proof {
        reveal_strlit("");
    }
    write_load(mw, id, LocalKind::ObjectRef, t);
}

/// Reads a field of the object on top of the stack.
fn write_get_field(mw: &mut MethodWriter, field: &str, t: VariableType)
    requires
        spec_get_field(old(mw)@, field@, t@) is Some,
    ensures
        final(mw)@ == spec_get_field(old(mw)@, field@, t@)->0,
        final(mw).includes == old(mw).includes,
{
    let ghost w = mw@;
    let owner = pop_value(mw);
    let im = fresh(mw);
    let ctype = t.c_type();
    push_value(mw, im.as_str(), t);
    let mut code = ctype;
    push_char(&mut code, ' ');
    push_str(&mut code, im.as_str());
    push_str(&mut code, " = ");
    push_str(&mut code, owner.1.as_str());
    push_str(&mut code, "->");
    push_str(&mut code, field);
    push_char(&mut code, ';');
    assert(code@ =~= spec_c_type(t@) + seq![' '] + w_fresh(w) + " = "@ + w_top(w, 0) + "->"@ + field@ + seq![';']);
    assert(mw@.vstack =~= w_push(w_bump(w_pop(w, 1)), w_fresh(w), t@).vstack);
    write_line(mw, code.as_str());
}

/// Binary arithmetic on the two values on top of the stack.
fn write_arith(mw: &mut MethodWriter, t: VariableType, op: &str)
    requires
        spec_arith(old(mw)@, t@, op@) is Some,
    ensures
        final(mw)@ == spec_arith(old(mw)@, t@, op@)->0,
        final(mw).includes == old(mw).includes,
{
    let ghost w = mw@;
    let b = pop_value(mw);
    let a = pop_value(mw);
    let im = fresh(mw);
    let ctype = t.c_type();
    push_value(mw, im.as_str(), t);
    let mut code = ctype;
    push_char(&mut code, ' ');
    push_str(&mut code, im.as_str());
    push_str(&mut code, " = ");
    push_str(&mut code, a.1.as_str());
    push_str(&mut code, op);
    push_str(&mut code, b.1.as_str());
    push_char(&mut code, ';');
    assert(code@ =~= spec_c_type(t@) + seq![' '] + w_fresh(w) + " = "@ + w_top(w, 1) + op@ + w_top(w, 0) + seq![';']);
    assert(mw@.vstack =~= w_push(w_bump(w_pop(w, 2)), w_fresh(w), t@).vstack);
    write_line(mw, code.as_str());
}

/// Includes the header of class `class`: its mangled path.
fn include_class(mw: &mut MethodWriter, class: &str)
    requires
        old(mw).includes.wf(),
    ensures
        final(mw)@ == w_include(old(mw)@, spec_class_path_mangled(class@)),
        final(mw).includes.wf(),
{
    let path = class_path_to_class_mangled(class);
    mw.add_include(path.as_str());
}

/// Reads a static of a class into a fresh value.
fn write_get_static(mw: &mut MethodWriter, class: &str, name: &str, t: VariableType)
    requires
        spec_get_static(old(mw)@, class@, name@, t@) is Some,
        old(mw).includes.wf(),
    ensures
        final(mw)@ == spec_get_static(old(mw)@, class@, name@, t@)->0,
        final(mw).includes.wf(),
{
    let ghost w = mw@;
    let im = fresh(mw);
    let mut code = t.c_type();
    push_value(mw, im.as_str(), t);
    include_class(mw, class);
    push_char(&mut code, ' ');
    push_str(&mut code, im.as_str());
    push_str(&mut code, " = ");
    push_str(&mut code, java_class_to_cpp_class(class).as_str());
    push_str(&mut code, "::");
    push_str(&mut code, name);
    push_char(&mut code, ';');
    assert(code@ =~= spec_c_type(t@) + seq![' '] + w_fresh(w) + " = "@ + cpp_name(class@) + "::"@ + name@ + seq![';']);
    write_line(mw, code.as_str());
}

/// Stores into an array.
fn write_arr_store(mw: &mut MethodWriter)
    requires
        spec_arr_store(old(mw)@) is Some,
    ensures
        final(mw)@ == spec_arr_store(old(mw)@)->0,
        final(mw).includes == old(mw).includes,
{
    let ghost w = mw@;
    let value = pop_value(mw);
    let index = pop_value(mw);
    let array = pop_value(mw);
    let mut code = array.1;
    push_str(&mut code, "->Set(");
    push_str(&mut code, index.1.as_str());
    push_char(&mut code, ',');
    push_str(&mut code, value.1.as_str());
    push_str(&mut code, ");");
    assert(code@ =~= w_top(w, 2) + "->Set("@ + w_top(w, 1) + seq![','] + w_top(w, 0) + ");"@);
    assert(mw@.vstack =~= w_pop(w, 3).vstack);
    write_line(mw, code.as_str());
}

/// Loads from an array into a fresh value.
fn write_arr_load(mw: &mut MethodWriter, decl: &str, cast: &str, t: VariableType)
    requires
        spec_arr_load(old(mw)@, decl@, cast@, t@) is Some,
    ensures
        final(mw)@ == spec_arr_load(old(mw)@, decl@, cast@, t@)->0,
        final(mw).includes == old(mw).includes,
{
    let ghost w = mw@;
    let index = pop_value(mw);
    let array = pop_value(mw);
    let im = fresh(mw);
    push_value(mw, im.as_str(), t);
    let mut code = String::new();
    push_str(&mut code, decl);
    push_char(&mut code, ' ');
    push_str(&mut code, im.as_str());
    push_str(&mut code, " = ");
    push_str(&mut code, cast);
    push_str(&mut code, array.1.as_str());
    push_str(&mut code, "->Get(");
    push_str(&mut code, index.1.as_str());
    push_str(&mut code, ");");
    assert(code@ =~= decl@ + seq![' '] + w_fresh(w) + " = "@ + cast@ + w_top(w, 1) + "->Get("@ + w_top(w, 0) + ");"@);
    assert(mw@.vstack =~= w_push(w_bump(w_pop(w, 2)), w_fresh(w), t@).vstack);
    write_line(mw, code.as_str());
}

/// The length of an array into a fresh `int`.
fn write_array_length(mw: &mut MethodWriter)
    requires
        spec_array_length(old(mw)@) is Some,
    ensures
        final(mw)@ == spec_array_length(old(mw)@)->0,
        final(mw).includes == old(mw).includes,
{
    let ghost w = mw@;
    let array = pop_value(mw);
    let im = fresh(mw);
    push_value(mw, im.as_str(), VariableType::Int);
    let mut code = String::new();
    push_str(&mut code, "int ");
    push_str(&mut code, im.as_str());
    push_str(&mut code, " = ");
    push_str(&mut code, array.1.as_str());
    push_str(&mut code, "->GetLength();");
    assert(code@ =~= "int "@ + w_fresh(w) + " = "@ + w_top(w, 0) + "->GetLength();"@);
    assert(mw@.vstack =~= w_push(w_bump(w_pop(w, 1)), w_fresh(w), SpecVarType::Int).vstack);
    write_line(mw, code.as_str());
}

/// Stores the top of the stack into a local.
fn write_store(mw: &mut MethodWriter, id: u8, kind: LocalKind)
    requires
        spec_store(old(mw)@, id, kind) is Some,
    ensures
        final(mw)@ == spec_store(old(mw)@, id, kind)->0,
        final(mw).includes == old(mw).includes,
{
    let ghost w = mw@;
    let value = pop_value(mw);
    let ctype = value.0.c_type();
    let local = mw.esnsure_local_exists(id, kind, ctype.as_str());
    let mut code = local;
    push_str(&mut code, " = ");
    push_str(&mut code, value.1.as_str());
    push_char(&mut code, ';');
    assert(code@ =~= spec_local_name(id, kind) + " = "@ + w_top(w, 0) + seq![';']);
    assert(mw@.vstack =~= w_pop(w, 1).vstack);
    write_line(mw, code.as_str());
}

/// Sets a field of an object.
fn write_put_field(mw: &mut MethodWriter, field: &str, cast: &str)
    requires
        spec_put_field(old(mw)@, field@, cast@) is Some,
    ensures
        final(mw)@ == spec_put_field(old(mw)@, field@, cast@)->0,
        final(mw).includes == old(mw).includes,
{
    let ghost w = mw@;
    let value = pop_value(mw);
    let owner = pop_value(mw);
    let mut code = owner.1;
    push_str(&mut code, "->");
    push_str(&mut code, field);
    push_str(&mut code, " = ");
    push_str(&mut code, cast);
    push_str(&mut code, value.1.as_str());
    push_char(&mut code, ';');
    assert(code@ =~= w_top(w, 1) + "->"@ + field@ + " = "@ + cast@ + w_top(w, 0) + seq![';']);
    assert(mw@.vstack =~= w_pop(w, 2).vstack);
    write_line(mw, code.as_str());
}

/// Sets a static of a class.
fn write_put_static(mw: &mut MethodWriter, class: &str, field: &str)
    requires
        spec_put_static(old(mw)@, class@, field@) is Some,
    ensures
        final(mw)@ == spec_put_static(old(mw)@, class@, field@)->0,
        final(mw).includes == old(mw).includes,
{
    let ghost w = mw@;
    let value = pop_value(mw);
    let mut code = java_class_to_cpp_class(class);
    push_str(&mut code, "::");
    push_str(&mut code, field);
    push_str(&mut code, " = ");
    push_str(&mut code, value.1.as_str());
    push_char(&mut code, ';');
    assert(code@ =~= cpp_name(class@) + "::"@ + field@ + " = "@ + w_top(w, 0) + seq![';']);
    write_line(mw, code.as_str());
}

/// Adds to an `int` local.
fn write_iinc(mw: &mut MethodWriter, id: u8, by: i8)
    ensures
        final(mw)@ == w_line(old(mw)@, spec_local_name(id, LocalKind::Int) + " += "@ + spec_int_text(by as int) + seq![';']),
        final(mw).includes == old(mw).includes,
{
    let mut code = mw.get_local(id, LocalKind::Int).0;
    push_str(&mut code, " += ");
    push_int(&mut code, by as i32);
    push_char(&mut code, ';');
    assert(code@ =~= spec_local_name(id, LocalKind::Int) + " += "@ + spec_int_text(by as int) + seq![';']);
    write_line(mw, code.as_str());
}

/// Converts the top of the stack to another type.
fn write_convert(mw: &mut MethodWriter, t: VariableType)
    requires
        spec_convert(old(mw)@, t@) is Some,
    ensures
        final(mw)@ == spec_convert(old(mw)@, t@)->0,
        final(mw).includes == old(mw).includes,
{
    let ghost w = mw@;
    let value = pop_value(mw);
    let im = fresh(mw);
    let ctype = t.c_type();
    push_value(mw, im.as_str(), t);
    let mut code = String::new();
    push_str(&mut code, ctype.as_str());
    push_char(&mut code, ' ');
    push_str(&mut code, im.as_str());
    push_str(&mut code, " = (");
    push_str(&mut code, ctype.as_str());
    push_char(&mut code, ')');
    push_str(&mut code, value.1.as_str());
    push_char(&mut code, ';');
    assert(code@ =~= spec_c_type(t@) + seq![' '] + w_fresh(w) + " = ("@ + spec_c_type(t@) + seq![')'] + w_top(w, 0) + seq![';']);
    assert(mw@.vstack =~= w_push(w_bump(w_pop(w, 1)), w_fresh(w), t@).vstack);
    write_line(mw, code.as_str());
}

/// Returns the top of the stack.
fn write_return_value(mw: &mut MethodWriter)
    requires
        spec_return_value(old(mw)@) is Some,
    ensures
        final(mw)@ == spec_return_value(old(mw)@)->0,
        final(mw).includes == old(mw).includes,
{
    let ghost w = mw@;
    let value = pop_value(mw);
    let mut code = String::new();
    push_str(&mut code, "return ");
    push_str(&mut code, value.1.as_str());
    push_char(&mut code, ';');
    assert(code@ =~= "return "@ + w_top(w, 0) + seq![';']);
    write_line(mw, code.as_str());
}

/// A conditional jump on the two values on top of the stack.
fn write_cond2(mw: &mut MethodWriter, rel: &str, target: usize)
    requires
        spec_cond2(old(mw)@, rel@, target) is Some,
    ensures
        final(mw)@ == spec_cond2(old(mw)@, rel@, target)->0,
        final(mw).includes == old(mw).includes,
{
    let ghost w = mw@;
    let b = pop_value(mw);
    let a = pop_value(mw);
    let mut code = String::new();
    push_str(&mut code, "if(");
    push_str(&mut code, a.1.as_str());
    push_str(&mut code, rel);
    push_str(&mut code, b.1.as_str());
    push_str(&mut code, ") goto bb");
    push_decimal(&mut code, target);
    push_char(&mut code, ';');
    assert(code@ =~= "if("@ + w_top(w, 1) + rel@ + w_top(w, 0) + ") goto bb"@ + spec_decimal(target as nat) + seq![';']);
    assert(mw@.vstack =~= w_pop(w, 2).vstack);
    write_line(mw, code.as_str());
}

/// A conditional jump on the value on top of the stack.
fn write_cond1(mw: &mut MethodWriter, rel: &str, value: &str, target: usize)
    requires
        spec_cond1(old(mw)@, rel@, value@, target) is Some,
    ensures
        final(mw)@ == spec_cond1(old(mw)@, rel@, value@, target)->0,
        final(mw).includes == old(mw).includes,
{
    let ghost w = mw@;
    let a = pop_value(mw);
    let mut code = String::new();
    push_str(&mut code, "if(");
    push_str(&mut code, a.1.as_str());
    push_str(&mut code, rel);
    push_str(&mut code, value);
    push_str(&mut code, ") goto bb");
    push_decimal(&mut code, target);
    push_char(&mut code, ';');
    assert(code@ =~= "if("@ + w_top(w, 0) + rel@ + value@ + ") goto bb"@ + spec_decimal(target as nat) + seq![';']);
    write_line(mw, code.as_str());
}

/// An unconditional jump.
fn write_goto(mw: &mut MethodWriter, target: usize)
    ensures
        final(mw)@ == w_line(old(mw)@, "goto bb"@ + spec_decimal(target as nat) + seq![';']),
        final(mw).includes == old(mw).includes,
{
    let mut code = String::new();
    push_str(&mut code, "goto bb");
    push_decimal(&mut code, target);
    push_char(&mut code, ';');
    assert(code@ =~= "goto bb"@ + spec_decimal(target as nat) + seq![';']);
    write_line(mw, code.as_str());
}

/// Pushes an integer constant.
fn write_int_const(mw: &mut MethodWriter, v: i32)
    ensures
        final(mw)@ == w_push(old(mw)@, spec_int_text(v as int), SpecVarType::Int),
        final(mw).includes == old(mw).includes,
{
    let mut text = String::new();
    push_int(&mut text, v);
    push_value(mw, text.as_str(), VariableType::Int);
}

/// Duplicates the top of the stack.
fn write_dup(mw: &mut MethodWriter)
    requires
        old(mw)@.vstack.len() >= 1,
    ensures
        final(mw)@ == w_push(old(mw)@, old(mw)@.vstack.last().1, old(mw)@.vstack.last().0),
        final(mw).includes == old(mw).includes,
{
    let ghost w = mw@;
    let value = pop_value(mw);
    let t2 = value.0.duplicate();
    push_value(mw, value.1.as_str(), t2);
    push_value(mw, value.1.as_str(), value.0);
    assert(mw@.vstack =~= w_push(w, w.vstack.last().1, w.vstack.last().0).vstack);
}

/// A fresh object of a class.
fn write_new(mw: &mut MethodWriter, class: &str)
    requires
        spec_new(old(mw)@, class@) is Some,
        old(mw).includes.wf(),
    ensures
        final(mw)@ == spec_new(old(mw)@, class@)->0,
        final(mw).includes.wf(),
{
    let ghost w = mw@;
    let im = fresh(mw);
    push_value(mw, im.as_str(), VariableType::ObjectRef { name: to_owned_string(class) });
    include_class(mw, class);
    let name = java_class_to_cpp_class(class);
    let mut code = String::new();
    push_str(&mut code, "ManagedPointer<");
    push_str(&mut code, name.as_str());
    push_str(&mut code, "> ");
    push_str(&mut code, im.as_str());
    push_str(&mut code, " = new_managed(");
    push_str(&mut code, name.as_str());
    push_str(&mut code, ",);");
    assert(code@ =~= "ManagedPointer<"@ + cpp_name(class@) + "> "@ + w_fresh(w) + " = new_managed("@ + cpp_name(class@) + ",);"@);
    write_line(mw, code.as_str());
}

/// A class check on the top of the stack.
fn write_checked_cast(mw: &mut MethodWriter, class: &str)
    requires
        spec_checked_cast(old(mw)@, class@) is Some,
        old(mw).includes.wf(),
    ensures
        final(mw)@ == spec_checked_cast(old(mw)@, class@)->0,
        final(mw).includes.wf(),
{
    let ghost w = mw@;
    let value = pop_value(mw);
    push_value(mw, value.1.as_str(), value.0);
    assert(mw@.vstack =~= w.vstack);
    include_class(mw, class);
    let mut code = String::new();
    push_str(&mut code, "if(typeid(*");
    push_str(&mut code, value.1.as_str());
    push_str(&mut code, ") != typeid(");
    push_str(&mut code, java_class_to_cpp_class(class).as_str());
    push_str(&mut code, ")) throw new java::lang::ClassCastException();");
    assert(code@ =~= "if(typeid(*"@ + w_top(w, 0) + ") != typeid("@ + cpp_name(class@) + ")) throw new java::lang::ClassCastException();"@);
    write_line(mw, code.as_str());
}

/// Whether the top of the stack is of a class, into a fresh `int`.
fn write_instance_of(mw: &mut MethodWriter, class: &str)
    requires
        spec_instance_of(old(mw)@, class@) is Some,
        old(mw).includes.wf(),
    ensures
        final(mw)@ == spec_instance_of(old(mw)@, class@)->0,
        final(mw).includes.wf(),
{
    let ghost w = mw@;
    let value = pop_value(mw);
    let im = fresh(mw);
    push_value(mw, im.as_str(), VariableType::Int);
    assert(mw@.vstack =~= w_push(w_bump(w_pop(w, 1)), w_fresh(w), SpecVarType::Int).vstack);
    include_class(mw, class);
    let mut code = String::new();
    push_str(&mut code, "int ");
    push_str(&mut code, im.as_str());
    push_str(&mut code, " = typeid(*");
    push_str(&mut code, value.1.as_str());
    push_str(&mut code, ") == typeid(");
    push_str(&mut code, java_class_to_cpp_class(class).as_str());
    push_str(&mut code, ") ? 1:0;");
    assert(code@ =~= "int "@ + w_fresh(w) + " = typeid(*"@ + w_top(w, 0) + ") == typeid("@ + cpp_name(class@) + ") ? 1:0;"@);
    write_line(mw, code.as_str());
}

/// A fresh array of objects of a class.
fn write_new_array(mw: &mut MethodWriter, class: &str)
    requires
        spec_new_array(old(mw)@, class@) is Some,
        old(mw).includes.wf(),
    ensures
        final(mw)@ == spec_new_array(old(mw)@, class@)->0,
        final(mw).includes.wf(),
{
    let ghost w = mw@;
    let im = fresh(mw);
    let length = pop_value(mw);
    let elem = VariableType::ObjectRef { name: to_owned_string(class) };
    assert(elem@ == SpecVarType::ObjectRef(class@));
    let t = VariableType::ArrayRef(Box::new(elem));
    assert(t@ == SpecVarType::ArrayRef(Box::new(SpecVarType::ObjectRef(class@))));
    push_value(mw, im.as_str(), t);
    assert(mw@.vstack =~= w_push(w_bump(w_pop(w, 1)), w_fresh(w), SpecVarType::ArrayRef(Box::new(SpecVarType::ObjectRef(class@)))).vstack);
    include_class(mw, class);
    let name = java_class_to_cpp_class(class);
    let mut code = String::new();
    push_str(&mut code, "ManagedPointer<RuntimeArray<ManagedPointer<");
    push_str(&mut code, name.as_str());
    push_str(&mut code, ">>> ");
    push_str(&mut code, im.as_str());
    push_str(&mut code, " = managed_from_raw(new RuntimeArray<ManagedPointer<");
    push_str(&mut code, name.as_str());
    push_str(&mut code, ">>(");
    push_str(&mut code, length.1.as_str());
    push_str(&mut code, "));");
    assert(code@ =~= "ManagedPointer<RuntimeArray<ManagedPointer<"@ + cpp_name(class@) + ">>> "@ + w_fresh(w)
        + " = managed_from_raw(new RuntimeArray<ManagedPointer<"@ + cpp_name(class@) + ">>("@ + w_top(w, 0) + "));"@);
    write_line(mw, code.as_str());
}

/// A string constant.
fn write_string_const(mw: &mut MethodWriter, text: &str)
    requires
        spec_string_const(old(mw)@, text@) is Some,
        old(mw).includes.wf(),
    ensures
        final(mw)@ == spec_string_const(old(mw)@, text@)->0,
        final(mw).includes.wf(),
{
    let ghost w = mw@;
    let im = fresh(mw);
    mw.add_include("java_cs_lang_cs_String");
    push_value(mw, im.as_str(), VariableType::ObjectRef { name: to_owned_string("java/lang/String") });
    let mut code = String::new();
    push_str(&mut code, "ManagedPointer<java::lang::String> ");
    push_str(&mut code, im.as_str());
    push_str(&mut code, " = managed_from_raw(new java::lang::String(u\"");
    push_str(&mut code, text);
    push_str(&mut code, "\"));");
    assert(code@ =~= "ManagedPointer<java::lang::String> "@ + w_fresh(w) + " = managed_from_raw(new java::lang::String(u\""@ + text@ + "\"));"@);
    write_line(mw, code.as_str());
}

/// Takes the top `k` values off the stack and gives their names, the
/// deepest first.
fn take_top(mw: &mut MethodWriter, k: usize) -> (r: Vec<String>)
    requires
        old(mw)@.vstack.len() >= k,
    ensures
        r.deep_view() == w_top_names(old(mw)@, k as nat),
        final(mw)@ == w_pop(old(mw)@, k as nat),
        final(mw).includes == old(mw).includes,
{
    let ghost w = mw@;
    let ghost len = w.vstack.len();
    let mut popped: Vec<String> = Vec::new();
    let mut i: usize = 0;
    assert(w.vstack.take(len as int) =~= w.vstack);
    while i < k
        invariant
            i <= k <= len,
            len == w.vstack.len(),
            w == old(mw)@,
            popped@.len() == i,
            mw@ == w_pop(w, i as nat),
            mw.includes == old(mw).includes,
            forall|j: int| 0 <= j < i ==> (#[trigger] popped@[j])@ == w.vstack[len - 1 - j].1,
        decreases k - i,
    {
        let ghost before = mw@;
        let e = pop_value(mw);
        assert(w_pop(before, 1).vstack =~= w_pop(w, (i + 1) as nat).vstack);
        popped.push(e.1);
        i = i + 1;
    }
    let mut r: Vec<String> = Vec::new();
    let mut j: usize = k;
    while j > 0
        invariant
            j <= k <= len,
            len == w.vstack.len(),
            popped@.len() == k,
            r@.len() == k - j,
            forall|i: int| 0 <= i < k ==> (#[trigger] popped@[i])@ == w.vstack[len - 1 - i].1,
            forall|t: int| 0 <= t < k - j ==> (#[trigger] r@[t])@ == w.vstack[len - k + t].1,
        decreases j,
    {
        let name = to_owned_string(popped[j - 1].as_str());
        assert(name@ == w.vstack[len - k + (k - j)].1);
        r.push(name);
        j = j - 1;
    }
    assert(r.deep_view() =~= w_top_names(w, k as nat));
    r
}

/// The strings of `v` from position `start` on, joined by commas.
fn join_strs(v: &Vec<String>, start: usize) -> (r: String)
    requires
        start <= v@.len(),
    ensures
        r@ == join_names(v.deep_view().skip(start as int)),
{
    let ghost ns = v.deep_view();
    let mut out = String::new();
    let mut i: usize = start;
    assert(ns.subrange(start as int, start as int) =~= Seq::<Seq<char>>::empty());
    while i < v.len()
        invariant
            start <= i <= v@.len(),
            ns == v.deep_view(),
            ns.len() == v@.len(),
            out@ == join_names(ns.subrange(start as int, i as int)),
        decreases v@.len() - i,
    {
        let ghost sub = ns.subrange(start as int, i + 1);
        assert(sub.drop_last() =~= ns.subrange(start as int, i as int));
        assert(sub.last() == v@[i as int]@);
        if i > start {
            push_char(&mut out, ',');
        }
        push_str(&mut out, v[i].as_str());
        i = i + 1;
    }
    assert(ns.subrange(start as int, ns.len() as int) =~= ns.skip(start as int));
    out
}

/// Writes a call (see `spec_call`).
fn write_call(mw: &mut MethodWriter, class: &str, cname: &str, nargs: usize, with_obj: bool, member: bool, ret: VariableType)
    requires
        spec_call(old(mw)@, class@, cname@, nargs as nat, with_obj, member, ret@) is Some,
        member ==> with_obj,
        old(mw).includes.wf(),
    ensures
        final(mw)@ == spec_call(old(mw)@, class@, cname@, nargs as nat, with_obj, member, ret@)->0,
        final(mw).includes.wf(),
{
    let ghost w = mw@;
    let depth = mw.vstack.len();
    assert(w.vstack.len() == depth);
    let k: usize = if with_obj { nargs + 1 } else { nargs };
    let names = take_top(mw, k);
    let mut call = String::new();
    if member {
        push_str(&mut call, names[0].as_str());
        push_str(&mut call, "->");
        push_str(&mut call, cname);
        push_char(&mut call, '(');
        let args = join_strs(&names, 1);
        push_str(&mut call, args.as_str());
        push_str(&mut call, ");");
        assert(names.deep_view()[0] == names@[0]@);
    } else {
        let cpp = java_class_to_cpp_class(class);
        push_str(&mut call, cpp.as_str());
        push_str(&mut call, "::");
        push_str(&mut call, cname);
        push_char(&mut call, '(');
        let args = join_strs(&names, 0);
        push_str(&mut call, args.as_str());
        push_str(&mut call, ");");
        assert(names.deep_view().skip(0) =~= names.deep_view());
        include_class(mw, class);
    }
    assert(call@ =~= call_text(w, class@, cname@, k as nat, member));
    let is_void = match ret {
        VariableType::Void => true,
        _ => false,
    };
    if is_void {
        write_line(mw, call.as_str());
    } else {
        let im = fresh(mw);
        let ctype = ret.c_type();
        push_value(mw, im.as_str(), ret);
        let mut code = ctype;
        push_char(&mut code, ' ');
        push_str(&mut code, im.as_str());
        push_str(&mut code, " = ");
        push_str(&mut code, call.as_str());
        assert(code@ =~= spec_c_type(ret@) + seq![' '] + w_fresh(w) + " = "@ + call@);
        write_line(mw, code.as_str());
    }
}

/// Whether a call (see `spec_call`) can be written.
fn call_writable(mw: &MethodWriter, class: &str, cname: &str, nargs: usize, with_obj: bool, member: bool, ret: &VariableType) -> (r: bool)
    ensures
        r == spec_call(mw@, class@, cname@, nargs as nat, with_obj, member, ret@) is Some,
{
    let depth = mw.vstack.len();
    assert(mw@.vstack.len() == depth);
    let is_void = match ret {
        VariableType::Void => true,
        _ => false,
    };
    let room = is_void || mw.im_id < usize::MAX;
    if with_obj {
        nargs < usize::MAX && depth >= nargs + 1 && room
    } else {
        depth >= nargs && room
    }
}

/// The class, method name and descriptor in an interpreter method name.
fn call_target(name: &str) -> (r: Option<(String, String, String)>)
    ensures
        match r {
            Some((c, m, d)) => spec_call_target(name@) == Some((c@, m@, d@)),
            None => spec_call_target(name@) is None,
        },
{
    let p = match find_double_colon(name) {
        Some(p) => p,
        None => return None,
    };
    let n = char_len(name);
    let rest = name.substring_char(p + 2, n);
    assert(rest@ =~= name@.skip(p + 2));
    let q = match find_char(rest, '(') {
        Some(q) => q,
        None => return None,
    };
    let rn = char_len(rest);
    let c = name.substring_char(0, p);
    let m = rest.substring_char(0, q);
    let d = rest.substring_char(q, rn);
    assert(c@ =~= name@.take(p as int));
    assert(m@ =~= rest@.take(q as int));
    assert(d@ =~= rest@.skip(q as int));
    Some((to_owned_string(c), to_owned_string(m), to_owned_string(d)))
}

/// The number of arguments and the result type of a method descriptor.
fn desc_info(d: &str) -> (r: Option<(usize, VariableType)>)
    ensures
        match r {
            Some((n, t)) => desc_call_info(d@) == Some((n as nat, t@)),
            None => desc_call_info(d@) is None,
        },
{
    if !is_ascii_str(d) || !args_desc_readable(d) {
        return None;
    }
    let (args, ret) = method_desc_to_args(d);
    assert(args@.map_values(|t: VariableType| t@).len() == args@.len());
    Some((args.len(), ret))
}

/// Writes a call through an interpreter method name.
fn write_named_call(mw: &mut MethodWriter, name: &str, with_obj: bool, member: bool)
    requires
        spec_named_call(old(mw)@, name@, with_obj, member) is Some,
        member ==> with_obj,
        old(mw).includes.wf(),
    ensures
        final(mw)@ == spec_named_call(old(mw)@, name@, with_obj, member)->0,
        final(mw).includes.wf(),
{
    let (c, m, d) = match call_target(name) {
        Some(t) => t,
        None => return,
    };
    let (n, ret) = match desc_info(d.as_str()) {
        Some(x) => x,
        None => return,
    };
    let cname = mangle_method_name(m.as_str(), d.as_str());
    write_call(mw, c.as_str(), cname.as_str(), n, with_obj, member, ret);
}

/// Whether a call through an interpreter method name can be written.
fn named_call_writable(mw: &MethodWriter, name: &str, with_obj: bool, member: bool) -> (r: bool)
    ensures
        r == spec_named_call(mw@, name@, with_obj, member) is Some,
{
    let (c, m, d) = match call_target(name) {
        Some(t) => t,
        None => return false,
    };
    let (n, ret) = match desc_info(d.as_str()) {
        Some(x) => x,
        None => return false,
    };
    let cname = mangle_method_name(m.as_str(), d.as_str());
    call_writable(mw, c.as_str(), cname.as_str(), n, with_obj, member, &ret)
}

/// Writes a virtual call whose descriptor is `desc`.
fn write_virtual_call(mw: &mut MethodWriter, class: &str, cname: &str, desc: &str)
    requires
        desc_call_info(desc@) matches Some((n, ret)) && spec_call(old(mw)@, class@, cname@, n, true, true, ret) is Some,
        old(mw).includes.wf(),
    ensures
        final(mw)@ == spec_call(old(mw)@, class@, cname@, (desc_call_info(desc@)->0).0, true, true, (desc_call_info(desc@)->0).1)->0,
        final(mw).includes.wf(),
{
    let (n, ret) = match desc_info(desc) {
        Some(x) => x,
        None => return,
    };
    write_call(mw, class, cname, n, true, true, ret);
}

/// Whether a virtual call whose descriptor is `desc` can be written.
fn virtual_call_writable(mw: &MethodWriter, class: &str, cname: &str, desc: &str) -> (r: bool)
    ensures
        r == (desc_call_info(desc@) matches Some((n, ret)) && spec_call(mw@, class@, cname@, n, true, true, ret) is Some),
{
    match desc_info(desc) {
        Some((n, ret)) => call_writable(mw, class, cname, n, true, true, &ret),
        None => false,
    }
}

/// Reads a field of an object of unknown type.
fn write_get_object_field(mw: &mut MethodWriter, field: &str)
    requires
        spec_get_object_field(old(mw)@, field@) is Some,
    ensures
        final(mw)@ == spec_get_object_field(old(mw)@, field@)->0,
        final(mw).includes == old(mw).includes,
{
    let ghost w = mw@;
    let owner = pop_value(mw);
    let im = fresh(mw);
    push_value(mw, im.as_str(), VariableType::ObjectRef { name: String::new() });
    let mut code = String::new();
    push_str(&mut code, "auto ");
    push_str(&mut code, im.as_str());
    push_str(&mut code, " = ");
    push_str(&mut code, owner.1.as_str());
    push_str(&mut code, "->");
    push_str(&mut code, field);
    push_char(&mut code, ';');
    assert(code@ =~= "auto "@ + w_fresh(w) + " = "@ + w_top(w, 0) + "->"@ + field@ + seq![';']);
    assert(mw@.vstack =~= w_push(w_bump(w_pop(w, 1)), w_fresh(w), unknown_obj()).vstack);
    write_line(mw, code.as_str());
}

/// Reads a static of unknown object type.
fn write_get_object_static(mw: &mut MethodWriter, class: &str, name: &str)
    requires
        spec_get_object_static(old(mw)@, class@, name@) is Some,
        old(mw).includes.wf(),
    ensures
        final(mw)@ == spec_get_object_static(old(mw)@, class@, name@)->0,
        final(mw).includes.wf(),
{
    let ghost w = mw@;
    let im = fresh(mw);
    push_value(mw, im.as_str(), VariableType::ObjectRef { name: String::new() });
    include_class(mw, class);
    let mut code = String::new();
    push_str(&mut code, "auto ");
    push_str(&mut code, im.as_str());
    push_str(&mut code, " = ");
    push_str(&mut code, java_class_to_cpp_class(class).as_str());
    push_str(&mut code, "::");
    push_str(&mut code, name);
    push_char(&mut code, ';');
    assert(code@ =~= "auto "@ + w_fresh(w) + " = "@ + cpp_name(class@) + "::"@ + name@ + seq![';']);
    write_line(mw, code.as_str());
}

/// A function of the two values on top of the stack.
fn write_fn2(mw: &mut MethodWriter, t: VariableType, f: &str)
    requires
        spec_fn2(old(mw)@, t@, f@) is Some,
    ensures
        final(mw)@ == spec_fn2(old(mw)@, t@, f@)->0,
        final(mw).includes == old(mw).includes,
{
    let ghost w = mw@;
    let b = pop_value(mw);
    let a = pop_value(mw);
    let im = fresh(mw);
    let ctype = t.c_type();
    push_value(mw, im.as_str(), t);
    let mut code = ctype;
    push_char(&mut code, ' ');
    push_str(&mut code, im.as_str());
    push_str(&mut code, " = ");
    push_str(&mut code, f);
    push_char(&mut code, '(');
    push_str(&mut code, a.1.as_str());
    push_char(&mut code, ',');
    push_str(&mut code, b.1.as_str());
    push_str(&mut code, ");");
    assert(code@ =~= spec_c_type(t@) + seq![' '] + w_fresh(w) + " = "@ + f@ + seq!['('] + w_top(w, 1) + seq![','] + w_top(w, 0) + ");"@);
    assert(mw@.vstack =~= w_push(w_bump(w_pop(w, 2)), w_fresh(w), t@).vstack);
    write_line(mw, code.as_str());
}

/// A three-way comparison of the two values on top of the stack.
fn write_compare(mw: &mut MethodWriter, nan_high: bool)
    requires
        spec_compare(old(mw)@, nan_high) is Some,
    ensures
        final(mw)@ == spec_compare(old(mw)@, nan_high)->0,
        final(mw).includes == old(mw).includes,
{
    let ghost w = mw@;
    let b = pop_value(mw);
    let a = pop_value(mw);
    let im = fresh(mw);
    push_value(mw, im.as_str(), VariableType::Int);
    let mut code = String::new();
    push_str(&mut code, "int ");
    push_str(&mut code, im.as_str());
    push_str(&mut code, " = ");
    push_str(&mut code, a.1.as_str());
    if nan_high {
        push_str(&mut code, " < ");
        push_str(&mut code, b.1.as_str());
        push_str(&mut code, " ? -1 : (");
        push_str(&mut code, a.1.as_str());
        push_str(&mut code, " == ");
        push_str(&mut code, b.1.as_str());
        push_str(&mut code, " ? 0 : 1);");
        assert(code@ =~= "int "@ + w_fresh(w) + " = "@ + w_top(w, 1) + " < "@ + w_top(w, 0) + " ? -1 : ("@ + w_top(w, 1) + " == "@ + w_top(w, 0) + " ? 0 : 1);"@);
    } else {
        push_str(&mut code, " > ");
        push_str(&mut code, b.1.as_str());
        push_str(&mut code, " ? 1 : (");
        push_str(&mut code, a.1.as_str());
        push_str(&mut code, " == ");
        push_str(&mut code, b.1.as_str());
        push_str(&mut code, " ? 0 : -1);");
        assert(code@ =~= "int "@ + w_fresh(w) + " = "@ + w_top(w, 1) + " > "@ + w_top(w, 0) + " ? 1 : ("@ + w_top(w, 1) + " == "@ + w_top(w, 0) + " ? 0 : -1);"@);
    }
    assert(mw@.vstack =~= w_push(w_bump(w_pop(w, 2)), w_fresh(w), SpecVarType::Int).vstack);
    write_line(mw, code.as_str());
}

/// Writes the statement of one instruction and updates the value stack.
#[verifier::rlimit(100)]
#[verifier::spinoff_prover]
pub fn write_op(op: &FatOp, mw: &mut MethodWriter)
    requires
        spec_write_op(op.deep_view(), old(mw)@) is Some,
        old(mw).includes.wf(),
    ensures
        final(mw)@ == spec_write_op(op.deep_view(), old(mw)@)->0,
        final(mw).includes.wf(),
{
    proof {
        reveal_strlit("");
        reveal(spec_write_op);
    }
    match op {
        FatOp::ALoad(id) => write_object_load(mw, *id),
        FatOp::DLoad(id) => write_load(mw, *id, LocalKind::Float, VariableType::Double),
        FatOp::FLoad(id) => write_load(mw, *id, LocalKind::Float, VariableType::Float),
        FatOp::ILoad(id) => write_load(mw, *id, LocalKind::Int, VariableType::Int),
        FatOp::AConstNull => push_value(mw, "nullptr", VariableType::ObjectRef { name: String::new() }),
        FatOp::BConst(v) => write_int_const(mw, *v as i32),
        FatOp::IConst(v) => write_int_const(mw, *v),
        FatOp::SConst(v) => write_int_const(mw, *v as i32),
        FatOp::FGetField(_, f) => write_get_field(mw, f.as_str(), VariableType::Float),
        FatOp::BGetField(_, f) => write_get_field(mw, f.as_str(), VariableType::Byte),
        FatOp::ZGetField(_, f) => write_get_field(mw, f.as_str(), VariableType::Bool),
        FatOp::IGetField(_, f) => write_get_field(mw, f.as_str(), VariableType::Int),
        FatOp::FGetStatic(c, n) => write_get_static(mw, c.as_str(), n.as_str(), VariableType::Float),
        FatOp::AAStore => write_arr_store(mw),
        FatOp::AALoad => write_arr_load(mw, "auto", "", VariableType::ObjectRef { name: String::new() }),
        FatOp::BALoad => write_arr_load(mw, "uint8_t", "(uint8_t)", VariableType::Byte),
        FatOp::ArrayLength => write_array_length(mw),
        FatOp::AStore(id) => write_store(mw, *id, LocalKind::ObjectRef),
        FatOp::FStore(id) => write_store(mw, *id, LocalKind::Float),
        FatOp::IStore(id) => write_store(mw, *id, LocalKind::Int),
        FatOp::APutField(_, f) => write_put_field(mw, f.as_str(), ""),
        FatOp::ZPutField(_, f) => write_put_field(mw, f.as_str(), "(bool)"),
        FatOp::BPutField(_, f) => write_put_field(mw, f.as_str(), "(uint8_t)"),
        FatOp::FPutField(_, f) => write_put_field(mw, f.as_str(), ""),
        FatOp::IPutField(_, f) => write_put_field(mw, f.as_str(), ""),
        FatOp::APutStatic(c, f) => write_put_static(mw, c.as_str(), f.as_str()),
        FatOp::FPutStatic(c, f) => write_put_static(mw, c.as_str(), f.as_str()),
        FatOp::IInc(id, by) => write_iinc(mw, *id, *by),
        FatOp::FAdd => write_arith(mw, VariableType::Float, "+"),
        FatOp::FSub => write_arith(mw, VariableType::Float, "-"),
        FatOp::FMul => write_arith(mw, VariableType::Float, "*"),
        FatOp::FDiv => write_arith(mw, VariableType::Float, "/"),
        FatOp::IAdd => write_arith(mw, VariableType::Int, "+"),
        FatOp::ISub => write_arith(mw, VariableType::Int, "-"),
        FatOp::IMul => write_arith(mw, VariableType::Int, "*"),
        FatOp::IDiv => write_arith(mw, VariableType::Int, "/"),
        FatOp::IShl => write_arith(mw, VariableType::Int, "<<"),
        FatOp::IRem => write_arith(mw, VariableType::Int, "%"),
        FatOp::LAdd => write_arith(mw, VariableType::Long, "+"),
        FatOp::LSub => write_arith(mw, VariableType::Long, "-"),
        FatOp::D2F => write_convert(mw, VariableType::Float),
        FatOp::F2D => write_convert(mw, VariableType::Double),
        FatOp::I2L => write_convert(mw, VariableType::Long),
        FatOp::L2I => write_convert(mw, VariableType::Int),
        FatOp::AReturn | FatOp::FReturn | FatOp::IReturn => write_return_value(mw),
        FatOp::Return => write_line(mw, "return;"),
        FatOp::IfIGreterEqual(t) => write_cond2(mw, ">=", *t),
        FatOp::IfICmpNe(t) => write_cond2(mw, "!=", *t),
        FatOp::IfICmpEq(t) => write_cond2(mw, "==", *t),
        FatOp::IfICmpLess(t) => write_cond2(mw, "<", *t),
        FatOp::IfZero(t) => write_cond1(mw, "==", "0", *t),
        FatOp::IfNotZero(t) => write_cond1(mw, "!=", "0", *t),
        FatOp::IfLessEqualZero(t) => write_cond1(mw, "<=", "0", *t),
        FatOp::IfGreterEqualZero(t) => write_cond1(mw, ">=", "0", *t),
        FatOp::IfNotNull(t) => write_cond1(mw, "!=", "nullptr", *t),
        FatOp::GoTo(t) => write_goto(mw, *t),
        FatOp::Dup => write_dup(mw),
        FatOp::Pop => {
            pop_value(mw);
        },
        FatOp::AGetField(_, f) => write_get_object_field(mw, f.as_str()),
        FatOp::AGetStatic(c, n) => write_get_object_static(mw, c.as_str(), n.as_str()),
        FatOp::DAdd => write_arith(mw, VariableType::Double, "+"),
        FatOp::DSub => write_arith(mw, VariableType::Double, "-"),
        FatOp::DMul => write_arith(mw, VariableType::Double, "*"),
        FatOp::DDiv => write_arith(mw, VariableType::Double, "/"),
        FatOp::LMul => write_arith(mw, VariableType::Long, "*"),
        FatOp::LDiv => write_arith(mw, VariableType::Long, "/"),
        FatOp::LRem => write_arith(mw, VariableType::Long, "%"),
        FatOp::FRem => write_fn2(mw, VariableType::Float, "fmod"),
        FatOp::I2F => write_convert(mw, VariableType::Float),
        FatOp::FCmpL | FatOp::DCmpL => write_compare(mw, false),
        FatOp::FCmpG | FatOp::DCmpG => write_compare(mw, true),
        FatOp::InvokeStatic(name, _) => write_named_call(mw, name.as_str(), false, false),
        FatOp::InvokeSpecial(name, _) => write_named_call(mw, name.as_str(), true, false),
        FatOp::InvokeInterface(name, _) => write_named_call(mw, name.as_str(), true, true),
        FatOp::InvokeVirtual(c, m, _, d) => write_virtual_call(mw, c.as_str(), m.as_str(), d.as_str()),
        FatOp::New(c) => write_new(mw, c.as_str()),
        FatOp::CheckedCast(c) => write_checked_cast(mw, c.as_str()),
        FatOp::InstanceOf(c) => write_instance_of(mw, c.as_str()),
        FatOp::ANewArray(c) => write_new_array(mw, c.as_str()),
        FatOp::StringConst(text) => write_string_const(mw, text.as_str()),
        _ => {},
    }
}

/// Writing an instruction leaves the indentation and the signature as they
/// are.
#[verifier::rlimit(100)]
#[verifier::spinoff_prover]
proof fn lemma_write_op_keeps_layout(op: SpecFatOp, w: WriterView)
    ensures
        spec_write_op(op, w) matches Some(w2) ==> w2.ident_level == w.ident_level && w2.sig == w.sig,
{
    reveal(spec_write_op);
}

/// What writing instructions in order does to the writer; `None` when one
/// of them cannot be written.
pub open spec fn spec_write_ops(ops: Seq<SpecFatOp>, w: WriterView) -> Option<WriterView>
    decreases ops.len(),
{
    if ops.len() == 0 {
        Some(w)
    } else {
        match spec_write_ops(ops.drop_last(), w) {
            Some(w1) => spec_write_op(ops.last(), w1),
            None => None,
        }
    }
}

proof fn lemma_write_ops_keep_layout(ops: Seq<SpecFatOp>, w: WriterView)
    ensures
        spec_write_ops(ops, w) matches Some(w2) ==> w2.ident_level == w.ident_level && w2.sig == w.sig,
    decreases ops.len(),
{
    if ops.len() > 0 {
        lemma_write_ops_keep_layout(ops.drop_last(), w);
        if let Some(w1) = spec_write_ops(ops.drop_last(), w) {
            lemma_write_op_keeps_layout(ops.last(), w1);
        }
    }
}

/// A basic block: a run of instructions entered only at its start, which
/// is instruction `starts` of its method.
pub struct BasicBlock {
    pub ops: Vec<FatOp>,
    pub starts: usize,
}

/// What writing a basic block starting at instruction `starts` does: the
/// label `bb<starts>:`, then a scope holding the statements of its
/// instructions in order.
pub open spec fn spec_block_codegen(ops: Seq<SpecFatOp>, starts: usize, w: WriterView) -> Option<WriterView> {
    if w.ident_level + 1 > usize::MAX {
        None
    } else {
        let w1 = WriterView {
            code: w.code + tabs(w.ident_level) + seq!['b', 'b'] + spec_decimal(starts as nat) + seq![':', '\n']
                + tabs(w.ident_level) + seq!['{', '\n'],
            ident_level: w.ident_level + 1,
            ..w
        };
        match spec_write_ops(ops, w1) {
            Some(w2) => Some(WriterView {
                code: w2.code + tabs(w.ident_level) + seq!['}', '\n'],
                ident_level: w.ident_level,
                ..w2
            }),
            None => None,
        }
    }
}

impl BasicBlock {
    /// The instruction the block starts at.
    pub fn starts(&self) -> (r: usize)
        ensures
            r == self.starts,
    {
        self.starts
    }

    /// Writes the block: its label, then its instructions in a scope of
    /// their own.
    pub fn codegen(&self, mw: &mut MethodWriter)
        requires
            spec_block_codegen(self.ops.deep_view(), self.starts, old(mw)@) is Some,
            old(mw).includes.wf(),
        ensures
            final(mw)@ == spec_block_codegen(self.ops.deep_view(), self.starts, old(mw)@)->0,
            final(mw).includes.wf(),
    {
        self.try_codegen(mw);
    }
}

/// Whether some instruction of `ops` branches or jumps to instruction `idx`.
pub open spec fn is_jump_target(ops: Seq<SpecFatOp>, idx: int) -> bool {
    exists|j: int| 0 <= j < ops.len() && #[trigger] spec_jump_target(ops[j]) == Some(idx as usize)
}

/// The blocks closed after looking at the first `k` instructions, and the
/// start of the open one: a block closes before each instruction that is a
/// jump target, unless it would be empty.
pub open spec fn bb_scan(ops: Seq<SpecFatOp>, k: nat) -> (Seq<(usize, Seq<SpecFatOp>)>, nat)
    decreases k,
{
    if k == 0 {
        (Seq::empty(), 0)
    } else {
        let (spans, beg) = bb_scan(ops, (k - 1) as nat);
        if is_jump_target(ops, k - 1) && beg < k - 1 {
            (spans.push((beg as usize, ops.subrange(beg as int, k - 1))), (k - 1) as nat)
        } else {
            (spans, beg)
        }
    }
}

/// The basic blocks of a method's instructions, each with the instruction
/// it starts at: a block ends before each jump target (an empty block is
/// never made), and the last one runs to the end.
pub open spec fn spec_bb_tree(ops: Seq<SpecFatOp>) -> Seq<(usize, Seq<SpecFatOp>)> {
    let (spans, beg) = bb_scan(ops, ops.len());
    if beg < ops.len() {
        spans.push((beg as usize, ops.subrange(beg as int, ops.len() as int)))
    } else {
        spans
    }
}

proof fn lemma_bb_scan_start(ops: Seq<SpecFatOp>, k: nat)
    ensures
        bb_scan(ops, k).1 <= k,
    decreases k,
{
    if k > 0 {
        lemma_bb_scan_start(ops, (k - 1) as nat);
    }
}

/// The view of a list of blocks.
pub open spec fn blocks_view(v: Seq<BasicBlock>) -> Seq<(usize, Seq<SpecFatOp>)> {
    v.map_values(|b: BasicBlock| (b.starts, b.ops.deep_view()))
}

/// Whether `x` occurs in `v`.
fn contains_index(v: &Vec<usize>, x: usize) -> (r: bool)
    ensures
        r == v@.contains(x),
{
    let mut i: usize = 0;
    while i < v.len()
        invariant
            i <= v@.len(),
            forall|j: int| 0 <= j < i ==> v@[j] != x,
        decreases v@.len() - i,
    {
        if v[i] == x {
            return true;
        }
        i = i + 1;
    }
    false
}

/// A copy of the instructions `ops[beg..end]`.
fn copy_ops(ops: &[FatOp], beg: usize, end: usize) -> (r: Vec<FatOp>)
    requires
        beg <= end <= ops@.len(),
    ensures
        r.deep_view() == ops.deep_view().subrange(beg as int, end as int),
{
    let mut r: Vec<FatOp> = Vec::new();
    let mut i: usize = beg;
    while i < end
        invariant
            beg <= i <= end <= ops@.len(),
            r.deep_view() == ops.deep_view().subrange(beg as int, i as int),
        decreases end - i,
    {
        let ghost before = r.deep_view();
        let op = ops[i].duplicate();
        assert(op.deep_view() == ops.deep_view()[i as int]);
        r.push(op);
        assert(r.deep_view() =~= before.push(op.deep_view()));
        assert(r.deep_view() =~= ops.deep_view().subrange(beg as int, i + 1));
        i = i + 1;
    }
    r
}

/// Splits a method's instructions into basic blocks: a block ends before
/// each instruction some branch or jump goes to.
pub fn fat_ops_to_bb_tree(fatops: &[FatOp]) -> (r: Vec<BasicBlock>)
    ensures
        blocks_view(r@) == spec_bb_tree(fatops.deep_view()),
{
    let ghost ops = fatops.deep_view();
    let mut jump_targets: Vec<usize> = Vec::new();
    let mut j: usize = 0;
    while j < fatops.len()
        invariant
            j <= fatops@.len(),
            ops == fatops.deep_view(),
            ops.len() == fatops@.len(),
            forall|t: usize| jump_targets@.contains(t) <==>
                exists|k: int| 0 <= k < j && #[trigger] spec_jump_target(ops[k]) == Some(t),
        decreases fatops@.len() - j,
    {
        assert(ops[j as int] == fatops@[j as int].deep_view());
        let ghost before = jump_targets@;
        match fatops[j].jump_target() {
            Some(t) => {
                jump_targets.push(t);
                assert forall|u: usize| jump_targets@.contains(u) <==>
                    exists|k: int| 0 <= k < j + 1 && #[trigger] spec_jump_target(ops[k]) == Some(u) by {
                    if jump_targets@.contains(u) {
                        if u != t {
                            let m = choose|m: int| 0 <= m < jump_targets@.len() && jump_targets@[m] == u;
                            assert(before[m] == u);
                            assert(before.contains(u));
                        }
                    }
                    if exists|k: int| 0 <= k < j + 1 && #[trigger] spec_jump_target(ops[k]) == Some(u) {
                        if u != t {
                            let k = choose|k: int| 0 <= k < j + 1 && #[trigger] spec_jump_target(ops[k]) == Some(u);
                            assert(k < j);
                            assert(before.contains(u));
                            let m = choose|m: int| 0 <= m < before.len() && before[m] == u;
                            assert(jump_targets@[m] == u);
                        } else {
                            assert(jump_targets@[before.len() as int] == u);
                        }
                    }
                }
            },
            None => {
                assert forall|u: usize| jump_targets@.contains(u) <==>
                    exists|k: int| 0 <= k < j + 1 && #[trigger] spec_jump_target(ops[k]) == Some(u) by {
                    if exists|k: int| 0 <= k < j + 1 && #[trigger] spec_jump_target(ops[k]) == Some(u) {
                        let k = choose|k: int| 0 <= k < j + 1 && #[trigger] spec_jump_target(ops[k]) == Some(u);
                        assert(k != j);
                    }
                }
            },
        }
        j = j + 1;
    }
    let mut blocks: Vec<BasicBlock> = Vec::new();
    let mut bb_beg: usize = 0;
    let mut index: usize = 0;
    while index < fatops.len()
        invariant
            index <= fatops@.len(),
            ops == fatops.deep_view(),
            ops.len() == fatops@.len(),
            forall|t: usize| jump_targets@.contains(t) <==>
                exists|k: int| 0 <= k < ops.len() && #[trigger] spec_jump_target(ops[k]) == Some(t),
            (blocks_view(blocks@), bb_beg as nat) == bb_scan(ops, index as nat),
        decreases fatops@.len() - index,
    {
        proof {
            lemma_bb_scan_start(ops, index as nat);
        }
        let is_target = contains_index(&jump_targets, index);
        assert(is_target == is_jump_target(ops, index as int)) by {
            if is_jump_target(ops, index as int) {
                let k = choose|k: int| 0 <= k < ops.len() && #[trigger] spec_jump_target(ops[k]) == Some(index as usize);
                assert(jump_targets@.contains(index));
            }
        }
        if is_target && bb_beg < index {
            let span = copy_ops(fatops, bb_beg, index);
            let ghost before = blocks@;
            blocks.push(BasicBlock { ops: span, starts: bb_beg });
            assert(blocks_view(blocks@) =~= blocks_view(before).push((bb_beg, ops.subrange(bb_beg as int, index as int))));
            bb_beg = index;
        }
        index = index + 1;
    }
    proof {
        lemma_bb_scan_start(ops, ops.len());
    }
    if bb_beg < fatops.len() {
        let span = copy_ops(fatops, bb_beg, fatops.len());
        let ghost before = blocks@;
        blocks.push(BasicBlock { ops: span, starts: bb_beg });
        assert(blocks_view(blocks@) =~= blocks_view(before).push((bb_beg, ops.subrange(bb_beg as int, ops.len() as int))));
    }
    blocks
}

/// The instructions whose writability `op_writable` decides itself.
pub open spec fn decided_apart(op: SpecFatOp) -> bool {
    match op {
        SpecFatOp::AGetField(_, _) | SpecFatOp::AGetStatic(_, _) | SpecFatOp::DAdd | SpecFatOp::DSub
            | SpecFatOp::DMul | SpecFatOp::DDiv | SpecFatOp::LMul | SpecFatOp::LDiv | SpecFatOp::LRem
            | SpecFatOp::FRem | SpecFatOp::I2F | SpecFatOp::FCmpL | SpecFatOp::DCmpL | SpecFatOp::FCmpG
            | SpecFatOp::DCmpG | SpecFatOp::InvokeStatic(_, _) | SpecFatOp::InvokeSpecial(_, _)
            | SpecFatOp::InvokeInterface(_, _) | SpecFatOp::InvokeVirtual(_, _, _, _) => true,
        _ => false,
    }
}

/// Whether `write_op` can write an instruction with the writer as it is.
#[verifier::rlimit(100)]
#[verifier::spinoff_prover]
pub fn op_writable(op: &FatOp, mw: &MethodWriter) -> (r: bool)
    ensures
        r == spec_write_op(op.deep_view(), mw@) is Some,
{
    proof {
        reveal(spec_write_op);
    }
    let n = mw.vstack.len();
    let room = mw.im_id < usize::MAX;
    assert(mw@.vstack.len() == n);
    match op {
        FatOp::AGetField(_, _) => n >= 1 && room,
        FatOp::AGetStatic(_, _) => room,
        FatOp::DAdd | FatOp::DSub | FatOp::DMul | FatOp::DDiv | FatOp::LMul | FatOp::LDiv | FatOp::LRem
            | FatOp::FRem => n >= 2 && room,
        FatOp::I2F => n >= 1 && room,
        FatOp::FCmpL | FatOp::DCmpL | FatOp::FCmpG | FatOp::DCmpG => n >= 2 && room,
        FatOp::InvokeStatic(name, _) => named_call_writable(mw, name.as_str(), false, false),
        FatOp::InvokeSpecial(name, _) => named_call_writable(mw, name.as_str(), true, false),
        FatOp::InvokeInterface(name, _) => named_call_writable(mw, name.as_str(), true, true),
        FatOp::InvokeVirtual(c, m, _, d) => virtual_call_writable(mw, c.as_str(), m.as_str(), d.as_str()),
        _ => plain_op_writable(op, mw),
    }
}

/// Whether `write_op` can write an instruction that is none of those
/// `op_writable` decides itself.
#[verifier::rlimit(100)]
#[verifier::spinoff_prover]
fn plain_op_writable(op: &FatOp, mw: &MethodWriter) -> (r: bool)
    requires
        !decided_apart(op.deep_view()),
    ensures
        r == spec_write_op(op.deep_view(), mw@) is Some,
{
    proof {
        reveal(spec_write_op);
    }
    let n = mw.vstack.len();
    let room = mw.im_id < usize::MAX;
    assert(mw@.vstack.len() == n);
    match op {
        FatOp::ALoad(_) | FatOp::DLoad(_) | FatOp::FLoad(_) | FatOp::ILoad(_) => true,
        FatOp::AConstNull | FatOp::BConst(_) | FatOp::IConst(_) | FatOp::SConst(_) => true,
        FatOp::IInc(_, _) | FatOp::Return | FatOp::GoTo(_) => true,
        FatOp::FGetField(_, _) | FatOp::BGetField(_, _) | FatOp::ZGetField(_, _) | FatOp::IGetField(_, _) => n >= 1 && room,
        FatOp::FGetStatic(_, _) => room,
        FatOp::AAStore => n >= 3,
        FatOp::AALoad | FatOp::BALoad => n >= 2 && room,
        FatOp::ArrayLength => n >= 1 && room,
        FatOp::AStore(_) | FatOp::FStore(_) | FatOp::IStore(_) => n >= 1,
        FatOp::APutField(_, _) | FatOp::ZPutField(_, _) | FatOp::BPutField(_, _) | FatOp::FPutField(_, _)
            | FatOp::IPutField(_, _) => n >= 2,
        FatOp::APutStatic(_, _) | FatOp::FPutStatic(_, _) => n >= 1,
        FatOp::FAdd | FatOp::FSub | FatOp::FMul | FatOp::FDiv | FatOp::IAdd | FatOp::ISub | FatOp::IMul
            | FatOp::IDiv | FatOp::IShl | FatOp::IRem | FatOp::LAdd | FatOp::LSub => n >= 2 && room,
        FatOp::D2F | FatOp::F2D | FatOp::I2L | FatOp::L2I => n >= 1 && room,
        FatOp::AReturn | FatOp::FReturn | FatOp::IReturn => n >= 1,
        FatOp::IfIGreterEqual(_) | FatOp::IfICmpNe(_) | FatOp::IfICmpEq(_) | FatOp::IfICmpLess(_) => n >= 2,
        FatOp::IfZero(_) | FatOp::IfNotZero(_) | FatOp::IfLessEqualZero(_) | FatOp::IfGreterEqualZero(_)
            | FatOp::IfNotNull(_) => n >= 1,
        FatOp::Dup | FatOp::Pop => n >= 1,
        FatOp::New(_) | FatOp::StringConst(_) => room,
        FatOp::CheckedCast(_) => n >= 1,
        FatOp::InstanceOf(_) | FatOp::ANewArray(_) => n >= 1 && room,
        _ => false,
    }
}

/// Once an instruction cannot be written, the instructions after it are
/// not written either.
proof fn lemma_write_ops_stuck(ops: Seq<SpecFatOp>, w: WriterView, k: nat)
    requires
        k <= ops.len(),
        spec_write_ops(ops.take(k as int), w) is None,
    ensures
        spec_write_ops(ops, w) is None,
    decreases ops.len() - k,
{
    if k < ops.len() {
        assert(ops.take(k as int + 1).drop_last() =~= ops.take(k as int));
        lemma_write_ops_stuck(ops, w, k + 1);
    } else {
        assert(ops.take(k as int) =~= ops);
    }
}

impl BasicBlock {
    /// Writes the block as `codegen` does when it can be written, and says
    /// whether it could; where it could not, the writer is left part-way.
    pub fn try_codegen(&self, mw: &mut MethodWriter) -> (r: bool)
        requires
            old(mw).includes.wf(),
        ensures
            r == spec_block_codegen(self.ops.deep_view(), self.starts, old(mw)@) is Some,
            r ==> final(mw)@ == spec_block_codegen(self.ops.deep_view(), self.starts, old(mw)@)->0,
            final(mw).includes.wf(),
    {
        if mw.ident_level == usize::MAX {
            return false;
        }
        let ghost w = mw@;
        let ghost ops = self.ops.deep_view();
        mw.begin_bb(self.starts);
        mw.begin_scope();
        let ghost w1 = mw@;
        assert(w1.code =~= w.code + tabs(w.ident_level) + seq!['b', 'b'] + spec_decimal(self.starts as nat) + seq![':', '\n']
            + tabs(w.ident_level) + seq!['{', '\n']);
        let mut i: usize = 0;
        while i < self.ops.len()
            invariant
                i <= self.ops@.len(),
                ops == self.ops.deep_view(),
                ops.len() == self.ops@.len(),
                spec_write_ops(ops.take(i as int), w1) == Some(mw@),
                mw.includes.wf(),
                w.ident_level + 1 <= usize::MAX,
                w == old(mw)@,
                w1 == (WriterView {
                    code: w.code + tabs(w.ident_level) + seq!['b', 'b'] + spec_decimal(self.starts as nat) + seq![':', '\n']
                        + tabs(w.ident_level) + seq!['{', '\n'],
                    ident_level: w.ident_level + 1,
                    ..w
                }),
            decreases self.ops@.len() - i,
        {
            proof {
                assert(ops.take(i + 1).drop_last() =~= ops.take(i as int));
                assert(ops[i as int] == self.ops@[i as int].deep_view());
            }
            if !op_writable(&self.ops[i], mw) {
                proof {
                    assert(ops.take(i + 1).last() == ops[i as int]);
                    assert(spec_write_ops(ops.take(i + 1), w1) is None);
                    lemma_write_ops_stuck(ops, w1, (i + 1) as nat);
                }
                return false;
            }
            write_op(&self.ops[i], mw);
            i = i + 1;
        }
        assert(ops.take(ops.len() as int) =~= ops);
        proof {
            lemma_write_ops_keep_layout(ops, w1);
        }
        mw.end_scope();
        true
    }
}

/// What writing basic blocks in order does to the writer; `None` when one
/// of them cannot be written.
pub open spec fn spec_write_blocks(blocks: Seq<(usize, Seq<SpecFatOp>)>, w: WriterView) -> Option<WriterView>
    decreases blocks.len(),
{
    if blocks.len() == 0 {
        Some(w)
    } else {
        match spec_write_blocks(blocks.drop_last(), w) {
            Some(w1) => spec_block_codegen(blocks.last().1, blocks.last().0, w1),
            None => None,
        }
    }
}

/// A fresh writer for method `m`, as `MethodWriter::new` makes it.
pub open spec fn initial_view(m: Method) -> WriterView {
    WriterView {
        code: Seq::empty(),
        local_decl: Seq::empty(),
        locals: Seq::empty(),
        types: m.args@.map_values(|t: VariableType| Some(t@)),
        vstack: Seq::empty(),
        im_id: 0,
        known: seq![Seq::<char>::empty()],
        inc_text: Seq::empty(),
        ident_level: 1,
        sig: Seq::empty(),
    }
}

/// Whether `m` is a program's entry point: the static
/// `main(String[])` returning nothing.
pub open spec fn is_main_method(m: Method) -> bool {
    &&& !m.is_virtual
    &&& m.name@ == "main__arr_java_cs_lang_cs_String__V"@
    &&& m.ret_val@ == SpecVarType::Void
    &&& m.args@.len() == 1
    &&& m.args@[0]@ == SpecVarType::ArrayRef(Box::new(SpecVarType::ObjectRef("java_cs_lang_cs_String"@)))
}

/// The C++ `main` that calls the entry point `name` of class `class` with
/// the program's arguments.
pub open spec fn main_text(class: Seq<char>, name: Seq<char>) -> Seq<char> {
    "int main(int argc, char** argv){\n\t//Skip fist exec path\n\targc -= 1;argv += 1;\n\tManagedPointer<RuntimeArray<ManagedPointer<java::lang::String>>> args = managed_from_raw(new RuntimeArray<ManagedPointer<java::lang::String>>(argc));\n\tfor(int arg = 0; arg < argc; arg++){\n\t\targs->Set(arg,java::lang::String::from_cstring(argv[arg]));\n\t}\n\t"@
        + class + "::"@ + name + "(args);\n\treturn 0;\n}\n"@
}

/// The declaration of `this` in a virtual method of class `class`.
pub open spec fn this_decl(class: Seq<char>) -> Seq<char> {
    "\tManagedPointer<"@ + class + "> l0a = managed_from_this("@ + class + ");\n"@
}

/// The writer for method `m` before its blocks are written: its signature
/// set, the header of its class (named by the class's C++ name with `::`
/// turned into `_cs_`) included, and for a virtual method `this`
/// declared.
pub open spec fn prepared_view(m: Method) -> WriterView {
    let w0 = initial_view(m);
    let sig = spec_method_sig_args(m.class_name@ + "::"@ + m.name@, m);
    let w1 = w_include(WriterView { sig, ..w0 }, replace_double_colon(m.class_name@));
    if m.is_virtual {
        WriterView { locals: w1.locals.push("loc0a"@), local_decl: w1.local_decl + this_decl(m.class_name@), ..w1 }
    } else {
        w1
    }
}

/// The C++ definition of method `m`: for an entry point first a C++ `main`
/// calling it, then its includes, its signature and its body, whose basic
/// blocks are written in order. `None` when an argument type has no local
/// name postfix or an instruction cannot be written.
pub open spec fn spec_method_impl(m: Method) -> Option<Seq<char>> {
    if (exists|i: int| 0 <= i < m.args@.len() && !has_postfix((#[trigger] m.args@[i])@)) || m.args@.len() >= usize::MAX - 1 {
        None
    } else {
        let w2 = prepared_view(m);
        match spec_write_blocks(spec_bb_tree(m.ops.deep_view()), w2) {
            Some(w3) => Some(
                (if is_main_method(m) { main_text(m.class_name@, m.name@) } else { Seq::empty() })
                    + w3.inc_text + w3.sig + seq!['{', '\n'] + w3.local_decl + w3.code + seq!['}'],
            ),
            None => None,
        }
    }
}

/// Whether the method is a program's entry point.
fn check_main(m: &Method) -> (r: bool)
    ensures
        r == is_main_method(*m),
{
    if m.is_virtual || !str_eq(m.name.as_str(), "main__arr_java_cs_lang_cs_String__V") || m.args.len() != 1 {
        return false;
    }
    let ret_void = match &m.ret_val {
        VariableType::Void => true,
        _ => false,
    };
    let arg_ok = match &m.args[0] {
        VariableType::ArrayRef(inner) => match &**inner {
            VariableType::ObjectRef { name } => str_eq(name.as_str(), "java_cs_lang_cs_String"),
            _ => false,
        },
        _ => false,
    };
    proof {
        let a = m.args@[0];
        if let VariableType::ArrayRef(inner) = a {
            assert(a@ == SpecVarType::ArrayRef(Box::new((*inner)@)));
            if let VariableType::ObjectRef { name } = *inner {
                assert((*inner)@ == SpecVarType::ObjectRef(name@));
            }
        }
    }
    ret_void && arg_ok
}

/// Whether every argument type has a local name postfix.
fn args_have_postfix(args: &Vec<VariableType>) -> (r: bool)
    ensures
        r == forall|i: int| 0 <= i < args@.len() ==> has_postfix((#[trigger] args@[i])@),
{
    let mut i: usize = 0;
    while i < args.len()
        invariant
            i <= args@.len(),
            forall|j: int| 0 <= j < i ==> has_postfix((#[trigger] args@[j])@),
        decreases args@.len() - i,
    {
        let ok = match &args[i] {
            VariableType::Void | VariableType::Char => false,
            _ => true,
        };
        if !ok {
            return false;
        }
        i = i + 1;
    }
    true
}

/// The C++ definition of a method: for the program's entry point a C++
/// `main` that calls it first, then the method with its includes, its
/// signature, its locals and its basic blocks. `None` when an argument type
/// has no local name postfix or an instruction cannot be written.
pub fn create_method_impl(method: &Method) -> (r: Option<String>)
    ensures
        r is Some == spec_method_impl(*method) is Some,
        r matches Some(s) ==> s@ == spec_method_impl(*method)->0,
{
    if !args_have_postfix(&method.args) || method.args.len() >= usize::MAX - 1 {
        return None;
    }
    let ops = method.ops();
    assert(ops.deep_view() =~= method.ops.deep_view());
    let blocks = fat_ops_to_bb_tree(ops);
    let ghost bviews = spec_bb_tree(method.ops.deep_view());
    let mut writer = MethodWriter::new(&method.args);
    let mut full_name = to_owned_string(method.class_name());
    push_str(&mut full_name, "::");
    push_str(&mut full_name, method.name());
    let mut fn_sig = String::new();
    push_method_sig_args(&mut fn_sig, full_name.as_str(), method);
    let mut out = String::new();
    if check_main(method) {
        push_str(&mut out, "int main(int argc, char** argv){\n\t//Skip fist exec path\n\targc -= 1;argv += 1;\n\tManagedPointer<RuntimeArray<ManagedPointer<java::lang::String>>> args = managed_from_raw(new RuntimeArray<ManagedPointer<java::lang::String>>(argc));\n\tfor(int arg = 0; arg < argc; arg++){\n\t\targs->Set(arg,java::lang::String::from_cstring(argv[arg]));\n\t}\n\t");
        push_str(&mut out, method.class_name());
        push_str(&mut out, "::");
        push_str(&mut out, method.name());
        push_str(&mut out, "(args);\n\treturn 0;\n}\n");
    }
    let ghost prefix = out@;
    assert(prefix =~= (if is_main_method(*method) { main_text(method.class_name@, method.name@) } else { Seq::<char>::empty() }));
    writer.set_sig(fn_sig.as_str());
    let header = cpp_class_to_path(method.class_name());
    writer.add_include(header.as_str());
    if method.is_virtual() {
        let mut decl = String::new();
        push_str(&mut decl, "\tManagedPointer<");
        push_str(&mut decl, method.class_name());
        push_str(&mut decl, "> l0a = managed_from_this(");
        push_str(&mut decl, method.class_name());
        push_str(&mut decl, ");\n");
        assert(decl@ =~= this_decl(method.class_name@));
        writer.push_locals("loc0a", decl.as_str());
    }
    let ghost w2 = writer@;
    proof {
        let w0 = initial_view(*method);
        assert(full_name@ =~= method.class_name@ + "::"@ + method.name@);
        assert(w2.types =~= w0.types);
        assert(w2.vstack =~= w0.vstack);
        if method.is_virtual {
            assert(w2.locals =~= seq!["loc0a"@]);
        } else {
            assert(w2.locals =~= Seq::<Seq<char>>::empty());
        }
        let pv = prepared_view(*method);
        assert(w2.code == pv.code);
        assert(w2.local_decl == pv.local_decl);
        assert(w2.locals == pv.locals);
        assert(w2.types == pv.types);
        assert(w2.vstack == pv.vstack);
        assert(w2.im_id == pv.im_id);
        assert(w2.known == pv.known);
        assert(w2.inc_text == pv.inc_text);
        assert(w2.ident_level == pv.ident_level);
        assert(w2.sig == pv.sig);
        assert(w2 == prepared_view(*method));
    }
    let mut k: usize = 0;
    while k < blocks.len()
        invariant
            k <= blocks@.len(),
            blocks_view(blocks@) == bviews,
            bviews.len() == blocks@.len(),
            spec_write_blocks(bviews.take(k as int), w2) == Some(writer@),
            writer.includes.wf(),
            w2 == prepared_view(*method),
            bviews == spec_bb_tree(method.ops.deep_view()),
            prefix == out@,
            prefix == (if is_main_method(*method) { main_text(method.class_name@, method.name@) } else { Seq::<char>::empty() }),
            forall|i: int| 0 <= i < method.args@.len() ==> has_postfix((#[trigger] method.args@[i])@),
            method.args@.len() < usize::MAX - 1,
        decreases blocks@.len() - k,
    {
        proof {
            assert(bviews.take(k + 1).drop_last() =~= bviews.take(k as int));
            assert(bviews.take(k + 1).last() == bviews[k as int]);
            assert(bviews[k as int] == (blocks@[k as int].starts, blocks@[k as int].ops.deep_view()));
        }
        if !blocks[k].try_codegen(&mut writer) {
            proof {
                assert(spec_write_blocks(bviews.take(k + 1), w2) is None);
                lemma_write_blocks_stuck(bviews, w2, (k + 1) as nat);
            }
            return None;
        }
        k = k + 1;
    }
    assert(bviews.take(bviews.len() as int) =~= bviews);
    let body = writer.final_code();
    push_str(&mut out, body.as_str());
    Some(out)
}

/// Once a block cannot be written, the blocks after it are not written
/// either.
proof fn lemma_write_blocks_stuck(blocks: Seq<(usize, Seq<SpecFatOp>)>, w: WriterView, k: nat)
    requires
        k <= blocks.len(),
        spec_write_blocks(blocks.take(k as int), w) is None,
    ensures
        spec_write_blocks(blocks, w) is None,
    decreases blocks.len() - k,
{
    if k < blocks.len() {
        assert(blocks.take(k as int + 1).drop_last() =~= blocks.take(k as int));
        lemma_write_blocks_stuck(blocks, w, k + 1);
    } else {
        assert(blocks.take(k as int) =~= blocks);
    }
}

/// The instructions of blocks, one block after another.
pub open spec fn flatten_blocks(bs: Seq<(usize, Seq<SpecFatOp>)>) -> Seq<SpecFatOp>
    decreases bs.len(),
{
    if bs.len() == 0 {
        Seq::empty()
    } else {
        flatten_blocks(bs.drop_last()) + bs.last().1
    }
}

#[verifier::rlimit(50)]
#[verifier::spinoff_prover]
proof fn lemma_bb_scan_covers(ops: Seq<SpecFatOp>, k: nat)
    requires
        k <= ops.len(),
    ensures
        bb_scan(ops, k).1 <= k,
        flatten_blocks(bb_scan(ops, k).0) == ops.take(bb_scan(ops, k).1 as int),
    decreases k,
{
    if k == 0 {
        assert(ops.take(0) =~= Seq::<SpecFatOp>::empty());
    } else {
        lemma_bb_scan_covers(ops, (k - 1) as nat);
        let spans = bb_scan(ops, (k - 1) as nat).0;
        let beg = bb_scan(ops, (k - 1) as nat).1;
        if is_jump_target(ops, k - 1) && beg < k - 1 {
            let ns = spans.push((beg as usize, ops.subrange(beg as int, k - 1)));
            assert(ns.drop_last() =~= spans);
            assert(ops.take(beg as int) + ops.subrange(beg as int, k - 1) =~= ops.take(k - 1));
        }
    }
}

#[verifier::rlimit(50)]
#[verifier::spinoff_prover]
proof fn lemma_bb_scan_starts(ops: Seq<SpecFatOp>, k: nat)
    requires
        k <= ops.len() <= usize::MAX,
    ensures
        forall|i: int| 0 <= i < bb_scan(ops, k).0.len() ==>
            (#[trigger] bb_scan(ops, k).0[i]).0 as int == flatten_blocks(bb_scan(ops, k).0.take(i)).len(),
    decreases k,
{
    if k > 0 {
        lemma_bb_scan_starts(ops, (k - 1) as nat);
        lemma_bb_scan_covers(ops, (k - 1) as nat);
        let spans = bb_scan(ops, (k - 1) as nat).0;
        let beg = bb_scan(ops, (k - 1) as nat).1;
        if is_jump_target(ops, k - 1) && beg < k - 1 {
            let ns = spans.push((beg as usize, ops.subrange(beg as int, k - 1)));
            assert(ns == bb_scan(ops, k).0);
            assert forall|i: int| 0 <= i < ns.len() implies
                (#[trigger] ns[i]).0 as int == flatten_blocks(ns.take(i)).len() by {
                if i < spans.len() {
                    assert(ns.take(i) =~= spans.take(i));
                    assert(ns[i] == spans[i]);
                } else {
                    assert(ns.take(i) =~= spans);
                }
            }
        }
    }
}

#[verifier::rlimit(50)]
#[verifier::spinoff_prover]
proof fn lemma_bb_scan_shape(ops: Seq<SpecFatOp>, k: nat)
    requires
        k <= ops.len() <= usize::MAX,
    ensures
        forall|i: int| 0 <= i < bb_scan(ops, k).0.len() ==> (#[trigger] bb_scan(ops, k).0[i]).1.len() > 0,
        forall|t: int| 0 <= t < k && is_jump_target(ops, t) ==>
            t == bb_scan(ops, k).1 || exists|i: int| 0 <= i < bb_scan(ops, k).0.len() && (#[trigger] bb_scan(ops, k).0[i]).0 as int == t,
    decreases k,
{
    if k > 0 {
        lemma_bb_scan_shape(ops, (k - 1) as nat);
        lemma_bb_scan_covers(ops, (k - 1) as nat);
        let spans = bb_scan(ops, (k - 1) as nat).0;
        let beg = bb_scan(ops, (k - 1) as nat).1;
        if is_jump_target(ops, k - 1) && beg < k - 1 {
            let ns = spans.push((beg as usize, ops.subrange(beg as int, k - 1)));
            assert(ns == bb_scan(ops, k).0);
            assert forall|i: int| 0 <= i < ns.len() implies (#[trigger] ns[i]).1.len() > 0 by {
                if i < spans.len() {
                    assert(ns[i] == spans[i]);
                }
            }
            assert forall|t: int| 0 <= t < k && is_jump_target(ops, t) implies
                t == (k - 1) || exists|i: int| 0 <= i < ns.len() && (#[trigger] ns[i]).0 as int == t by {
                if t != k - 1 {
                    if t == beg {
                        assert(ns[spans.len() as int].0 as int == t);
                    } else {
                        let i = choose|i: int| 0 <= i < spans.len() && (#[trigger] spans[i]).0 as int == t;
                        assert(ns[i] == spans[i]);
                    }
                }
            }
        }
    }
}

/// The basic blocks of a method hold all of its instructions, in order and
/// each once; each block starts at the instruction that follows the blocks
/// before it; no block is empty; and every instruction a branch or jump
/// goes to starts a block.
#[verifier::rlimit(50)]
#[verifier::spinoff_prover]
pub proof fn law_blocks_cover_ops(ops: Seq<SpecFatOp>)
    requires
        ops.len() <= usize::MAX,
    ensures
        flatten_blocks(spec_bb_tree(ops)) == ops,
        forall|i: int| 0 <= i < spec_bb_tree(ops).len() ==>
            (#[trigger] spec_bb_tree(ops)[i]).0 as int == flatten_blocks(spec_bb_tree(ops).take(i)).len(),
        forall|i: int| 0 <= i < spec_bb_tree(ops).len() ==> (#[trigger] spec_bb_tree(ops)[i]).1.len() > 0,
        forall|t: int| 0 <= t < ops.len() && is_jump_target(ops, t) ==>
            exists|i: int| 0 <= i < spec_bb_tree(ops).len() && (#[trigger] spec_bb_tree(ops)[i]).0 as int == t,
{
    lemma_bb_scan_covers(ops, ops.len());
    lemma_bb_scan_starts(ops, ops.len());
    lemma_bb_scan_shape(ops, ops.len());
    let spans = bb_scan(ops, ops.len()).0;
    let beg = bb_scan(ops, ops.len()).1;
    if beg < ops.len() {
        let ns = spans.push((beg as usize, ops.subrange(beg as int, ops.len() as int)));
        assert(ns == spec_bb_tree(ops));
        assert(ns.drop_last() =~= spans);
        assert(ops.take(beg as int) + ops.subrange(beg as int, ops.len() as int) =~= ops);
        assert forall|i: int| 0 <= i < ns.len() implies
            (#[trigger] ns[i]).0 as int == flatten_blocks(ns.take(i)).len() by {
            if i < spans.len() {
                assert(ns.take(i) =~= spans.take(i));
                assert(ns[i] == spans[i]);
            } else {
                assert(ns.take(i) =~= spans);
            }
        }
        assert forall|i: int| 0 <= i < ns.len() implies (#[trigger] ns[i]).1.len() > 0 by {
            if i < spans.len() {
                assert(ns[i] == spans[i]);
            }
        }
        assert forall|t: int| 0 <= t < ops.len() && is_jump_target(ops, t) implies
            exists|i: int| 0 <= i < ns.len() && (#[trigger] ns[i]).0 as int == t by {
            if t == beg {
                assert(ns[spans.len() as int].0 as int == t);
            } else {
                let i = choose|i: int| 0 <= i < spans.len() && (#[trigger] spans[i]).0 as int == t;
                assert(ns[i] == spans[i]);
            }
        }
    } else {
        assert(ops.take(beg as int) =~= ops);
    }
}


/// The result type and the C++ operator of a JVM arithmetic instruction:
/// `iadd` adds two `int`s with `+`, `lrem` takes the remainder of two
/// `long`s with `%`, `dmul` multiplies two `double`s with `*`, and so on.
pub open spec fn jvm_arith(f: SpecFatOp) -> Option<(SpecVarType, Seq<char>)> {
    match f {
        SpecFatOp::IAdd => Some((SpecVarType::Int, seq!['+'])),
        SpecFatOp::ISub => Some((SpecVarType::Int, seq!['-'])),
        SpecFatOp::IMul => Some((SpecVarType::Int, seq!['*'])),
        SpecFatOp::IDiv => Some((SpecVarType::Int, seq!['/'])),
        SpecFatOp::IRem => Some((SpecVarType::Int, seq!['%'])),
        SpecFatOp::IShl => Some((SpecVarType::Int, seq!['<', '<'])),
        SpecFatOp::LAdd => Some((SpecVarType::Long, seq!['+'])),
        SpecFatOp::LSub => Some((SpecVarType::Long, seq!['-'])),
        SpecFatOp::LMul => Some((SpecVarType::Long, seq!['*'])),
        SpecFatOp::LDiv => Some((SpecVarType::Long, seq!['/'])),
        SpecFatOp::LRem => Some((SpecVarType::Long, seq!['%'])),
        SpecFatOp::FAdd => Some((SpecVarType::Float, seq!['+'])),
        SpecFatOp::FSub => Some((SpecVarType::Float, seq!['-'])),
        SpecFatOp::FMul => Some((SpecVarType::Float, seq!['*'])),
        SpecFatOp::FDiv => Some((SpecVarType::Float, seq!['/'])),
        SpecFatOp::DAdd => Some((SpecVarType::Double, seq!['+'])),
        SpecFatOp::DSub => Some((SpecVarType::Double, seq!['-'])),
        SpecFatOp::DMul => Some((SpecVarType::Double, seq!['*'])),
        SpecFatOp::DDiv => Some((SpecVarType::Double, seq!['/'])),
        _ => None,
    }
}

/// Writing a JVM arithmetic instruction takes its two operands `a` (pushed
/// first) and `b` off the value stack and declares a fresh value of the
/// instruction's result type holding `a` and `b` joined by the C++ operator
/// of that arithmetic; the fresh value is pushed with that type.
#[verifier::rlimit(100)]
#[verifier::spinoff_prover]
pub proof fn law_arith_statement(f: SpecFatOp, w: WriterView)
    requires
        jvm_arith(f) is Some,
        w.vstack.len() >= 2,
        w.im_id < usize::MAX,
    ensures
        ({
            let (t, o) = jvm_arith(f)->0;
            let im = w_fresh(w);
            spec_write_op(f, w) == Some(w_line(
                w_push(w_bump(w_pop(w, 2)), im, t),
                spec_c_type(t) + seq![' '] + im + " = "@ + w_top(w, 1) + o + w_top(w, 0) + seq![';'],
            ))
        }),
{
    reveal(spec_write_op);
    reveal_strlit("+");
    reveal_strlit("-");
    reveal_strlit("*");
    reveal_strlit("/");
    reveal_strlit("%");
    reveal_strlit("<<");
    assert("+"@ =~= seq!['+']);
    assert("-"@ =~= seq!['-']);
    assert("*"@ =~= seq!['*']);
    assert("/"@ =~= seq!['/']);
    assert("%"@ =~= seq!['%']);
    assert("<<"@ =~= seq!['<', '<']);
    match f {
        SpecFatOp::IAdd => {},
        SpecFatOp::ISub => {},
        SpecFatOp::IMul => {},
        SpecFatOp::IDiv => {},
        SpecFatOp::IRem => {},
        SpecFatOp::IShl => {},
        SpecFatOp::LAdd => {},
        SpecFatOp::LSub => {},
        SpecFatOp::LMul => {},
        SpecFatOp::LDiv => {},
        SpecFatOp::LRem => {},
        SpecFatOp::FAdd => {},
        SpecFatOp::FSub => {},
        SpecFatOp::FMul => {},
        SpecFatOp::FDiv => {},
        SpecFatOp::DAdd => {},
        SpecFatOp::DSub => {},
        SpecFatOp::DMul => {},
        SpecFatOp::DDiv => {},
        _ => {},
    }
}

} // verus!
