//! A method as the C++ writer sees it.
use vstd::prelude::*;
use crate::vartype::{VariableType, SpecVarType, spec_method_desc_args, args_desc_readable, method_desc_to_args};
use crate::executor::fatops::{FatOp, SpecFatOp, expandable, spec_expand_ops, try_expand_ops, class_at, utf8_at, spec_class_at, spec_utf8_at};
use crate::importer::{ImportedJavaClass, SpecClass, SpecMember};
use crate::mangling::{ascii, is_ascii_str, spec_class_path_mangled, class_path_to_class_mangled};
use crate::text::{replace_char, seq_contains_seq, str_contains, to_owned_string};
use crate::class::java_class_to_cpp_class;
use crate::spec_method_code;

verus! {

/// A method of a converted class: whether it is virtual, its class and
/// C++ name, its resolved instructions, and its argument and result types.
pub struct Method {
    pub is_virtual: bool,
    pub class_name: String,
    pub name: String,
    pub ops: Vec<FatOp>,
    pub args: Vec<VariableType>,
    pub ret_val: VariableType,
}

impl Method {
    /// Whether the method is virtual.
    pub fn is_virtual(&self) -> (r: bool)
        ensures
            r == self.is_virtual,
    {
        self.is_virtual
    }

    /// The name of the method's class.
    pub fn class_name(&self) -> (r: &str)
        ensures
            r@ == self.class_name@,
    {
        self.class_name.as_str()
    }

    /// The method's result type.
    pub fn ret_val(&self) -> (r: &VariableType)
        ensures
            r == &self.ret_val,
    {
        &self.ret_val
    }

    /// The method's C++ name.
    pub fn name(&self) -> (r: &str)
        ensures
            r@ == self.name@,
    {
        self.name.as_str()
    }

    /// The method's resolved instructions.
    pub fn ops(&self) -> (r: &[FatOp])
        ensures
            r@ == self.ops@,
    {
        self.ops.as_slice()
    }

    /// The method's argument types.
    pub fn args(&self) -> (r: &Vec<VariableType>)
        ensures
            r == &self.args,
    {
        &self.args
    }
}

/// What a converted method holds, as values.
pub struct MethodView {
    pub is_virtual: bool,
    pub class_name: Seq<char>,
    pub name: Seq<char>,
    pub ops: Seq<SpecFatOp>,
    pub args: Seq<SpecVarType>,
    pub ret_val: SpecVarType,
}

/// The view of a converted method.
pub open spec fn method_view(m: Method) -> MethodView {
    MethodView {
        is_virtual: m.is_virtual,
        class_name: m.class_name@,
        name: m.name@,
        ops: m.ops.deep_view(),
        args: m.args@.map_values(|t: VariableType| t@),
        ret_val: m.ret_val@,
    }
}

/// The method `m` of class `c`, converted under the C++ name `name`: its
/// class's C++ name, its resolved instructions (none without code), and the
/// argument and result types of its descriptor. A constructor (a name
/// holding `_init_`) takes the object it builds as a first argument and is
/// not virtual; another method is virtual unless it is static. `None` when
/// the class or the descriptor cannot be read, or the code cannot be
/// resolved.
pub open spec fn spec_raw_method(c: SpecClass, m: SpecMember, name: Seq<char>) -> Option<MethodView> {
    match (spec_class_at(c.const_items, c.this_class), spec_utf8_at(c.const_items, m.descriptor_index)) {
        (Some(cn), Some(d)) => {
            let code_ok = match spec_method_code(m) {
                Some(code) => expandable(code, c.const_items, c.attributes),
                None => true,
            };
            if ascii(d) && spec_method_desc_args(d) is Some && code_ok {
                let (args, ret) = spec_method_desc_args(d)->0;
                let is_init = seq_contains_seq(name, "_init_"@);
                Some(MethodView {
                    is_virtual: m.flags.mask & 0x0008 == 0 && !is_init,
                    class_name: replace_char(cn, '/', seq![':', ':']),
                    name,
                    ops: match spec_method_code(m) {
                        Some(code) => spec_expand_ops(code, c.const_items, c.attributes),
                        None => Seq::empty(),
                    },
                    args: if is_init { seq![SpecVarType::ObjectRef(spec_class_path_mangled(cn))] + args } else { args },
                    ret_val: ret,
                })
            } else {
                None
            }
        },
        _ => None,
    }
}

impl Method {
    /// Converts method `method` of class `jc` under the C++ name `name`
    /// (see `spec_raw_method`).
    pub fn from_raw_method(method: &crate::importer::Method, name: &str, jc: &ImportedJavaClass) -> (r: Option<Method>)
        ensures
            match r {
                Some(x) => spec_raw_method(jc.deep_view(), method.deep_view(), name@) == Some(method_view(x)),
                None => spec_raw_method(jc.deep_view(), method.deep_view(), name@) is None,
            },
    {
        let ghost c = jc.deep_view();
        let ghost m = method.deep_view();
        let cn = match class_at(jc, jc.this_class()) {
            Some(n) => n,
            None => return None,
        };
        let d = match utf8_at(jc, method.descriptor_index()) {
            Some(d) => d,
            None => return None,
        };
        if !is_ascii_str(d) || !args_desc_readable(d) {
            return None;
        }
        let ops = match method.bytecode() {
            Some(b) => {
                let code = b.as_slice();
                assert(code.deep_view() =~= b.deep_view());
                match try_expand_ops(code, jc) {
                    Some(v) => v,
                    None => return None,
                }
            },
            None => Vec::new(),
        };
        let (mut args, ret) = method_desc_to_args(d);
        let is_init = str_contains(name, "_init_");
        let ghost before = args@;
        if is_init {
            let this_type = VariableType::ObjectRef { name: class_path_to_class_mangled(cn) };
            args.insert(0, this_type);
            assert(args@.map_values(|t: VariableType| t@) =~= seq![SpecVarType::ObjectRef(spec_class_path_mangled(cn@))]
                + before.map_values(|t: VariableType| t@));
        }
        let is_virtual = !method.access_flags.is_static() && !is_init;
        let r = Method {
            is_virtual,
            class_name: java_class_to_cpp_class(cn),
            name: to_owned_string(name),
            ops,
            args,
            ret_val: ret,
        };
        proof {
            if spec_method_code(m) is None {
                assert(r.ops.deep_view() =~= Seq::<SpecFatOp>::empty());
            }
        }
        Some(r)
    }
}

} // verus!
