//! Reading JVM class files, naming and mangling their items for C++, writing
//! C++ headers, and a small bytecode interpreter.
pub mod text;
pub mod class;
pub mod mangling;
pub mod vartype;
pub mod importer;
pub mod executor;
pub mod namemap;
pub mod method;
pub mod cpp_codegen;

use vstd::prelude::*;
use crate::text::{char_len, push_str, to_owned_string};
use crate::vartype::{argc_readable, paren_scan, count_arg_types, spec_method_desc_argc, lemma_paren_scan_bounds};
use crate::executor::baseir::BaseIR;
use crate::executor::class::Class;
use crate::namemap::NameMap;
use crate::executor::baseir::{try_into_base, spec_into_base, lemma_into_base_status};
use crate::executor::fatops::{try_expand_ops, expandable, spec_expand_ops, class_at, utf8_at, spec_class_at, spec_utf8_at};
use crate::executor::fatclass::{try_expand_class, class_expandable, spec_expand_class};
use crate::executor::class::{finalize, linked_class, entry_defaults};
use crate::executor::{has_default, UnmetDependency};
use crate::importer::{ImportedJavaClass, SpecClass, SpecMember, first_code};
use crate::importer::attribute::SpecAttribute;
use crate::importer::opcodes::SpecOpCode;
use crate::vartype::argc_desc_readable;
use crate::executor::ExecCtx;

verus! {

/// A reference to an object of the interpreter's memory: its position there.
pub type ObjectRef = usize;

/// A value of the interpreter. A float is held by its IEEE bit pattern.
#[derive(Debug, Clone, Copy, PartialEq, Eq, Structural)]
pub enum Value {
    Void,
    Int(i32),
    ObjectRef(ObjectRef),
    Float(u32),
}

impl Value {
    /// The integer this value holds, if it is one.
    pub fn as_int(&self) -> (r: Option<i32>)
        ensures
            r == (match *self {
                Value::Int(a) => Some(a),
                _ => None,
            }),
    {
        match self {
            Value::Int(a) => Some(*a),
            _ => None,
        }
    }

    /// The bit pattern of the float this value holds, if it is one.
    pub fn as_float(&self) -> (r: Option<u32>)
        ensures
            r == (match *self {
                Value::Float(a) => Some(a),
                _ => None,
            }),
    {
        match self {
            Value::Float(a) => Some(*a),
            _ => None,
        }
    }

    /// The object reference this value holds, if it is one.
    pub fn as_objref(&self) -> (r: Option<ObjectRef>)
        ensures
            r == (match *self {
                Value::ObjectRef(id) => Some(id),
                _ => None,
            }),
    {
        match self {
            Value::ObjectRef(id) => Some(*id),
            _ => None,
        }
    }
}

/// The number of characters between the parentheses of a method descriptor,
/// as a `u8` (kept modulo 256): `(ILF)I` gives 3.
pub open spec fn spec_paren_span_len(d: Seq<char>) -> u8 {
    let s = paren_scan(d, d.len());
    ((s.1 - s.0 - 1) % 256) as u8
}

/// The number of characters between the parentheses of a method descriptor
/// (each argument type is taken to be one letter).
pub fn method_desc_to_argc(desc: &str) -> (r: u8)
    requires
        argc_readable(desc@),
    ensures
        r == spec_paren_span_len(desc@),
{
    let (char_beg, char_end) = crate::vartype::paren_positions(desc);
    ((char_end - char_beg - 1) % 256) as u8
}

/// The interpreter's name of a method: `class::method` followed by the
/// descriptor.
pub open spec fn spec_interp_method_name(class: Seq<char>, method: Seq<char>, desc: Seq<char>) -> Seq<char> {
    class + seq![':', ':'] + method + desc
}

/// The interpreter's name of a method, such as `Identity::Identity(I)I`.
pub fn mangle_method_name(class: &str, method: &str, desc: &str) -> (r: String)
    ensures
        r@ == spec_interp_method_name(class@, method@, desc@),
{
    proof {
        reveal_strlit("::");
        assert("::"@ =~= seq![':', ':']);
    }
    let mut out = to_owned_string(class);
    push_str(&mut out, "::");
    push_str(&mut out, method);
    push_str(&mut out, desc);
    out
}

/// An object of the interpreter's memory: an instance of a class, with one
/// value per field, or a string.
pub enum Object {
    Object { class_id: usize, values: Vec<Value> },
    String(String),
}

impl Object {
    /// Sets field `id` of an instance; a string is left as it is.
    pub fn set_field(&mut self, id: usize, value: Value)
        requires
            *old(self) matches Object::Object { values, .. } ==> id < values@.len(),
        ensures
            match *old(self) {
                Object::Object { class_id, values } => *final(self) matches Object::Object { class_id: c, values: v }
                    && c == class_id && v@ == values@.update(id as int, value),
                Object::String(_) => *final(self) == *old(self),
            },
    {
        match self {
            Object::Object { values, .. } => {
                values.set(id, value);
            },
            Object::String(_) => {},
        }
    }

    /// Field `id` of an instance; `None` for a string or a position past the
    /// last field.
    pub fn get_field(&self, id: usize) -> (r: Option<Value>)
        ensures
            r == (match *self {
                Object::Object { values, .. } => if id < values@.len() { Some(values@[id as int]) } else { None },
                Object::String(_) => None,
            }),
    {
        match self {
            Object::Object { values, .. } => if id < values.len() {
                Some(values[id])
            } else {
                None
            },
            Object::String(_) => None,
        }
    }
}

/// The interpreter's memory: its objects and the values of all statics.
pub struct EnvMemory {
    pub objects: Vec<Object>,
    pub statics: Vec<Value>,
}

impl EnvMemory {
    /// Adds a static holding `value` and gives its position.
    pub fn insert_static(&mut self, value: Value) -> (r: usize)
        ensures
            r == old(self).statics@.len(),
            final(self).statics@ == old(self).statics@.push(value),
            final(self).objects@ == old(self).objects@,
    {
        let index = self.statics.len();
        self.statics.push(value);
        index
    }

    /// Sets field `field_id` of the object at `objref`; a string is left as
    /// it is.
    pub fn set_field(&mut self, objref: ObjectRef, field_id: usize, value: Value)
        requires
            objref < old(self).objects@.len(),
            old(self).objects@[objref as int] matches Object::Object { values, .. } ==> field_id < values@.len(),
        ensures
            final(self).objects@.len() == old(self).objects@.len(),
            forall|j: int| 0 <= j < old(self).objects@.len() && j != objref ==> final(self).objects@[j] == old(self).objects@[j],
            match old(self).objects@[objref as int] {
                Object::Object { class_id, values } => final(self).objects@[objref as int] matches Object::Object { class_id: c, values: v }
                    && c == class_id && v@ == values@.update(field_id as int, value),
                Object::String(_) => final(self).objects@[objref as int] == old(self).objects@[objref as int],
            },
            final(self).statics@ == old(self).statics@,
    {
        let mut obj = self.objects.remove(objref);
        obj.set_field(field_id, value);
        self.objects.insert(objref, obj);
    }

    /// Empty memory.
    pub fn new() -> (r: EnvMemory)
        ensures
            r.objects@.len() == 0,
            r.statics@.len() == 0,
    {
        EnvMemory { objects: Vec::new(), statics: Vec::new() }
    }
}

/// The code of a method: interpreter instructions, or a native method
/// taking `argc` arguments, whose body the embedder of the interpreter runs
/// when a call reaches it.
pub enum Method {
    BaseIR { ops: Vec<BaseIR> },
    Invokable { argc: usize },
}

/// What a method slot holds, as a value.
pub enum SlotView {
    Empty,
    Code(Seq<BaseIR>),
    Native(usize),
}

/// The loaded classes and methods, each found by its name.
pub struct CodeContainer {
    pub classes: Vec<Class>,
    pub class_names: NameMap,
    pub methods: Vec<Option<Method>>,
    pub method_names: NameMap,
}

/// What `lookup_or_insert_method` does to the method names and the number
/// of methods: the index of `name`, and the names and count afterwards.
pub open spec fn spec_lookup_or_insert(names: Map<Seq<char>, usize>, n: nat, name: Seq<char>) -> (usize, Map<Seq<char>, usize>, nat) {
    if names.contains_key(name) {
        (names[name], names, n)
    } else {
        (n as usize, names.insert(name, n as usize), n + 1)
    }
}

/// What storing `class` under `name` does to the classes and their names,
/// and the slot it lands in: the slot the name already has, or a new one at
/// the end.
pub open spec fn spec_store_class(classes: Seq<Class>, names: Map<Seq<char>, usize>, name: Seq<char>, class: Class) -> (Seq<Class>, Map<Seq<char>, usize>, usize) {
    if names.contains_key(name) {
        (classes.update(names[name] as int, class), names, names[name])
    } else {
        (classes.push(class), names.insert(name, classes.len() as usize), classes.len() as usize)
    }
}

/// A class stored under a name is what looking the name up finds; every
/// other name keeps its slot, and the classes in the other slots stay.
pub proof fn law_stored_class_is_found(classes: Seq<Class>, names: Map<Seq<char>, usize>, name: Seq<char>, class: Class)
    requires
        forall|k: Seq<char>| #[trigger] names.contains_key(k) ==> names[k] < classes.len(),
        classes.len() < usize::MAX,
    ensures
        ({
            let (cs, ns, r) = spec_store_class(classes, names, name, class);
            &&& ns.contains_key(name) && ns[name] == r
            &&& r < cs.len() && cs[r as int] == class
            &&& forall|k: Seq<char>| k != name ==> (#[trigger] ns.contains_key(k) == names.contains_key(k))
            &&& forall|k: Seq<char>| k != name && #[trigger] names.contains_key(k) ==> ns[k] == names[k]
            &&& forall|i: int| 0 <= i < classes.len() && i != r ==> cs[i] == classes[i]
        }),
{
}

/// Asking for the slot of a method twice gives the same slot, and the second
/// time nothing changes.
pub proof fn law_method_slot_is_stable(names: Map<Seq<char>, usize>, n: nat, name: Seq<char>)
    ensures
        ({
            let (i1, names1, n1) = spec_lookup_or_insert(names, n, name);
            let (i2, names2, n2) = spec_lookup_or_insert(names1, n1, name);
            i2 == i1 && names2 == names1 && n2 == n1
        }),
{
}

impl CodeContainer {
    /// Names are distinct, every name leads to a stored class or method
    /// slot, and every class is well formed.
    pub open spec fn wf(&self) -> bool {
        &&& self.class_names.wf()
        &&& self.method_names.wf()
        &&& forall|k: Seq<char>| #[trigger] self.class_names@.contains_key(k) ==> self.class_names@[k] < self.classes@.len()
        &&& forall|k: Seq<char>| #[trigger] self.method_names@.contains_key(k) ==> self.method_names@[k] < self.methods@.len()
        &&& forall|i: int| 0 <= i < self.classes@.len() ==> (#[trigger] self.classes@[i]).wf()
    }

    /// The index of the class called `name`.
    pub fn lookup_class(&self, name: &str) -> (r: Option<usize>)
        requires
            self.wf(),
        ensures
            r == (if self.class_names@.contains_key(name@) { Some(self.class_names@[name@]) } else { None }),
    {
        self.class_names.get(name)
    }

    /// Stores `class` under `name`, in the slot the name already has or in a
    /// new one, and gives the slot.
    pub fn set_or_replace_class(&mut self, name: &str, class: Class) -> (r: usize)
        requires
            old(self).wf(),
            class.wf(),
        ensures
            final(self).wf(),
            (final(self).classes@, final(self).class_names@, r) == spec_store_class(old(self).classes@, old(self).class_names@, name@, class),
            final(self).methods@ == old(self).methods@,
            final(self).method_names@ == old(self).method_names@,
    {
        let idx = match self.class_names.get(name) {
            Some(i) => i,
            None => {
                self.classes.push(Class::empty());
                let i = self.classes.len() - 1;
                self.class_names.insert(name, i);
                i
            },
        };
        self.classes.set(idx, class);
        idx
    }

    /// The index of the method called `name`, adding an empty slot for it
    /// first if it has none.
    pub fn lookup_or_insert_method(&mut self, name: &str) -> (r: usize)
        requires
            old(self).wf(),
        ensures
            final(self).wf(),
            (r, final(self).method_names@, final(self).methods@.len() as nat) == spec_lookup_or_insert(
                old(self).method_names@,
                old(self).methods@.len() as nat,
                name@,
            ),
            !old(self).method_names@.contains_key(name@) ==> final(self).methods@ == old(self).methods@.push(None),
            old(self).method_names@.contains_key(name@) ==> final(self).methods@ == old(self).methods@,
            final(self).classes@ == old(self).classes@,
            final(self).class_names@ == old(self).class_names@,
    {
        match self.method_names.get(name) {
            Some(i) => i,
            None => {
                self.methods.push(None);
                let i = self.methods.len() - 1;
                self.method_names.insert(name, i);
                i
            },
        }
    }

    /// A container holding only the class `java/lang/Object`, with no
    /// members.
    pub fn new() -> (r: CodeContainer)
        ensures
            r.wf(),
            r.classes@.len() == 1,
            r.classes@[0].is_empty_class(),
            r.class_names@ == Map::<Seq<char>, usize>::empty().insert("java/lang/Object"@, 0),
            r.methods@.len() == 0,
            r.method_names@ == Map::<Seq<char>, usize>::empty(),
    {
        let mut res = CodeContainer {
            classes: Vec::new(),
            class_names: NameMap::new(),
            methods: Vec::new(),
            method_names: NameMap::new(),
        };
        res.set_or_replace_class("java/lang/Object", Class::empty());
        res
    }
}

/// Why running a method failed.
#[derive(Debug)]
pub enum ExecException {
    MethodNotFound,
}

/// The interpreter: its code and its memory.
pub struct ExecEnv {
    pub code_container: CodeContainer,
    pub env_mem: EnvMemory,
}

impl ExecEnv {
    /// A fresh interpreter with only `java/lang/Object` loaded.
    pub fn new() -> (r: ExecEnv)
        ensures
            r.code_container.wf(),
            r.code_container.classes@.len() == 1,
            r.code_container.classes@[0].is_empty_class(),
            r.code_container.class_names@ == Map::<Seq<char>, usize>::empty().insert("java/lang/Object"@, 0),
            r.code_container.methods@.len() == 0,
            r.code_container.method_names@ == Map::<Seq<char>, usize>::empty(),
            r.env_mem.objects@.len() == 0,
            r.env_mem.statics@.len() == 0,
    {
        let env_mem = EnvMemory::new();
        let code_container = CodeContainer::new();
        ExecEnv { code_container, env_mem }
    }

    /// The index of the method called `method_name`.
    pub fn lookup_method(&self, method_name: &str) -> (r: Option<usize>)
        requires
            self.code_container.wf(),
        ensures
            r == (if self.code_container.method_names@.contains_key(method_name@) {
                Some(self.code_container.method_names@[method_name@])
            } else {
                None
            }),
    {
        self.code_container.method_names.get(method_name)
    }

    /// The index of the class called `class_name`.
    pub fn lookup_class(&self, class_name: &str) -> (r: Option<usize>)
        requires
            self.code_container.wf(),
        ensures
            r == (if self.code_container.class_names@.contains_key(class_name@) {
                Some(self.code_container.class_names@[class_name@])
            } else {
                None
            }),
    {
        self.code_container.lookup_class(class_name)
    }

    /// Makes a fresh object of class `class` and gives its reference.
    pub fn new_obj(&mut self, class: usize) -> (r: ObjectRef)
        requires
            class < old(self).code_container.classes@.len(),
            old(self).code_container.classes@[class as int].instantiable(),
        ensures
            r == old(self).env_mem.objects@.len(),
            final(self).env_mem.objects@.len() == r + 1,
            final(self).env_mem.objects@.take(r as int) == old(self).env_mem.objects@,
            final(self).env_mem.objects@[r as int] matches Object::Object { class_id, values }
                && class_id == old(self).code_container.classes@[class as int].class_id
                && values@.len() == old(self).code_container.classes@[class as int].field_types@.len()
                && forall|i: int| 0 <= i < values@.len() ==> values@[i] == crate::executor::spec_default_value(
                    #[trigger] old(self).code_container.classes@[class as int].field_types@[i]),
            final(self).env_mem.statics@ == old(self).env_mem.statics@,
            final(self).code_container == old(self).code_container,
    {
        let new_obj = self.code_container.classes[class].new();
        self.env_mem.objects.push(new_obj);
        assert(self.env_mem.objects@.take(self.env_mem.objects@.len() - 1) =~= old(self).env_mem.objects@);
        self.env_mem.objects.len() - 1
    }
}

/// The interpreter's name of method `m` of class `c`: the class's name, the
/// method's name and its descriptor; `None` when one of them cannot be
/// resolved or the descriptor's argument part cannot be read.
pub open spec fn spec_method_key(c: SpecClass, m: SpecMember) -> Option<Seq<char>> {
    match (
        spec_class_at(c.const_items, c.this_class),
        spec_utf8_at(c.const_items, m.name_index),
        spec_utf8_at(c.const_items, m.descriptor_index),
    ) {
        (Some(cn), Some(n), Some(d)) => if argc_readable(d) {
            Some(spec_interp_method_name(cn, n, d))
        } else {
            None
        },
        _ => None,
    }
}

/// The instructions of a method's first `Code` attribute; `None` for a
/// method without code.
pub open spec fn spec_method_code(m: SpecMember) -> Option<Seq<(SpecOpCode, u16)>> {
    match first_code(m.attributes) {
        Some(SpecAttribute::Code { ops, .. }) => Some(ops),
        _ => None,
    }
}

/// Whether method `m` of class `c` loads against the given classes: it has
/// no code, or its code can be resolved and lowered and the method can be
/// named.
pub open spec fn method_loadable(c: SpecClass, m: SpecMember, classes: Seq<Class>, class_names: Map<Seq<char>, usize>) -> bool {
    match spec_method_code(m) {
        None => true,
        Some(code) => {
            &&& expandable(code, c.const_items, c.attributes)
            &&& spec_into_base(spec_expand_ops(code, c.const_items, c.attributes), classes, class_names, Map::empty(), 0)
                matches Some((Ok(_), _, _))
            &&& spec_method_key(c, m) is Some
        },
    }
}

/// What each method slot holds.
pub open spec fn spec_slots(methods: Seq<Option<Method>>) -> Seq<SlotView> {
    methods.map_values(|m: Option<Method>| match m {
        Some(Method::BaseIR { ops }) => SlotView::Code(ops@),
        Some(Method::Invokable { argc }) => SlotView::Native(argc),
        None => SlotView::Empty,
    })
}

/// The slots `slots`, with empty ones added up to `n` of them.
pub open spec fn pad_slots(slots: Seq<SlotView>, n: nat) -> Seq<SlotView> {
    Seq::new(n, |j: int| if j < slots.len() { slots[j] } else { SlotView::Empty })
}

/// The method names and slots after loading method `m` of class `c` against
/// the given classes, from the names `names` and the slots `slots`: a method
/// without code adds an empty slot; a method with code has it lowered (which
/// may name further methods, each with an empty slot) and stored in the
/// slot of its own name. `None` when the method cannot be loaded.
pub open spec fn spec_load_method(
    c: SpecClass,
    m: SpecMember,
    classes: Seq<Class>,
    class_names: Map<Seq<char>, usize>,
    names: Map<Seq<char>, usize>,
    slots: Seq<SlotView>,
) -> Option<(Map<Seq<char>, usize>, Seq<SlotView>)> {
    match spec_method_code(m) {
        None => Some((names, slots.push(SlotView::Empty))),
        Some(code) => if expandable(code, c.const_items, c.attributes) && spec_method_key(c, m) is Some {
            match spec_into_base(spec_expand_ops(code, c.const_items, c.attributes), classes, class_names, names, slots.len()) {
                Some((Ok(ops), nm, k)) => {
                    let (id, nm2, k2) = spec_lookup_or_insert(nm, k, spec_method_key(c, m)->0);
                    Some((nm2, pad_slots(slots, k2).update(id as int, SlotView::Code(ops))))
                },
                _ => None,
            }
        } else {
            None
        },
    }
}

/// The method names and slots after loading the first `k` methods of class
/// `c` in order; `None` when one of them cannot be loaded.
pub open spec fn spec_load_methods(
    c: SpecClass,
    k: nat,
    classes: Seq<Class>,
    class_names: Map<Seq<char>, usize>,
    names: Map<Seq<char>, usize>,
    slots: Seq<SlotView>,
) -> Option<(Map<Seq<char>, usize>, Seq<SlotView>)>
    decreases k,
{
    if k == 0 || k > c.methods.len() {
        Some((names, slots))
    } else {
        match spec_load_methods(c, (k - 1) as nat, classes, class_names, names, slots) {
            Some((nm, sl)) => spec_load_method(c, c.methods[k - 1], classes, class_names, nm, sl),
            None => None,
        }
    }
}

/// Whether every static field of a class has a type with a default value.
pub open spec fn statics_loadable(c: SpecClass) -> bool {
    forall|j: int| 0 <= j < spec_expand_class(c).3.len() ==> has_default((#[trigger] spec_expand_class(c).3[j]).1)
}

impl ExecEnv {
    /// Loads a method of a class: its code is resolved and lowered, and
    /// stored in the slot of its name. A method without code only adds an
    /// empty slot. Gives `false` when the code cannot be resolved or
    /// lowered, needs a class that is not loaded, or the method cannot be
    /// named. Where it gives `false`, the names and empty
    /// slots that lowering had already added stay, and are not described.
    pub fn load_method(&mut self, method: &crate::importer::Method, class: &ImportedJavaClass) -> (r: bool)
        requires
            old(self).code_container.wf(),
        ensures
            final(self).code_container.wf(),
            r ==> spec_load_method(
                class.deep_view(),
                method.deep_view(),
                old(self).code_container.classes@,
                old(self).code_container.class_names@,
                old(self).code_container.method_names@,
                spec_slots(old(self).code_container.methods@),
            ) == Some((final(self).code_container.method_names@, spec_slots(final(self).code_container.methods@))),
            final(self).code_container.classes@ == old(self).code_container.classes@,
            final(self).code_container.class_names@ == old(self).code_container.class_names@,
            final(self).env_mem == old(self).env_mem,
            match spec_method_code(method.deep_view()) {
                None => r && final(self).code_container.methods@ == old(self).code_container.methods@.push(None)
                    && final(self).code_container.method_names@ == old(self).code_container.method_names@,
                Some(code) => {
                    let items = class.const_items.deep_view();
                    let attrs = class.attributes.deep_view();
                    let lowered = spec_into_base(
                        spec_expand_ops(code, items, attrs),
                        old(self).code_container.classes@,
                        old(self).code_container.class_names@,
                        old(self).code_container.method_names@,
                        old(self).code_container.methods@.len() as nat,
                    );
                    &&& r <==> (expandable(code, items, attrs) && (lowered matches Some((Ok(_), _, _)))
                        && spec_method_key(class.deep_view(), method.deep_view()) is Some)
                    &&& r ==> (lowered matches Some((Ok(ops), nm, k)) && {
                        let (id, nm2, k2) = spec_lookup_or_insert(nm, k, spec_method_key(class.deep_view(), method.deep_view())->0);
                        &&& final(self).code_container.method_names@ == nm2
                        &&& final(self).code_container.methods@.len() == k2
                        &&& final(self).code_container.methods@[id as int] matches Some(Method::BaseIR { ops: v }) && v@ == ops
                    })
                },
            },
    {
        let bytecode = match method.bytecode() {
            Some(b) => b,
            None => {
                self.code_container.methods.push(None);
                return true;
            },
        };
        let code = bytecode.as_slice();
        assert(code.deep_view() =~= bytecode.deep_view());
        let fat = match try_expand_ops(code, class) {
            Some(f) => f,
            None => return false,
        };
        let fat_ops = fat.as_slice();
        assert(fat_ops.deep_view() =~= fat.deep_view());
        let baseir = match try_into_base(fat_ops, self) {
            Some(Ok(b)) => b,
            _ => return false,
        };
        let method_class = match class_at(class, class.this_class()) {
            Some(c) => c,
            None => return false,
        };
        let name = match utf8_at(class, method.name_index()) {
            Some(n) => n,
            None => return false,
        };
        let descriptor = match utf8_at(class, method.descriptor_index()) {
            Some(d) => d,
            None => return false,
        };
        if !argc_desc_readable(descriptor) {
            return false;
        }
        let mangled = mangle_method_name(method_class, name, descriptor);
        let method_id = self.code_container.lookup_or_insert_method(mangled.as_str());
        self.code_container.methods.set(method_id, Some(Method::BaseIR { ops: baseir }));
        true
    }

    /// Loads a class: it is resolved, linked below its super class and
    /// stored under its name, then each of its methods is loaded. Gives
    /// `false` when the class cannot be resolved or linked (its super class
    /// is not loaded, or one of its statics has a type with no default
    /// value) or when one of its methods cannot be loaded against the
    /// classes as they are once the class is stored.
    /// Where it gives `false` because the class cannot be resolved or
    /// linked, nothing changes; where a method cannot be loaded, what was
    /// already stored stays, and is not described.
    pub fn load_class(&mut self, class: ImportedJavaClass) -> (r: bool)
        requires
            old(self).code_container.wf(),
        ensures
            final(self).code_container.wf(),
            r <==> ({
                let c = class.deep_view();
                &&& class_expandable(c)
                &&& statics_loadable(c)
                &&& old(self).code_container.class_names@.contains_key(spec_expand_class(c).1)
                &&& forall|i: int| 0 <= i < c.methods.len() ==> #[trigger] method_loadable(
                    c,
                    c.methods[i],
                    final(self).code_container.classes@,
                    final(self).code_container.class_names@,
                )
            }),
            r ==> final(self).code_container.class_names@.contains_key(spec_expand_class(class.deep_view()).0),
            !(class_expandable(class.deep_view()) && statics_loadable(class.deep_view())
                && old(self).code_container.class_names@.contains_key(spec_expand_class(class.deep_view()).1)) ==> {
                &&& final(self).code_container == old(self).code_container
                &&& final(self).env_mem.objects@ == old(self).env_mem.objects@
                &&& final(self).env_mem.statics@ == old(self).env_mem.statics@
            },
            r ==> ({
                let c = class.deep_view();
                let parts = spec_expand_class(c);
                let before = old(self).code_container;
                let after = final(self).code_container;
                let sup = before.classes@[before.class_names@[parts.1] as int];
                let stored = after.classes@[after.class_names@[parts.0] as int];
                let placed = spec_store_class(before.classes@, before.class_names@, parts.0, stored);
                &&& linked_class(stored, parts, sup, old(self).env_mem.statics@.len())
                &&& after.classes@ == placed.0
                &&& after.class_names@ == placed.1
                &&& final(self).env_mem.statics@ == old(self).env_mem.statics@ + entry_defaults(parts.3)
                &&& final(self).env_mem.objects@ == old(self).env_mem.objects@
                &&& spec_load_methods(
                    c,
                    c.methods.len(),
                    after.classes@,
                    after.class_names@,
                    before.method_names@,
                    spec_slots(before.methods@),
                ) == Some((after.method_names@, spec_slots(after.methods@)))
            }),
    {
        let ghost c = class.deep_view();
        let base_class = match try_expand_class(&class) {
            Some(b) => b,
            None => return false,
        };
        let mut i: usize = 0;
        while i < base_class.static_fields.len()
            invariant
                i <= base_class.static_fields@.len(),
                self.code_container.wf(),
                *self == *old(self),
                c == class.deep_view(),
                base_class.spec_parts() == spec_expand_class(c),
                class_expandable(c),
                forall|j: int| 0 <= j < i ==> has_default((#[trigger] base_class.static_fields@[j]).1),
            decreases base_class.static_fields@.len() - i,
        {
            let t = base_class.static_fields[i].1;
            if !(t == crate::executor::FieldType::Int || t == crate::executor::FieldType::Float
                || t == crate::executor::FieldType::ObjectRef) {
                proof {
                    assert(base_class.static_fields.deep_view()[i as int] == (base_class.static_fields@[i as int].0@, t));
                    assert(!has_default(spec_expand_class(c).3[i as int].1));
                }
                return false;
            }
            i = i + 1;
        }
        assert(statics_loadable(c)) by {
            assert forall|j: int| 0 <= j < spec_expand_class(c).3.len() implies has_default((#[trigger] spec_expand_class(c).3[j]).1) by {
                assert(base_class.static_fields.deep_view()[j] == (base_class.static_fields@[j].0@, base_class.static_fields@[j].1));
            }
        }
        let final_class = match finalize(&base_class, self) {
            Ok(f) => f,
            Err(_) => return false,
        };
        let ghost before = self.code_container;
        let ghost linked = final_class;
        self.code_container.set_or_replace_class(base_class.class_name(), final_class);
        let ghost key = base_class.class_name@;
        let ghost classes1 = self.code_container.classes@;
        let ghost names1 = self.code_container.class_names@;
        let ghost mem1 = self.env_mem;
        let class_count = self.code_container.classes.len();
        proof {
            assert(before.wf());
            if before.class_names@.contains_key(key) {
                assert(before.class_names@[key] < before.classes@.len());
                assert(classes1 == before.classes@.update(before.class_names@[key] as int, linked));
            } else {
                assert(class_count == before.classes@.len() + 1);
                assert(classes1 == before.classes@.push(linked));
                assert(names1[key] == before.classes@.len());
            }
        }
        assert(names1.contains_key(key));
        assert(classes1[names1[key] as int] == linked);
        let mut m: usize = 0;
        while m < class.methods.len()
            invariant
                m <= class.methods@.len(),
                c == class.deep_view(),
                c.methods.len() == class.methods@.len(),
                self.code_container.wf(),
                self.code_container.classes@ == classes1,
                self.code_container.class_names@ == names1,
                self.env_mem == mem1,
                names1.contains_key(key),
                class_expandable(c),
                statics_loadable(c),
                old(self).code_container.class_names@.contains_key(spec_expand_class(c).1),
                forall|j: int| 0 <= j < m ==> #[trigger] method_loadable(c, c.methods[j], classes1, names1),
                spec_load_methods(c, m as nat, classes1, names1, before.method_names@, spec_slots(before.methods@))
                    == Some((self.code_container.method_names@, spec_slots(self.code_container.methods@))),
            decreases class.methods@.len() - m,
        {
            let ghost mnames = self.code_container.method_names@;
            let ghost mcount = self.code_container.methods@.len() as nat;
            let ok = self.load_method(&class.methods[m], &class);
            proof {
                assert(c.methods[m as int] == class.methods@[m as int].deep_view());
                if let Some(code) = spec_method_code(c.methods[m as int]) {
                    lemma_into_base_status(
                        spec_expand_ops(code, c.const_items, c.attributes),
                        classes1,
                        names1,
                        mnames,
                        mcount,
                        Map::<Seq<char>, usize>::empty(),
                        0,
                    );
                }
            }
            if !ok {
                assert(!method_loadable(c, c.methods[m as int], classes1, names1));
                return false;
            }
            assert(method_loadable(c, c.methods[m as int], classes1, names1));
            m = m + 1;
        }
        true
    }
}

/// The number of locals past the arguments that a frame gets.
pub const FRAME_LOCALS: usize = 10;

/// The code of method `method_id`, if that slot holds code.
pub open spec fn spec_method_ops(methods: Seq<Option<Method>>, method_id: usize) -> Option<Seq<BaseIR>> {
    if method_id < methods.len() {
        match methods[method_id as int] {
            Some(Method::BaseIR { ops }) => Some(ops@),
            _ => None,
        }
    } else {
        None
    }
}

/// The number of arguments of method `method_id`, if that slot holds a
/// native method.
pub open spec fn spec_native_argc(methods: Seq<Option<Method>>, method_id: usize) -> Option<usize> {
    if method_id < methods.len() {
        match methods[method_id as int] {
            Some(Method::Invokable { argc }) => Some(argc),
            _ => None,
        }
    } else {
        None
    }
}

impl ExecEnv {
    /// The code of method `method_id` and a fresh frame for it holding
    /// `args` and `FRAME_LOCALS` more locals; `MethodNotFound` when the slot
    /// does not exist or holds no code (a native method's slot included:
    /// see `native_argc`).
    pub fn invoke_frame(&self, method_id: usize, args: Vec<Value>) -> (r: Result<(Vec<BaseIR>, ExecCtx), ExecException>)
        ensures
            match spec_method_ops(self.code_container.methods@, method_id) {
                Some(ops) => r matches Ok((v, ctx)) && v@ == ops && ctx.args@ == args@ && ctx.locals == FRAME_LOCALS
                    && ctx.data@ == Seq::new(FRAME_LOCALS as nat, |i: int| Value::Void),
                None => r matches Err(ExecException::MethodNotFound),
            },
    {
        if method_id >= self.code_container.methods.len() {
            return Err(ExecException::MethodNotFound);
        }
        match &self.code_container.methods[method_id] {
            Some(Method::BaseIR { ops }) => {
                let mut copy: Vec<BaseIR> = Vec::new();
                let mut i: usize = 0;
                while i < ops.len()
                    invariant
                        i <= ops@.len(),
                        copy@ == ops@.take(i as int),
                    decreases ops@.len() - i,
                {
                    copy.push(ops[i]);
                    assert(copy@ =~= ops@.take(i + 1));
                    i = i + 1;
                }
                assert(ops@.take(ops@.len() as int) =~= ops@);
                Ok((copy, ExecCtx::new(args, FRAME_LOCALS)))
            },
            _ => Err(ExecException::MethodNotFound),
        }
    }

    /// The number of arguments of method `method_id` when its slot holds a
    /// native method, which the caller then runs itself; `None` otherwise.
    pub fn native_argc(&self, method_id: usize) -> (r: Option<usize>)
        ensures
            r == spec_native_argc(self.code_container.methods@, method_id),
    {
        if method_id >= self.code_container.methods.len() {
            return None;
        }
        match &self.code_container.methods[method_id] {
            Some(Method::Invokable { argc }) => Some(*argc),
            _ => None,
        }
    }

    /// What calling method `method_id` from outside runs: its code and a
    /// frame holding `args` in reverse order.
    pub fn call_frame(&self, method_id: usize, args: &[Value]) -> (r: Result<(Vec<BaseIR>, ExecCtx), ExecException>)
        ensures
            match spec_method_ops(self.code_container.methods@, method_id) {
                Some(ops) => r matches Ok((v, ctx)) && v@ == ops && ctx.args@ == args@.reverse() && ctx.locals == FRAME_LOCALS
                    && ctx.data@ == Seq::new(FRAME_LOCALS as nat, |i: int| Value::Void),
                None => r matches Err(ExecException::MethodNotFound),
            },
    {
        let mut reversed: Vec<Value> = Vec::new();
        let mut i: usize = args.len();
        while i > 0
            invariant
                i <= args@.len(),
                reversed@ == args@.subrange(i as int, args@.len() as int).reverse(),
            decreases i,
        {
            i = i - 1;
            reversed.push(args[i]);
            assert(reversed@ =~= args@.subrange(i as int, args@.len() as int).reverse());
        }
        assert(args@.subrange(0, args@.len() as int) =~= args@);
        self.invoke_frame(method_id, reversed)
    }
}

/// Without class names or arrays every argument is one letter.
proof fn lemma_one_letter_args(span: Seq<char>)
    requires
        forall|i: int| 0 <= i < span.len() ==> span[i] != 'L' && span[i] != '[',
    ensures
        count_arg_types(span) == (span.len(), false),
    decreases span.len(),
{
    if span.len() > 0 {
        lemma_one_letter_args(span.drop_last());
        assert(span[span.len() - 1] != 'L' && span[span.len() - 1] != '[');
    }
}

/// The interpreter's argument count and the converter's agree on a
/// descriptor whose arguments are all primitive types (no class name and no
/// array between the parentheses).
pub proof fn law_argument_counts_agree(d: Seq<char>)
    requires
        argc_readable(d),
        ({
            let s = paren_scan(d, d.len());
            forall|i: int| s.0 < i < s.1 ==> d[i] != 'L' && d[i] != '['
        }),
    ensures
        spec_paren_span_len(d) == spec_method_desc_argc(d),
{
    let s = paren_scan(d, d.len());
    lemma_paren_scan_bounds(d, d.len());
    let span = d.subrange(s.0 + 1, s.1);
    assert forall|i: int| 0 <= i < span.len() implies span[i] != 'L' && span[i] != '[' by {
        assert(span[i] == d[s.0 + 1 + i]);
    }
    lemma_one_letter_args(span);
}

impl CodeContainer {
    /// Makes `prefix` followed by `class_name` name the same class as
    /// `class_name`, when that class is loaded.
    pub fn class_alias(&mut self, class_name: &str, prefix: &str)
        requires
            old(self).wf(),
        ensures
            final(self).wf(),
            final(self).classes@ == old(self).classes@,
            final(self).methods@ == old(self).methods@,
            final(self).method_names@ == old(self).method_names@,
            final(self).class_names@ == (if old(self).class_names@.contains_key(class_name@) {
                old(self).class_names@.insert(prefix@ + class_name@, old(self).class_names@[class_name@])
            } else {
                old(self).class_names@
            }),
    {
        match self.class_names.get(class_name) {
            Some(id) => {
                let mut alias = to_owned_string(prefix);
                push_str(&mut alias, class_name);
                self.class_names.insert(alias.as_str(), id);
            },
            None => {},
        }
    }

    /// The class in slot `class_id`.
    pub fn get_class(&self, class_id: usize) -> (r: Option<&Class>)
        ensures
            r == (if class_id < self.classes@.len() { Some(&self.classes@[class_id as int]) } else { None }),
    {
        if class_id < self.classes.len() {
            Some(&self.classes[class_id])
        } else {
            None
        }
    }

    /// A fresh object of the class in slot `class_id`.
    pub fn new_obj(&self, class_id: usize) -> (r: Object)
        requires
            class_id < self.classes@.len(),
            self.classes@[class_id as int].instantiable(),
        ensures
            r matches Object::Object { class_id: c, values } && c == self.classes@[class_id as int].class_id
                && values@.len() == self.classes@[class_id as int].field_types@.len(),
    {
        self.classes[class_id].new()
    }

    /// The virtual-table slot of a virtual method of class `class_id`; `None`
    /// for a slot past the last class.
    pub fn lookup_virtual(&self, class_id: usize, method_name: &str) -> (r: Option<usize>)
        requires
            self.wf(),
            class_id < self.classes@.len() ==> self.classes@[class_id as int].virtual_map@.contains_key(method_name@),
        ensures
            r == (if class_id < self.classes@.len() {
                Some(self.classes@[class_id as int].virtual_map@[method_name@])
            } else {
                None
            }),
    {
        if class_id < self.classes.len() {
            self.classes[class_id].lookup_virtual(method_name)
        } else {
            None
        }
    }

    /// The memory position of a static of class `class_id`.
    pub fn get_static(&self, class_id: usize, static_name: &str) -> (r: Option<usize>)
        requires
            self.wf(),
        ensures
            r == (if class_id < self.classes@.len() && self.classes@[class_id as int].statics_map@.contains_key(static_name@) {
                Some(self.classes@[class_id as int].statics_map@[static_name@])
            } else {
                None
            }),
    {
        if class_id < self.classes.len() {
            self.classes[class_id].get_static(static_name)
        } else {
            None
        }
    }

    /// The position and type of a field of class `class_id`.
    pub fn get_field(&self, class_id: usize, field_name: &str) -> (r: Option<(usize, crate::executor::FieldType)>)
        requires
            self.wf(),
        ensures
            r == (if class_id < self.classes@.len() && self.classes@[class_id as int].field_map@.contains_key(field_name@) {
                let c = self.classes@[class_id as int];
                Some((c.field_map@[field_name@], c.field_types@[c.field_map@[field_name@] as int]))
            } else {
                None
            }),
    {
        if class_id < self.classes.len() {
            self.classes[class_id].get_field(field_name)
        } else {
            None
        }
    }

    /// The method in slot `id` of the virtual table of class `class`.
    pub fn get_virtual(&self, class: usize, id: usize) -> (r: Option<usize>)
        ensures
            r == (if class < self.classes@.len() && id < self.classes@[class as int].virtual_methods@.len() {
                Some(self.classes@[class as int].virtual_methods@[id as int])
            } else {
                None
            }),
    {
        if class < self.classes.len() {
            self.classes[class].get_virtual(id)
        } else {
            None
        }
    }

    /// A name of method slot `id`, if some name leads to it.
    pub fn method_name(&self, id: usize) -> (r: Option<String>)
        requires
            self.wf(),
        ensures
            r matches Some(n) ==> self.method_names@.contains_key(n@) && self.method_names@[n@] == id,
            r is None ==> forall|k: Seq<char>| #[trigger] self.method_names@.contains_key(k) ==> self.method_names@[k] != id,
    {
        self.method_names.name_of(id)
    }
}

impl CodeContainer {
    /// The loaded classes, by slot.
    pub fn classes(&self) -> (r: &Vec<Class>)
        ensures
            r == &self.classes,
    {
        &self.classes
    }

    /// The method slots.
    pub fn methods(&self) -> (r: &Vec<Option<Method>>)
        ensures
            r == &self.methods,
    {
        &self.methods
    }

    /// The slots of the methods by name.
    pub fn method_names(&self) -> (r: &NameMap)
        ensures
            r == &self.method_names,
    {
        &self.method_names
    }

    /// Method slot `method_id`, if it exists.
    pub fn get_method(&self, method_id: usize) -> (r: Option<&Option<Method>>)
        ensures
            r == (if method_id < self.methods@.len() { Some(&self.methods@[method_id as int]) } else { None }),
    {
        if method_id < self.methods.len() {
            Some(&self.methods[method_id])
        } else {
            None
        }
    }
}

} // verus!
