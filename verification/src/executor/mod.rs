//! Turning imported classes into the interpreter's classes and instructions.
pub mod fatops;
pub mod fatclass;
pub mod class;
pub mod baseir;

use vstd::prelude::*;
use crate::{Value, Object, ObjectRef, ExecEnv};
use crate::importer::{ImportedJavaClass, in_pool, spec_lookup_utf8};
use crate::text::{char_at, char_len};

verus! {

/// A class that lowering needs and that is not loaded yet.
#[derive(Debug)]
pub enum UnmetDependency {
    NeedsClass(String),
}

/// The kind of value a field holds.
#[derive(Debug, Clone, Copy, PartialEq, Eq, Structural)]
pub enum FieldType {
    Byte,
    Char,
    Double,
    Float,
    Int,
    Long,
    Short,
    ObjectRef,
    Bool,
}

impl DeepView for FieldType {
    type V = FieldType;

    open spec fn deep_view(&self) -> FieldType {
        *self
    }
}

/// Whether a field type has a default value here: `int`, `float` and
/// references do.
pub open spec fn has_default(t: FieldType) -> bool {
    t == FieldType::Int || t == FieldType::Float || t == FieldType::ObjectRef
}

/// The value a fresh field of a type holds: 0, 0.0 or the null reference 0.
pub open spec fn spec_default_value(t: FieldType) -> Value {
    match t {
        FieldType::Int => Value::Int(0),
        FieldType::Float => Value::Float(0),
        _ => Value::ObjectRef(0),
    }
}

impl FieldType {
    /// The value a fresh field of this type holds.
    pub fn default_value(&self) -> (r: Value)
        requires
            has_default(*self),
        ensures
            r == spec_default_value(*self),
    {
        match self {
            FieldType::Int => Value::Int(0),
            FieldType::Float => Value::Float(0),
            _ => Value::ObjectRef(0),
        }
    }
}

/// The field type that a field descriptor names by its first letter; `None`
/// for an empty descriptor or an unknown letter.
pub open spec fn spec_ftype_of(d: Seq<char>) -> Option<FieldType> {
    if d.len() == 0 {
        None
    } else {
        let c = d[0];
        if c == 'B' {
            Some(FieldType::Byte)
        } else if c == 'C' {
            Some(FieldType::Char)
        } else if c == 'D' {
            Some(FieldType::Double)
        } else if c == 'F' {
            Some(FieldType::Float)
        } else if c == 'I' {
            Some(FieldType::Int)
        } else if c == 'J' {
            Some(FieldType::Long)
        } else if c == 'L' || c == '[' {
            Some(FieldType::ObjectRef)
        } else if c == 'S' {
            Some(FieldType::Short)
        } else if c == 'Z' {
            Some(FieldType::Bool)
        } else {
            None
        }
    }
}

/// The field type that the descriptor at `descriptor` of a class's constant
/// pool names, if it is a UTF-8 constant with a known first letter.
pub open spec fn spec_descriptor_ftype(items: Seq<crate::importer::SpecConstantItem>, descriptor: u16) -> Option<FieldType> {
    if in_pool(items.len() as int, descriptor) {
        match spec_lookup_utf8(items, descriptor) {
            Some(d) => spec_ftype_of(d),
            None => None,
        }
    } else {
        None
    }
}

/// The field type a descriptor string names by its first letter.
pub fn ftype_of(descriptor: &str) -> (r: Option<FieldType>)
    ensures
        r == spec_ftype_of(descriptor@),
{
    if char_len(descriptor) == 0 {
        return None;
    }
    match char_at(descriptor, 0) {
        'B' => Some(FieldType::Byte),
        'C' => Some(FieldType::Char),
        'D' => Some(FieldType::Double),
        'F' => Some(FieldType::Float),
        'I' => Some(FieldType::Int),
        'J' => Some(FieldType::Long),
        'L' | '[' => Some(FieldType::ObjectRef),
        'S' => Some(FieldType::Short),
        'Z' => Some(FieldType::Bool),
        _ => None,
    }
}

/// The field type that the descriptor at `descriptor` of `class`'s constant
/// pool names.
pub fn field_descriptor_to_ftype(descriptor: u16, class: &ImportedJavaClass) -> (r: FieldType)
    requires
        spec_descriptor_ftype(class.const_items.deep_view(), descriptor) is Some,
    ensures
        Some(r) == spec_descriptor_ftype(class.const_items.deep_view(), descriptor),
{
    let d = class.lookup_utf8(descriptor).unwrap();
    ftype_of(d).unwrap()
}

/// The local `id` of a frame: an argument, or past the arguments a slot of
/// the frame's data.
pub open spec fn local_at(args: Seq<Value>, data: Seq<Value>, id: u8) -> Option<Value> {
    if (id as int) < args.len() {
        Some(args[id as int])
    } else if (id as int) - args.len() < data.len() {
        Some(data[id as int - args.len()])
    } else {
        None
    }
}

/// The class of the object at `objref`: `None` for a string or a reference
/// past the last object.
pub open spec fn spec_obj_class(objects: Seq<Object>, objref: ObjectRef) -> Option<usize> {
    if objref < objects.len() {
        match objects[objref as int] {
            Object::Object { class_id, .. } => Some(class_id),
            Object::String(_) => None,
        }
    } else {
        None
    }
}

/// The frame of a running method: its arguments, then its data, which holds
/// its other locals followed by its operand stack.
pub struct ExecCtx {
    pub args: Vec<Value>,
    pub locals: usize,
    pub data: Vec<Value>,
}

impl ExecCtx {
    /// A frame for a call with `args`, with `locals` more locals holding
    /// `Void`.
    pub fn new(args: Vec<Value>, locals: usize) -> (r: ExecCtx)
        ensures
            r.args@ == args@,
            r.locals == locals,
            r.data@ == Seq::new(locals as nat, |i: int| Value::Void),
    {
        let mut data: Vec<Value> = Vec::new();
        let mut i: usize = 0;
        while i < locals
            invariant
                i <= locals,
                data@ == Seq::new(i as nat, |k: int| Value::Void),
            decreases locals - i,
        {
            data.push(Value::Void);
            assert(data@ =~= Seq::new((i + 1) as nat, |k: int| Value::Void));
            i = i + 1;
        }
        ExecCtx { args, locals, data }
    }

    /// Local `id`: an argument, or past the arguments a slot of the data.
    pub fn get_local(&self, id: u8) -> (r: Option<Value>)
        ensures
            r == local_at(self.args@, self.data@, id),
    {
        if (id as usize) < self.args.len() {
            Some(self.args[id as usize])
        } else if (id as usize) - self.args.len() < self.data.len() {
            Some(self.data[id as usize - self.args.len()])
        } else {
            None
        }
    }

    /// Sets local `id`, which lies past the arguments.
    pub fn set_local(&mut self, id: u8, value: Value)
        requires
            old(self).args@.len() <= id as int,
            (id as int) - old(self).args@.len() < old(self).data@.len(),
        ensures
            final(self).data@ == old(self).data@.update(id as int - old(self).args@.len(), value),
            final(self).args@ == old(self).args@,
            final(self).locals == old(self).locals,
    {
        let idx = id as usize - self.args.len();
        self.data.set(idx, value);
    }

    /// Pushes a value on the operand stack.
    pub fn stack_push(&mut self, value: Value)
        ensures
            final(self).data@ == old(self).data@.push(value),
            final(self).args@ == old(self).args@,
            final(self).locals == old(self).locals,
    {
        self.data.push(value);
    }

    /// Pops the top of the frame's data.
    pub fn stack_pop(&mut self) -> (r: Option<Value>)
        ensures
            old(self).data@.len() == 0 ==> r is None && final(self).data@ == old(self).data@,
            old(self).data@.len() > 0 ==> r == Some(old(self).data@.last()) && final(self).data@ == old(self).data@.drop_last(),
            final(self).args@ == old(self).args@,
            final(self).locals == old(self).locals,
    {
        self.data.pop()
    }

    /// The value of static `id`.
    pub fn get_static(&self, env: &ExecEnv, id: usize) -> (r: Option<Value>)
        ensures
            r == (if id < env.env_mem.statics@.len() { Some(env.env_mem.statics@[id as int]) } else { None }),
    {
        if id < env.env_mem.statics.len() {
            Some(env.env_mem.statics[id])
        } else {
            None
        }
    }

    /// The class of the object at `objref`.
    pub fn get_obj_class(&self, env: &ExecEnv, objref: ObjectRef) -> (r: Option<usize>)
        ensures
            r == spec_obj_class(env.env_mem.objects@, objref),
    {
        if objref < env.env_mem.objects.len() {
            match &env.env_mem.objects[objref] {
                Object::Object { class_id, .. } => Some(*class_id),
                Object::String(_) => None,
            }
        } else {
            None
        }
    }

    /// The method in slot `id` of the virtual table of the object's class.
    pub fn get_virtual(&self, env: &ExecEnv, objref: ObjectRef, id: usize) -> (r: Option<usize>)
        ensures
            r == (match spec_obj_class(env.env_mem.objects@, objref) {
                Some(c) => if c < env.code_container.classes@.len() && id < env.code_container.classes@[c as int].virtual_methods@.len() {
                    Some(env.code_container.classes@[c as int].virtual_methods@[id as int])
                } else {
                    None
                },
                None => None,
            }),
    {
        let obj_class = match self.get_obj_class(env, objref) {
            Some(c) => c,
            None => return None,
        };
        if obj_class < env.code_container.classes.len() {
            env.code_container.classes[obj_class].get_virtual(id)
        } else {
            None
        }
    }
}

impl ExecCtx {
    /// The text of the string object at `objref`; `None` for an instance or
    /// a reference past the last object.
    pub fn to_string(&self, env: &ExecEnv, objref: ObjectRef) -> (r: Option<String>)
        ensures
            match r {
                Some(t) => objref < env.env_mem.objects@.len() && (env.env_mem.objects@[objref as int] matches Object::String(s) && t@ == s@),
                None => objref >= env.env_mem.objects@.len() || env.env_mem.objects@[objref as int] is Object,
            },
    {
        if objref < env.env_mem.objects.len() {
            match &env.env_mem.objects[objref] {
                Object::String(s) => Some(crate::text::to_owned_string(s.as_str())),
                Object::Object { .. } => None,
            }
        } else {
            None
        }
    }

    /// Field `field_id` of the object at `objref`; `None` for a string, a
    /// missing field or a reference past the last object.
    pub fn get_field(&self, env: &ExecEnv, objref: ObjectRef, field_id: usize) -> (r: Option<Value>)
        ensures
            r == (if objref < env.env_mem.objects@.len() {
                match env.env_mem.objects@[objref as int] {
                    Object::Object { values, .. } => if field_id < values@.len() { Some(values@[field_id as int]) } else { None },
                    Object::String(_) => None,
                }
            } else {
                None
            }),
    {
        if objref < env.env_mem.objects.len() {
            env.env_mem.objects[objref].get_field(field_id)
        } else {
            None
        }
    }

    /// Sets field `field_id` of the object at `objref`.
    pub fn put_field(&self, env: &mut ExecEnv, objref: ObjectRef, field_id: usize, value: Value)
        requires
            objref < old(env).env_mem.objects@.len(),
            old(env).env_mem.objects@[objref as int] matches Object::Object { values, .. } ==> field_id < values@.len(),
        ensures
            final(env).env_mem.objects@.len() == old(env).env_mem.objects@.len(),
            forall|j: int| 0 <= j < old(env).env_mem.objects@.len() && j != objref ==> final(env).env_mem.objects@[j] == old(env).env_mem.objects@[j],
            match old(env).env_mem.objects@[objref as int] {
                Object::Object { class_id, values } => final(env).env_mem.objects@[objref as int] matches Object::Object { class_id: c, values: v }
                    && c == class_id && v@ == values@.update(field_id as int, value),
                Object::String(_) => final(env).env_mem.objects@[objref as int] == old(env).env_mem.objects@[objref as int],
            },
            final(env).env_mem.statics@ == old(env).env_mem.statics@,
            final(env).code_container == old(env).code_container,
    {
        env.env_mem.set_field(objref, field_id, value);
    }

    /// Makes a fresh object of class `class` and gives its reference.
    pub fn new_obj(&self, env: &mut ExecEnv, class: usize) -> (r: ObjectRef)
        requires
            class < old(env).code_container.classes@.len(),
            old(env).code_container.classes@[class as int].instantiable(),
        ensures
            r == old(env).env_mem.objects@.len(),
            final(env).env_mem.objects@.len() == r + 1,
            final(env).env_mem.objects@.take(r as int) == old(env).env_mem.objects@,
            final(env).env_mem.objects@[r as int] matches Object::Object { class_id, values }
                && class_id == old(env).code_container.classes@[class as int].class_id
                && values@.len() == old(env).code_container.classes@[class as int].field_types@.len(),
            final(env).env_mem.statics@ == old(env).env_mem.statics@,
            final(env).code_container == old(env).code_container,
    {
        env.new_obj(class)
    }
}


/// Whether a descriptor may start with letter `c` for a field of type `t`
/// in the JVM's descriptor grammar: `I` for `int`, `J` for `long`, `Z` for
/// `boolean`, `L` (a class) or `[` (an array) for a reference, and so on.
pub open spec fn jvm_field_letter(t: FieldType, c: char) -> bool {
    match t {
        FieldType::Byte => c == 'B',
        FieldType::Char => c == 'C',
        FieldType::Double => c == 'D',
        FieldType::Float => c == 'F',
        FieldType::Int => c == 'I',
        FieldType::Long => c == 'J',
        FieldType::Short => c == 'S',
        FieldType::ObjectRef => c == 'L' || c == '[',
        FieldType::Bool => c == 'Z',
    }
}

/// The field type read from a descriptor is the one its first letter names.
pub proof fn law_field_type_letter(d: Seq<char>)
    requires
        spec_ftype_of(d) is Some,
    ensures
        d.len() > 0,
        jvm_field_letter(spec_ftype_of(d)->0, d[0]),
{
}

} // verus!
