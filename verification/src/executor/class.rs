//! A linked class of the interpreter: where its fields, statics and virtual
//! methods are found.
use vstd::prelude::*;
use crate::executor::{FieldType, has_default, spec_default_value};
use crate::namemap::NameMap;
use crate::text::to_owned_string;
use crate::executor::UnmetDependency;
use crate::executor::fatclass::FatClass;
use crate::{ExecEnv, Object, Value};

verus! {

/// A linked class: its virtual-method table, and the positions of its
/// fields, statics and virtual methods by name.
pub struct Class {
    pub class_id: usize,
    pub class_name: String,
    pub virtual_methods: Vec<usize>,
    pub virtual_map: NameMap,
    pub statics_map: NameMap,
    pub field_map: NameMap,
    pub field_types: Vec<FieldType>,
}

impl Class {
    /// The maps have distinct names and every field name leads to a field
    /// type.
    pub open spec fn wf(&self) -> bool {
        &&& self.virtual_map.wf()
        &&& self.statics_map.wf()
        &&& self.field_map.wf()
        &&& forall|k: Seq<char>| #[trigger] self.field_map@.contains_key(k) ==> self.field_map@[k] < self.field_types@.len()
    }

    /// Whether every field of the class has a default value, so that an
    /// object of it can be made.
    pub open spec fn instantiable(&self) -> bool {
        forall|i: int| 0 <= i < self.field_types@.len() ==> has_default(#[trigger] self.field_types@[i])
    }

    /// The positions of the class's statics in the interpreter's memory.
    pub fn statics_map(&self) -> (r: &NameMap)
        ensures
            r == &self.statics_map,
    {
        &self.statics_map
    }

    /// The method indices of the class's virtual methods.
    pub fn virtual_methods(&self) -> (r: &Vec<usize>)
        ensures
            r == &self.virtual_methods,
    {
        &self.virtual_methods
    }

    /// The virtual-table positions of the class's virtual methods by name.
    pub fn virtual_map(&self) -> (r: &NameMap)
        ensures
            r == &self.virtual_map,
    {
        &self.virtual_map
    }

    /// The types of the class's fields, by position.
    pub fn field_types(&self) -> (r: &Vec<FieldType>)
        ensures
            r == &self.field_types,
    {
        &self.field_types
    }

    /// The positions of the class's fields by name.
    pub fn field_map(&self) -> (r: &NameMap)
        ensures
            r == &self.field_map,
    {
        &self.field_map
    }

    /// The class's name.
    pub fn class_name(&self) -> (r: &str)
        ensures
            r@ == self.class_name@,
    {
        self.class_name.as_str()
    }

    /// Sets the class's id; done once, after the class is stored.
    pub fn set_id(&mut self, id: usize)
        requires
            old(self).class_id == 0,
        ensures
            *final(self) == (Class { class_id: id, ..*old(self) }),
    {
        self.class_id = id;
    }

    /// The method index in slot `virtual_id` of the virtual table.
    pub fn get_virtual(&self, virtual_id: usize) -> (r: Option<usize>)
        ensures
            r == (if virtual_id < self.virtual_methods@.len() {
                Some(self.virtual_methods@[virtual_id as int])
            } else {
                None
            }),
    {
        if virtual_id < self.virtual_methods.len() {
            Some(self.virtual_methods[virtual_id])
        } else {
            None
        }
    }

    /// The virtual-table slot of a virtual method the class has.
    pub fn lookup_virtual(&self, method_name: &str) -> (r: Option<usize>)
        requires
            self.wf(),
            self.virtual_map@.contains_key(method_name@),
        ensures
            r == Some(self.virtual_map@[method_name@]),
    {
        self.virtual_map.get(method_name)
    }

    /// The position and type of the field called `name`.
    pub fn get_field(&self, name: &str) -> (r: Option<(usize, FieldType)>)
        requires
            self.wf(),
        ensures
            r == (if self.field_map@.contains_key(name@) {
                Some((self.field_map@[name@], self.field_types@[self.field_map@[name@] as int]))
            } else {
                None
            }),
    {
        let field_id = match self.field_map.get(name) {
            Some(id) => id,
            None => return None,
        };
        let ftype = self.field_types[field_id];
        Some((field_id, ftype))
    }

    /// The memory position of the static called `name`.
    pub fn get_static(&self, name: &str) -> (r: Option<usize>)
        requires
            self.wf(),
        ensures
            r == (if self.statics_map@.contains_key(name@) { Some(self.statics_map@[name@]) } else { None }),
    {
        self.statics_map.get(name)
    }

    /// Whether this is a class with id 0, no name, and no fields, statics or
    /// virtual methods.
    pub open spec fn is_empty_class(&self) -> bool {
        &&& self.class_id == 0
        &&& self.class_name@.len() == 0
        &&& self.virtual_methods@.len() == 0
        &&& self.virtual_map@ == Map::<Seq<char>, usize>::empty()
        &&& self.statics_map@ == Map::<Seq<char>, usize>::empty()
        &&& self.field_map@ == Map::<Seq<char>, usize>::empty()
        &&& self.field_types@.len() == 0
    }

    /// A class with no name, fields, statics or virtual methods.
    pub fn empty() -> (r: Class)
        ensures
            r.wf(),
            r.is_empty_class(),
            r.class_id == 0,
            r.class_name@.len() == 0,
            r.virtual_methods@.len() == 0,
            r.virtual_map@ == Map::<Seq<char>, usize>::empty(),
            r.statics_map@ == Map::<Seq<char>, usize>::empty(),
            r.field_map@ == Map::<Seq<char>, usize>::empty(),
            r.field_types@.len() == 0,
    {
        proof {
            reveal_strlit("");
        }
        Class {
            class_name: to_owned_string(""),
            class_id: 0,
            virtual_methods: Vec::new(),
            virtual_map: NameMap::new(),
            statics_map: NameMap::new(),
            field_map: NameMap::new(),
            field_types: Vec::new(),
        }
    }

    /// A fresh object of this class, each field holding its type's default.
    pub fn new(&self) -> (r: Object)
        requires
            self.instantiable(),
        ensures
            r matches Object::Object { class_id, values } && class_id == self.class_id
                && values@.len() == self.field_types@.len()
                && forall|i: int| 0 <= i < values@.len() ==> values@[i] == spec_default_value(#[trigger] self.field_types@[i]),
    {
        let mut values: Vec<Value> = Vec::new();
        let mut i: usize = 0;
        while i < self.field_types.len()
            invariant
                i <= self.field_types@.len(),
                self.instantiable(),
                values@.len() == i,
                forall|j: int| 0 <= j < i ==> values@[j] == spec_default_value(#[trigger] self.field_types@[j]),
            decreases self.field_types@.len() - i,
        {
            let v = self.field_types[i].default_value();
            values.push(v);
            i = i + 1;
        }
        Object::Object { class_id: self.class_id, values }
    }
}

/// `m` with the names of `entries` added in order, the `k`-th entry's name
/// mapped to `base + k` (a later entry overrides an earlier one).
pub open spec fn spec_insert_seq(m: Map<Seq<char>, usize>, entries: Seq<(Seq<char>, FieldType)>, base: nat) -> Map<Seq<char>, usize>
    decreases entries.len(),
{
    if entries.len() == 0 {
        m
    } else {
        spec_insert_seq(m, entries.drop_last(), base).insert(entries.last().0, (base + entries.len() - 1) as usize)
    }
}

/// The types of a list of named fields.
pub open spec fn entry_types(entries: Seq<(Seq<char>, FieldType)>) -> Seq<FieldType> {
    entries.map_values(|e: (Seq<char>, FieldType)| e.1)
}

/// The default values of a list of named fields.
pub open spec fn entry_defaults(entries: Seq<(Seq<char>, FieldType)>) -> Seq<Value> {
    entries.map_values(|e: (Seq<char>, FieldType)| spec_default_value(e.1))
}

/// Whether `c` is what linking a resolved class with parts `parts` (name,
/// super name, fields, statics) below the super class `sup` gives, when its
/// own statics take memory slots from `nstatics` on: it inherits the super
/// class's fields (its own come after them), statics and virtual methods.
pub open spec fn linked_class(
    c: Class,
    parts: (Seq<char>, Seq<char>, Seq<(Seq<char>, FieldType)>, Seq<(Seq<char>, FieldType)>),
    sup: Class,
    nstatics: nat,
) -> bool {
    &&& c.wf()
    &&& c.class_name@ == parts.0
    &&& c.class_id == 0
    &&& c.virtual_methods@ == sup.virtual_methods@
    &&& c.virtual_map@ == sup.virtual_map@
    &&& c.field_types@ == sup.field_types@ + entry_types(parts.2)
    &&& c.field_map@ == spec_insert_seq(sup.field_map@, parts.2, sup.field_types@.len())
    &&& c.statics_map@ == spec_insert_seq(sup.statics_map@, parts.3, nstatics)
}

/// Links a resolved class below its loaded super class: the class inherits
/// the super class's fields (its own come after them), statics and virtual
/// methods, and each of its own statics gets a fresh memory slot holding its
/// type's default. Gives the super class's name when it is not loaded.
pub fn finalize(class: &FatClass, env: &mut ExecEnv) -> (r: Result<Class, UnmetDependency>)
    requires
        old(env).code_container.wf(),
        old(env).code_container.class_names@.contains_key(class.super_name@) ==>
            forall|i: int| 0 <= i < class.static_fields@.len() ==> has_default((#[trigger] class.static_fields@[i]).1),
    ensures
        final(env).code_container == old(env).code_container,
        final(env).env_mem.objects@ == old(env).env_mem.objects@,
        match r {
            Err(UnmetDependency::NeedsClass(s)) => s@ == class.super_name@
                && !old(env).code_container.class_names@.contains_key(class.super_name@)
                && final(env).env_mem.statics@ == old(env).env_mem.statics@,
            Ok(c) => {
                let names = old(env).code_container.class_names@;
                let sup = old(env).code_container.classes@[names[class.super_name@] as int];
                &&& names.contains_key(class.super_name@)
                &&& linked_class(c, class.spec_parts(), sup, old(env).env_mem.statics@.len())
                &&& final(env).env_mem.statics@ == old(env).env_mem.statics@ + entry_defaults(class.static_fields.deep_view())
            },
        },
{
    let super_name = class.super_name();
    let super_class = match env.code_container.lookup_class(super_name) {
        Some(id) => id,
        None => return Err(UnmetDependency::NeedsClass(to_owned_string(super_name))),
    };
    let sup = &env.code_container.classes[super_class];
    assert(sup.wf());
    let ghost statics0 = env.env_mem.statics@;
    let ghost sfields = class.static_fields.deep_view();
    let mut statics_map = sup.statics_map.copy();
    let mut i: usize = 0;
    while i < class.static_fields.len()
        invariant
            i <= class.static_fields@.len(),
            sfields == class.static_fields.deep_view(),
            sfields.len() == class.static_fields@.len(),
            forall|j: int| 0 <= j < class.static_fields@.len() ==> has_default((#[trigger] class.static_fields@[j]).1),
            statics_map.wf(),
            statics_map@ == spec_insert_seq(sup.statics_map@, sfields.take(i as int), statics0.len()),
            env.env_mem.statics@ == statics0 + entry_defaults(sfields.take(i as int)),
            env.env_mem.objects@ == old(env).env_mem.objects@,
            env.code_container == old(env).code_container,
            statics0 == old(env).env_mem.statics@,
        decreases class.static_fields@.len() - i,
    {
        let (name, ftype) = &class.static_fields[i];
        assert(sfields[i as int] == (name@, *ftype));
        assert(has_default(class.static_fields@[i as int].1));
        let static_id = env.env_mem.insert_static(ftype.default_value());
        statics_map.insert(name.as_str(), static_id);
        assert(sfields.take(i + 1).drop_last() =~= sfields.take(i as int));
        assert(entry_defaults(sfields.take(i + 1)) =~= entry_defaults(sfields.take(i as int)).push(spec_default_value(*ftype)));
        i = i + 1;
    }
    assert(sfields.take(sfields.len() as int) =~= sfields);
    let ghost ifields = class.fields.deep_view();
    let mut field_types: Vec<FieldType> = Vec::new();
    let mut k: usize = 0;
    while k < sup.field_types.len()
        invariant
            k <= sup.field_types@.len(),
            field_types@ == sup.field_types@.take(k as int),
        decreases sup.field_types@.len() - k,
    {
        field_types.push(sup.field_types[k]);
        assert(sup.field_types@.take(k + 1) =~= sup.field_types@.take(k as int).push(sup.field_types@[k as int]));
        k = k + 1;
    }
    assert(sup.field_types@.take(sup.field_types@.len() as int) =~= sup.field_types@);
    let mut field_map = sup.field_map.copy();
    let mut j: usize = 0;
    while j < class.fields.len()
        invariant
            j <= class.fields@.len(),
            ifields == class.fields.deep_view(),
            ifields.len() == class.fields@.len(),
            sup.wf(),
            field_map.wf(),
            field_map@ == spec_insert_seq(sup.field_map@, ifields.take(j as int), sup.field_types@.len()),
            field_types@ == sup.field_types@ + entry_types(ifields.take(j as int)),
            forall|q: Seq<char>| #[trigger] field_map@.contains_key(q) ==> field_map@[q] < field_types@.len(),
        decreases class.fields@.len() - j,
    {
        let (name, ftype) = &class.fields[j];
        assert(ifields[j as int] == (name@, *ftype));
        let pos = field_types.len();
        field_map.insert(name.as_str(), pos);
        field_types.push(*ftype);
        assert(ifields.take(j + 1).drop_last() =~= ifields.take(j as int));
        assert(entry_types(ifields.take(j + 1)) =~= entry_types(ifields.take(j as int)).push(*ftype));
        assert(field_types@ =~= sup.field_types@ + entry_types(ifields.take(j + 1)));
        j = j + 1;
    }
    assert(ifields.take(ifields.len() as int) =~= ifields);
    let mut virtual_methods: Vec<usize> = Vec::new();
    let mut v: usize = 0;
    while v < sup.virtual_methods.len()
        invariant
            v <= sup.virtual_methods@.len(),
            virtual_methods@ == sup.virtual_methods@.take(v as int),
        decreases sup.virtual_methods@.len() - v,
    {
        virtual_methods.push(sup.virtual_methods[v]);
        assert(sup.virtual_methods@.take(v + 1) =~= sup.virtual_methods@.take(v as int).push(sup.virtual_methods@[v as int]));
        v = v + 1;
    }
    assert(sup.virtual_methods@.take(sup.virtual_methods@.len() as int) =~= sup.virtual_methods@);
    let virtual_map = sup.virtual_map.copy();
    Ok(Class {
        class_name: to_owned_string(class.class_name()),
        class_id: 0,
        virtual_methods,
        virtual_map,
        statics_map,
        field_map,
        field_types,
    })
}


/// Linking a class keeps the super class's fields where they were: a name
/// that none of the class's own fields has keeps the super class's
/// position, and each own field (the last one of its name) comes at the
/// super class's field count plus its own position.
pub proof fn law_inherited_fields_keep_positions(m: Map<Seq<char>, usize>, entries: Seq<(Seq<char>, FieldType)>, base: nat)
    requires
        base + entries.len() <= usize::MAX,
    ensures
        forall|k: Seq<char>| (forall|j: int| 0 <= j < entries.len() ==> entries[j].0 != k) ==> {
            &&& #[trigger] spec_insert_seq(m, entries, base).contains_key(k) == m.contains_key(k)
            &&& m.contains_key(k) ==> spec_insert_seq(m, entries, base)[k] == m[k]
        },
        forall|j: int| 0 <= j < entries.len() && (forall|j2: int| j < j2 < entries.len() ==> entries[j2].0 != entries[j].0)
            ==> spec_insert_seq(m, entries, base)[(#[trigger] entries[j]).0] == base + j,
    decreases entries.len(),
{
    if entries.len() > 0 {
        let p = entries.drop_last();
        law_inherited_fields_keep_positions(m, p, base);
        assert forall|k: Seq<char>| (forall|j: int| 0 <= j < entries.len() ==> entries[j].0 != k) implies {
            &&& #[trigger] spec_insert_seq(m, entries, base).contains_key(k) == m.contains_key(k)
            &&& m.contains_key(k) ==> spec_insert_seq(m, entries, base)[k] == m[k]
        } by {
            assert(entries[entries.len() - 1].0 != k);
            assert forall|j: int| 0 <= j < p.len() implies p[j].0 != k by {
                assert(p[j] == entries[j]);
            }
            assert(spec_insert_seq(m, p, base).contains_key(k) == m.contains_key(k));
            if m.contains_key(k) {
                assert(spec_insert_seq(m, p, base)[k] == m[k]);
            }
        }
        assert forall|j: int| 0 <= j < entries.len() && (forall|j2: int| j < j2 < entries.len() ==> entries[j2].0 != entries[j].0)
            implies spec_insert_seq(m, entries, base)[(#[trigger] entries[j]).0] == base + j by {
            if j < entries.len() - 1 {
                assert(p[j] == entries[j]);
                assert(entries[entries.len() - 1].0 != entries[j].0);
                assert forall|j2: int| j < j2 < p.len() implies p[j2].0 != p[j].0 by {
                    assert(p[j2] == entries[j2]);
                }
            }
        }
    }
}

} // verus!
