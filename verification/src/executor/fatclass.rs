//! A class with its names resolved: its own name, its super class's name and
//! the names and types of its fields.
use vstd::prelude::*;
use crate::executor::{FieldType, spec_descriptor_ftype, ftype_of};
use crate::executor::fatops::{spec_utf8_at, spec_class_at, class_at, utf8_at, opt_str_view};
use crate::importer::{ImportedJavaClass, SpecClass, SpecConstantItem, SpecMember};
use crate::text::to_owned_string;

verus! {

/// A class with its names resolved.
pub struct FatClass {
    pub class_name: String,
    pub super_name: String,
    pub fields: Vec<(String, FieldType)>,
    pub static_fields: Vec<(String, FieldType)>,
}

/// The name and type of a field, when both can be resolved.
pub open spec fn member_entry(items: Seq<SpecConstantItem>, m: SpecMember) -> Option<(Seq<char>, FieldType)> {
    match (spec_utf8_at(items, m.name_index), spec_descriptor_ftype(items, m.descriptor_index)) {
        (Some(n), Some(ft)) => Some((n, ft)),
        _ => None,
    }
}

/// Whether a member's access flags mark it `static`.
pub open spec fn member_is_static(m: SpecMember) -> bool {
    m.flags.mask & 0x0008 != 0
}

/// The names and types of the fields among `fields` that are static (or,
/// with `want_static` false, that are not), in order.
pub open spec fn spec_field_entries(items: Seq<SpecConstantItem>, fields: Seq<SpecMember>, want_static: bool) -> Seq<(Seq<char>, FieldType)>
    decreases fields.len(),
{
    if fields.len() == 0 {
        Seq::empty()
    } else {
        let prev = spec_field_entries(items, fields.drop_last(), want_static);
        if member_is_static(fields.last()) == want_static {
            prev.push(member_entry(items, fields.last())->0)
        } else {
            prev
        }
    }
}

/// Whether a class can be resolved: its own and its super class's names,
/// and the name and type of each field.
pub open spec fn class_expandable(c: SpecClass) -> bool {
    &&& spec_class_at(c.const_items, c.this_class) is Some
    &&& spec_class_at(c.const_items, c.super_class) is Some
    &&& forall|i: int| 0 <= i < c.fields.len() ==> (#[trigger] member_entry(c.const_items, c.fields[i])) is Some
}

/// What a resolved class holds: its name, its super class's name, its
/// instance fields and its static fields.
pub open spec fn spec_expand_class(c: SpecClass) -> (Seq<char>, Seq<char>, Seq<(Seq<char>, FieldType)>, Seq<(Seq<char>, FieldType)>) {
    (
        spec_class_at(c.const_items, c.this_class)->0,
        spec_class_at(c.const_items, c.super_class)->0,
        spec_field_entries(c.const_items, c.fields, false),
        spec_field_entries(c.const_items, c.fields, true),
    )
}

impl FatClass {
    /// The class's view: name, super name, fields and static fields.
    pub open spec fn spec_parts(&self) -> (Seq<char>, Seq<char>, Seq<(Seq<char>, FieldType)>, Seq<(Seq<char>, FieldType)>) {
        (self.class_name@, self.super_name@, self.fields.deep_view(), self.static_fields.deep_view())
    }

    /// The class's name.
    pub fn class_name(&self) -> (r: &str)
        ensures
            r@ == self.class_name@,
    {
        self.class_name.as_str()
    }

    /// The name of the class's super class.
    pub fn super_name(&self) -> (r: &str)
        ensures
            r@ == self.super_name@,
    {
        self.super_name.as_str()
    }

    /// The class's static fields, with their types.
    pub fn static_fields(&self) -> (r: &Vec<(String, FieldType)>)
        ensures
            r == &self.static_fields,
    {
        &self.static_fields
    }

    /// The class's instance fields, with their types.
    pub fn fields(&self) -> (r: &Vec<(String, FieldType)>)
        ensures
            r == &self.fields,
    {
        &self.fields
    }
}

/// Resolves a class, or gives `None` when its names or a field cannot be
/// resolved.
pub fn try_expand_class(class: &ImportedJavaClass) -> (r: Option<FatClass>)
    ensures
        r is Some <==> class_expandable(class.deep_view()),
        r matches Some(f) ==> f.spec_parts() == spec_expand_class(class.deep_view()),
{
    let ghost c = class.deep_view();
    let ghost items = c.const_items;
    let class_name = match class_at(class, class.this_class()) {
        Some(n) => n,
        None => return None,
    };
    let super_name = match class_at(class, class.super_class()) {
        Some(n) => n,
        None => return None,
    };
    let mut fields: Vec<(String, FieldType)> = Vec::new();
    let mut static_fields: Vec<(String, FieldType)> = Vec::new();
    let mut i: usize = 0;
    while i < class.fields.len()
        invariant
            c == class.deep_view(),
            items == class.const_items.deep_view(),
            c.fields.len() == class.fields@.len(),
            i <= class.fields@.len(),
            forall|j: int| 0 <= j < i ==> (#[trigger] member_entry(items, c.fields[j])) is Some,
            fields.deep_view() == spec_field_entries(items, c.fields.take(i as int), false),
            static_fields.deep_view() == spec_field_entries(items, c.fields.take(i as int), true),
        decreases class.fields@.len() - i,
    {
        let field = &class.fields[i];
        assert(c.fields[i as int] == field.deep_view());
        let name = match utf8_at(class, field.name_index) {
            Some(n) => n,
            None => return None,
        };
        let descriptor = field.descriptor_index;
        if descriptor < 1 || descriptor as usize > class.const_items.len() {
            return None;
        }
        let ftype = match class.lookup_utf8(descriptor) {
            Some(d) => match ftype_of(d) {
                Some(f) => f,
                None => return None,
            },
            None => return None,
        };
        assert(member_entry(items, c.fields[i as int]) == Some((name@, ftype)));
        assert(c.fields.take(i + 1).drop_last() =~= c.fields.take(i as int));
        let ghost before_fields = fields.deep_view();
        let ghost before_statics = static_fields.deep_view();
        if field.flags.is_static() {
            static_fields.push((to_owned_string(name), ftype));
            assert(static_fields.deep_view() =~= before_statics.push((name@, ftype)));
        } else {
            fields.push((to_owned_string(name), ftype));
            assert(fields.deep_view() =~= before_fields.push((name@, ftype)));
        }
        i = i + 1;
    }
    assert(c.fields.take(c.fields.len() as int) =~= c.fields);
    Some(FatClass {
        class_name: to_owned_string(class_name),
        super_name: to_owned_string(super_name),
        fields,
        static_fields,
    })
}

/// Resolves a class whose names and fields can all be resolved.
pub fn expand_class(class: &ImportedJavaClass) -> (r: FatClass)
    requires
        class_expandable(class.deep_view()),
    ensures
        r.spec_parts() == spec_expand_class(class.deep_view()),
{
    try_expand_class(class).unwrap()
}

} // verus!
