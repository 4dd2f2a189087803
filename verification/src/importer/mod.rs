//! Reading JVM class files.
pub mod reader;
pub mod opcodes;
pub mod attribute;
pub mod jar;

use vstd::prelude::*;
use vstd::utf8::{decode_utf8, valid_utf8};
use self::reader::{Abort, Failure, IoFailure, lift, load_bytes, load_u16, load_u32, load_u64, load_u8, spec_bytes, spec_u16, spec_u32, spec_u64, spec_u8, utf8_to_string};
use self::attribute::{Attribute, BootstrapMethod, SpecAttribute, spec_attributes, spec_u16s, load_u16s};
use self::opcodes::{OpCode, SpecOpCode};

verus! {

/// The access flags of a class, field, method or parameter.
#[derive(Debug, Clone, Copy, PartialEq, Eq, Structural)]
pub struct AccessFlags {
    pub mask: u16,
}

/// Access flags read at `p`: a big-endian 16-bit mask.
pub open spec fn spec_access_flags(s: Seq<u8>, p: int) -> Result<(AccessFlags, int), Failure> {
    match spec_u16(s, p) {
        Ok((mask, q)) => Ok((AccessFlags { mask }, q)),
        Err(e) => Err(e),
    }
}

impl DeepView for AccessFlags {
    type V = AccessFlags;

    open spec fn deep_view(&self) -> AccessFlags {
        *self
    }
}

impl AccessFlags {
    /// Reads access flags at `pos`.
    pub fn read(data: &[u8], pos: usize) -> (r: Result<(AccessFlags, usize), Failure>)
        ensures
            lift(r) == spec_access_flags(data@, pos as int),
    {
        match load_u16(data, pos) {
            Ok((mask, q)) => Ok((AccessFlags { mask }, q)),
            Err(e) => Err(e),
        }
    }

    /// `ACC_PUBLIC` (0x0001).
    pub fn is_public(&self) -> (r: bool)
        ensures
            r == (self.mask & 0x0001 != 0),
    {
        self.mask & 0x0001 != 0
    }

    /// `ACC_FINAL` (0x0010).
    pub fn is_final(&self) -> (r: bool)
        ensures
            r == (self.mask & 0x0010 != 0),
    {
        self.mask & 0x0010 != 0
    }

    /// `ACC_SUPER` (0x0020).
    pub fn is_super(&self) -> (r: bool)
        ensures
            r == (self.mask & 0x0020 != 0),
    {
        self.mask & 0x0020 != 0
    }

    /// `ACC_INTERFACE` (0x0200).
    pub fn is_interface(&self) -> (r: bool)
        ensures
            r == (self.mask & 0x0200 != 0),
    {
        self.mask & 0x0200 != 0
    }

    /// `ACC_ABSTRACT` (0x0400).
    pub fn is_abstract(&self) -> (r: bool)
        ensures
            r == (self.mask & 0x0400 != 0),
    {
        self.mask & 0x0400 != 0
    }

    /// `ACC_STATIC` (0x0008).
    pub fn is_static(&self) -> (r: bool)
        ensures
            r == (self.mask & 0x0008 != 0),
    {
        self.mask & 0x0008 != 0
    }

    /// `ACC_SYNTHETIC` (0x1000).
    pub fn is_synthetic(&self) -> (r: bool)
        ensures
            r == (self.mask & 0x1000 != 0),
    {
        self.mask & 0x1000 != 0
    }

    /// `ACC_ANNOTATION` (0x2000).
    pub fn is_annotantion(&self) -> (r: bool)
        ensures
            r == (self.mask & 0x2000 != 0),
    {
        self.mask & 0x2000 != 0
    }

    /// `ACC_ENUM` (0x4000).
    pub fn is_enum(&self) -> (r: bool)
        ensures
            r == (self.mask & 0x4000 != 0),
    {
        self.mask & 0x4000 != 0
    }
}

/// One entry of a class's constant pool.
#[derive(Debug)]
pub enum ConstantItem {
    Unknown,
    MethodRef { class_index: u16, name_and_type_index: u16 },
    InterfaceMethodRef { class_index: u16, name_and_type_index: u16 },
    Class { name_index: u16 },
    NameAndType { name_index: u16, descriptor_index: u16 },
    FieldRef { class_index: u16, name_and_type_index: u16 },
    ConstString { string_index: u16 },
    InvokeDynamic { bootstrap_method_attr_index: u16, name_and_type_index: u16 },
    MethodHandle { reference_kind: u8, reference_index: u16 },
    MethodType { descriptor_index: u16 },
    Utf8(String),
    Long(u64),
}

/// The mathematical value of a `ConstantItem`.
pub enum SpecConstantItem {
    Unknown,
    MethodRef { class_index: u16, name_and_type_index: u16 },
    InterfaceMethodRef { class_index: u16, name_and_type_index: u16 },
    Class { name_index: u16 },
    NameAndType { name_index: u16, descriptor_index: u16 },
    FieldRef { class_index: u16, name_and_type_index: u16 },
    ConstString { string_index: u16 },
    InvokeDynamic { bootstrap_method_attr_index: u16, name_and_type_index: u16 },
    MethodHandle { reference_kind: u8, reference_index: u16 },
    MethodType { descriptor_index: u16 },
    Utf8(Seq<char>),
    Long(u64),
}

impl DeepView for ConstantItem {
    type V = SpecConstantItem;

    open spec fn deep_view(&self) -> SpecConstantItem {
        match self {
            ConstantItem::Unknown => SpecConstantItem::Unknown,
            ConstantItem::MethodRef { class_index, name_and_type_index } => SpecConstantItem::MethodRef {
                class_index: *class_index,
                name_and_type_index: *name_and_type_index,
            },
            ConstantItem::InterfaceMethodRef { class_index, name_and_type_index } => SpecConstantItem::InterfaceMethodRef {
                class_index: *class_index,
                name_and_type_index: *name_and_type_index,
            },
            ConstantItem::Class { name_index } => SpecConstantItem::Class { name_index: *name_index },
            ConstantItem::NameAndType { name_index, descriptor_index } => SpecConstantItem::NameAndType {
                name_index: *name_index,
                descriptor_index: *descriptor_index,
            },
            ConstantItem::FieldRef { class_index, name_and_type_index } => SpecConstantItem::FieldRef {
                class_index: *class_index,
                name_and_type_index: *name_and_type_index,
            },
            ConstantItem::ConstString { string_index } => SpecConstantItem::ConstString { string_index: *string_index },
            ConstantItem::InvokeDynamic { bootstrap_method_attr_index, name_and_type_index } => SpecConstantItem::InvokeDynamic {
                bootstrap_method_attr_index: *bootstrap_method_attr_index,
                name_and_type_index: *name_and_type_index,
            },
            ConstantItem::MethodHandle { reference_kind, reference_index } => SpecConstantItem::MethodHandle {
                reference_kind: *reference_kind,
                reference_index: *reference_index,
            },
            ConstantItem::MethodType { descriptor_index } => SpecConstantItem::MethodType { descriptor_index: *descriptor_index },
            ConstantItem::Utf8(s) => SpecConstantItem::Utf8(s@),
            ConstantItem::Long(v) => SpecConstantItem::Long(*v),
        }
    }
}

/// Two big-endian 16-bit values read at `p`.
pub open spec fn spec_u16_pair(s: Seq<u8>, p: int) -> Result<((u16, u16), int), Failure> {
    match spec_u16(s, p) {
        Err(e) => Err(e),
        Ok((a, q)) => match spec_u16(s, q) {
            Err(e) => Err(e),
            Ok((b, q2)) => Ok(((a, b), q2)),
        },
    }
}

fn load_u16_pair(data: &[u8], pos: usize) -> (r: Result<((u16, u16), usize), Failure>)
    ensures
        lift(r) == spec_u16_pair(data@, pos as int),
{
    let (a, q) = match load_u16(data, pos) {
        Ok(x) => x,
        Err(e) => return Err(e),
    };
    match load_u16(data, q) {
        Ok((b, q2)) => Ok(((a, b), q2)),
        Err(e) => Err(e),
    }
}

/// A constant-pool entry read at `p`: a tag byte, then the entry's fields.
/// Tag 1 is a UTF-8 string (a 16-bit length and that many bytes), 5 a long,
/// 7 a class, 8 a string, 9 a field reference, 10 a method reference, 11 an
/// interface method reference, 12 a name and type, 15 a method handle, 16 a
/// method type, 18 an invokedynamic site; other tags stop the reader.
pub open spec fn spec_constant_item(s: Seq<u8>, p: int) -> Result<(SpecConstantItem, int), Failure> {
    match spec_u8(s, p) {
        Err(e) => Err(e),
        Ok((tag, q)) => if tag == 1 {
            match spec_u16(s, q) {
                Err(e) => Err(e),
                Ok((length, q2)) => match spec_bytes(s, q2, length as int) {
                    Err(e) => Err(e),
                    Ok((bytes, q3)) => if valid_utf8(bytes) {
                        Ok((SpecConstantItem::Utf8(decode_utf8(bytes)), q3))
                    } else {
                        Err(Failure::BadUtf8)
                    },
                },
            }
        } else if tag == 5 {
            match spec_u64(s, q) {
                Err(e) => Err(e),
                Ok((v, q2)) => Ok((SpecConstantItem::Long(v), q2)),
            }
        } else if tag == 7 || tag == 8 || tag == 16 {
            match spec_u16(s, q) {
                Err(e) => Err(e),
                Ok((v, q2)) => Ok((
                    if tag == 7 {
                        SpecConstantItem::Class { name_index: v }
                    } else if tag == 8 {
                        SpecConstantItem::ConstString { string_index: v }
                    } else {
                        SpecConstantItem::MethodType { descriptor_index: v }
                    },
                    q2,
                )),
            }
        } else if tag == 9 || tag == 10 || tag == 11 || tag == 12 || tag == 18 {
            match spec_u16_pair(s, q) {
                Err(e) => Err(e),
                Ok(((a, b), q2)) => Ok((
                    if tag == 9 {
                        SpecConstantItem::FieldRef { class_index: a, name_and_type_index: b }
                    } else if tag == 10 {
                        SpecConstantItem::MethodRef { class_index: a, name_and_type_index: b }
                    } else if tag == 11 {
                        SpecConstantItem::InterfaceMethodRef { class_index: a, name_and_type_index: b }
                    } else if tag == 12 {
                        SpecConstantItem::NameAndType { name_index: a, descriptor_index: b }
                    } else {
                        SpecConstantItem::InvokeDynamic { bootstrap_method_attr_index: a, name_and_type_index: b }
                    },
                    q2,
                )),
            }
        } else if tag == 15 {
            match spec_u8(s, q) {
                Err(e) => Err(e),
                Ok((kind, q2)) => match spec_u16(s, q2) {
                    Err(e) => Err(e),
                    Ok((index, q3)) => Ok((SpecConstantItem::MethodHandle { reference_kind: kind, reference_index: index }, q3)),
                },
            }
        } else {
            Err(Failure::Abort(Abort::UnhandledConstantTag(tag)))
        },
    }
}

impl ConstantItem {
    /// Reads one constant-pool entry at `pos`.
    pub fn read(data: &[u8], pos: usize) -> (r: Result<(ConstantItem, usize), Failure>)
        ensures
            lift(r) == spec_constant_item(data@, pos as int),
    {
        let (tag, q) = match load_u8(data, pos) {
            Ok(x) => x,
            Err(e) => return Err(e),
        };
        if tag == 1 {
            let (length, q2) = match load_u16(data, q) {
                Ok(x) => x,
                Err(e) => return Err(e),
            };
            let (bytes, q3) = match load_bytes(data, q2, length as usize) {
                Ok(x) => x,
                Err(e) => return Err(e),
            };
            assert(bytes.deep_view() =~= bytes@);
            match utf8_to_string(bytes.as_slice()) {
                Some(string) => Ok((ConstantItem::Utf8(string), q3)),
                None => Err(Failure::BadUtf8),
            }
        } else if tag == 5 {
            match load_u64(data, q) {
                Ok((v, q2)) => Ok((ConstantItem::Long(v), q2)),
                Err(e) => Err(e),
            }
        } else if tag == 7 || tag == 8 || tag == 16 {
            match load_u16(data, q) {
                Ok((v, q2)) => Ok((
                    if tag == 7 {
                        ConstantItem::Class { name_index: v }
                    } else if tag == 8 {
                        ConstantItem::ConstString { string_index: v }
                    } else {
                        ConstantItem::MethodType { descriptor_index: v }
                    },
                    q2,
                )),
                Err(e) => Err(e),
            }
        } else if tag == 9 || tag == 10 || tag == 11 || tag == 12 || tag == 18 {
            match load_u16_pair(data, q) {
                Ok(((a, b), q2)) => Ok((
                    if tag == 9 {
                        ConstantItem::FieldRef { class_index: a, name_and_type_index: b }
                    } else if tag == 10 {
                        ConstantItem::MethodRef { class_index: a, name_and_type_index: b }
                    } else if tag == 11 {
                        ConstantItem::InterfaceMethodRef { class_index: a, name_and_type_index: b }
                    } else if tag == 12 {
                        ConstantItem::NameAndType { name_index: a, descriptor_index: b }
                    } else {
                        ConstantItem::InvokeDynamic { bootstrap_method_attr_index: a, name_and_type_index: b }
                    },
                    q2,
                )),
                Err(e) => Err(e),
            }
        } else if tag == 15 {
            let (kind, q2) = match load_u8(data, q) {
                Ok(x) => x,
                Err(e) => return Err(e),
            };
            match load_u16(data, q2) {
                Ok((index, q3)) => Ok((ConstantItem::MethodHandle { reference_kind: kind, reference_index: index }, q3)),
                Err(e) => Err(e),
            }
        } else {
            Err(Failure::Abort(Abort::UnhandledConstantTag(tag)))
        }
    }
}

/// Why reading a constant failed.
#[derive(Debug, Clone, Copy, PartialEq, Eq, Structural)]
pub enum ConstantImportError {
    IoError(IoFailure),
    /// The bytes of a UTF-8 constant are not valid UTF-8.
    Utf8Error,
}

/// A field or method of a class, as read: its flags, the constant-pool
/// indices of its name and descriptor, and its attributes.
pub struct SpecMember {
    pub flags: AccessFlags,
    pub name_index: u16,
    pub descriptor_index: u16,
    pub attributes: Seq<SpecAttribute>,
}

/// A field or method read at `p`: access flags, name index, descriptor index,
/// an attribute count and that many attributes.
pub open spec fn spec_member(s: Seq<u8>, p: int, items: Seq<SpecConstantItem>) -> Result<(SpecMember, int), Failure> {
    match spec_u16(s, p) {
        Err(e) => Err(e),
        Ok((mask, p1)) => match spec_u16(s, p1) {
            Err(e) => Err(e),
            Ok((name_index, p2)) => match spec_u16(s, p2) {
                Err(e) => Err(e),
                Ok((descriptor_index, p3)) => match spec_u16(s, p3) {
                    Err(e) => Err(e),
                    Ok((count, p4)) => match spec_attributes(s, p4, count as nat, items) {
                        Err(e) => Err(e),
                        Ok((attributes, p5)) => Ok((
                            SpecMember { flags: AccessFlags { mask }, name_index, descriptor_index, attributes },
                            p5,
                        )),
                    },
                },
            },
        },
    }
}

/// A field of a class.
#[derive(Debug)]
pub struct Field {
    pub flags: AccessFlags,
    pub name_index: u16,
    pub descriptor_index: u16,
    pub attributes: Vec<Attribute>,
}

/// A method of a class.
#[derive(Debug)]
pub struct Method {
    pub access_flags: AccessFlags,
    pub name_index: u16,
    pub descriptor_index: u16,
    pub attributes: Vec<Attribute>,
}

impl DeepView for Field {
    type V = SpecMember;

    open spec fn deep_view(&self) -> SpecMember {
        SpecMember {
            flags: self.flags,
            name_index: self.name_index,
            descriptor_index: self.descriptor_index,
            attributes: self.attributes.deep_view(),
        }
    }
}

impl DeepView for Method {
    type V = SpecMember;

    open spec fn deep_view(&self) -> SpecMember {
        SpecMember {
            flags: self.access_flags,
            name_index: self.name_index,
            descriptor_index: self.descriptor_index,
            attributes: self.attributes.deep_view(),
        }
    }
}

/// Reads the parts of a field or method at `pos`.
fn read_member(data: &[u8], pos: usize, const_items: &Vec<ConstantItem>) -> (r: Result<((AccessFlags, u16, u16, Vec<Attribute>), usize), Failure>)
    ensures
        match (r, spec_member(data@, pos as int, const_items.deep_view())) {
            (Ok(((f, n, d, a), q)), Ok((m, q2))) => m == (SpecMember { flags: f, name_index: n, descriptor_index: d, attributes: a.deep_view() }) && q as int == q2,
            (Err(e1), Err(e2)) => e1 == e2,
            _ => false,
        },
{
    let (mask, p1) = match load_u16(data, pos) {
        Ok(x) => x,
        Err(e) => return Err(e),
    };
    let (name_index, p2) = match load_u16(data, p1) {
        Ok(x) => x,
        Err(e) => return Err(e),
    };
    let (descriptor_index, p3) = match load_u16(data, p2) {
        Ok(x) => x,
        Err(e) => return Err(e),
    };
    let (count, p4) = match load_u16(data, p3) {
        Ok(x) => x,
        Err(e) => return Err(e),
    };
    match Attribute::read_all(data, p4, count, const_items) {
        Ok((attributes, p5)) => Ok(((AccessFlags { mask }, name_index, descriptor_index, attributes), p5)),
        Err(e) => Err(e),
    }
}

impl Field {
    /// Reads a field at `pos`.
    pub fn read(data: &[u8], pos: usize, const_items: &Vec<ConstantItem>) -> (r: Result<(Field, usize), Failure>)
        ensures
            lift(r) == spec_member(data@, pos as int, const_items.deep_view()),
    {
        match read_member(data, pos, const_items) {
            Ok(((flags, name_index, descriptor_index, attributes), q)) => Ok((Field { flags, name_index, descriptor_index, attributes }, q)),
            Err(e) => Err(e),
        }
    }
}

impl Method {
    /// Reads a method at `pos`.
    pub fn read(data: &[u8], pos: usize, const_items: &Vec<ConstantItem>) -> (r: Result<(Method, usize), Failure>)
        ensures
            lift(r) == spec_member(data@, pos as int, const_items.deep_view()),
    {
        match read_member(data, pos, const_items) {
            Ok(((access_flags, name_index, descriptor_index, attributes), q)) => Ok((Method { access_flags, name_index, descriptor_index, attributes }, q)),
            Err(e) => Err(e),
        }
    }
}

/// `n` constant-pool entries read one after another at `p`.
pub open spec fn spec_constants(s: Seq<u8>, p: int, n: nat) -> Result<(Seq<SpecConstantItem>, int), Failure>
    decreases n,
{
    if n == 0 {
        Ok((Seq::empty(), p))
    } else {
        match spec_constants(s, p, (n - 1) as nat) {
            Err(e) => Err(e),
            Ok((items, q)) => match spec_constant_item(s, q) {
                Err(e) => Err(e),
                Ok((item, q2)) => Ok((items.push(item), q2)),
            },
        }
    }
}

/// `n` members (fields or methods) read one after another at `p`.
pub open spec fn spec_members(s: Seq<u8>, p: int, n: nat, items: Seq<SpecConstantItem>) -> Result<(Seq<SpecMember>, int), Failure>
    decreases n,
{
    if n == 0 {
        Ok((Seq::empty(), p))
    } else {
        match spec_members(s, p, (n - 1) as nat, items) {
            Err(e) => Err(e),
            Ok((ms, q)) => match spec_member(s, q, items) {
                Err(e) => Err(e),
                Ok((m, q2)) => Ok((ms.push(m), q2)),
            },
        }
    }
}

proof fn lemma_constants_err(s: Seq<u8>, p: int, i: nat, n: nat)
    requires
        i <= n,
        spec_constants(s, p, i) is Err,
    ensures
        spec_constants(s, p, n) == spec_constants(s, p, i),
    decreases n,
{
    if n > i {
        lemma_constants_err(s, p, i, (n - 1) as nat);
    }
}

proof fn lemma_members_err(s: Seq<u8>, p: int, i: nat, n: nat, items: Seq<SpecConstantItem>)
    requires
        i <= n,
        spec_members(s, p, i, items) is Err,
    ensures
        spec_members(s, p, n, items) == spec_members(s, p, i, items),
    decreases n,
{
    if n > i {
        lemma_members_err(s, p, i, (n - 1) as nat, items);
    }
}

fn read_constants(data: &[u8], pos: usize, n: u16) -> (r: Result<(Vec<ConstantItem>, usize), Failure>)
    ensures
        lift(r) == spec_constants(data@, pos as int, n as nat),
{
    let mut out: Vec<ConstantItem> = Vec::new();
    let mut p = pos;
    let mut i: u16 = 0;
    assert(out.deep_view() =~= Seq::<SpecConstantItem>::empty());
    while i < n
        invariant
            i <= n,
            spec_constants(data@, pos as int, i as nat) == Ok::<(Seq<SpecConstantItem>, int), Failure>((out.deep_view(), p as int)),
        decreases n - i,
    {
        let (item, q) = match ConstantItem::read(data, p) {
            Ok(x) => x,
            Err(e) => {
                proof {
                    lemma_constants_err(data@, pos as int, (i + 1) as nat, n as nat);
                }
                return Err(e);
            },
        };
        let ghost before = out.deep_view();
        let ghost si = item.deep_view();
        out.push(item);
        assert(out.deep_view() =~= before.push(si));
        p = q;
        i = i + 1;
    }
    Ok((out, p))
}

fn read_fields(data: &[u8], pos: usize, n: u16, const_items: &Vec<ConstantItem>) -> (r: Result<(Vec<Field>, usize), Failure>)
    ensures
        lift(r) == spec_members(data@, pos as int, n as nat, const_items.deep_view()),
{
    let ghost items = const_items.deep_view();
    let mut out: Vec<Field> = Vec::new();
    let mut p = pos;
    let mut i: u16 = 0;
    assert(out.deep_view() =~= Seq::<SpecMember>::empty());
    while i < n
        invariant
            i <= n,
            items == const_items.deep_view(),
            spec_members(data@, pos as int, i as nat, items) == Ok::<(Seq<SpecMember>, int), Failure>((out.deep_view(), p as int)),
        decreases n - i,
    {
        let (field, q) = match Field::read(data, p, const_items) {
            Ok(x) => x,
            Err(e) => {
                proof {
                    lemma_members_err(data@, pos as int, (i + 1) as nat, n as nat, items);
                }
                return Err(e);
            },
        };
        let ghost before = out.deep_view();
        let ghost sf = field.deep_view();
        out.push(field);
        assert(out.deep_view() =~= before.push(sf));
        p = q;
        i = i + 1;
    }
    Ok((out, p))
}

fn read_methods(data: &[u8], pos: usize, n: u16, const_items: &Vec<ConstantItem>) -> (r: Result<(Vec<Method>, usize), Failure>)
    ensures
        lift(r) == spec_members(data@, pos as int, n as nat, const_items.deep_view()),
{
    let ghost items = const_items.deep_view();
    let mut out: Vec<Method> = Vec::new();
    let mut p = pos;
    let mut i: u16 = 0;
    assert(out.deep_view() =~= Seq::<SpecMember>::empty());
    while i < n
        invariant
            i <= n,
            items == const_items.deep_view(),
            spec_members(data@, pos as int, i as nat, items) == Ok::<(Seq<SpecMember>, int), Failure>((out.deep_view(), p as int)),
        decreases n - i,
    {
        let (method, q) = match Method::read(data, p, const_items) {
            Ok(x) => x,
            Err(e) => {
                proof {
                    lemma_members_err(data@, pos as int, (i + 1) as nat, n as nat, items);
                }
                return Err(e);
            },
        };
        let ghost before = out.deep_view();
        let ghost sm = method.deep_view();
        out.push(method);
        assert(out.deep_view() =~= before.push(sm));
        p = q;
        i = i + 1;
    }
    Ok((out, p))
}

/// Why importing a class or an archive failed.
#[derive(Debug, Clone, Copy, PartialEq, Eq, Structural)]
pub enum BytecodeImportError {
    /// The file does not start with `0xCAFEBABE`; holds what it starts with.
    NotJavaBytecode(u32),
    IoError(IoFailure),
    /// A class-file version outside 50.0 to 64.0; holds the major and minor
    /// version.
    UnsuportedVersion(u16, u16),
    ConstantImportError(ConstantImportError),
    /// `this_class` is 0 or beyond the constant-pool count.
    InvalidThisClass,
    /// `super_class` is beyond the constant-pool count.
    InvalidSuperClass,
    /// Reading a jar archive failed.
    ZipError(ZipFailure),
    /// Reading stopped on an input that the reader has no case for (see
    /// `Abort`); the command-line programs stop there.
    Aborted(Abort),
}

/// Why reading a zip archive failed (the cases of the zip crate's error).
#[derive(Debug, Clone, Copy, PartialEq, Eq, Structural)]
pub enum ZipFailure {
    Io,
    InvalidArchive,
    UnsupportedArchive,
    FileNotFound,
    InvalidPassword,
    CompressionMethodNotSupported(u16),
    Other,
}

/// The import error that a reading failure becomes.
pub open spec fn spec_import_error(f: Failure) -> BytecodeImportError {
    match f {
        Failure::Io(e) => BytecodeImportError::IoError(e),
        Failure::BadUtf8 => BytecodeImportError::ConstantImportError(ConstantImportError::Utf8Error),
        Failure::Abort(a) => BytecodeImportError::Aborted(a),
    }
}

/// The import error that a reading failure becomes: an I/O failure stays one
/// (also one met while reading a constant), bad UTF-8 is a constant error.
pub fn import_error(f: Failure) -> (r: BytecodeImportError)
    ensures
        r == spec_import_error(f),
{
    match f {
        Failure::Io(e) => BytecodeImportError::IoError(e),
        Failure::BadUtf8 => BytecodeImportError::ConstantImportError(ConstantImportError::Utf8Error),
        Failure::Abort(a) => BytecodeImportError::Aborted(a),
    }
}

/// The import error that a constant error becomes:
/// an I/O failure becomes `IoError`, any other stays a constant error.
pub fn from_constant_error(err: ConstantImportError) -> (r: BytecodeImportError)
    ensures
        r == (match err {
            ConstantImportError::IoError(e) => BytecodeImportError::IoError(e),
            _ => BytecodeImportError::ConstantImportError(err),
        }),
{
    match err {
        ConstantImportError::IoError(e) => BytecodeImportError::IoError(e),
        _ => BytecodeImportError::ConstantImportError(err),
    }
}

/// A class file, as read.
#[derive(Debug)]
pub struct ImportedJavaClass {
    pub const_items: Vec<ConstantItem>,
    pub access_flags: AccessFlags,
    pub this_class: u16,
    pub super_class: u16,
    pub interfaces: Vec<u16>,
    pub fields: Vec<Field>,
    pub methods: Vec<Method>,
    pub attributes: Vec<Attribute>,
}

/// The value of a class file as read.
pub struct SpecClass {
    pub const_items: Seq<SpecConstantItem>,
    pub access_flags: AccessFlags,
    pub this_class: u16,
    pub super_class: u16,
    pub interfaces: Seq<u16>,
    pub fields: Seq<SpecMember>,
    pub methods: Seq<SpecMember>,
    pub attributes: Seq<SpecAttribute>,
}

impl DeepView for ImportedJavaClass {
    type V = SpecClass;

    open spec fn deep_view(&self) -> SpecClass {
        SpecClass {
            const_items: self.const_items.deep_view(),
            access_flags: self.access_flags,
            this_class: self.this_class,
            super_class: self.super_class,
            interfaces: self.interfaces@,
            fields: self.fields.deep_view(),
            methods: self.methods.deep_view(),
            attributes: self.attributes.deep_view(),
        }
    }
}

/// The magic number that starts every class file.
pub open spec fn class_magic() -> u32 {
    0xCAFE_BABE
}

/// The part of a class file after its constant pool, read at `p` with the
/// constants `items` of a pool of `count` entries.
pub open spec fn spec_class_body(s: Seq<u8>, p: int, count: u16, items: Seq<SpecConstantItem>) -> Result<SpecClass, BytecodeImportError> {
    match spec_u16(s, p) {
        Err(e) => Err(spec_import_error(e)),
        Ok((mask, p1)) => match spec_u16(s, p1) {
            Err(e) => Err(spec_import_error(e)),
            Ok((this_class, p2)) => if this_class < 1 || this_class > count {
                Err(BytecodeImportError::InvalidThisClass)
            } else {
                match spec_u16(s, p2) {
                    Err(e) => Err(spec_import_error(e)),
                    Ok((super_class, p3)) => if super_class > count {
                        Err(BytecodeImportError::InvalidSuperClass)
                    } else {
                        match spec_u16(s, p3) {
                            Err(e) => Err(spec_import_error(e)),
                            Ok((n_interfaces, p4)) => match spec_u16s(s, p4, n_interfaces as nat) {
                                Err(e) => Err(spec_import_error(e)),
                                Ok((interfaces, p5)) => match spec_u16(s, p5) {
                                    Err(e) => Err(spec_import_error(e)),
                                    Ok((n_fields, p6)) => match spec_members(s, p6, n_fields as nat, items) {
                                        Err(e) => Err(spec_import_error(e)),
                                        Ok((fields, p7)) => match spec_u16(s, p7) {
                                            Err(e) => Err(spec_import_error(e)),
                                            Ok((n_methods, p8)) => match spec_members(s, p8, n_methods as nat, items) {
                                                Err(e) => Err(spec_import_error(e)),
                                                Ok((methods, p9)) => match spec_u16(s, p9) {
                                                    Err(e) => Err(spec_import_error(e)),
                                                    Ok((n_attributes, p10)) => match spec_attributes(s, p10, n_attributes as nat, items) {
                                                        Err(e) => Err(spec_import_error(e)),
                                                        Ok((attributes, _)) => Ok(SpecClass {
                                                            const_items: items,
                                                            access_flags: AccessFlags { mask },
                                                            this_class,
                                                            super_class,
                                                            interfaces,
                                                            fields,
                                                            methods,
                                                            attributes,
                                                        }),
                                                    },
                                                },
                                            },
                                        },
                                    },
                                },
                            },
                        }
                    },
                }
            },
        },
    }
}

/// A class file read from the start of `s`: the magic number, a version from
/// 50.0 to 64.0, a constant pool of `count - 1` entries, access flags,
/// `this_class` (from 1 to `count`), `super_class` (at most `count`), the
/// interfaces, fields, methods and attributes. Bytes after the class are
/// not looked at.
pub open spec fn spec_load_class(s: Seq<u8>) -> Result<SpecClass, BytecodeImportError> {
    match spec_u32(s, 0) {
        Err(e) => Err(spec_import_error(e)),
        Ok((magic, p1)) => if magic != class_magic() {
            Err(BytecodeImportError::NotJavaBytecode(magic))
        } else {
            match spec_u16(s, p1) {
                Err(e) => Err(spec_import_error(e)),
                Ok((minor, p2)) => match spec_u16(s, p2) {
                    Err(e) => Err(spec_import_error(e)),
                    Ok((major, p3)) => if major < 50 || major > 64 || minor != 0 {
                        Err(BytecodeImportError::UnsuportedVersion(major, minor))
                    } else {
                        match spec_u16(s, p3) {
                            Err(e) => Err(spec_import_error(e)),
                            Ok((count, p4)) => if count == 0 {
                                Err(BytecodeImportError::Aborted(Abort::EmptyConstantPool))
                            } else {
                                match spec_constants(s, p4, (count - 1) as nat) {
                                    Err(e) => Err(spec_import_error(e)),
                                    Ok((items, p5)) => spec_class_body(s, p5, count, items),
                                }
                            },
                        }
                    },
                },
            }
        },
    }
}

/// The outcome of importing a class in spec terms.
pub open spec fn lift_class(r: Result<ImportedJavaClass, BytecodeImportError>) -> Result<SpecClass, BytecodeImportError> {
    match r {
        Ok(c) => Ok(c.deep_view()),
        Err(e) => Err(e),
    }
}

fn class_body(data: &[u8], pos: usize, count: u16, const_items: Vec<ConstantItem>) -> (r: Result<ImportedJavaClass, BytecodeImportError>)
    ensures
        lift_class(r) == spec_class_body(data@, pos as int, count, const_items.deep_view()),
{
    let (mask, p1) = match load_u16(data, pos) {
        Ok(x) => x,
        Err(e) => return Err(import_error(e)),
    };
    let (this_class, p2) = match load_u16(data, p1) {
        Ok(x) => x,
        Err(e) => return Err(import_error(e)),
    };
    if this_class < 1 || this_class > count {
        return Err(BytecodeImportError::InvalidThisClass);
    }
    let (super_class, p3) = match load_u16(data, p2) {
        Ok(x) => x,
        Err(e) => return Err(import_error(e)),
    };
    if super_class > count {
        return Err(BytecodeImportError::InvalidSuperClass);
    }
    let (n_interfaces, p4) = match load_u16(data, p3) {
        Ok(x) => x,
        Err(e) => return Err(import_error(e)),
    };
    let (interfaces, p5) = match load_u16s(data, p4, n_interfaces as usize) {
        Ok(x) => x,
        Err(e) => return Err(import_error(e)),
    };
    let (n_fields, p6) = match load_u16(data, p5) {
        Ok(x) => x,
        Err(e) => return Err(import_error(e)),
    };
    let (fields, p7) = match read_fields(data, p6, n_fields, &const_items) {
        Ok(x) => x,
        Err(e) => return Err(import_error(e)),
    };
    let (n_methods, p8) = match load_u16(data, p7) {
        Ok(x) => x,
        Err(e) => return Err(import_error(e)),
    };
    let (methods, p9) = match read_methods(data, p8, n_methods, &const_items) {
        Ok(x) => x,
        Err(e) => return Err(import_error(e)),
    };
    let (n_attributes, p10) = match load_u16(data, p9) {
        Ok(x) => x,
        Err(e) => return Err(import_error(e)),
    };
    let (attributes, _) = match Attribute::read_all(data, p10, n_attributes, &const_items) {
        Ok(x) => x,
        Err(e) => return Err(import_error(e)),
    };
    assert(interfaces.deep_view() =~= interfaces@);
    Ok(ImportedJavaClass {
        const_items,
        access_flags: AccessFlags { mask },
        this_class,
        super_class,
        interfaces,
        fields,
        methods,
        attributes,
    })
}

/// Reads a class file held in `data`.
pub fn load_class(data: &[u8]) -> (r: Result<ImportedJavaClass, BytecodeImportError>)
    ensures
        lift_class(r) == spec_load_class(data@),
{
    let (magic, p1) = match load_u32(data, 0) {
        Ok(x) => x,
        Err(e) => return Err(import_error(e)),
    };
    if magic != 0xCAFE_BABEu32 {
        return Err(BytecodeImportError::NotJavaBytecode(magic));
    }
    let (minor, p2) = match load_u16(data, p1) {
        Ok(x) => x,
        Err(e) => return Err(import_error(e)),
    };
    let (major, p3) = match load_u16(data, p2) {
        Ok(x) => x,
        Err(e) => return Err(import_error(e)),
    };
    if major < 50 || major > 64 || minor != 0 {
        return Err(BytecodeImportError::UnsuportedVersion(major, minor));
    }
    let (constant_pool_count, p4) = match load_u16(data, p3) {
        Ok(x) => x,
        Err(e) => return Err(import_error(e)),
    };
    if constant_pool_count == 0 {
        return Err(BytecodeImportError::Aborted(Abort::EmptyConstantPool));
    }
    let (const_items, p5) = match read_constants(data, p4, constant_pool_count - 1) {
        Ok(x) => x,
        Err(e) => return Err(import_error(e)),
    };
    class_body(data, p5, constant_pool_count, const_items)
}

/// The position of the first `Code` attribute among `attrs` at or after `i`.
pub open spec fn first_code_from(attrs: Seq<SpecAttribute>, i: int) -> Option<int>
    decreases attrs.len() - i,
{
    if i < 0 || i >= attrs.len() {
        None
    } else if attrs[i] is Code {
        Some(i)
    } else {
        first_code_from(attrs, i + 1)
    }
}

/// The first `Code` attribute among `attrs`, if there is one.
pub open spec fn first_code(attrs: Seq<SpecAttribute>) -> Option<SpecAttribute> {
    match first_code_from(attrs, 0) {
        Some(i) => Some(attrs[i]),
        None => None,
    }
}

/// The first `Code` attribute of a list of attributes.
fn find_code(attributes: &Vec<Attribute>) -> (r: Option<usize>)
    ensures
        match r {
            Some(i) => first_code_from(attributes.deep_view(), 0) == Some(i as int) && i < attributes@.len(),
            None => first_code_from(attributes.deep_view(), 0) is None,
        },
{
    let ghost attrs = attributes.deep_view();
    let mut i: usize = 0;
    while i < attributes.len()
        invariant
            i <= attributes@.len(),
            attrs == attributes.deep_view(),
            first_code_from(attrs, 0) == first_code_from(attrs, i as int),
        decreases attributes@.len() - i,
    {
        assert(attrs[i as int] == attributes@[i as int].deep_view());
        if let Attribute::Code { .. } = &attributes[i] {
            return Some(i);
        }
        i = i + 1;
    }
    None
}

impl Method {
    /// The access flags of the method.
    pub fn access_flags(&self) -> (r: &AccessFlags)
        ensures
            *r == self.access_flags,
    {
        &self.access_flags
    }

    /// The constant-pool index of the method's name.
    pub fn name_index(&self) -> (r: u16)
        ensures
            r == self.name_index,
    {
        self.name_index
    }

    /// The constant-pool index of the method's descriptor.
    pub fn descriptor_index(&self) -> (r: u16)
        ensures
            r == self.descriptor_index,
    {
        self.descriptor_index
    }

    /// The number of local variables that the method's first `Code`
    /// attribute declares; `None` for a method without code.
    pub fn max_locals(&self) -> (r: Option<u16>)
        ensures
            r == (match first_code(self.attributes.deep_view()) {
                Some(SpecAttribute::Code { max_locals, .. }) => Some(max_locals),
                _ => None,
            }),
    {
        match find_code(&self.attributes) {
            Some(i) => {
                assert(self.attributes.deep_view()[i as int] == self.attributes@[i as int].deep_view());
                match &self.attributes[i] {
                    Attribute::Code { max_locals, .. } => Some(*max_locals),
                    _ => None,
                }
            },
            None => None,
        }
    }

    /// The instructions of the method's first `Code` attribute, each with its
    /// offset; `None` for a method without code.
    pub fn bytecode(&self) -> (r: Option<&Vec<(OpCode, u16)>>)
        ensures
            match first_code(self.attributes.deep_view()) {
                Some(SpecAttribute::Code { ops, .. }) => r matches Some(v) && v.deep_view() == ops,
                _ => r is None,
            },
    {
        match find_code(&self.attributes) {
            Some(i) => {
                assert(self.attributes.deep_view()[i as int] == self.attributes@[i as int].deep_view());
                match &self.attributes[i] {
                    Attribute::Code { ops, .. } => Some(ops),
                    _ => None,
                }
            },
            None => None,
        }
    }
}

/// The table of the first `BootstrapMethods` attribute among `attrs` at or
/// after `i`.
pub open spec fn first_bootstrap_from(attrs: Seq<SpecAttribute>, i: int) -> Option<Seq<(u16, Seq<u16>)>>
    decreases attrs.len() - i,
{
    if i < 0 || i >= attrs.len() {
        None
    } else {
        match attrs[i] {
            SpecAttribute::BootstrapMethods { bootstrap_methods } => Some(bootstrap_methods),
            _ => first_bootstrap_from(attrs, i + 1),
        }
    }
}

/// Whether `i` names an entry of a constant pool of `n` entries (indices
/// start at 1).
pub open spec fn in_pool(n: int, i: u16) -> bool {
    1 <= i <= n
}

/// The string of the UTF-8 constant at `i`, if the entry is one.
pub open spec fn spec_lookup_utf8(items: Seq<SpecConstantItem>, i: u16) -> Option<Seq<char>> {
    match items[i - 1] {
        SpecConstantItem::Utf8(s) => Some(s),
        _ => None,
    }
}

/// Whether looking up the class at `i` stays inside the pool: `i` does, and
/// when it is a class entry, so does its name index.
pub open spec fn class_lookup_ok(items: Seq<SpecConstantItem>, i: u16) -> bool {
    &&& in_pool(items.len() as int, i)
    &&& items[i - 1] matches SpecConstantItem::Class { name_index } ==> in_pool(items.len() as int, name_index)
}

/// The name of the class at `i`: the string its name index points to, if the
/// entry is a class and the name a UTF-8 constant.
pub open spec fn spec_lookup_class(items: Seq<SpecConstantItem>, i: u16) -> Option<Seq<char>> {
    match items[i - 1] {
        SpecConstantItem::Class { name_index } => spec_lookup_utf8(items, name_index),
        _ => None,
    }
}

impl ImportedJavaClass {
    /// The constant-pool index of this class.
    pub fn this_class(&self) -> (r: u16)
        ensures
            r == self.this_class,
    {
        self.this_class
    }

    /// The constant-pool index of the super class (0 for none).
    pub fn super_class(&self) -> (r: u16)
        ensures
            r == self.super_class,
    {
        self.super_class
    }

    /// The constant-pool entry at `index`; `None` for 0 and for indices at or
    /// past the pool's length (so the last entry is not handed out).
    pub fn lookup_item(&self, index: u16) -> (r: Option<&ConstantItem>)
        ensures
            match r {
                Some(item) => 1 <= index < self.const_items@.len() && *item == self.const_items@[index - 1],
                None => index < 1 || index >= self.const_items@.len(),
            },
    {
        if index < 1 || index as usize >= self.const_items.len() {
            None
        } else {
            Some(&self.const_items[index as usize - 1])
        }
    }

    /// The string of the UTF-8 constant at `utf8`, if that entry is one.
    pub fn lookup_utf8(&self, utf8: u16) -> (r: Option<&str>)
        requires
            in_pool(self.const_items@.len() as int, utf8),
        ensures
            match spec_lookup_utf8(self.const_items.deep_view(), utf8) {
                Some(s) => r matches Some(t) && t@ == s,
                None => r is None,
            },
    {
        assert(self.const_items.deep_view()[utf8 - 1] == self.const_items@[utf8 - 1].deep_view());
        match &self.const_items[utf8 as usize - 1] {
            ConstantItem::Utf8(string) => Some(string.as_str()),
            _ => None,
        }
    }

    /// The name of the class at `class_ref`, if that entry is a class whose
    /// name is a UTF-8 constant.
    pub fn lookup_class(&self, class_ref: u16) -> (r: Option<&str>)
        requires
            class_lookup_ok(self.const_items.deep_view(), class_ref),
        ensures
            match spec_lookup_class(self.const_items.deep_view(), class_ref) {
                Some(s) => r matches Some(t) && t@ == s,
                None => r is None,
            },
    {
        assert(self.const_items.deep_view()[class_ref - 1] == self.const_items@[class_ref - 1].deep_view());
        match &self.const_items[class_ref as usize - 1] {
            ConstantItem::Class { name_index } => self.lookup_utf8(*name_index),
            _ => None,
        }
    }

    /// The class and name-and-type indices of the field reference at
    /// `field_ref`, if that entry is one.
    pub fn lookup_filed_ref(&self, field_ref: u16) -> (r: Option<(u16, u16)>)
        requires
            in_pool(self.const_items@.len() as int, field_ref),
        ensures
            r == (match self.const_items.deep_view()[field_ref - 1] {
                SpecConstantItem::FieldRef { class_index, name_and_type_index } => Some((class_index, name_and_type_index)),
                _ => None,
            }),
    {
        assert(self.const_items.deep_view()[field_ref - 1] == self.const_items@[field_ref - 1].deep_view());
        match &self.const_items[field_ref as usize - 1] {
            ConstantItem::FieldRef { class_index, name_and_type_index } => Some((*class_index, *name_and_type_index)),
            _ => None,
        }
    }

    /// The name and descriptor indices of the name-and-type entry at
    /// `nametype`, if that entry is one.
    pub fn lookup_nametype(&self, nametype: u16) -> (r: Option<(u16, u16)>)
        requires
            in_pool(self.const_items@.len() as int, nametype),
        ensures
            r == (match self.const_items.deep_view()[nametype - 1] {
                SpecConstantItem::NameAndType { name_index, descriptor_index } => Some((name_index, descriptor_index)),
                _ => None,
            }),
    {
        assert(self.const_items.deep_view()[nametype - 1] == self.const_items@[nametype - 1].deep_view());
        match &self.const_items[nametype as usize - 1] {
            ConstantItem::NameAndType { name_index, descriptor_index } => Some((*name_index, *descriptor_index)),
            _ => None,
        }
    }

    /// The class and name-and-type indices of the method reference at
    /// `method_ref`, if that entry is one.
    pub fn lookup_method_ref(&self, method_ref: u16) -> (r: Option<(u16, u16)>)
        requires
            in_pool(self.const_items@.len() as int, method_ref),
        ensures
            r == (match self.const_items.deep_view()[method_ref - 1] {
                SpecConstantItem::MethodRef { class_index, name_and_type_index } => Some((class_index, name_and_type_index)),
                _ => None,
            }),
    {
        assert(self.const_items.deep_view()[method_ref - 1] == self.const_items@[method_ref - 1].deep_view());
        match &self.const_items[method_ref as usize - 1] {
            ConstantItem::MethodRef { class_index, name_and_type_index } => Some((*class_index, *name_and_type_index)),
            _ => None,
        }
    }

    /// The bootstrap-method index and name-and-type index of the
    /// invokedynamic entry at `index`, if that entry is one.
    pub fn lookup_invoke_dynamic(&self, index: u16) -> (r: Option<(u16, u16)>)
        requires
            in_pool(self.const_items@.len() as int, index),
        ensures
            r == (match self.const_items.deep_view()[index - 1] {
                SpecConstantItem::InvokeDynamic { bootstrap_method_attr_index, name_and_type_index } => Some((bootstrap_method_attr_index, name_and_type_index)),
                _ => None,
            }),
    {
        assert(self.const_items.deep_view()[index - 1] == self.const_items@[index - 1].deep_view());
        match &self.const_items[index as usize - 1] {
            ConstantItem::InvokeDynamic { bootstrap_method_attr_index, name_and_type_index } => Some((*bootstrap_method_attr_index, *name_and_type_index)),
            _ => None,
        }
    }

    /// The kind and reference index of the method-handle entry at `index`,
    /// if that entry is one.
    pub fn lookup_method_handle(&self, index: u16) -> (r: Option<(u8, u16)>)
        requires
            in_pool(self.const_items@.len() as int, index),
        ensures
            r == (match self.const_items.deep_view()[index - 1] {
                SpecConstantItem::MethodHandle { reference_kind, reference_index } => Some((reference_kind, reference_index)),
                _ => None,
            }),
    {
        assert(self.const_items.deep_view()[index - 1] == self.const_items@[index - 1].deep_view());
        match &self.const_items[index as usize - 1] {
            ConstantItem::MethodHandle { reference_kind, reference_index } => Some((*reference_kind, *reference_index)),
            _ => None,
        }
    }

    /// The bootstrap method at position `index` of the class's first
    /// `BootstrapMethods` attribute, if there is one.
    pub fn lookup_bootstrap_method(&self, index: u16) -> (r: Option<&BootstrapMethod>)
        ensures
            match first_bootstrap_from(self.attributes.deep_view(), 0) {
                Some(table) => if index < table.len() {
                    r matches Some(m) && m.deep_view() == table[index as int]
                } else {
                    r is None
                },
                None => r is None,
            },
    {
        let ghost attrs = self.attributes.deep_view();
        let mut i: usize = 0;
        while i < self.attributes.len()
            invariant
                i <= self.attributes@.len(),
                attrs == self.attributes.deep_view(),
                first_bootstrap_from(attrs, 0) == first_bootstrap_from(attrs, i as int),
            decreases self.attributes@.len() - i,
        {
            assert(attrs[i as int] == self.attributes@[i as int].deep_view());
            if let Attribute::BootstrapMethods { bootstrap_methods } = &self.attributes[i] {
                if (index as usize) < bootstrap_methods.len() {
                    return Some(&bootstrap_methods[index as usize]);
                }
                return None;
            }
            i = i + 1;
        }
        None
    }

    /// The methods of the class.
    pub fn methods(&self) -> (r: &Vec<Method>)
        ensures
            r == &self.methods,
    {
        &self.methods
    }

    /// The fields of the class.
    pub fn fields(&self) -> (r: &Vec<Field>)
        ensures
            r == &self.fields,
    {
        &self.fields
    }
}


/// The JVM's tag byte of a kind of constant-pool entry: 1 for UTF-8 text, 5
/// for a long, 7 for a class, 8 for a string, 9 to 11 for field, method and
/// interface method references, 12 for a name and type, 15 for a method
/// handle, 16 for a method type and 18 for an invokedynamic site.
pub open spec fn jvm_constant_tag(c: SpecConstantItem) -> Option<u8> {
    match c {
        SpecConstantItem::Utf8(_) => Some(1u8),
        SpecConstantItem::Long(_) => Some(5u8),
        SpecConstantItem::Class { .. } => Some(7u8),
        SpecConstantItem::ConstString { .. } => Some(8u8),
        SpecConstantItem::FieldRef { .. } => Some(9u8),
        SpecConstantItem::MethodRef { .. } => Some(10u8),
        SpecConstantItem::InterfaceMethodRef { .. } => Some(11u8),
        SpecConstantItem::NameAndType { .. } => Some(12u8),
        SpecConstantItem::MethodHandle { .. } => Some(15u8),
        SpecConstantItem::MethodType { .. } => Some(16u8),
        SpecConstantItem::InvokeDynamic { .. } => Some(18u8),
        SpecConstantItem::Unknown => None,
    }
}

/// The big-endian 16-bit number in the two bytes at `p`.
pub open spec fn u16_at(s: Seq<u8>, p: int) -> int {
    s[p] * 256 + s[p + 1]
}

/// A constant-pool entry read at `p` is of the kind its tag byte names, and
/// its indices are the big-endian 16-bit numbers that follow the tag, in
/// order.
pub proof fn law_constant_matches_tag(s: Seq<u8>, p: int)
    requires
        spec_constant_item(s, p) is Ok,
    ensures
        ({
            let c = spec_constant_item(s, p)->Ok_0.0;
            &&& 0 <= p < s.len()
            &&& jvm_constant_tag(c) == Some(s[p])
            &&& c matches SpecConstantItem::Class { name_index } ==> name_index == u16_at(s, p + 1)
            &&& c matches SpecConstantItem::ConstString { string_index } ==> string_index == u16_at(s, p + 1)
            &&& c matches SpecConstantItem::MethodType { descriptor_index } ==> descriptor_index == u16_at(s, p + 1)
            &&& c matches SpecConstantItem::FieldRef { class_index, name_and_type_index }
                ==> class_index == u16_at(s, p + 1) && name_and_type_index == u16_at(s, p + 3)
            &&& c matches SpecConstantItem::MethodRef { class_index, name_and_type_index }
                ==> class_index == u16_at(s, p + 1) && name_and_type_index == u16_at(s, p + 3)
            &&& c matches SpecConstantItem::InterfaceMethodRef { class_index, name_and_type_index }
                ==> class_index == u16_at(s, p + 1) && name_and_type_index == u16_at(s, p + 3)
            &&& c matches SpecConstantItem::NameAndType { name_index, descriptor_index }
                ==> name_index == u16_at(s, p + 1) && descriptor_index == u16_at(s, p + 3)
        }),
{
}

} // verus!
