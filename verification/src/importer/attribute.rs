//! Attributes of classes, fields, methods and code.
use vstd::prelude::*;
use super::reader::{Abort, Failure, IoFailure, lift, load_u16, load_u32, load_u8, load_window, spec_u16, spec_u32, spec_u8, spec_window};
use super::opcodes::{OpCode, SpecOpCode, load_ops, spec_load_ops};
use super::{AccessFlags, ConstantItem, SpecConstantItem};
use crate::text::str_eq;

verus! {

/// One entry of a `LocalVariableTable`.
#[derive(Debug, Clone, Copy, PartialEq, Eq, Structural)]
pub struct LocalVariable {
    pub start_pc: u16,
    pub length: u16,
    pub name_index: u16,
    pub descriptor_index: u16,
    pub index: u16,
}

/// One entry of a method's exception table.
#[derive(Debug, Clone, Copy, PartialEq, Eq, Structural)]
pub struct CodeException {
    pub start_pc: u16,
    pub end_pc: u16,
    pub handler_pc: u16,
    pub catch_type: u16,
}

/// One entry of a `MethodParameters` attribute.
#[derive(Debug, Clone, Copy, PartialEq, Eq, Structural)]
pub struct MethodParameter {
    pub name_index: u16,
    pub access_flags: AccessFlags,
}

impl DeepView for LocalVariable {
    type V = LocalVariable;

    open spec fn deep_view(&self) -> LocalVariable {
        *self
    }
}

impl DeepView for CodeException {
    type V = CodeException;

    open spec fn deep_view(&self) -> CodeException {
        *self
    }
}

impl DeepView for MethodParameter {
    type V = MethodParameter;

    open spec fn deep_view(&self) -> MethodParameter {
        *self
    }
}

/// `k` big-endian 16-bit values read one after another at `p`.
pub open spec fn spec_u16s(s: Seq<u8>, p: int, k: nat) -> Result<(Seq<u16>, int), Failure>
    decreases k,
{
    if k == 0 {
        Ok((Seq::empty(), p))
    } else {
        match spec_u16s(s, p, (k - 1) as nat) {
            Err(e) => Err(e),
            Ok((vs, q)) => match spec_u16(s, q) {
                Err(e) => Err(e),
                Ok((v, q2)) => Ok((vs.push(v), q2)),
            },
        }
    }
}

/// `n` records of `k` big-endian 16-bit values each, read at `p`.
pub open spec fn spec_u16_records(s: Seq<u8>, p: int, n: nat, k: nat) -> Result<(Seq<Seq<u16>>, int), Failure>
    decreases n,
{
    if n == 0 {
        Ok((Seq::empty(), p))
    } else {
        match spec_u16_records(s, p, (n - 1) as nat, k) {
            Err(e) => Err(e),
            Ok((rs, q)) => match spec_u16s(s, q, k) {
                Err(e) => Err(e),
                Ok((r, q2)) => Ok((rs.push(r), q2)),
            },
        }
    }
}

/// Reads `k` big-endian 16-bit values.
pub fn load_u16s(data: &[u8], pos: usize, k: usize) -> (r: Result<(Vec<u16>, usize), Failure>)
    ensures
        lift(r) == spec_u16s(data@, pos as int, k as nat),
        r matches Ok((v, q)) ==> v@.len() == k && q >= pos,
{
    let mut out: Vec<u16> = Vec::new();
    let mut p = pos;
    let mut i: usize = 0;
    while i < k
        invariant
            i <= k,
            p >= pos,
            spec_u16s(data@, pos as int, i as nat) == Ok::<(Seq<u16>, int), Failure>((out@, p as int)),
            out@.len() == i,
        decreases k - i,
    {
        let (v, q) = match load_u16(data, p) {
            Ok(x) => x,
            Err(e) => {
                proof {
                    lemma_u16s_err(data@, pos as int, (i + 1) as nat, k as nat);
                }
                return Err(e);
            },
        };
        out.push(v);
        p = q;
        i = i + 1;
    }
    assert(out.deep_view() =~= out@);
    Ok((out, p))
}

proof fn lemma_u16s_err(s: Seq<u8>, p: int, i: nat, k: nat)
    requires
        i <= k,
        spec_u16s(s, p, i) is Err,
    ensures
        spec_u16s(s, p, k) == spec_u16s(s, p, i),
    decreases k,
{
    if k > i {
        lemma_u16s_err(s, p, i, (k - 1) as nat);
    }
}

proof fn lemma_records_err(s: Seq<u8>, p: int, i: nat, n: nat, k: nat)
    requires
        i <= n,
        spec_u16_records(s, p, i, k) is Err,
    ensures
        spec_u16_records(s, p, n, k) == spec_u16_records(s, p, i, k),
    decreases n,
{
    if n > i {
        lemma_records_err(s, p, i, (n - 1) as nat, k);
    }
}

/// Reads `n` records of `k` big-endian 16-bit values each.
pub fn load_u16_records(data: &[u8], pos: usize, n: usize, k: usize) -> (r: Result<(Vec<Vec<u16>>, usize), Failure>)
    ensures
        lift(r) == spec_u16_records(data@, pos as int, n as nat, k as nat),
        r matches Ok((v, q)) ==> v@.len() == n && q >= pos && forall|j: int| 0 <= j < n ==> #[trigger] v@[j]@.len() == k,
{
    let mut out: Vec<Vec<u16>> = Vec::new();
    let mut p = pos;
    let mut i: usize = 0;
    assert(out.deep_view() =~= Seq::<Seq<u16>>::empty());
    while i < n
        invariant
            i <= n,
            p >= pos,
            spec_u16_records(data@, pos as int, i as nat, k as nat) == Ok::<(Seq<Seq<u16>>, int), Failure>((out.deep_view(), p as int)),
            out@.len() == i,
            forall|j: int| 0 <= j < i ==> #[trigger] out@[j]@.len() == k,
        decreases n - i,
    {
        let (v, q) = match load_u16s(data, p, k) {
            Ok(x) => x,
            Err(e) => {
                proof {
                    lemma_records_err(data@, pos as int, (i + 1) as nat, n as nat, k as nat);
                }
                return Err(e);
            },
        };
        let ghost before = out.deep_view();
        let ghost vv = v.deep_view();
        out.push(v);
        assert(out.deep_view() =~= before.push(vv));
        p = q;
        i = i + 1;
    }
    Ok((out, p))
}

/// One bootstrap method: a method handle and its static arguments.
#[derive(Debug)]
pub struct BootstrapMethod {
    pub bootstrap_method_ref: u16,
    pub bootstrap_args: Vec<u16>,
}

impl DeepView for BootstrapMethod {
    type V = (u16, Seq<u16>);

    open spec fn deep_view(&self) -> (u16, Seq<u16>) {
        (self.bootstrap_method_ref, self.bootstrap_args@)
    }
}

/// An attribute, decoded by its name; attributes that are read but not kept
/// are `Unknown`.
#[derive(Debug)]
#[allow(inconsistent_fields)]
pub enum Attribute {
    Unknown,
    Code {
        max_stack: u16,
        max_locals: u16,
        ops: Vec<(OpCode, u16)>,
        exceptions: Vec<CodeException>,
        attributes: Vec<Attribute>,
    },
    LineNumberTable { pc_lines: Vec<(u16, u16)> },
    SourceFile { sourcefile_index: u16 },
    LocalVariableTable { local_vars: Vec<LocalVariable> },
    NestHost { host_class_index: u16 },
    NestMembers { classes: Vec<u16> },
    MethodParameters { parameters: Vec<MethodParameter> },
    BootstrapMethods { bootstrap_methods: Vec<BootstrapMethod> },
    Exceptions { exceptions: Vec<u16> },
    Signature { signature: u16 },
    ConstantValue { value_index: u16 },
    EnclosingMethod { class_index: u16, method_index: u16 },
    Deprecated,
}

/// The mathematical value of an `Attribute`.
#[allow(inconsistent_fields)]
pub enum SpecAttribute {
    Unknown,
    Code {
        max_stack: u16,
        max_locals: u16,
        ops: Seq<(SpecOpCode, u16)>,
        exceptions: Seq<CodeException>,
        attributes: Seq<SpecAttribute>,
    },
    LineNumberTable { pc_lines: Seq<(u16, u16)> },
    SourceFile { sourcefile_index: u16 },
    LocalVariableTable { local_vars: Seq<LocalVariable> },
    NestHost { host_class_index: u16 },
    NestMembers { classes: Seq<u16> },
    MethodParameters { parameters: Seq<MethodParameter> },
    BootstrapMethods { bootstrap_methods: Seq<(u16, Seq<u16>)> },
    Exceptions { exceptions: Seq<u16> },
    Signature { signature: u16 },
    ConstantValue { value_index: u16 },
    EnclosingMethod { class_index: u16, method_index: u16 },
    Deprecated,
}

/// The value of an attribute.
pub open spec fn attr_view(a: &Attribute) -> SpecAttribute
    decreases a,
{
    match a {
        Attribute::Unknown => SpecAttribute::Unknown,
        Attribute::Code { max_stack, max_locals, ops, exceptions, attributes } => SpecAttribute::Code {
            max_stack: *max_stack,
            max_locals: *max_locals,
            ops: ops.deep_view(),
            exceptions: exceptions@,
            attributes: Seq::new(
                attributes@.len(),
                |i: int| if 0 <= i < attributes@.len() { attr_view(&attributes@[i]) } else { SpecAttribute::Unknown },
            ),
        },
        Attribute::LineNumberTable { pc_lines } => SpecAttribute::LineNumberTable { pc_lines: pc_lines@ },
        Attribute::SourceFile { sourcefile_index } => SpecAttribute::SourceFile { sourcefile_index: *sourcefile_index },
        Attribute::LocalVariableTable { local_vars } => SpecAttribute::LocalVariableTable { local_vars: local_vars@ },
        Attribute::NestHost { host_class_index } => SpecAttribute::NestHost { host_class_index: *host_class_index },
        Attribute::NestMembers { classes } => SpecAttribute::NestMembers { classes: classes@ },
        Attribute::MethodParameters { parameters } => SpecAttribute::MethodParameters { parameters: parameters@ },
        Attribute::BootstrapMethods { bootstrap_methods } => SpecAttribute::BootstrapMethods {
            bootstrap_methods: bootstrap_methods.deep_view(),
        },
        Attribute::Exceptions { exceptions } => SpecAttribute::Exceptions { exceptions: exceptions@ },
        Attribute::Signature { signature } => SpecAttribute::Signature { signature: *signature },
        Attribute::ConstantValue { value_index } => SpecAttribute::ConstantValue { value_index: *value_index },
        Attribute::EnclosingMethod { class_index, method_index } => SpecAttribute::EnclosingMethod {
            class_index: *class_index,
            method_index: *method_index,
        },
        Attribute::Deprecated => SpecAttribute::Deprecated,
    }
}

impl DeepView for Attribute {
    type V = SpecAttribute;

    open spec fn deep_view(&self) -> SpecAttribute {
        attr_view(self)
    }
}

/// What the decoder does with an attribute of a given name.
#[derive(PartialEq, Eq, Structural, Clone, Copy)]
pub enum AttrKind {
    LineNumberTable,
    LocalVariableTable,
    MethodParameters,
    Deprecated,
    Ignored,
    Exceptions,
    Signature,
    BootstrapMethods,
    NestHost,
    NestMembers,
    SourceFile,
    Code,
    ConstantValue,
    EnclosingMethod,
    Nonsense,
    Unhandled,
}

/// How the decoder treats an attribute name. Some names are read and
/// dropped; some are names of other things, which only a misread class
/// yields.
pub open spec fn attr_kind(name: Seq<char>) -> AttrKind {
    if name == "LineNumberTable"@ {
        AttrKind::LineNumberTable
    } else if name == "LocalVariableTable"@ {
        AttrKind::LocalVariableTable
    } else if name == "MethodParameters"@ {
        AttrKind::MethodParameters
    } else if name == "Deprecated"@ {
        AttrKind::Deprecated
    } else if name == "Record"@ || name == "StackMapTable"@ || name == "RuntimeVisibleAnnotations"@
        || name == "LocalVariableTypeTable"@ || name == "InnerClasses"@ {
        AttrKind::Ignored
    } else if name == "Exceptions"@ {
        AttrKind::Exceptions
    } else if name == "Signature"@ {
        AttrKind::Signature
    } else if name == "BootstrapMethods"@ {
        AttrKind::BootstrapMethods
    } else if name == "NestHost"@ {
        AttrKind::NestHost
    } else if name == "NestMembers"@ {
        AttrKind::NestMembers
    } else if name == "SourceFile"@ {
        AttrKind::SourceFile
    } else if name == "Code"@ {
        AttrKind::Code
    } else if name == "ConstantValue"@ {
        AttrKind::ConstantValue
    } else if name == "EnclosingMethod"@ {
        AttrKind::EnclosingMethod
    } else if name == "RuntimeVisibleParameterAnnotations"@ || name == "RuntimeVisibleTypeAnnotations"@
        || name == "AnnotationDefault"@ || name == "RuntimeInvisibleTypeAnnotations"@
        || name == "RuntimeInvisibleParameterAnnotations"@ || name == "RuntimeInvisibleAnnotations"@ {
        AttrKind::Ignored
    } else if name == "ST_TERMINATED"@ || name == "()Lio/netty/buffer/ByteBuf;"@ || name == "I"@
        || name == "Index"@ || name == "Lcom/google/common/cache/ReferenceEntry<TK;TV;>;"@
        || name == "Ljava/util/Comparator;"@ {
        AttrKind::Nonsense
    } else {
        AttrKind::Unhandled
    }
}

/// How the decoder treats an attribute name.
pub fn classify_attribute(name: &str) -> (r: AttrKind)
    ensures
        r == attr_kind(name@),
{
    if str_eq(name, "LineNumberTable") {
        AttrKind::LineNumberTable
    } else if str_eq(name, "LocalVariableTable") {
        AttrKind::LocalVariableTable
    } else if str_eq(name, "MethodParameters") {
        AttrKind::MethodParameters
    } else if str_eq(name, "Deprecated") {
        AttrKind::Deprecated
    } else if str_eq(name, "Record") || str_eq(name, "StackMapTable") || str_eq(name, "RuntimeVisibleAnnotations")
        || str_eq(name, "LocalVariableTypeTable") || str_eq(name, "InnerClasses") {
        AttrKind::Ignored
    } else if str_eq(name, "Exceptions") {
        AttrKind::Exceptions
    } else if str_eq(name, "Signature") {
        AttrKind::Signature
    } else if str_eq(name, "BootstrapMethods") {
        AttrKind::BootstrapMethods
    } else if str_eq(name, "NestHost") {
        AttrKind::NestHost
    } else if str_eq(name, "NestMembers") {
        AttrKind::NestMembers
    } else if str_eq(name, "SourceFile") {
        AttrKind::SourceFile
    } else if str_eq(name, "Code") {
        AttrKind::Code
    } else if str_eq(name, "ConstantValue") {
        AttrKind::ConstantValue
    } else if str_eq(name, "EnclosingMethod") {
        AttrKind::EnclosingMethod
    } else if str_eq(name, "RuntimeVisibleParameterAnnotations") || str_eq(name, "RuntimeVisibleTypeAnnotations")
        || str_eq(name, "AnnotationDefault") || str_eq(name, "RuntimeInvisibleTypeAnnotations")
        || str_eq(name, "RuntimeInvisibleParameterAnnotations") || str_eq(name, "RuntimeInvisibleAnnotations") {
        AttrKind::Ignored
    } else if str_eq(name, "ST_TERMINATED") || str_eq(name, "()Lio/netty/buffer/ByteBuf;") || str_eq(name, "I")
        || str_eq(name, "Index") || str_eq(name, "Lcom/google/common/cache/ReferenceEntry<TK;TV;>;")
        || str_eq(name, "Ljava/util/Comparator;") {
        AttrKind::Nonsense
    } else {
        AttrKind::Unhandled
    }
}

/// The length of `s` without its trailing zero bytes.
pub open spec fn extent(s: Seq<u8>) -> nat
    decreases s.len(),
{
    if s.len() == 0 {
        0
    } else if s.last() != 0 {
        s.len()
    } else {
        extent(s.drop_last())
    }
}

/// How many bytes that are not trailing zeros lie at or after position `p`.
/// Reading an attribute needs a nonzero byte, and the data of an attribute
/// nested in another has less room than the outer one: this bounds the
/// nesting.
pub open spec fn room(s: Seq<u8>, p: int) -> int {
    if p < 0 {
        extent(s) as int
    } else if p < extent(s) {
        extent(s) - p
    } else {
        0
    }
}

proof fn lemma_extent_zeros(s: Seq<u8>, m: nat)
    requires
        m <= s.len(),
        forall|j: int| m <= j < s.len() ==> s[j] == 0,
    ensures
        extent(s) <= m,
    decreases s.len(),
{
    if s.len() > m {
        assert(s.last() == s[s.len() - 1]);
        assert forall|j: int| m <= j < s.drop_last().len() implies s.drop_last()[j] == 0 by {
            assert(s.drop_last()[j] == s[j]);
        }
        lemma_extent_zeros(s.drop_last(), m);
    } else {
        lemma_extent_bounds(s);
    }
}

proof fn lemma_extent_bounds(s: Seq<u8>)
    ensures
        extent(s) <= s.len(),
        forall|j: int| extent(s) <= j < s.len() ==> s[j] == 0,
    decreases s.len(),
{
    if s.len() > 0 && s.last() == 0 {
        lemma_extent_bounds(s.drop_last());
        assert forall|j: int| extent(s) <= j < s.len() implies s[j] == 0 by {
            if j < s.len() - 1 {
                assert(s.drop_last()[j] == s[j]);
            }
        }
    }
}

proof fn lemma_nonzero_in_extent(s: Seq<u8>, i: int)
    requires
        0 <= i < s.len(),
        s[i] != 0,
    ensures
        extent(s) > i,
{
    lemma_extent_bounds(s);
}

/// The data of an attribute read at `p` has less room than `p` has, when the
/// attribute's name index is not zero.
proof fn lemma_window_room(s: Seq<u8>, p: int, n: nat)
    requires
        0 <= p,
        p + 6 <= s.len(),
        s[p] != 0 || s[p + 1] != 0,
    ensures
        extent(spec_window(s, p + 6, n).0) < room(s, p),
{
    if s[p] != 0 {
        lemma_nonzero_in_extent(s, p);
    } else {
        lemma_nonzero_in_extent(s, p + 1);
    }
    lemma_extent_bounds(s);
    let d = spec_window(s, p + 6, n).0;
    let m: int = if extent(s) > p + 6 { extent(s) - (p + 6) } else { 0 };
    let avail = if p + 6 + n <= s.len() { n as int } else { s.len() - (p + 6) };
    assert(d.len() == n);
    assert forall|j: int| m <= j < d.len() implies d[j] == 0 by {
        if j < avail {
            assert(d[j] == s[p + 6 + j]);
        }
    }
    if m <= d.len() {
        lemma_extent_zeros(d, m as nat);
    } else {
        lemma_extent_bounds(d);
    }
}

proof fn lemma_room_mono(s: Seq<u8>, p: int, q: int)
    requires
        p <= q,
    ensures
        room(s, q) <= room(s, p),
        room(s, q) <= extent(s),
        room(s, q) >= 0,
{
}

/// The line-number table entries of records of two values.
pub open spec fn to_pc_lines(rs: Seq<Seq<u16>>) -> Seq<(u16, u16)> {
    rs.map_values(|r: Seq<u16>| (r[0], r[1]))
}

pub open spec fn to_local_vars(rs: Seq<Seq<u16>>) -> Seq<LocalVariable> {
    rs.map_values(|r: Seq<u16>| LocalVariable { start_pc: r[0], length: r[1], name_index: r[2], descriptor_index: r[3], index: r[4] })
}

pub open spec fn to_code_exceptions(rs: Seq<Seq<u16>>) -> Seq<CodeException> {
    rs.map_values(|r: Seq<u16>| CodeException { start_pc: r[0], end_pc: r[1], handler_pc: r[2], catch_type: r[3] })
}

pub open spec fn to_u16_list(rs: Seq<Seq<u16>>) -> Seq<u16> {
    rs.map_values(|r: Seq<u16>| r[0])
}

pub open spec fn to_parameters(rs: Seq<Seq<u16>>) -> Seq<MethodParameter> {
    rs.map_values(|r: Seq<u16>| MethodParameter { name_index: r[0], access_flags: AccessFlags { mask: r[1] } })
}

/// A table read at `p`: a 16-bit count, then that many records of `k`
/// 16-bit values.
pub open spec fn spec_counted_records(s: Seq<u8>, p: int, k: nat) -> Result<(Seq<Seq<u16>>, int), Failure> {
    match spec_u16(s, p) {
        Err(e) => Err(e),
        Ok((n, q)) => spec_u16_records(s, q, n as nat, k),
    }
}

/// `n` bootstrap methods read at `p`: each a method handle index, an argument
/// count and that many argument indices.
pub open spec fn spec_bootstrap_methods(s: Seq<u8>, p: int, n: nat) -> Result<(Seq<(u16, Seq<u16>)>, int), Failure>
    decreases n,
{
    if n == 0 {
        Ok((Seq::empty(), p))
    } else {
        match spec_bootstrap_methods(s, p, (n - 1) as nat) {
            Err(e) => Err(e),
            Ok((ms, q)) => match spec_u16(s, q) {
                Err(e) => Err(e),
                Ok((method_ref, q1)) => match spec_u16(s, q1) {
                    Err(e) => Err(e),
                    Ok((argc, q2)) => match spec_u16s(s, q2, argc as nat) {
                        Err(e) => Err(e),
                        Ok((args, q3)) => Ok((ms.push((method_ref, args)), q3)),
                    },
                },
            },
        }
    }
}

/// One attribute read at `p`: a name index into the constant pool, a 32-bit
/// length and that many bytes of data, which are decoded by the name. The
/// data is read with one `read` of a byte slice: when fewer bytes remain,
/// the rest of the data is zeros.
pub open spec fn spec_attribute(s: Seq<u8>, p: int, items: Seq<SpecConstantItem>) -> Result<(SpecAttribute, int), Failure>
    decreases 3 * room(s, p), 0int,
{
    match spec_u16(s, p) {
        Err(e) => Err(e),
        Ok((index, p1)) => if index == 0 {
            Err(Failure::Io(IoFailure::AttributeNameIndexZero))
        } else if index - 1 >= items.len() {
            Err(Failure::Io(IoFailure::AttributeNameIndexOutside))
        } else {
            match items[index - 1] {
                SpecConstantItem::Utf8(name) => match spec_u32(s, p1) {
                    Err(e) => Err(e),
                    Ok((length, p2)) => {
                        let (data, p3) = spec_window(s, p2, length as nat);
                        if extent(data) < room(s, p) {
                            match spec_decode_attribute(data, index, name, items) {
                                Ok(a) => Ok((a, p3)),
                                Err(e) => Err(e),
                            }
                        } else {
                            Err(Failure::Io(IoFailure::UnexpectedEof))
                        }
                    },
                },
                _ => Err(Failure::Io(IoFailure::AttributeNameNotUtf8)),
            }
        },
    }
}

/// `n` attributes read one after another at `p`.
pub open spec fn spec_attributes(s: Seq<u8>, p: int, n: nat, items: Seq<SpecConstantItem>) -> Result<(Seq<SpecAttribute>, int), Failure>
    decreases 3 * room(s, p) + 1, n,
{
    if n == 0 {
        Ok((Seq::empty(), p))
    } else {
        match spec_attribute(s, p, items) {
            Err(e) => Err(e),
            Ok((a, p1)) => if p1 >= p {
                match spec_attributes(s, p1, (n - 1) as nat, items) {
                    Err(e) => Err(e),
                    Ok((rest, p2)) => Ok((seq![a] + rest, p2)),
                }
            } else {
                Err(Failure::Io(IoFailure::UnexpectedEof))
            },
        }
    }
}

/// The attribute that the data `d` of an attribute named `name` (the
/// constant at `index`) decodes to.
pub open spec fn spec_decode_attribute(d: Seq<u8>, index: u16, name: Seq<char>, items: Seq<SpecConstantItem>) -> Result<SpecAttribute, Failure>
    decreases 3 * extent(d) + 2, 0int,
{
    let kind = attr_kind(name);
    if kind == AttrKind::LineNumberTable {
        match spec_counted_records(d, 0, 2) {
            Ok((rs, _)) => Ok(SpecAttribute::LineNumberTable { pc_lines: to_pc_lines(rs) }),
            Err(e) => Err(e),
        }
    } else if kind == AttrKind::LocalVariableTable {
        match spec_counted_records(d, 0, 5) {
            Ok((rs, _)) => Ok(SpecAttribute::LocalVariableTable { local_vars: to_local_vars(rs) }),
            Err(e) => Err(e),
        }
    } else if kind == AttrKind::MethodParameters {
        match spec_u8(d, 0) {
            Err(e) => Err(e),
            Ok((n, q)) => match spec_u16_records(d, q, n as nat, 2) {
                Ok((rs, _)) => Ok(SpecAttribute::MethodParameters { parameters: to_parameters(rs) }),
                Err(e) => Err(e),
            },
        }
    } else if kind == AttrKind::Deprecated {
        Ok(SpecAttribute::Deprecated)
    } else if kind == AttrKind::Ignored {
        Ok(SpecAttribute::Unknown)
    } else if kind == AttrKind::Exceptions {
        match spec_counted_records(d, 0, 1) {
            Ok((rs, _)) => Ok(SpecAttribute::Exceptions { exceptions: to_u16_list(rs) }),
            Err(e) => Err(e),
        }
    } else if kind == AttrKind::Signature {
        match spec_u16(d, 0) {
            Ok((v, _)) => Ok(SpecAttribute::Signature { signature: v }),
            Err(e) => Err(e),
        }
    } else if kind == AttrKind::BootstrapMethods {
        match spec_u16(d, 0) {
            Err(e) => Err(e),
            Ok((n, q)) => match spec_bootstrap_methods(d, q, n as nat) {
                Ok((ms, _)) => Ok(SpecAttribute::BootstrapMethods { bootstrap_methods: ms }),
                Err(e) => Err(e),
            },
        }
    } else if kind == AttrKind::NestHost {
        match spec_u16(d, 0) {
            Ok((v, _)) => Ok(SpecAttribute::NestHost { host_class_index: v }),
            Err(e) => Err(e),
        }
    } else if kind == AttrKind::NestMembers {
        match spec_counted_records(d, 0, 1) {
            Ok((rs, _)) => Ok(SpecAttribute::NestMembers { classes: to_u16_list(rs) }),
            Err(e) => Err(e),
        }
    } else if kind == AttrKind::SourceFile {
        match spec_u16(d, 0) {
            Ok((v, _)) => Ok(SpecAttribute::SourceFile { sourcefile_index: v }),
            Err(e) => Err(e),
        }
    } else if kind == AttrKind::Code {
        match spec_u16(d, 0) {
            Err(e) => Err(e),
            Ok((max_stack, q1)) => match spec_u16(d, q1) {
                Err(e) => Err(e),
                Ok((max_locals, q2)) => match spec_u32(d, q2) {
                    Err(e) => Err(e),
                    Ok((code_length, q3)) => match spec_load_ops(d, q3, code_length) {
                        Err(e) => Err(e),
                        Ok((ops, q4)) => match spec_counted_records(d, q4, 4) {
                            Err(e) => Err(e),
                            Ok((rs, q5)) => match spec_u16(d, q5) {
                                Err(e) => Err(e),
                                Ok((count, q6)) => match spec_attributes(d, q6, count as nat, items) {
                                    Err(e) => Err(e),
                                    Ok((attributes, _)) => Ok(SpecAttribute::Code {
                                        max_stack,
                                        max_locals,
                                        ops,
                                        exceptions: to_code_exceptions(rs),
                                        attributes,
                                    }),
                                },
                            },
                        },
                    },
                },
            },
        }
    } else if kind == AttrKind::ConstantValue {
        match spec_u16(d, 0) {
            Ok((v, _)) => Ok(SpecAttribute::ConstantValue { value_index: v }),
            Err(e) => Err(e),
        }
    } else if kind == AttrKind::EnclosingMethod {
        match spec_u16(d, 0) {
            Err(e) => Err(e),
            Ok((class_index, q)) => match spec_u16(d, q) {
                Ok((method_index, _)) => Ok(SpecAttribute::EnclosingMethod { class_index, method_index }),
                Err(e) => Err(e),
            },
        }
    } else if kind == AttrKind::Nonsense {
        Err(Failure::Io(IoFailure::NonsenseAttribute(index)))
    } else {
        Err(Failure::Abort(Abort::UnhandledAttribute(index)))
    }
}

fn counted_records(data: &[u8], pos: usize, k: usize) -> (r: Result<(Vec<Vec<u16>>, usize), Failure>)
    ensures
        lift(r) == spec_counted_records(data@, pos as int, k as nat),
        r matches Ok((v, q)) ==> q >= pos && forall|j: int| 0 <= j < v@.len() ==> #[trigger] v@[j]@.len() == k,
{
    let (n, q) = match load_u16(data, pos) {
        Ok(x) => x,
        Err(e) => return Err(e),
    };
    load_u16_records(data, q, n as usize, k)
}

fn pc_lines_of(rs: &Vec<Vec<u16>>) -> (r: Vec<(u16, u16)>)
    requires
        forall|j: int| 0 <= j < rs@.len() ==> #[trigger] rs@[j]@.len() == 2,
    ensures
        r@ == to_pc_lines(rs.deep_view()),
{
    let mut out: Vec<(u16, u16)> = Vec::new();
    let mut i: usize = 0;
    while i < rs.len()
        invariant
            i <= rs@.len(),
            forall|j: int| 0 <= j < rs@.len() ==> #[trigger] rs@[j]@.len() == 2,
            out@ == to_pc_lines(rs.deep_view()).take(i as int),
        decreases rs@.len() - i,
    {
        let r = &rs[i];
        out.push((r[0], r[1]));
        assert(to_pc_lines(rs.deep_view()).take(i + 1) =~= to_pc_lines(rs.deep_view()).take(i as int).push((r@[0], r@[1])));
        i = i + 1;
    }
    assert(to_pc_lines(rs.deep_view()).take(rs@.len() as int) =~= to_pc_lines(rs.deep_view()));
    out
}

fn local_vars_of(rs: &Vec<Vec<u16>>) -> (r: Vec<LocalVariable>)
    requires
        forall|j: int| 0 <= j < rs@.len() ==> #[trigger] rs@[j]@.len() == 5,
    ensures
        r@ == to_local_vars(rs.deep_view()),
{
    let mut out: Vec<LocalVariable> = Vec::new();
    let mut i: usize = 0;
    while i < rs.len()
        invariant
            i <= rs@.len(),
            forall|j: int| 0 <= j < rs@.len() ==> #[trigger] rs@[j]@.len() == 5,
            out@ == to_local_vars(rs.deep_view()).take(i as int),
        decreases rs@.len() - i,
    {
        let r = &rs[i];
        let v = LocalVariable { start_pc: r[0], length: r[1], name_index: r[2], descriptor_index: r[3], index: r[4] };
        out.push(v);
        assert(to_local_vars(rs.deep_view()).take(i + 1) =~= to_local_vars(rs.deep_view()).take(i as int).push(v));
        i = i + 1;
    }
    assert(to_local_vars(rs.deep_view()).take(rs@.len() as int) =~= to_local_vars(rs.deep_view()));
    out
}

fn code_exceptions_of(rs: &Vec<Vec<u16>>) -> (r: Vec<CodeException>)
    requires
        forall|j: int| 0 <= j < rs@.len() ==> #[trigger] rs@[j]@.len() == 4,
    ensures
        r@ == to_code_exceptions(rs.deep_view()),
{
    let mut out: Vec<CodeException> = Vec::new();
    let mut i: usize = 0;
    while i < rs.len()
        invariant
            i <= rs@.len(),
            forall|j: int| 0 <= j < rs@.len() ==> #[trigger] rs@[j]@.len() == 4,
            out@ == to_code_exceptions(rs.deep_view()).take(i as int),
        decreases rs@.len() - i,
    {
        let r = &rs[i];
        let v = CodeException { start_pc: r[0], end_pc: r[1], handler_pc: r[2], catch_type: r[3] };
        out.push(v);
        assert(to_code_exceptions(rs.deep_view()).take(i + 1) =~= to_code_exceptions(rs.deep_view()).take(i as int).push(v));
        i = i + 1;
    }
    assert(to_code_exceptions(rs.deep_view()).take(rs@.len() as int) =~= to_code_exceptions(rs.deep_view()));
    out
}

fn u16_list_of(rs: &Vec<Vec<u16>>) -> (r: Vec<u16>)
    requires
        forall|j: int| 0 <= j < rs@.len() ==> #[trigger] rs@[j]@.len() == 1,
    ensures
        r@ == to_u16_list(rs.deep_view()),
{
    let mut out: Vec<u16> = Vec::new();
    let mut i: usize = 0;
    while i < rs.len()
        invariant
            i <= rs@.len(),
            forall|j: int| 0 <= j < rs@.len() ==> #[trigger] rs@[j]@.len() == 1,
            out@ == to_u16_list(rs.deep_view()).take(i as int),
        decreases rs@.len() - i,
    {
        let v = rs[i][0];
        out.push(v);
        assert(to_u16_list(rs.deep_view()).take(i + 1) =~= to_u16_list(rs.deep_view()).take(i as int).push(v));
        i = i + 1;
    }
    assert(to_u16_list(rs.deep_view()).take(rs@.len() as int) =~= to_u16_list(rs.deep_view()));
    out
}

fn parameters_of(rs: &Vec<Vec<u16>>) -> (r: Vec<MethodParameter>)
    requires
        forall|j: int| 0 <= j < rs@.len() ==> #[trigger] rs@[j]@.len() == 2,
    ensures
        r@ == to_parameters(rs.deep_view()),
{
    let mut out: Vec<MethodParameter> = Vec::new();
    let mut i: usize = 0;
    while i < rs.len()
        invariant
            i <= rs@.len(),
            forall|j: int| 0 <= j < rs@.len() ==> #[trigger] rs@[j]@.len() == 2,
            out@ == to_parameters(rs.deep_view()).take(i as int),
        decreases rs@.len() - i,
    {
        let r = &rs[i];
        let v = MethodParameter { name_index: r[0], access_flags: AccessFlags { mask: r[1] } };
        out.push(v);
        assert(to_parameters(rs.deep_view()).take(i + 1) =~= to_parameters(rs.deep_view()).take(i as int).push(v));
        i = i + 1;
    }
    assert(to_parameters(rs.deep_view()).take(rs@.len() as int) =~= to_parameters(rs.deep_view()));
    out
}

proof fn lemma_bootstrap_err(s: Seq<u8>, p: int, i: nat, n: nat)
    requires
        i <= n,
        spec_bootstrap_methods(s, p, i) is Err,
    ensures
        spec_bootstrap_methods(s, p, n) == spec_bootstrap_methods(s, p, i),
    decreases n,
{
    if n > i {
        lemma_bootstrap_err(s, p, i, (n - 1) as nat);
    }
}

fn load_bootstrap_methods(data: &[u8], pos: usize, n: usize) -> (r: Result<(Vec<BootstrapMethod>, usize), Failure>)
    ensures
        lift(r) == spec_bootstrap_methods(data@, pos as int, n as nat),
{
    let mut out: Vec<BootstrapMethod> = Vec::new();
    let mut p = pos;
    let mut i: usize = 0;
    assert(out.deep_view() =~= Seq::<(u16, Seq<u16>)>::empty());
    while i < n
        invariant
            i <= n,
            spec_bootstrap_methods(data@, pos as int, i as nat) == Ok::<(Seq<(u16, Seq<u16>)>, int), Failure>((out.deep_view(), p as int)),
        decreases n - i,
    {
        let (method_ref, q1) = match load_u16(data, p) {
            Ok(x) => x,
            Err(e) => {
                proof {
                    lemma_bootstrap_err(data@, pos as int, (i + 1) as nat, n as nat);
                }
                return Err(e);
            },
        };
        let (argc, q2) = match load_u16(data, q1) {
            Ok(x) => x,
            Err(e) => {
                proof {
                    lemma_bootstrap_err(data@, pos as int, (i + 1) as nat, n as nat);
                }
                return Err(e);
            },
        };
        let (args, q3) = match load_u16s(data, q2, argc as usize) {
            Ok(x) => x,
            Err(e) => {
                proof {
                    lemma_bootstrap_err(data@, pos as int, (i + 1) as nat, n as nat);
                }
                return Err(e);
            },
        };
        let ghost before = out.deep_view();
        assert(args.deep_view() =~= args@);
        let m = BootstrapMethod { bootstrap_method_ref: method_ref, bootstrap_args: args };
        out.push(m);
        assert(out.deep_view() =~= before.push((method_ref, m.bootstrap_args@)));
        p = q3;
        i = i + 1;
    }
    Ok((out, p))
}

/// The attributes already read, put before the outcome of reading the rest.
pub open spec fn prepend_attrs(done: Seq<SpecAttribute>, r: Result<(Seq<SpecAttribute>, int), Failure>) -> Result<(Seq<SpecAttribute>, int), Failure> {
    match r {
        Ok((rest, q)) => Ok((done + rest, q)),
        Err(e) => Err(e),
    }
}

/// The outcome of decoding in spec terms.
pub open spec fn lift_attr(r: Result<Attribute, Failure>) -> Result<SpecAttribute, Failure> {
    match r {
        Ok(a) => Ok(a.deep_view()),
        Err(e) => Err(e),
    }
}

impl Attribute {
    /// Reads one attribute at `pos`: its name index, its length and its
    /// data, which is decoded by the name that the constant pool gives.
    pub fn read(data: &[u8], pos: usize, const_items: &Vec<ConstantItem>) -> (r: Result<(Attribute, usize), Failure>)
        ensures
            lift(r) == spec_attribute(data@, pos as int, const_items.deep_view()),
            r matches Ok((_, q)) ==> q >= pos && q <= data@.len(),
        decreases 3 * room(data@, pos as int), 0int,
    {
        let ghost items = const_items.deep_view();
        let (attribute_name_index, p1) = match load_u16(data, pos) {
            Ok(x) => x,
            Err(e) => return Err(e),
        };
        if attribute_name_index == 0 {
            return Err(Failure::Io(IoFailure::AttributeNameIndexZero));
        }
        if attribute_name_index as usize - 1 >= const_items.len() {
            return Err(Failure::Io(IoFailure::AttributeNameIndexOutside));
        }
        let attribute_name = match &const_items[attribute_name_index as usize - 1] {
            ConstantItem::Utf8(name) => name.as_str(),
            _ => return Err(Failure::Io(IoFailure::AttributeNameNotUtf8)),
        };
        assert(items[attribute_name_index - 1] == const_items@[attribute_name_index - 1].deep_view());
        let (attribute_length, p2) = match load_u32(data, p1) {
            Ok(x) => x,
            Err(e) => return Err(e),
        };
        let (attribute_data, p3) = load_window(data, p2, attribute_length as usize);
        proof {
            lemma_window_room(data@, pos as int, attribute_length as nat);
        }
        match Self::decode_attribute(attribute_data.as_slice(), attribute_name_index, attribute_name, const_items) {
            Ok(a) => Ok((a, p3)),
            Err(e) => Err(e),
        }
    }

    /// Reads `n` attributes one after another at `pos`.
    pub fn read_all(data: &[u8], pos: usize, n: u16, const_items: &Vec<ConstantItem>) -> (r: Result<(Vec<Attribute>, usize), Failure>)
        ensures
            lift(r) == spec_attributes(data@, pos as int, n as nat, const_items.deep_view()),
            r matches Ok((_, q)) ==> q >= pos,
        decreases 3 * room(data@, pos as int) + 1, n as int,
    {
        let ghost items = const_items.deep_view();
        let ghost whole = spec_attributes(data@, pos as int, n as nat, items);
        let mut out: Vec<Attribute> = Vec::new();
        let mut p = pos;
        let mut i: u16 = 0;
        assert(out.deep_view() =~= Seq::<SpecAttribute>::empty());
        while i < n
            invariant
                i <= n,
                p >= pos,
                items == const_items.deep_view(),
                whole == spec_attributes(data@, pos as int, n as nat, items),
                whole == prepend_attrs(out.deep_view(), spec_attributes(data@, p as int, (n - i) as nat, items)),
            decreases n - i,
        {
            proof {
                lemma_room_mono(data@, pos as int, p as int);
            }
            let (a, q) = match Self::read(data, p, const_items) {
                Ok(x) => x,
                Err(e) => return Err(e),
            };
            let ghost before = out.deep_view();
            let ghost sa = a.deep_view();
            out.push(a);
            proof {
                assert(out.deep_view() =~= before.push(sa));
                match spec_attributes(data@, q as int, (n - i - 1) as nat, items) {
                    Ok((rest, q2)) => {
                        assert(before + (seq![sa] + rest) =~= out.deep_view() + rest);
                    },
                    Err(e) => {},
                }
            }
            p = q;
            i = i + 1;
        }
        proof {
            assert(out.deep_view() + Seq::<SpecAttribute>::empty() =~= out.deep_view());
        }
        Ok((out, p))
    }

    /// Decodes the data `data` of an attribute named `attribute_name`, the
    /// constant at `name_index`.
    pub fn decode_attribute(data: &[u8], name_index: u16, attribute_name: &str, const_items: &Vec<ConstantItem>) -> (r: Result<Attribute, Failure>)
        ensures
            lift_attr(r) == spec_decode_attribute(data@, name_index, attribute_name@, const_items.deep_view()),
        decreases 3 * extent(data@) + 2, 0int,
    {
        let kind = classify_attribute(attribute_name);
        match kind {
            AttrKind::LineNumberTable => match counted_records(data, 0, 2) {
                Ok((rs, _)) => Ok(Attribute::LineNumberTable { pc_lines: pc_lines_of(&rs) }),
                Err(e) => Err(e),
            },
            AttrKind::LocalVariableTable => match counted_records(data, 0, 5) {
                Ok((rs, _)) => Ok(Attribute::LocalVariableTable { local_vars: local_vars_of(&rs) }),
                Err(e) => Err(e),
            },
            AttrKind::MethodParameters => {
                let (n, q) = match load_u8(data, 0) {
                    Ok(x) => x,
                    Err(e) => return Err(e),
                };
                match load_u16_records(data, q, n as usize, 2) {
                    Ok((rs, _)) => Ok(Attribute::MethodParameters { parameters: parameters_of(&rs) }),
                    Err(e) => Err(e),
                }
            },
            AttrKind::Deprecated => Ok(Attribute::Deprecated),
            AttrKind::Ignored => Ok(Attribute::Unknown),
            AttrKind::Exceptions => match counted_records(data, 0, 1) {
                Ok((rs, _)) => Ok(Attribute::Exceptions { exceptions: u16_list_of(&rs) }),
                Err(e) => Err(e),
            },
            AttrKind::Signature => match load_u16(data, 0) {
                Ok((v, _)) => Ok(Attribute::Signature { signature: v }),
                Err(e) => Err(e),
            },
            AttrKind::BootstrapMethods => {
                let (n, q) = match load_u16(data, 0) {
                    Ok(x) => x,
                    Err(e) => return Err(e),
                };
                match load_bootstrap_methods(data, q, n as usize) {
                    Ok((ms, _)) => Ok(Attribute::BootstrapMethods { bootstrap_methods: ms }),
                    Err(e) => Err(e),
                }
            },
            AttrKind::NestHost => match load_u16(data, 0) {
                Ok((v, _)) => Ok(Attribute::NestHost { host_class_index: v }),
                Err(e) => Err(e),
            },
            AttrKind::NestMembers => match counted_records(data, 0, 1) {
                Ok((rs, _)) => Ok(Attribute::NestMembers { classes: u16_list_of(&rs) }),
                Err(e) => Err(e),
            },
            AttrKind::SourceFile => match load_u16(data, 0) {
                Ok((v, _)) => Ok(Attribute::SourceFile { sourcefile_index: v }),
                Err(e) => Err(e),
            },
            AttrKind::Code => {
                let (max_stack, q1) = match load_u16(data, 0) {
                    Ok(x) => x,
                    Err(e) => return Err(e),
                };
                let (max_locals, q2) = match load_u16(data, q1) {
                    Ok(x) => x,
                    Err(e) => return Err(e),
                };
                let (code_length, q3) = match load_u32(data, q2) {
                    Ok(x) => x,
                    Err(e) => return Err(e),
                };
                let (ops, q4) = match load_ops(data, q3, code_length) {
                    Ok(x) => x,
                    Err(e) => return Err(e),
                };
                let (rs, q5) = match counted_records(data, q4, 4) {
                    Ok(x) => x,
                    Err(e) => return Err(e),
                };
                let (count, q6) = match load_u16(data, q5) {
                    Ok(x) => x,
                    Err(e) => return Err(e),
                };
                proof {
                    lemma_room_mono(data@, 0, q6 as int);
                }
                let (attributes, _) = match Self::read_all(data, q6, count, const_items) {
                    Ok(x) => x,
                    Err(e) => return Err(e),
                };
                let exceptions = code_exceptions_of(&rs);
                let a = Attribute::Code { max_stack, max_locals, ops, exceptions, attributes };
                proof {
                    assert(attr_view(&a) matches SpecAttribute::Code { attributes: xs, .. } && xs =~= a->attributes.deep_view());
                }
                Ok(a)
            },
            AttrKind::ConstantValue => match load_u16(data, 0) {
                Ok((v, _)) => Ok(Attribute::ConstantValue { value_index: v }),
                Err(e) => Err(e),
            },
            AttrKind::EnclosingMethod => {
                let (class_index, q) = match load_u16(data, 0) {
                    Ok(x) => x,
                    Err(e) => return Err(e),
                };
                match load_u16(data, q) {
                    Ok((method_index, _)) => Ok(Attribute::EnclosingMethod { class_index, method_index }),
                    Err(e) => Err(e),
                }
            },
            AttrKind::Nonsense => Err(Failure::Io(IoFailure::NonsenseAttribute(name_index))),
            AttrKind::Unhandled => Err(Failure::Abort(Abort::UnhandledAttribute(name_index))),
        }
    }
}


/// The name the JVM gives an attribute of each kind.
pub open spec fn jvm_attribute_name(a: SpecAttribute) -> Option<Seq<char>> {
    match a {
        SpecAttribute::Unknown => None,
        SpecAttribute::Code { .. } => Some("Code"@),
        SpecAttribute::LineNumberTable { .. } => Some("LineNumberTable"@),
        SpecAttribute::SourceFile { .. } => Some("SourceFile"@),
        SpecAttribute::LocalVariableTable { .. } => Some("LocalVariableTable"@),
        SpecAttribute::NestHost { .. } => Some("NestHost"@),
        SpecAttribute::NestMembers { .. } => Some("NestMembers"@),
        SpecAttribute::MethodParameters { .. } => Some("MethodParameters"@),
        SpecAttribute::BootstrapMethods { .. } => Some("BootstrapMethods"@),
        SpecAttribute::Exceptions { .. } => Some("Exceptions"@),
        SpecAttribute::Signature { .. } => Some("Signature"@),
        SpecAttribute::ConstantValue { .. } => Some("ConstantValue"@),
        SpecAttribute::EnclosingMethod { .. } => Some("EnclosingMethod"@),
        SpecAttribute::Deprecated => Some("Deprecated"@),
    }
}

/// An attribute decodes to the kind its name names: a `Code` attribute to
/// code, a `SourceFile` attribute to a source file, and so on; an attribute
/// of a kind the reader does not keep decodes to `Unknown`.
pub proof fn law_attribute_kind_matches_name(d: Seq<u8>, index: u16, name: Seq<char>, items: Seq<SpecConstantItem>)
    requires
        spec_decode_attribute(d, index, name, items) is Ok,
    ensures
        spec_decode_attribute(d, index, name, items)->Ok_0 is Unknown
            || jvm_attribute_name(spec_decode_attribute(d, index, name, items)->Ok_0) == Some(name),
{
}

} // verus!
