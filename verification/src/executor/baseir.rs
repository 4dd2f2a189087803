//! The interpreter's instruction set, and lowering resolved instructions to
//! it against the loaded classes.
use vstd::prelude::*;
use crate::executor::fatops::resolved_branch;
use crate::executor::UnmetDependency;
use crate::executor::class::Class;
use crate::executor::fatops::{FatOp, SpecFatOp};
use crate::text::to_owned_string;
use crate::{ExecEnv, Object, Value, spec_lookup_or_insert};
use crate::executor::{ExecCtx, FieldType, has_default, local_at, spec_default_value, spec_obj_class};

verus! {

/// An instruction of the interpreter, with classes, fields, statics and
/// methods named by their positions. A float constant is held by its IEEE
/// bit pattern.
#[derive(Debug, Clone, Copy, PartialEq, Eq, Structural)]
pub enum BaseIR {
    Dup,
    Pop,
    AConst(usize),
    DConst(u64),
    FConst(u32),
    IConst(i32),
    LConst(i64),
    ALoad(u8),
    FLoad(u8),
    DLoad(u8),
    ILoad(u8),
    LLoad(u8),
    AStore(u8),
    DStore(u8),
    FStore(u8),
    IStore(u8),
    LStore(u8),
    IAnd,
    LAnd,
    DAdd,
    FAdd,
    IAdd,
    LAdd,
    DSub,
    FSub,
    ISub,
    LSub,
    IMul,
    FMul,
    IRem,
    IDiv,
    FDiv,
    INeg,
    LCmp,
    IOr,
    LOr,
    IXOr,
    LXOr,
    LUShr,
    LUShl,
    InvokeSpecial(usize, u8),
    InvokeStatic(usize, u8),
    InvokeVirtual(usize, u8),
    ZGetStatic(usize),
    BGetStatic(usize),
    SGetStatic(usize),
    IGetStatic(usize),
    LGetStatic(usize),
    FGetStatic(usize),
    DGetStatic(usize),
    AGetStatic(usize),
    CGetStatic(usize),
    ZPutStatic(usize),
    BPutStatic(usize),
    SPutStatic(usize),
    IPutStatic(usize),
    LPutStatic(usize),
    FPutStatic(usize),
    DPutStatic(usize),
    APutStatic(usize),
    CPutStatic(usize),
    ZGetField(usize),
    BGetField(usize),
    SGetField(usize),
    IGetField(usize),
    LGetField(usize),
    FGetField(usize),
    DGetField(usize),
    AGetField(usize),
    CGetField(usize),
    ZPutField(usize),
    BPutField(usize),
    SPutField(usize),
    IPutField(usize),
    LPutField(usize),
    FPutField(usize),
    DPutField(usize),
    APutField(usize),
    CPutField(usize),
    Return,
    AReturn,
    FReturn,
    DReturn,
    IReturn,
    LReturn,
    F2D,
    D2F,
    I2L,
    L2I,
    New(usize),
    CheckedCast(usize),
    InstanceOf(usize),
    ANewArray(usize),
    IfIGreterEqual(usize),
    IfGreterEqualZero(usize),
    IfLessZero(usize),
    IfICmpLessEqual(usize),
    IfICmpLess(usize),
    IfLessEqualZero(usize),
    IfICmpNe(usize),
    IfICmpEq(usize),
    IfNull(usize),
    IfNotNull(usize),
    IfACmpNe(usize),
    IfZero(usize),
    IfNotZero(usize),
    GoTo(usize),
    IInc(u8, i8),
    AAStore,
    AALoad,
    ArrayLength,
    Throw,
    Invalid,
}

/// The interpreter instruction a resolved instruction becomes when it needs
/// no class, field, static or method lookup; `None` for the others.
pub open spec fn spec_simple_base_op(op: SpecFatOp) -> Option<BaseIR> {
    match op {
        SpecFatOp::AConstNull => Some(BaseIR::AConst(0)),
        SpecFatOp::BConst(x0) => Some(BaseIR::IConst(x0 as i32)),
        SpecFatOp::SConst(x0) => Some(BaseIR::IConst(x0 as i32)),
        SpecFatOp::LConst(x0) => Some(BaseIR::LConst(x0)),
        SpecFatOp::IInc(x0, x1) => Some(BaseIR::IInc(x0, x1)),
        SpecFatOp::IfIGreterEqual(x0) => Some(BaseIR::IfIGreterEqual(x0)),
        SpecFatOp::IfICmpNe(x0) => Some(BaseIR::IfICmpNe(x0)),
        SpecFatOp::IfGreterEqualZero(x0) => Some(BaseIR::IfGreterEqualZero(x0)),
        SpecFatOp::IfLessEqualZero(x0) => Some(BaseIR::IfLessEqualZero(x0)),
        SpecFatOp::IfACmpNe(x0) => Some(BaseIR::IfACmpNe(x0)),
        SpecFatOp::IfNull(x0) => Some(BaseIR::IfNull(x0)),
        SpecFatOp::IfNotNull(x0) => Some(BaseIR::IfNotNull(x0)),
        SpecFatOp::IfZero(x0) => Some(BaseIR::IfZero(x0)),
        SpecFatOp::IfNotZero(x0) => Some(BaseIR::IfNotZero(x0)),
        SpecFatOp::IfICmpEq(x0) => Some(BaseIR::IfICmpEq(x0)),
        SpecFatOp::IfLessZero(x0) => Some(BaseIR::IfLessZero(x0)),
        SpecFatOp::IfICmpLess(x0) => Some(BaseIR::IfICmpLess(x0)),
        SpecFatOp::GoTo(x0) => Some(BaseIR::GoTo(x0)),
        SpecFatOp::FConst(x0) => Some(BaseIR::FConst(x0)),
        SpecFatOp::IConst(x0) => Some(BaseIR::IConst(x0)),
        SpecFatOp::ALoad(x0) => Some(BaseIR::ALoad(x0)),
        SpecFatOp::ILoad(x0) => Some(BaseIR::ILoad(x0)),
        SpecFatOp::AStore(x0) => Some(BaseIR::AStore(x0)),
        SpecFatOp::FStore(x0) => Some(BaseIR::FStore(x0)),
        SpecFatOp::DStore(x0) => Some(BaseIR::DStore(x0)),
        SpecFatOp::IStore(x0) => Some(BaseIR::IStore(x0)),
        SpecFatOp::LStore(x0) => Some(BaseIR::LStore(x0)),
        SpecFatOp::FLoad(x0) => Some(BaseIR::FLoad(x0)),
        SpecFatOp::LLoad(x0) => Some(BaseIR::LLoad(x0)),
        SpecFatOp::IAnd => Some(BaseIR::IAnd),
        SpecFatOp::LAnd => Some(BaseIR::LAnd),
        SpecFatOp::DSub => Some(BaseIR::DSub),
        SpecFatOp::FSub => Some(BaseIR::FSub),
        SpecFatOp::ISub => Some(BaseIR::ISub),
        SpecFatOp::LSub => Some(BaseIR::LSub),
        SpecFatOp::DAdd => Some(BaseIR::DAdd),
        SpecFatOp::FAdd => Some(BaseIR::FAdd),
        SpecFatOp::IAdd => Some(BaseIR::IAdd),
        SpecFatOp::LAdd => Some(BaseIR::LAdd),
        SpecFatOp::IMul => Some(BaseIR::IMul),
        SpecFatOp::FMul => Some(BaseIR::FMul),
        SpecFatOp::IDiv => Some(BaseIR::IDiv),
        SpecFatOp::FDiv => Some(BaseIR::FDiv),
        SpecFatOp::IRem => Some(BaseIR::IRem),
        SpecFatOp::INeg => Some(BaseIR::INeg),
        SpecFatOp::F2D => Some(BaseIR::F2D),
        SpecFatOp::D2F => Some(BaseIR::D2F),
        SpecFatOp::I2L => Some(BaseIR::I2L),
        SpecFatOp::L2I => Some(BaseIR::L2I),
        SpecFatOp::LCmp => Some(BaseIR::LCmp),
        SpecFatOp::IOr => Some(BaseIR::IOr),
        SpecFatOp::LOr => Some(BaseIR::LOr),
        SpecFatOp::IXOr => Some(BaseIR::IXOr),
        SpecFatOp::LXOr => Some(BaseIR::LXOr),
        SpecFatOp::LUShr => Some(BaseIR::LUShr),
        SpecFatOp::LUShl => Some(BaseIR::LUShl),
        SpecFatOp::Return => Some(BaseIR::Return),
        SpecFatOp::AReturn => Some(BaseIR::AReturn),
        SpecFatOp::IReturn => Some(BaseIR::IReturn),
        SpecFatOp::DReturn => Some(BaseIR::DReturn),
        SpecFatOp::FReturn => Some(BaseIR::FReturn),
        SpecFatOp::LReturn => Some(BaseIR::LReturn),
        SpecFatOp::Dup => Some(BaseIR::Dup),
        SpecFatOp::Pop => Some(BaseIR::Pop),
        SpecFatOp::AAStore => Some(BaseIR::AAStore),
        SpecFatOp::AALoad => Some(BaseIR::AALoad),
        SpecFatOp::ArrayLength => Some(BaseIR::ArrayLength),
        SpecFatOp::Throw => Some(BaseIR::Throw),
        SpecFatOp::InvokeDynamic => Some(BaseIR::Invalid),
        SpecFatOp::InvokeInterface(x0, x1) => Some(BaseIR::Invalid),
        _ => None,
    }
}

/// The interpreter instruction a resolved instruction becomes when it needs
/// no lookup.
fn simple_base_op(op: &FatOp) -> (r: Option<BaseIR>)
    ensures
        r == spec_simple_base_op(op.deep_view()),
{
    match op {
        FatOp::AConstNull => Some(BaseIR::AConst(0)),
        FatOp::BConst(x0) => Some(BaseIR::IConst(*x0 as i32)),
        FatOp::SConst(x0) => Some(BaseIR::IConst(*x0 as i32)),
        FatOp::LConst(x0) => Some(BaseIR::LConst(*x0)),
        FatOp::IInc(x0, x1) => Some(BaseIR::IInc(*x0, *x1)),
        FatOp::IfIGreterEqual(x0) => Some(BaseIR::IfIGreterEqual(*x0)),
        FatOp::IfICmpNe(x0) => Some(BaseIR::IfICmpNe(*x0)),
        FatOp::IfGreterEqualZero(x0) => Some(BaseIR::IfGreterEqualZero(*x0)),
        FatOp::IfLessEqualZero(x0) => Some(BaseIR::IfLessEqualZero(*x0)),
        FatOp::IfACmpNe(x0) => Some(BaseIR::IfACmpNe(*x0)),
        FatOp::IfNull(x0) => Some(BaseIR::IfNull(*x0)),
        FatOp::IfNotNull(x0) => Some(BaseIR::IfNotNull(*x0)),
        FatOp::IfZero(x0) => Some(BaseIR::IfZero(*x0)),
        FatOp::IfNotZero(x0) => Some(BaseIR::IfNotZero(*x0)),
        FatOp::IfICmpEq(x0) => Some(BaseIR::IfICmpEq(*x0)),
        FatOp::IfLessZero(x0) => Some(BaseIR::IfLessZero(*x0)),
        FatOp::IfICmpLess(x0) => Some(BaseIR::IfICmpLess(*x0)),
        FatOp::GoTo(x0) => Some(BaseIR::GoTo(*x0)),
        FatOp::FConst(x0) => Some(BaseIR::FConst(*x0)),
        FatOp::IConst(x0) => Some(BaseIR::IConst(*x0)),
        FatOp::ALoad(x0) => Some(BaseIR::ALoad(*x0)),
        FatOp::ILoad(x0) => Some(BaseIR::ILoad(*x0)),
        FatOp::AStore(x0) => Some(BaseIR::AStore(*x0)),
        FatOp::FStore(x0) => Some(BaseIR::FStore(*x0)),
        FatOp::DStore(x0) => Some(BaseIR::DStore(*x0)),
        FatOp::IStore(x0) => Some(BaseIR::IStore(*x0)),
        FatOp::LStore(x0) => Some(BaseIR::LStore(*x0)),
        FatOp::FLoad(x0) => Some(BaseIR::FLoad(*x0)),
        FatOp::LLoad(x0) => Some(BaseIR::LLoad(*x0)),
        FatOp::IAnd => Some(BaseIR::IAnd),
        FatOp::LAnd => Some(BaseIR::LAnd),
        FatOp::DSub => Some(BaseIR::DSub),
        FatOp::FSub => Some(BaseIR::FSub),
        FatOp::ISub => Some(BaseIR::ISub),
        FatOp::LSub => Some(BaseIR::LSub),
        FatOp::DAdd => Some(BaseIR::DAdd),
        FatOp::FAdd => Some(BaseIR::FAdd),
        FatOp::IAdd => Some(BaseIR::IAdd),
        FatOp::LAdd => Some(BaseIR::LAdd),
        FatOp::IMul => Some(BaseIR::IMul),
        FatOp::FMul => Some(BaseIR::FMul),
        FatOp::IDiv => Some(BaseIR::IDiv),
        FatOp::FDiv => Some(BaseIR::FDiv),
        FatOp::IRem => Some(BaseIR::IRem),
        FatOp::INeg => Some(BaseIR::INeg),
        FatOp::F2D => Some(BaseIR::F2D),
        FatOp::D2F => Some(BaseIR::D2F),
        FatOp::I2L => Some(BaseIR::I2L),
        FatOp::L2I => Some(BaseIR::L2I),
        FatOp::LCmp => Some(BaseIR::LCmp),
        FatOp::IOr => Some(BaseIR::IOr),
        FatOp::LOr => Some(BaseIR::LOr),
        FatOp::IXOr => Some(BaseIR::IXOr),
        FatOp::LXOr => Some(BaseIR::LXOr),
        FatOp::LUShr => Some(BaseIR::LUShr),
        FatOp::LUShl => Some(BaseIR::LUShl),
        FatOp::Return => Some(BaseIR::Return),
        FatOp::AReturn => Some(BaseIR::AReturn),
        FatOp::IReturn => Some(BaseIR::IReturn),
        FatOp::DReturn => Some(BaseIR::DReturn),
        FatOp::FReturn => Some(BaseIR::FReturn),
        FatOp::LReturn => Some(BaseIR::LReturn),
        FatOp::Dup => Some(BaseIR::Dup),
        FatOp::Pop => Some(BaseIR::Pop),
        FatOp::AAStore => Some(BaseIR::AAStore),
        FatOp::AALoad => Some(BaseIR::AALoad),
        FatOp::ArrayLength => Some(BaseIR::ArrayLength),
        FatOp::Throw => Some(BaseIR::Throw),
        FatOp::InvokeDynamic => Some(BaseIR::Invalid),
        FatOp::InvokeInterface(_, _) => Some(BaseIR::Invalid),
        _ => None,
    }
}

/// The field or static instruction a resolved field access becomes, at
/// position `id`.
pub open spec fn spec_member_base_op(op: SpecFatOp, id: usize) -> BaseIR {
    match op {
        SpecFatOp::AGetField(_, _) => BaseIR::AGetField(id),
        SpecFatOp::FGetField(_, _) => BaseIR::FGetField(id),
        SpecFatOp::IGetField(_, _) => BaseIR::IGetField(id),
        SpecFatOp::LGetField(_, _) => BaseIR::LGetField(id),
        SpecFatOp::ZGetField(_, _) => BaseIR::ZGetField(id),
        SpecFatOp::APutField(_, _) => BaseIR::APutField(id),
        SpecFatOp::FPutField(_, _) => BaseIR::FPutField(id),
        SpecFatOp::LPutField(_, _) => BaseIR::LPutField(id),
        SpecFatOp::IPutField(_, _) => BaseIR::IPutField(id),
        SpecFatOp::ZPutField(_, _) => BaseIR::ZPutField(id),
        SpecFatOp::IGetStatic(_, _) => BaseIR::IGetStatic(id),
        SpecFatOp::AGetStatic(_, _) => BaseIR::AGetStatic(id),
        SpecFatOp::LGetStatic(_, _) => BaseIR::LGetStatic(id),
        SpecFatOp::ZGetStatic(_, _) => BaseIR::ZGetStatic(id),
        SpecFatOp::APutStatic(_, _) => BaseIR::APutStatic(id),
        SpecFatOp::IPutStatic(_, _) => BaseIR::IPutStatic(id),
        SpecFatOp::LPutStatic(_, _) => BaseIR::LPutStatic(id),
        SpecFatOp::ZPutStatic(_, _) => BaseIR::ZPutStatic(id),
        _ => BaseIR::Invalid,
    }
}

/// The field or static instruction a resolved field access becomes.
fn member_base_op(op: &FatOp, id: usize) -> (r: BaseIR)
    ensures
        r == spec_member_base_op(op.deep_view(), id),
{
    match op {
        FatOp::AGetField(_, _) => BaseIR::AGetField(id),
        FatOp::FGetField(_, _) => BaseIR::FGetField(id),
        FatOp::IGetField(_, _) => BaseIR::IGetField(id),
        FatOp::LGetField(_, _) => BaseIR::LGetField(id),
        FatOp::ZGetField(_, _) => BaseIR::ZGetField(id),
        FatOp::APutField(_, _) => BaseIR::APutField(id),
        FatOp::FPutField(_, _) => BaseIR::FPutField(id),
        FatOp::LPutField(_, _) => BaseIR::LPutField(id),
        FatOp::IPutField(_, _) => BaseIR::IPutField(id),
        FatOp::ZPutField(_, _) => BaseIR::ZPutField(id),
        FatOp::IGetStatic(_, _) => BaseIR::IGetStatic(id),
        FatOp::AGetStatic(_, _) => BaseIR::AGetStatic(id),
        FatOp::LGetStatic(_, _) => BaseIR::LGetStatic(id),
        FatOp::ZGetStatic(_, _) => BaseIR::ZGetStatic(id),
        FatOp::APutStatic(_, _) => BaseIR::APutStatic(id),
        FatOp::IPutStatic(_, _) => BaseIR::IPutStatic(id),
        FatOp::LPutStatic(_, _) => BaseIR::LPutStatic(id),
        FatOp::ZPutStatic(_, _) => BaseIR::ZPutStatic(id),
        _ => BaseIR::Invalid,
    }
}

/// The class, member name and kind (`true` for a static) of a field access
/// the interpreter lowers; `None` for other instructions.
pub open spec fn spec_member_access(op: SpecFatOp) -> Option<(Seq<char>, Seq<char>, bool)> {
    match op {
        SpecFatOp::AGetField(c, name) => Some((c, name, false)),
        SpecFatOp::FGetField(c, name) => Some((c, name, false)),
        SpecFatOp::IGetField(c, name) => Some((c, name, false)),
        SpecFatOp::LGetField(c, name) => Some((c, name, false)),
        SpecFatOp::ZGetField(c, name) => Some((c, name, false)),
        SpecFatOp::APutField(c, name) => Some((c, name, false)),
        SpecFatOp::FPutField(c, name) => Some((c, name, false)),
        SpecFatOp::LPutField(c, name) => Some((c, name, false)),
        SpecFatOp::IPutField(c, name) => Some((c, name, false)),
        SpecFatOp::ZPutField(c, name) => Some((c, name, false)),
        SpecFatOp::IGetStatic(c, name) => Some((c, name, true)),
        SpecFatOp::AGetStatic(c, name) => Some((c, name, true)),
        SpecFatOp::LGetStatic(c, name) => Some((c, name, true)),
        SpecFatOp::ZGetStatic(c, name) => Some((c, name, true)),
        SpecFatOp::APutStatic(c, name) => Some((c, name, true)),
        SpecFatOp::IPutStatic(c, name) => Some((c, name, true)),
        SpecFatOp::LPutStatic(c, name) => Some((c, name, true)),
        SpecFatOp::ZPutStatic(c, name) => Some((c, name, true)),
        _ => None,
    }
}

/// The class, member name and kind of a field access the interpreter lowers.
fn member_access(op: &FatOp) -> (r: Option<(&str, &str, bool)>)
    ensures
        match spec_member_access(op.deep_view()) {
            Some((c, name, st)) => r matches Some((c2, n2, st2)) && c2@ == c && n2@ == name && st2 == st,
            None => r is None,
        },
{
    match op {
        FatOp::AGetField(c, name) => Some((c.as_str(), name.as_str(), false)),
        FatOp::FGetField(c, name) => Some((c.as_str(), name.as_str(), false)),
        FatOp::IGetField(c, name) => Some((c.as_str(), name.as_str(), false)),
        FatOp::LGetField(c, name) => Some((c.as_str(), name.as_str(), false)),
        FatOp::ZGetField(c, name) => Some((c.as_str(), name.as_str(), false)),
        FatOp::APutField(c, name) => Some((c.as_str(), name.as_str(), false)),
        FatOp::FPutField(c, name) => Some((c.as_str(), name.as_str(), false)),
        FatOp::LPutField(c, name) => Some((c.as_str(), name.as_str(), false)),
        FatOp::IPutField(c, name) => Some((c.as_str(), name.as_str(), false)),
        FatOp::ZPutField(c, name) => Some((c.as_str(), name.as_str(), false)),
        FatOp::IGetStatic(c, name) => Some((c.as_str(), name.as_str(), true)),
        FatOp::AGetStatic(c, name) => Some((c.as_str(), name.as_str(), true)),
        FatOp::LGetStatic(c, name) => Some((c.as_str(), name.as_str(), true)),
        FatOp::ZGetStatic(c, name) => Some((c.as_str(), name.as_str(), true)),
        FatOp::APutStatic(c, name) => Some((c.as_str(), name.as_str(), true)),
        FatOp::IPutStatic(c, name) => Some((c.as_str(), name.as_str(), true)),
        FatOp::LPutStatic(c, name) => Some((c.as_str(), name.as_str(), true)),
        FatOp::ZPutStatic(c, name) => Some((c.as_str(), name.as_str(), true)),
        _ => None,
    }
}

/// The class instruction a resolved class reference becomes, for class `id`.
pub open spec fn spec_class_base_op(op: SpecFatOp) -> Option<Seq<char>> {
    match op {
        SpecFatOp::New(c) => Some(c),
        SpecFatOp::CheckedCast(c) => Some(c),
        SpecFatOp::InstanceOf(c) => Some(c),
        SpecFatOp::ANewArray(c) => Some(c),
        _ => None,
    }
}

/// The class a class instruction names.
fn class_ref_of(op: &FatOp) -> (r: Option<&str>)
    ensures
        match spec_class_base_op(op.deep_view()) {
            Some(c) => r matches Some(c2) && c2@ == c,
            None => r is None,
        },
{
    match op {
        FatOp::New(c) => Some(c.as_str()),
        FatOp::CheckedCast(c) => Some(c.as_str()),
        FatOp::InstanceOf(c) => Some(c.as_str()),
        FatOp::ANewArray(c) => Some(c.as_str()),
        _ => None,
    }
}

/// The class instruction for class `id`.
pub open spec fn spec_class_op_for(op: SpecFatOp, id: usize) -> BaseIR {
    match op {
        SpecFatOp::New(_) => BaseIR::New(id),
        SpecFatOp::CheckedCast(_) => BaseIR::CheckedCast(id),
        SpecFatOp::InstanceOf(_) => BaseIR::InstanceOf(id),
        SpecFatOp::ANewArray(_) => BaseIR::ANewArray(id),
        _ => BaseIR::Invalid,
    }
}

/// The class instruction for class `id`.
fn class_op_for(op: &FatOp, id: usize) -> (r: BaseIR)
    ensures
        r == spec_class_op_for(op.deep_view(), id),
{
    match op {
        FatOp::New(_) => BaseIR::New(id),
        FatOp::CheckedCast(_) => BaseIR::CheckedCast(id),
        FatOp::InstanceOf(_) => BaseIR::InstanceOf(id),
        FatOp::ANewArray(_) => BaseIR::ANewArray(id),
        _ => BaseIR::Invalid,
    }
}

/// What the resolved instruction `op` becomes, given the loaded classes, with
/// `names` and `n` the method names and count so far: the instruction (or the
/// name of a class that is not loaded yet) and the method names and count
/// afterwards. `None` for a field or static the loaded class does not have,
/// for a virtual method it does not have, and for an instruction the
/// interpreter does not take.
pub open spec fn spec_base_op(
    op: SpecFatOp,
    classes: Seq<Class>,
    class_names: Map<Seq<char>, usize>,
    names: Map<Seq<char>, usize>,
    n: nat,
) -> Option<(Result<BaseIR, Seq<char>>, Map<Seq<char>, usize>, nat)> {
    if spec_simple_base_op(op) is Some {
        Some((Ok(spec_simple_base_op(op)->0), names, n))
    } else if spec_member_access(op) is Some {
        let (c, name, st) = spec_member_access(op)->0;
        let looked = if st {
            spec_static_id(classes, class_names, c, name)
        } else {
            spec_field_id(classes, class_names, c, name)
        };
        match looked {
            Some(Ok(id)) => Some((Ok(spec_member_base_op(op, id)), names, n)),
            Some(Err(e)) => Some((Err(e), names, n)),
            None => None,
        }
    } else if spec_class_base_op(op) is Some {
        let c = spec_class_base_op(op)->0;
        if class_names.contains_key(c) {
            Some((Ok(spec_class_op_for(op, class_names[c])), names, n))
        } else {
            Some((Err(c), names, n))
        }
    } else {
        match op {
            SpecFatOp::InvokeSpecial(m, a) => {
                let (id, names2, n2) = spec_lookup_or_insert(names, n, m);
                Some((Ok(BaseIR::InvokeSpecial(id, a)), names2, n2))
            },
            SpecFatOp::InvokeStatic(m, a) => {
                let (id, names2, n2) = spec_lookup_or_insert(names, n, m);
                Some((Ok(BaseIR::InvokeStatic(id, a)), names2, n2))
            },
            SpecFatOp::InvokeVirtual(c, m, a, _) => if class_names.contains_key(c) {
                let vmap = classes[class_names[c] as int].virtual_map@;
                if vmap.contains_key(m) {
                    Some((Ok(BaseIR::InvokeVirtual(vmap[m], a)), names, n))
                } else {
                    None
                }
            } else {
                Some((Err(c), names, n))
            },
            _ => None,
        }
    }
}

/// Lowers one resolved instruction, looking classes, fields, statics and
/// virtual methods up and adding method slots by name.
fn base_op(op: &FatOp, exec_env: &mut ExecEnv) -> (r: Option<Result<BaseIR, UnmetDependency>>)
    requires
        old(exec_env).code_container.wf(),
    ensures
        final(exec_env).code_container.wf(),
        final(exec_env).code_container.classes@ == old(exec_env).code_container.classes@,
        final(exec_env).code_container.class_names@ == old(exec_env).code_container.class_names@,
        final(exec_env).env_mem == old(exec_env).env_mem,
        final(exec_env).code_container.methods@.len() >= old(exec_env).code_container.methods@.len(),
        forall|i: int| 0 <= i < old(exec_env).code_container.methods@.len() ==> final(exec_env).code_container.methods@[i] == old(exec_env).code_container.methods@[i],
        forall|i: int| old(exec_env).code_container.methods@.len() <= i < final(exec_env).code_container.methods@.len() ==> final(exec_env).code_container.methods@[i] is None,
        match spec_base_op(
            op.deep_view(),
            old(exec_env).code_container.classes@,
            old(exec_env).code_container.class_names@,
            old(exec_env).code_container.method_names@,
            old(exec_env).code_container.methods@.len() as nat,
        ) {
            Some((res, nm, k)) => r matches Some(x) && lift_dep(x) == res
                && final(exec_env).code_container.method_names@ == nm
                && final(exec_env).code_container.methods@.len() == k,
            None => r is None,
        },
{
    if let Some(b) = simple_base_op(op) {
        return Some(Ok(b));
    }
    if let Some((class_name, field_name, is_static)) = member_access(op) {
        let looked = if is_static {
            try_lookup_static(class_name, field_name, exec_env)
        } else {
            try_lookup_field(class_name, field_name, exec_env)
        };
        return match looked {
            Some(Ok(id)) => Some(Ok(member_base_op(op, id))),
            Some(Err(e)) => Some(Err(e)),
            None => None,
        };
    }
    if let Some(class_name) = class_ref_of(op) {
        return match exec_env.code_container.lookup_class(class_name) {
            Some(class_id) => Some(Ok(class_op_for(op, class_id))),
            None => Some(Err(UnmetDependency::NeedsClass(to_owned_string(class_name)))),
        };
    }
    match op {
        FatOp::InvokeSpecial(mangled, argc) => {
            let method_id = exec_env.code_container.lookup_or_insert_method(mangled.as_str());
            Some(Ok(BaseIR::InvokeSpecial(method_id, *argc)))
        },
        FatOp::InvokeStatic(mangled, argc) => {
            let method_id = exec_env.code_container.lookup_or_insert_method(mangled.as_str());
            Some(Ok(BaseIR::InvokeStatic(method_id, *argc)))
        },
        FatOp::InvokeVirtual(class_name, method, argc, _) => {
            let class_id = match exec_env.code_container.lookup_class(class_name.as_str()) {
                Some(id) => id,
                None => return Some(Err(UnmetDependency::NeedsClass(to_owned_string(class_name.as_str())))),
            };
            let class = &exec_env.code_container.classes[class_id];
            assert(class.wf());
            match class.virtual_map.get(method.as_str()) {
                Some(_) => {},
                None => return None,
            }
            let virtual_index = class.lookup_virtual(method.as_str()).unwrap();
            Some(Ok(BaseIR::InvokeVirtual(virtual_index, *argc)))
        },
        _ => None,
    }
}
/// A lowering result with the missing class named by its characters.
pub open spec fn lift_dep(x: Result<BaseIR, UnmetDependency>) -> Result<BaseIR, Seq<char>> {
    match x {
        Ok(b) => Ok(b),
        Err(UnmetDependency::NeedsClass(s)) => Err(s@),
    }
}

/// A lowering result for a whole method, with the missing class named by its
/// characters.
pub open spec fn lift_deps(x: Result<Vec<BaseIR>, UnmetDependency>) -> Result<Seq<BaseIR>, Seq<char>> {
    match x {
        Ok(v) => Ok(v@),
        Err(UnmetDependency::NeedsClass(s)) => Err(s@),
    }
}

/// A member lookup with the missing class named by its characters.
pub open spec fn lift_lookup(x: Option<Result<usize, UnmetDependency>>) -> Option<Result<usize, Seq<char>>> {
    match x {
        Some(Ok(i)) => Some(Ok(i)),
        Some(Err(UnmetDependency::NeedsClass(s))) => Some(Err(s@)),
        None => None,
    }
}

/// The position of field `f` of class `c`: the class's name when it is not
/// loaded, `None` when it is loaded without such a field.
pub open spec fn spec_field_id(classes: Seq<Class>, class_names: Map<Seq<char>, usize>, c: Seq<char>, f: Seq<char>) -> Option<Result<usize, Seq<char>>> {
    if class_names.contains_key(c) {
        let fm = classes[class_names[c] as int].field_map@;
        if fm.contains_key(f) {
            Some(Ok(fm[f]))
        } else {
            None
        }
    } else {
        Some(Err(c))
    }
}

/// The memory position of static `f` of class `c`: the class's name when it
/// is not loaded, `None` when it is loaded without such a static.
pub open spec fn spec_static_id(classes: Seq<Class>, class_names: Map<Seq<char>, usize>, c: Seq<char>, f: Seq<char>) -> Option<Result<usize, Seq<char>>> {
    if class_names.contains_key(c) {
        let sm = classes[class_names[c] as int].statics_map@;
        if sm.contains_key(f) {
            Some(Ok(sm[f]))
        } else {
            None
        }
    } else {
        Some(Err(c))
    }
}

/// Looks a field up, giving `None` when its class is loaded without it.
fn try_lookup_field(class_name: &str, field_name: &str, exec_env: &ExecEnv) -> (r: Option<Result<usize, UnmetDependency>>)
    requires
        exec_env.code_container.wf(),
    ensures
        lift_lookup(r) == spec_field_id(exec_env.code_container.classes@, exec_env.code_container.class_names@, class_name@, field_name@),
{
    let class_id = match exec_env.code_container.lookup_class(class_name) {
        Some(id) => id,
        None => return Some(Err(UnmetDependency::NeedsClass(to_owned_string(class_name)))),
    };
    let class = &exec_env.code_container.classes[class_id];
    assert(class.wf());
    match class.get_field(field_name) {
        Some((field_id, _ftype)) => Some(Ok(field_id)),
        None => None,
    }
}

/// The position of a field of a class, or the class's name when the class
/// is not loaded yet.
pub fn lookup_field(class_name: &str, field_name: &str, exec_env: &ExecEnv) -> (r: Result<usize, UnmetDependency>)
    requires
        exec_env.code_container.wf(),
        spec_field_id(exec_env.code_container.classes@, exec_env.code_container.class_names@, class_name@, field_name@) is Some,
    ensures
        Some(lift_lookup(Some(r))->0) == spec_field_id(exec_env.code_container.classes@, exec_env.code_container.class_names@, class_name@, field_name@),
{
    try_lookup_field(class_name, field_name, exec_env).unwrap()
}

/// Looks a static up, giving `None` when its class is loaded without it.
fn try_lookup_static(class_name: &str, field_name: &str, exec_env: &ExecEnv) -> (r: Option<Result<usize, UnmetDependency>>)
    requires
        exec_env.code_container.wf(),
    ensures
        lift_lookup(r) == spec_static_id(exec_env.code_container.classes@, exec_env.code_container.class_names@, class_name@, field_name@),
{
    let class_id = match exec_env.code_container.lookup_class(class_name) {
        Some(id) => id,
        None => return Some(Err(UnmetDependency::NeedsClass(to_owned_string(class_name)))),
    };
    let class = &exec_env.code_container.classes[class_id];
    assert(class.wf());
    match class.get_static(field_name) {
        Some(static_id) => Some(Ok(static_id)),
        None => None,
    }
}

/// The memory position of a static of a class, or the class's name when the
/// class is not loaded yet.
pub fn lookup_static(class_name: &str, field_name: &str, exec_env: &ExecEnv) -> (r: Result<usize, UnmetDependency>)
    requires
        exec_env.code_container.wf(),
        spec_static_id(exec_env.code_container.classes@, exec_env.code_container.class_names@, class_name@, field_name@) is Some,
    ensures
        Some(lift_lookup(Some(r))->0) == spec_static_id(exec_env.code_container.classes@, exec_env.code_container.class_names@, class_name@, field_name@),
{
    try_lookup_static(class_name, field_name, exec_env).unwrap()
}

/// Lowering a whole method: the instructions (or the first class that is
/// not loaded) and the method names and count afterwards; `None` where an
/// instruction cannot be lowered.
pub open spec fn spec_into_base(
    fat: Seq<SpecFatOp>,
    classes: Seq<Class>,
    class_names: Map<Seq<char>, usize>,
    names: Map<Seq<char>, usize>,
    n: nat,
) -> Option<(Result<Seq<BaseIR>, Seq<char>>, Map<Seq<char>, usize>, nat)>
    decreases fat.len(),
{
    if fat.len() == 0 {
        Some((Ok(Seq::empty()), names, n))
    } else {
        match spec_into_base(fat.drop_last(), classes, class_names, names, n) {
            None => None,
            Some((Err(e), nm, k)) => Some((Err(e), nm, k)),
            Some((Ok(done), nm, k)) => match spec_base_op(fat.last(), classes, class_names, nm, k) {
                None => None,
                Some((Ok(b), nm2, k2)) => Some((Ok(done.push(b)), nm2, k2)),
                Some((Err(e), nm2, k2)) => Some((Err(e), nm2, k2)),
            },
        }
    }
}

/// Once lowering a prefix of a method fails, lowering the whole method fails
/// in the same way.
pub proof fn lemma_into_base_stuck(
    fat: Seq<SpecFatOp>,
    k: int,
    classes: Seq<Class>,
    class_names: Map<Seq<char>, usize>,
    names: Map<Seq<char>, usize>,
    n: nat,
)
    requires
        0 <= k <= fat.len(),
        !(spec_into_base(fat.take(k), classes, class_names, names, n) matches Some((Ok(_), _, _))),
    ensures
        spec_into_base(fat, classes, class_names, names, n) == spec_into_base(fat.take(k), classes, class_names, names, n),
    decreases fat.len() - k,
{
    if k == fat.len() {
        assert(fat.take(k) =~= fat);
    } else {
        assert(fat.take(k + 1).drop_last() =~= fat.take(k));
        lemma_into_base_stuck(fat, k + 1, classes, class_names, names, n);
    }
}

/// Lowers the resolved instructions of a method, adding method slots for the
/// methods they call; `None` where an instruction cannot be lowered.
pub fn try_into_base(fat: &[FatOp], exec_env: &mut ExecEnv) -> (r: Option<Result<Vec<BaseIR>, UnmetDependency>>)
    requires
        old(exec_env).code_container.wf(),
    ensures
        final(exec_env).code_container.wf(),
        final(exec_env).code_container.classes@ == old(exec_env).code_container.classes@,
        final(exec_env).code_container.class_names@ == old(exec_env).code_container.class_names@,
        final(exec_env).env_mem == old(exec_env).env_mem,
        final(exec_env).code_container.methods@.len() >= old(exec_env).code_container.methods@.len(),
        forall|i: int| 0 <= i < old(exec_env).code_container.methods@.len() ==> final(exec_env).code_container.methods@[i] == old(exec_env).code_container.methods@[i],
        forall|i: int| old(exec_env).code_container.methods@.len() <= i < final(exec_env).code_container.methods@.len() ==> final(exec_env).code_container.methods@[i] is None,
        match spec_into_base(
            fat.deep_view(),
            old(exec_env).code_container.classes@,
            old(exec_env).code_container.class_names@,
            old(exec_env).code_container.method_names@,
            old(exec_env).code_container.methods@.len() as nat,
        ) {
            Some((res, nm, k)) => r matches Some(x) && lift_deps(x) == res
                && final(exec_env).code_container.method_names@ == nm
                && final(exec_env).code_container.methods@.len() == k,
            None => r is None,
        },
{
    let ghost s = fat.deep_view();
    let ghost classes0 = exec_env.code_container.classes@;
    let ghost cn0 = exec_env.code_container.class_names@;
    let ghost names0 = exec_env.code_container.method_names@;
    let ghost n0 = exec_env.code_container.methods@.len() as nat;
    let ghost methods0 = exec_env.code_container.methods@;
    let ghost mem0 = exec_env.env_mem;
    let mut newops: Vec<BaseIR> = Vec::new();
    let mut i: usize = 0;
    assert(s.take(0) =~= Seq::<SpecFatOp>::empty());
    while i < fat.len()
        invariant
            i <= fat@.len(),
            s == fat.deep_view(),
            s.len() == fat@.len(),
            exec_env.code_container.wf(),
            exec_env.code_container.classes@ == classes0,
            exec_env.code_container.class_names@ == cn0,
            classes0 == old(exec_env).code_container.classes@,
            cn0 == old(exec_env).code_container.class_names@,
            names0 == old(exec_env).code_container.method_names@,
            methods0 == old(exec_env).code_container.methods@,
            mem0 == old(exec_env).env_mem,
            exec_env.env_mem == mem0,
            exec_env.code_container.methods@.len() >= n0,
            n0 == methods0.len(),
            forall|j: int| 0 <= j < n0 ==> exec_env.code_container.methods@[j] == methods0[j],
            forall|j: int| n0 <= j < exec_env.code_container.methods@.len() ==> exec_env.code_container.methods@[j] is None,
            spec_into_base(s.take(i as int), classes0, cn0, names0, n0) == Some((
                Ok::<Seq<BaseIR>, Seq<char>>(newops@),
                exec_env.code_container.method_names@,
                exec_env.code_container.methods@.len() as nat,
            )),
        decreases fat@.len() - i,
    {
        assert(s[i as int] == fat@[i as int].deep_view());
        assert(s.take(i + 1).drop_last() =~= s.take(i as int));
        let r = base_op(&fat[i], exec_env);
        match r {
            None => {
                proof {
                    lemma_into_base_stuck(s, i + 1, classes0, cn0, names0, n0);
                }
                return None;
            },
            Some(Err(e)) => {
                proof {
                    lemma_into_base_stuck(s, i + 1, classes0, cn0, names0, n0);
                }
                return Some(Err(e));
            },
            Some(Ok(b)) => {
                newops.push(b);
            },
        }
        i = i + 1;
    }
    assert(s.take(s.len() as int) =~= s);
    Some(Ok(newops))
}

/// Lowers the resolved instructions of a method whose instructions can all
/// be lowered: the lowered method, or the first class it needs that is not
/// loaded yet.
pub fn into_base(fat: &[FatOp], exec_env: &mut ExecEnv) -> (r: Result<Vec<BaseIR>, UnmetDependency>)
    requires
        old(exec_env).code_container.wf(),
        spec_into_base(
            fat.deep_view(),
            old(exec_env).code_container.classes@,
            old(exec_env).code_container.class_names@,
            old(exec_env).code_container.method_names@,
            old(exec_env).code_container.methods@.len() as nat,
        ) is Some,
    ensures
        final(exec_env).code_container.wf(),
        final(exec_env).code_container.classes@ == old(exec_env).code_container.classes@,
        final(exec_env).code_container.class_names@ == old(exec_env).code_container.class_names@,
        final(exec_env).env_mem == old(exec_env).env_mem,
        forall|i: int| 0 <= i < old(exec_env).code_container.methods@.len() ==> final(exec_env).code_container.methods@[i] == old(exec_env).code_container.methods@[i],
        match spec_into_base(
            fat.deep_view(),
            old(exec_env).code_container.classes@,
            old(exec_env).code_container.class_names@,
            old(exec_env).code_container.method_names@,
            old(exec_env).code_container.methods@.len() as nat,
        ) {
            Some((res, nm, k)) => lift_deps(r) == res
                && final(exec_env).code_container.method_names@ == nm
                && final(exec_env).code_container.methods@.len() == k,
            None => false,
        },
{
    try_into_base(fat, exec_env).unwrap()
}


/// A float operation the interpreter leaves to its caller.
#[derive(Debug, Clone, Copy, PartialEq, Eq, Structural)]
pub enum FloatOp {
    Add,
    Sub,
    Mul,
    Div,
}

/// What running one instruction asks for next: go on at an instruction,
/// return a value, call a method with arguments (and go on after it, its
/// result pushed unless it is `Void`), compute a float operation on two
/// operands given by their bit patterns (and go on after it, the result
/// pushed), or stop because the instruction cannot run.
#[derive(Debug)]
pub enum Step {
    Next(usize),
    Return(Value),
    Invoke { method_id: usize, args: Vec<Value> },
    Float { op: FloatOp, a: u32, b: u32 },
    Fault,
}

/// The mathematical value of a `Step`.
pub enum SpecStep {
    Next(usize),
    Return(Value),
    Invoke(usize, Seq<Value>),
    Float(FloatOp, u32, u32),
    Fault,
}

impl View for Step {
    type V = SpecStep;

    open spec fn view(&self) -> SpecStep {
        match self {
            Step::Next(i) => SpecStep::Next(*i),
            Step::Return(v) => SpecStep::Return(*v),
            Step::Invoke { method_id, args } => SpecStep::Invoke(*method_id, args@),
            Step::Float { op, a, b } => SpecStep::Float(*op, *a, *b),
            Step::Fault => SpecStep::Fault,
        }
    }
}

/// What running one instruction does to the objects: nothing, adds an
/// instance of a class with the given field values, or sets field `f` of
/// the object `o` (which leaves a string as it is).
pub enum MemEffect {
    Unchanged,
    NewObject(usize, Seq<Value>),
    SetField(usize, usize, Value),
}

/// The result of an integer instruction; `None` on overflow and on a zero
/// divisor.
pub open spec fn spec_int_op(op: BaseIR, a: i32, b: i32) -> Option<i32> {
    match op {
        BaseIR::IAdd => a.checked_add(b),
        BaseIR::ISub => a.checked_sub(b),
        BaseIR::IMul => a.checked_mul(b),
        BaseIR::IDiv => a.checked_div(b),
        _ => a.checked_rem(b),
    }
}

/// The float operation of a float instruction.
pub open spec fn spec_float_op(op: BaseIR) -> FloatOp {
    match op {
        BaseIR::FAdd => FloatOp::Add,
        BaseIR::FSub => FloatOp::Sub,
        BaseIR::FMul => FloatOp::Mul,
        _ => FloatOp::Div,
    }
}

/// The default values of a list of field types.
pub open spec fn default_values(types: Seq<FieldType>) -> Seq<Value> {
    types.map_values(|t: FieldType| spec_default_value(t))
}

/// Field `f` of the object `o`, when `o` is an instance that has it.
pub open spec fn spec_get_field(objects: Seq<Object>, o: usize, f: usize) -> Option<Value> {
    if o < objects.len() {
        match objects[o as int] {
            Object::Object { values, .. } => if f < values@.len() { Some(values@[f as int]) } else { None },
            Object::String(_) => None,
        }
    } else {
        None
    }
}

/// Whether field `f` of the object `o` can be set: `o` is an object, and a
/// string or an instance with such a field.
pub open spec fn field_settable(objects: Seq<Object>, o: usize, f: usize) -> bool {
    &&& o < objects.len()
    &&& objects[o as int] matches Object::Object { values, .. } ==> f < values@.len()
}

/// The two integers on top of `data` (the top one second), and what is
/// under them.
pub open spec fn top_two_ints(data: Seq<Value>) -> Option<(i32, i32, Seq<Value>)> {
    if data.len() >= 2 {
        match (data[data.len() - 2], data[data.len() - 1]) {
            (Value::Int(a), Value::Int(b)) => Some((a, b, data.subrange(0, data.len() - 2))),
            _ => None,
        }
    } else {
        None
    }
}

/// The two floats on top of `data` (the top one second), and what is under
/// them.
pub open spec fn top_two_floats(data: Seq<Value>) -> Option<(u32, u32, Seq<Value>)> {
    if data.len() >= 2 {
        match (data[data.len() - 2], data[data.len() - 1]) {
            (Value::Float(a), Value::Float(b)) => Some((a, b, data.subrange(0, data.len() - 2))),
            _ => None,
        }
    } else {
        None
    }
}

/// What running instruction `i` of `ops` does, in a frame with arguments
/// `args` and data `data`, with the given objects, statics and classes: what
/// it asks for next, the frame's data afterwards, and its effect on the
/// objects.
pub open spec fn spec_step(
    ops: Seq<BaseIR>,
    i: usize,
    args: Seq<Value>,
    data: Seq<Value>,
    objects: Seq<Object>,
    statics: Seq<Value>,
    classes: Seq<Class>,
) -> (SpecStep, Seq<Value>, MemEffect) {
    let fault = (SpecStep::Fault, data, MemEffect::Unchanged);
    if i >= ops.len() {
        fault
    } else {
        let next = SpecStep::Next((i + 1) as usize);
        match ops[i as int] {
            BaseIR::New(c) => spec_new_step(data, objects, classes, c, next),
            BaseIR::Dup => if data.len() > 0 {
                (next, data.push(data.last()), MemEffect::Unchanged)
            } else {
                fault
            },
            BaseIR::IConst(v) => (next, data.push(Value::Int(v)), MemEffect::Unchanged),
            BaseIR::AConst(v) => (next, data.push(Value::ObjectRef(v)), MemEffect::Unchanged),
            BaseIR::ILoad(k) => match local_at(args, data, k) {
                Some(v) => (next, data.push(v), MemEffect::Unchanged),
                None => fault,
            },
            BaseIR::FLoad(k) => match local_at(args, data, k) {
                Some(v) => (next, data.push(v), MemEffect::Unchanged),
                None => fault,
            },
            BaseIR::ALoad(k) => match local_at(args, data, k) {
                Some(v) => if v != Value::Void { (next, data.push(v), MemEffect::Unchanged) } else { fault },
                None => fault,
            },
            BaseIR::IStore(k) => spec_store(data, args, k, next),
            BaseIR::FStore(k) => spec_store(data, args, k, next),
            BaseIR::IAdd => spec_int_step(ops[i as int], data, next),
            BaseIR::ISub => spec_int_step(ops[i as int], data, next),
            BaseIR::IMul => spec_int_step(ops[i as int], data, next),
            BaseIR::IDiv => spec_int_step(ops[i as int], data, next),
            BaseIR::IRem => spec_int_step(ops[i as int], data, next),
            BaseIR::FAdd => spec_float_step(ops[i as int], data),
            BaseIR::FSub => spec_float_step(ops[i as int], data),
            BaseIR::FMul => spec_float_step(ops[i as int], data),
            BaseIR::FDiv => spec_float_step(ops[i as int], data),
            BaseIR::APutField(f) => spec_put_field(data, objects, f, next),
            BaseIR::FPutField(f) => spec_put_field(data, objects, f, next),
            BaseIR::FGetField(f) => spec_get_field_step(data, objects, f, next),
            BaseIR::AGetField(f) => spec_get_field_step(data, objects, f, next),
            BaseIR::AGetStatic(k) => if k < statics.len() {
                (next, data.push(statics[k as int]), MemEffect::Unchanged)
            } else {
                fault
            },
            BaseIR::IReturn => spec_return_top(data),
            BaseIR::FReturn => spec_return_top(data),
            BaseIR::AReturn => spec_return_top(data),
            BaseIR::Return => (SpecStep::Return(Value::Void), data, MemEffect::Unchanged),
            BaseIR::InvokeStatic(m, argc) => spec_invoke(data, m, argc),
            BaseIR::InvokeSpecial(m, argc) => spec_invoke(data, m, argc),
            BaseIR::InvokeVirtual(vid, argc) => spec_virtual_step(data, objects, classes, vid, argc),
            BaseIR::IfIGreterEqual(target) => match top_two_ints(data) {
                Some((a, b, rest)) => if a >= b {
                    (SpecStep::Next(target), rest, MemEffect::Unchanged)
                } else {
                    (next, rest, MemEffect::Unchanged)
                },
                None => fault,
            },
            BaseIR::IfZero(target) => spec_zero_branch(data, target, next, true),
            BaseIR::IfNotZero(target) => spec_zero_branch(data, target, next, false),
            BaseIR::GoTo(target) => (SpecStep::Next(target), data, MemEffect::Unchanged),
            _ => fault,
        }
    }
}

/// A branch on the integer on top of `data`, which it takes off: to
/// `target` when that integer is zero (`on_zero`) or when it is not
/// (`!on_zero`), else on to `next`.
pub open spec fn spec_zero_branch(data: Seq<Value>, target: usize, next: SpecStep, on_zero: bool) -> (SpecStep, Seq<Value>, MemEffect) {
    if data.len() > 0 {
        match data.last() {
            Value::Int(a) => if (a == 0) == on_zero {
                (SpecStep::Next(target), data.drop_last(), MemEffect::Unchanged)
            } else {
                (next, data.drop_last(), MemEffect::Unchanged)
            },
            _ => (SpecStep::Fault, data, MemEffect::Unchanged),
        }
    } else {
        (SpecStep::Fault, data, MemEffect::Unchanged)
    }
}

/// Storing the top of `data` into local `k` (which lies past the
/// arguments).
pub open spec fn spec_store(data: Seq<Value>, args: Seq<Value>, k: u8, next: SpecStep) -> (SpecStep, Seq<Value>, MemEffect) {
    if data.len() > 0 && args.len() <= k as int && (k as int) - args.len() < data.len() - 1 {
        (next, data.drop_last().update(k as int - args.len(), data.last()), MemEffect::Unchanged)
    } else {
        (SpecStep::Fault, data, MemEffect::Unchanged)
    }
}

/// An integer instruction on the two integers on top of `data`.
pub open spec fn spec_int_step(op: BaseIR, data: Seq<Value>, next: SpecStep) -> (SpecStep, Seq<Value>, MemEffect) {
    match top_two_ints(data) {
        Some((a, b, rest)) => match spec_int_op(op, a, b) {
            Some(c) => (next, rest.push(Value::Int(c)), MemEffect::Unchanged),
            None => (SpecStep::Fault, data, MemEffect::Unchanged),
        },
        None => (SpecStep::Fault, data, MemEffect::Unchanged),
    }
}

/// A float instruction on the two floats on top of `data`, handed out.
pub open spec fn spec_float_step(op: BaseIR, data: Seq<Value>) -> (SpecStep, Seq<Value>, MemEffect) {
    match top_two_floats(data) {
        Some((a, b, rest)) => (SpecStep::Float(spec_float_op(op), a, b), rest, MemEffect::Unchanged),
        None => (SpecStep::Fault, data, MemEffect::Unchanged),
    }
}

/// Setting field `f` of the object under the value on top of `data` to that
/// value.
pub open spec fn spec_put_field(data: Seq<Value>, objects: Seq<Object>, f: usize, next: SpecStep) -> (SpecStep, Seq<Value>, MemEffect) {
    if data.len() >= 2 {
        match data[data.len() - 2] {
            Value::ObjectRef(o) => if field_settable(objects, o, f) {
                (next, data.subrange(0, data.len() - 2), MemEffect::SetField(o, f, data.last()))
            } else {
                (SpecStep::Fault, data, MemEffect::Unchanged)
            },
            _ => (SpecStep::Fault, data, MemEffect::Unchanged),
        }
    } else {
        (SpecStep::Fault, data, MemEffect::Unchanged)
    }
}

/// Replacing the object reference on top of `data` by its field `f`.
pub open spec fn spec_get_field_step(data: Seq<Value>, objects: Seq<Object>, f: usize, next: SpecStep) -> (SpecStep, Seq<Value>, MemEffect) {
    if data.len() >= 1 {
        match data.last() {
            Value::ObjectRef(o) => match spec_get_field(objects, o, f) {
                Some(v) => (next, data.drop_last().push(v), MemEffect::Unchanged),
                None => (SpecStep::Fault, data, MemEffect::Unchanged),
            },
            _ => (SpecStep::Fault, data, MemEffect::Unchanged),
        }
    } else {
        (SpecStep::Fault, data, MemEffect::Unchanged)
    }
}

/// Returning the top of `data`.
pub open spec fn spec_return_top(data: Seq<Value>) -> (SpecStep, Seq<Value>, MemEffect) {
    if data.len() > 0 {
        (SpecStep::Return(data.last()), data.drop_last(), MemEffect::Unchanged)
    } else {
        (SpecStep::Fault, data, MemEffect::Unchanged)
    }
}

/// Calling method `m` with the `argc` values on top of `data`, in the order
/// they were pushed.
pub open spec fn spec_invoke(data: Seq<Value>, m: usize, argc: u8) -> (SpecStep, Seq<Value>, MemEffect) {
    if argc as int <= data.len() {
        (SpecStep::Invoke(m, data.subrange(data.len() - argc, data.len() as int)), data.subrange(0, data.len() - argc), MemEffect::Unchanged)
    } else {
        (SpecStep::Fault, data, MemEffect::Unchanged)
    }
}

/// Whether the objects after a step are the objects before with the step's
/// effect.
pub open spec fn effect_applied(before: Seq<Object>, after: Seq<Object>, e: MemEffect) -> bool {
    match e {
        MemEffect::Unchanged => after == before,
        MemEffect::NewObject(class_id, values) => {
            &&& after.len() == before.len() + 1
            &&& after.take(before.len() as int) == before
            &&& after.last() matches Object::Object { class_id: c, values: v } && c == class_id && v@ == values
        },
        MemEffect::SetField(o, f, value) => {
            &&& after.len() == before.len()
            &&& forall|j: int| 0 <= j < before.len() && j != o ==> after[j] == before[j]
            &&& match before[o as int] {
                Object::Object { class_id, values } => after[o as int] matches Object::Object { class_id: c, values: v }
                    && c == class_id && v@ == values@.update(f as int, value),
                Object::String(_) => after[o as int] == before[o as int],
            }
        },
    }
}

/// Takes the two integers on top of the frame's data (the top one second),
/// leaving the data as it is when they are not there.
fn pop_two_ints(ctx: &mut ExecCtx) -> (r: Option<(i32, i32)>)
    ensures
        match top_two_ints(old(ctx).data@) {
            Some((a, b, rest)) => r == Some((a, b)) && final(ctx).data@ == rest,
            None => r is None && final(ctx).data@ == old(ctx).data@,
        },
        final(ctx).args@ == old(ctx).args@,
        final(ctx).locals == old(ctx).locals,
{
    let n = ctx.data.len();
    if n < 2 {
        return None;
    }
    match (ctx.data[n - 2], ctx.data[n - 1]) {
        (Value::Int(a), Value::Int(b)) => {
            ctx.data.pop();
            ctx.data.pop();
            assert(ctx.data@ =~= old(ctx).data@.subrange(0, n - 2));
            Some((a, b))
        },
        _ => None,
    }
}

/// Takes the two floats on top of the frame's data (the top one second),
/// leaving the data as it is when they are not there.
fn pop_two_floats(ctx: &mut ExecCtx) -> (r: Option<(u32, u32)>)
    ensures
        match top_two_floats(old(ctx).data@) {
            Some((a, b, rest)) => r == Some((a, b)) && final(ctx).data@ == rest,
            None => r is None && final(ctx).data@ == old(ctx).data@,
        },
        final(ctx).args@ == old(ctx).args@,
        final(ctx).locals == old(ctx).locals,
{
    let n = ctx.data.len();
    if n < 2 {
        return None;
    }
    match (ctx.data[n - 2], ctx.data[n - 1]) {
        (Value::Float(a), Value::Float(b)) => {
            ctx.data.pop();
            ctx.data.pop();
            assert(ctx.data@ =~= old(ctx).data@.subrange(0, n - 2));
            Some((a, b))
        },
        _ => None,
    }
}

/// Takes the `n` values on top of the frame's data, in the order they were
/// pushed.
fn pop_args(ctx: &mut ExecCtx, n: u8) -> (r: Vec<Value>)
    requires
        n as int <= old(ctx).data@.len(),
    ensures
        r@ == old(ctx).data@.subrange(old(ctx).data@.len() - n, old(ctx).data@.len() as int),
        final(ctx).data@ == old(ctx).data@.subrange(0, old(ctx).data@.len() - n),
        final(ctx).args@ == old(ctx).args@,
        final(ctx).locals == old(ctx).locals,
{
    let len = ctx.data.len();
    let start = len - n as usize;
    let mut args: Vec<Value> = Vec::new();
    let mut i: usize = start;
    while i < len
        invariant
            start <= i <= len,
            len == ctx.data@.len(),
            ctx.data@ == old(ctx).data@,
            ctx.args@ == old(ctx).args@,
            ctx.locals == old(ctx).locals,
            args@ == old(ctx).data@.subrange(start as int, i as int),
        decreases len - i,
    {
        args.push(ctx.data[i]);
        assert(args@ =~= old(ctx).data@.subrange(start as int, i + 1));
        i = i + 1;
    }
    ctx.data.truncate(start);
    assert(ctx.data@ =~= old(ctx).data@.subrange(0, start as int));
    args
}

/// The result of an integer instruction.
fn int_op(op: BaseIR, a: i32, b: i32) -> (r: Option<i32>)
    ensures
        r == spec_int_op(op, a, b),
{
    match op {
        BaseIR::IAdd => a.checked_add(b),
        BaseIR::ISub => a.checked_sub(b),
        BaseIR::IMul => a.checked_mul(b),
        BaseIR::IDiv => a.checked_div(b),
        _ => a.checked_rem(b),
    }
}

/// The float operation of a float instruction.
fn float_op(op: BaseIR) -> (r: FloatOp)
    ensures
        r == spec_float_op(op),
{
    match op {
        BaseIR::FAdd => FloatOp::Add,
        BaseIR::FSub => FloatOp::Sub,
        BaseIR::FMul => FloatOp::Mul,
        _ => FloatOp::Div,
    }
}

/// What `new` does: a fresh instance of class `c` is pushed.
pub open spec fn spec_new_step(data: Seq<Value>, objects: Seq<Object>, classes: Seq<Class>, c: usize, next: SpecStep) -> (SpecStep, Seq<Value>, MemEffect) {
    if c < classes.len() && classes[c as int].instantiable() {
        (next, data.push(Value::ObjectRef(objects.len() as usize)),
            MemEffect::NewObject(classes[c as int].class_id, default_values(classes[c as int].field_types@)))
    } else {
        (SpecStep::Fault, data, MemEffect::Unchanged)
    }
}

/// Whether every type of a list has a default value.
fn all_have_defaults(types: &Vec<FieldType>) -> (r: bool)
    ensures
        r == forall|j: int| 0 <= j < types@.len() ==> has_default(#[trigger] types@[j]),
{
    let mut k: usize = 0;
    while k < types.len()
        invariant
            k <= types@.len(),
            forall|j: int| 0 <= j < k ==> has_default(#[trigger] types@[j]),
        decreases types@.len() - k,
    {
        let t = types[k];
        if !(t == FieldType::Int || t == FieldType::Float || t == FieldType::ObjectRef) {
            assert(!has_default(types@[k as int]));
            return false;
        }
        k = k + 1;
    }
    true
}

/// Runs `new` of class `class_ref`.
fn step_new(class_ref: usize, next: usize, ctx: &mut ExecCtx, env: &mut ExecEnv) -> (r: Step)
    ensures
        ({
            let (s, data, effect) = spec_new_step(old(ctx).data@, old(env).env_mem.objects@, old(env).code_container.classes@, class_ref, SpecStep::Next(next));
            r@ == s && final(ctx).data@ == data && effect_applied(old(env).env_mem.objects@, final(env).env_mem.objects@, effect)
        }),
        final(ctx).args@ == old(ctx).args@,
        final(ctx).locals == old(ctx).locals,
        final(env).code_container == old(env).code_container,
        final(env).env_mem.statics@ == old(env).env_mem.statics@,
{
    if class_ref >= env.code_container.classes.len() {
        return Step::Fault;
    }
    if !all_have_defaults(&env.code_container.classes[class_ref].field_types) {
        return Step::Fault;
    }
    let new_obj = env.new_obj(class_ref);
    ctx.stack_push(Value::ObjectRef(new_obj));
    proof {
        let objs = env.env_mem.objects@;
        if let Object::Object { class_id, values } = objs.last() {
            assert(values@ =~= default_values(old(env).code_container.classes@[class_ref as int].field_types@));
        }
    }
    Step::Next(next)
}

/// Runs a load of local `index`; for a reference (`check_void`) a `Void`
/// local cannot be loaded.
fn step_load(index: u8, check_void: bool, next: usize, ctx: &mut ExecCtx) -> (r: Step)
    ensures
        match local_at(old(ctx).args@, old(ctx).data@, index) {
            Some(v) => if check_void && v == Value::Void {
                r@ == SpecStep::Fault && final(ctx).data@ == old(ctx).data@
            } else {
                r@ == SpecStep::Next(next) && final(ctx).data@ == old(ctx).data@.push(v)
            },
            None => r@ == SpecStep::Fault && final(ctx).data@ == old(ctx).data@,
        },
        final(ctx).args@ == old(ctx).args@,
        final(ctx).locals == old(ctx).locals,
{
    match ctx.get_local(index) {
        Some(v) => {
            if check_void && v == Value::Void {
                return Step::Fault;
            }
            ctx.stack_push(v);
            Step::Next(next)
        },
        None => Step::Fault,
    }
}

/// Runs a store into local `index`.
fn step_store(index: u8, next: usize, ctx: &mut ExecCtx) -> (r: Step)
    ensures
        ({
            let (s, data, effect) = spec_store(old(ctx).data@, old(ctx).args@, index, SpecStep::Next(next));
            r@ == s && final(ctx).data@ == data
        }),
        final(ctx).args@ == old(ctx).args@,
        final(ctx).locals == old(ctx).locals,
{
    let n = ctx.data.len();
    if n == 0 || (index as usize) < ctx.args.len() || (index as usize) - ctx.args.len() >= n - 1 {
        return Step::Fault;
    }
    let a = ctx.stack_pop().unwrap();
    ctx.set_local(index, a);
    Step::Next(next)
}

/// Runs an integer instruction.
fn step_int(op: BaseIR, next: usize, ctx: &mut ExecCtx) -> (r: Step)
    ensures
        ({
            let (s, data, effect) = spec_int_step(op, old(ctx).data@, SpecStep::Next(next));
            r@ == s && final(ctx).data@ == data
        }),
        final(ctx).args@ == old(ctx).args@,
        final(ctx).locals == old(ctx).locals,
{
    let ghost data0 = ctx.data@;
    match pop_two_ints(ctx) {
        Some((a, b)) => match int_op(op, a, b) {
            Some(c) => {
                ctx.stack_push(Value::Int(c));
                Step::Next(next)
            },
            None => {
                ctx.stack_push(Value::Int(a));
                ctx.stack_push(Value::Int(b));
                assert(ctx.data@ =~= data0);
                Step::Fault
            },
        },
        None => Step::Fault,
    }
}

/// Runs a field store.
fn step_put_field(id: usize, next: usize, ctx: &mut ExecCtx, env: &mut ExecEnv) -> (r: Step)
    ensures
        ({
            let (s, data, effect) = spec_put_field(old(ctx).data@, old(env).env_mem.objects@, id, SpecStep::Next(next));
            r@ == s && final(ctx).data@ == data && effect_applied(old(env).env_mem.objects@, final(env).env_mem.objects@, effect)
        }),
        final(ctx).args@ == old(ctx).args@,
        final(ctx).locals == old(ctx).locals,
        final(env).code_container == old(env).code_container,
        final(env).env_mem.statics@ == old(env).env_mem.statics@,
{
    let n = ctx.data.len();
    if n < 2 {
        return Step::Fault;
    }
    let obj_ref = match ctx.data[n - 2].as_objref() {
        Some(o) => o,
        None => return Step::Fault,
    };
    if obj_ref >= env.env_mem.objects.len() {
        return Step::Fault;
    }
    let settable = match &env.env_mem.objects[obj_ref] {
        Object::Object { values, .. } => id < values.len(),
        Object::String(_) => true,
    };
    if !settable {
        return Step::Fault;
    }
    let val = ctx.stack_pop().unwrap();
    ctx.stack_pop();
    assert(ctx.data@ =~= old(ctx).data@.subrange(0, n - 2));
    env.env_mem.set_field(obj_ref, id, val);
    Step::Next(next)
}

/// Runs a field load.
fn step_get_field(id: usize, next: usize, ctx: &mut ExecCtx, env: &ExecEnv) -> (r: Step)
    ensures
        ({
            let (s, data, effect) = spec_get_field_step(old(ctx).data@, env.env_mem.objects@, id, SpecStep::Next(next));
            r@ == s && final(ctx).data@ == data
        }),
        final(ctx).args@ == old(ctx).args@,
        final(ctx).locals == old(ctx).locals,
{
    let n = ctx.data.len();
    if n < 1 {
        return Step::Fault;
    }
    let obj_ref = match ctx.data[n - 1].as_objref() {
        Some(o) => o,
        None => return Step::Fault,
    };
    if obj_ref >= env.env_mem.objects.len() {
        return Step::Fault;
    }
    let value = match env.env_mem.objects[obj_ref].get_field(id) {
        Some(v) => v,
        None => return Step::Fault,
    };
    ctx.stack_pop();
    ctx.stack_push(value);
    Step::Next(next)
}

/// What a virtual call does.
pub open spec fn spec_virtual_step(data: Seq<Value>, objects: Seq<Object>, classes: Seq<Class>, vid: usize, argc: u8) -> (SpecStep, Seq<Value>, MemEffect) {
    if argc as int <= data.len() && argc > 0 {
        let call_args = data.subrange(data.len() - argc, data.len() as int);
        match call_args[0] {
            Value::ObjectRef(o) => match spec_obj_class(objects, o) {
                Some(c) => if c < classes.len() && vid < classes[c as int].virtual_methods@.len() {
                    (SpecStep::Invoke(classes[c as int].virtual_methods@[vid as int], call_args),
                        data.subrange(0, data.len() - argc), MemEffect::Unchanged)
                } else {
                    (SpecStep::Fault, data, MemEffect::Unchanged)
                },
                None => (SpecStep::Fault, data, MemEffect::Unchanged),
            },
            _ => (SpecStep::Fault, data, MemEffect::Unchanged),
        }
    } else {
        (SpecStep::Fault, data, MemEffect::Unchanged)
    }
}

/// Runs a branch on the integer on top of the frame's data.
fn step_zero_branch(target: usize, next: usize, on_zero: bool, ctx: &mut ExecCtx) -> (r: Step)
    ensures
        ({
            let (s, data, effect) = spec_zero_branch(old(ctx).data@, target, SpecStep::Next(next), on_zero);
            r@ == s && final(ctx).data@ == data
        }),
        final(ctx).args@ == old(ctx).args@,
        final(ctx).locals == old(ctx).locals,
{
    let n = ctx.data.len();
    if n == 0 {
        return Step::Fault;
    }
    match ctx.data[n - 1] {
        Value::Int(a) => {
            ctx.stack_pop();
            if (a == 0) == on_zero {
                Step::Next(target)
            } else {
                Step::Next(next)
            }
        },
        _ => Step::Fault,
    }
}

/// Runs a virtual call.
fn step_invoke_virtual(method_id: usize, argc: u8, ctx: &mut ExecCtx, env: &ExecEnv) -> (r: Step)
    ensures
        ({
            let (s, data, effect) = spec_virtual_step(old(ctx).data@, env.env_mem.objects@, env.code_container.classes@, method_id, argc);
            r@ == s && final(ctx).data@ == data
        }),
        final(ctx).args@ == old(ctx).args@,
        final(ctx).locals == old(ctx).locals,
{
    if (argc as usize) > ctx.data.len() || argc == 0 {
        return Step::Fault;
    }
    let first = ctx.data[ctx.data.len() - argc as usize];
    let obj_ref = match first.as_objref() {
        Some(o) => o,
        None => return Step::Fault,
    };
    let virtual_method = match ctx.get_virtual(env, obj_ref, method_id) {
        Some(m) => m,
        None => return Step::Fault,
    };
    let args = pop_args(ctx, argc);
    Step::Invoke { method_id: virtual_method, args }
}

/// Runs instruction `op_index` of a method in the frame `ctx`: the
/// decisions of the interpreter's loop. What it asks for next is left to
/// the caller, which runs calls and float operations and goes on.
pub fn step(ops: &[BaseIR], op_index: usize, ctx: &mut ExecCtx, env: &mut ExecEnv) -> (r: Step)
    ensures
        ({
            let (s, data, effect) = spec_step(
                ops@,
                op_index,
                old(ctx).args@,
                old(ctx).data@,
                old(env).env_mem.objects@,
                old(env).env_mem.statics@,
                old(env).code_container.classes@,
            );
            &&& r@ == s
            &&& final(ctx).data@ == data
            &&& effect_applied(old(env).env_mem.objects@, final(env).env_mem.objects@, effect)
        }),
        final(ctx).args@ == old(ctx).args@,
        final(ctx).locals == old(ctx).locals,
        final(env).code_container == old(env).code_container,
        final(env).env_mem.statics@ == old(env).env_mem.statics@,
{
    if op_index >= ops.len() {
        return Step::Fault;
    }
    let next = op_index + 1;
    let op = ops[op_index];
    match op {
        BaseIR::New(class_ref) => step_new(class_ref, next, ctx, env),
        BaseIR::Dup => match ctx.stack_pop() {
            Some(a) => {
                ctx.stack_push(a);
                ctx.stack_push(a);
                assert(ctx.data@ =~= old(ctx).data@.push(old(ctx).data@.last()));
                Step::Next(next)
            },
            None => Step::Fault,
        },
        BaseIR::IConst(value) => {
            ctx.stack_push(Value::Int(value));
            Step::Next(next)
        },
        BaseIR::AConst(value) => {
            ctx.stack_push(Value::ObjectRef(value));
            Step::Next(next)
        },
        BaseIR::ILoad(index) | BaseIR::FLoad(index) => step_load(index, false, next, ctx),
        BaseIR::ALoad(index) => step_load(index, true, next, ctx),
        BaseIR::IStore(index) | BaseIR::FStore(index) => step_store(index, next, ctx),
        BaseIR::IAdd | BaseIR::ISub | BaseIR::IMul | BaseIR::IDiv | BaseIR::IRem => step_int(op, next, ctx),
        BaseIR::FAdd | BaseIR::FSub | BaseIR::FMul | BaseIR::FDiv => match pop_two_floats(ctx) {
            Some((a, b)) => Step::Float { op: float_op(op), a, b },
            None => Step::Fault,
        },
        BaseIR::APutField(id) | BaseIR::FPutField(id) => step_put_field(id, next, ctx, env),
        BaseIR::FGetField(id) | BaseIR::AGetField(id) => step_get_field(id, next, ctx, env),
        BaseIR::AGetStatic(index) => match ctx.get_static(env, index) {
            Some(v) => {
                ctx.stack_push(v);
                Step::Next(next)
            },
            None => Step::Fault,
        },
        BaseIR::IReturn | BaseIR::FReturn | BaseIR::AReturn => match ctx.stack_pop() {
            Some(v) => Step::Return(v),
            None => Step::Fault,
        },
        BaseIR::Return => Step::Return(Value::Void),
        BaseIR::InvokeStatic(method_id, argc) | BaseIR::InvokeSpecial(method_id, argc) => {
            if (argc as usize) > ctx.data.len() {
                return Step::Fault;
            }
            let args = pop_args(ctx, argc);
            Step::Invoke { method_id, args }
        },
        BaseIR::InvokeVirtual(method_id, argc) => step_invoke_virtual(method_id, argc, ctx, env),
        BaseIR::IfIGreterEqual(jump_index) => match pop_two_ints(ctx) {
            Some((a, b)) => if a >= b {
                Step::Next(jump_index)
            } else {
                Step::Next(next)
            },
            None => Step::Fault,
        },
        BaseIR::IfZero(jump_index) => step_zero_branch(jump_index, next, true, ctx),
        BaseIR::IfNotZero(jump_index) => step_zero_branch(jump_index, next, false, ctx),
        BaseIR::GoTo(jump_index) => Step::Next(jump_index),
        _ => Step::Fault,
    }
}


/// Lowering one instruction adds at most one method slot and keeps the
/// slots of the names already known.
proof fn lemma_base_op_names(op: SpecFatOp, classes: Seq<Class>, class_names: Map<Seq<char>, usize>, names: Map<Seq<char>, usize>, n: nat)
    ensures
        match spec_base_op(op, classes, class_names, names, n) {
            Some((_, nm, k)) => n <= k <= n + 1
                && forall|m: Seq<char>| #[trigger] names.contains_key(m) ==> nm.contains_key(m) && nm[m] == names[m],
            None => true,
        },
{
}

/// Lowering a method gives one instruction for each of its resolved
/// instructions, adds at most one method slot per instruction, and keeps the
/// slots of the method names already known.
pub proof fn law_into_base_shape(
    fat: Seq<SpecFatOp>,
    classes: Seq<Class>,
    class_names: Map<Seq<char>, usize>,
    names: Map<Seq<char>, usize>,
    n: nat,
)
    ensures
        match spec_into_base(fat, classes, class_names, names, n) {
            Some((Ok(ops), nm, k)) => {
                &&& ops.len() == fat.len()
                &&& n <= k <= n + fat.len()
                &&& forall|m: Seq<char>| #[trigger] names.contains_key(m) ==> nm.contains_key(m) && nm[m] == names[m]
            },
            _ => true,
        },
    decreases fat.len(),
{
    if fat.len() > 0 {
        law_into_base_shape(fat.drop_last(), classes, class_names, names, n);
        if let Some((Ok(done), nm, k)) = spec_into_base(fat.drop_last(), classes, class_names, names, n) {
            lemma_base_op_names(fat.last(), classes, class_names, nm, k);
        }
    }
}

/// Reading a field after setting it gives the value set; the object's other
/// fields, and the other objects, stay as they were.
pub proof fn law_field_read_after_write(before: Seq<Object>, after: Seq<Object>, o: usize, f: usize, v: Value)
    requires
        effect_applied(before, after, MemEffect::SetField(o, f, v)),
        field_settable(before, o, f),
        before[o as int] is Object,
    ensures
        spec_get_field(after, o, f) == Some(v),
        forall|g: usize| g != f ==> #[trigger] spec_get_field(after, o, g) == spec_get_field(before, o, g),
        forall|p: usize, g: usize| p != o ==> #[trigger] spec_get_field(after, p, g) == spec_get_field(before, p, g),
{
}


/// Whether lowering one instruction fails, or succeeds, does not depend on
/// the method names and count it starts from.
proof fn lemma_base_op_status(
    op: SpecFatOp,
    classes: Seq<Class>,
    class_names: Map<Seq<char>, usize>,
    names1: Map<Seq<char>, usize>,
    n1: nat,
    names2: Map<Seq<char>, usize>,
    n2: nat,
)
    ensures
        (spec_base_op(op, classes, class_names, names1, n1) is None) == (spec_base_op(op, classes, class_names, names2, n2) is None),
        (spec_base_op(op, classes, class_names, names1, n1) matches Some((Ok(_), _, _)))
            == (spec_base_op(op, classes, class_names, names2, n2) matches Some((Ok(_), _, _))),
{
}

/// Whether lowering a method fails, or succeeds, does not depend on the
/// method names and count it starts from.
pub proof fn lemma_into_base_status(
    fat: Seq<SpecFatOp>,
    classes: Seq<Class>,
    class_names: Map<Seq<char>, usize>,
    names1: Map<Seq<char>, usize>,
    n1: nat,
    names2: Map<Seq<char>, usize>,
    n2: nat,
)
    ensures
        (spec_into_base(fat, classes, class_names, names1, n1) is None) == (spec_into_base(fat, classes, class_names, names2, n2) is None),
        (spec_into_base(fat, classes, class_names, names1, n1) matches Some((Ok(_), _, _)))
            == (spec_into_base(fat, classes, class_names, names2, n2) matches Some((Ok(_), _, _))),
    decreases fat.len(),
{
    if fat.len() > 0 {
        lemma_into_base_status(fat.drop_last(), classes, class_names, names1, n1, names2, n2);
        let a = spec_into_base(fat.drop_last(), classes, class_names, names1, n1);
        let b = spec_into_base(fat.drop_last(), classes, class_names, names2, n2);
        if let (Some((Ok(_), nm1, k1)), Some((Ok(_), nm2, k2))) = (a, b) {
            lemma_base_op_status(fat.last(), classes, class_names, nm1, k1, nm2, k2);
        }
    }
}


/// Stepping an integer addition, subtraction or multiplication with the
/// integers `a` (pushed first) and `b` on top of the frame's data takes
/// them off and pushes their exact sum, difference (`a - b`) or product
/// when it fits in 32 bits; when it does not, the step faults and leaves
/// the data as it was.
pub proof fn law_int_arith_step(
    ops: Seq<BaseIR>,
    i: usize,
    args: Seq<Value>,
    rest: Seq<Value>,
    a: i32,
    b: i32,
    objects: Seq<Object>,
    statics: Seq<Value>,
    classes: Seq<Class>,
)
    requires
        i < ops.len(),
        ops[i as int] == BaseIR::IAdd || ops[i as int] == BaseIR::ISub || ops[i as int] == BaseIR::IMul,
    ensures
        ({
            let data = rest.push(Value::Int(a)).push(Value::Int(b));
            let exact: int = if ops[i as int] == BaseIR::IAdd {
                a + b
            } else if ops[i as int] == BaseIR::ISub {
                a - b
            } else {
                a * b
            };
            spec_step(ops, i, args, data, objects, statics, classes) == if i32::MIN <= exact <= i32::MAX {
                (SpecStep::Next((i + 1) as usize), rest.push(Value::Int(exact as i32)), MemEffect::Unchanged)
            } else {
                (SpecStep::Fault, data, MemEffect::Unchanged)
            }
        }),
{
    let data = rest.push(Value::Int(a)).push(Value::Int(b));
    assert(data.subrange(0, data.len() - 2) =~= rest);
    assert(top_two_ints(data) == Some((a, b, rest)));
}

/// Stepping an integer division or remainder with the integers `a` (pushed
/// first) and `b` on top of the frame's data faults, leaving the data as it
/// was, when `b` is 0 or when `a` is the least `int` and `b` is -1.
/// Otherwise each takes them off and pushes its result: the quotient `q`
/// rounded toward zero and the remainder `r`, which has the sign of `a`, so
/// that `q * b + r == a` and `|r| < |b|`.
pub proof fn law_int_div_rem_step(
    ops: Seq<BaseIR>,
    i: usize,
    j: usize,
    args: Seq<Value>,
    rest: Seq<Value>,
    a: i32,
    b: i32,
    objects: Seq<Object>,
    statics: Seq<Value>,
    classes: Seq<Class>,
)
    requires
        i < ops.len(),
        j < ops.len(),
        ops[i as int] == BaseIR::IDiv,
        ops[j as int] == BaseIR::IRem,
    ensures
        ({
            let data = rest.push(Value::Int(a)).push(Value::Int(b));
            let div = spec_step(ops, i, args, data, objects, statics, classes);
            let rem = spec_step(ops, j, args, data, objects, statics, classes);
            if b == 0 || (a == i32::MIN && b == -1) {
                div == (SpecStep::Fault, data, MemEffect::Unchanged) && rem == (SpecStep::Fault, data, MemEffect::Unchanged)
            } else {
                exists|q: i32, r: i32| {
                    &&& div == (SpecStep::Next((i + 1) as usize), rest.push(Value::Int(q)), MemEffect::Unchanged)
                    &&& rem == (SpecStep::Next((j + 1) as usize), rest.push(Value::Int(r)), MemEffect::Unchanged)
                    &&& q * b + r == a
                    &&& (if r < 0 { -r } else { r as int }) < (if b < 0 { -b } else { b as int })
                    &&& (r == 0 || (r < 0) == (a < 0))
                }
            }
        }),
{
    let data = rest.push(Value::Int(a)).push(Value::Int(b));
    assert(data.subrange(0, data.len() - 2) =~= rest);
    assert(top_two_ints(data) == Some((a, b, rest)));
    if !(b == 0 || (a == i32::MIN && b == -1)) {
        lemma_trunc_div_rem(a, b);
        let q = a.checked_div(b)->0;
        let r = a.checked_rem(b)->0;
        assert(spec_int_op(BaseIR::IDiv, a, b) == Some(q));
        assert(spec_int_op(BaseIR::IRem, a, b) == Some(r));
        let div = spec_step(ops, i, args, data, objects, statics, classes);
        let rem = spec_step(ops, j, args, data, objects, statics, classes);
        assert(div == (SpecStep::Next((i + 1) as usize), rest.push(Value::Int(q)), MemEffect::Unchanged));
        assert(rem == (SpecStep::Next((j + 1) as usize), rest.push(Value::Int(r)), MemEffect::Unchanged));
    } else {
        if b == 0 {
            assert(a.checked_div(b) is None);
        } else {
            assert(a.checked_div(b) is None);
        }
    }
}

/// Division of a natural number by a positive one: quotient and remainder.
proof fn lemma_nat_div(x: int, d: int)
    requires
        x >= 0,
        d >= 1,
    ensures
        x == d * (x / d) + x % d,
        0 <= x % d < d,
        0 <= x / d <= x,
        d >= 2 ==> 2 * (x / d) <= x,
{
    vstd::arithmetic::div_mod::lemma_fundamental_div_mod(x, d);
    vstd::arithmetic::div_mod::lemma_mod_pos_bound(x, d);
    vstd::arithmetic::div_mod::lemma_div_pos_is_pos(x, d);
    let q = x / d;
    let r = x % d;
    assert(q <= x) by (nonlinear_arith)
        requires
            x == d * q + r,
            r >= 0,
            d >= 1,
            q >= 0,
    ;
    if d >= 2 {
        assert(2 * q <= x) by (nonlinear_arith)
            requires
                x == d * q + r,
                r >= 0,
                d >= 2,
                q >= 0,
        ;
    }
}

/// Rust's `checked_div` and `checked_rem` on `i32` truncate toward zero.
proof fn lemma_trunc_div_rem(a: i32, b: i32)
    requires
        b != 0,
        !(a == i32::MIN && b == -1),
    ensures
        a.checked_div(b) is Some,
        a.checked_rem(b) is Some,
        ({
            let q = a.checked_div(b)->0;
            let r = a.checked_rem(b)->0;
            &&& q * b + r == a
            &&& (if r < 0 { -r } else { r as int }) < (if b < 0 { -b } else { b as int })
            &&& (r == 0 || (r < 0) == (a < 0))
        }),
{
    let x = a as int;
    let d = b as int;
    if x == 0 {
    } else if x > 0 && d > 0 {
        lemma_nat_div(x, d);
        let q = x / d;
        let r = x % d;
        assert(q * d + r == x) by (nonlinear_arith)
            requires
                x == d * q + r,
        ;
        assert(a.checked_div(b) == Some(q as i32));
        assert(a.checked_rem(b) == Some(r as i32));
    } else if x < 0 && d < 0 {
        lemma_nat_div(-x, -d);
        let q = (-x) / (-d);
        let r = (-x) % (-d);
        assert(q * d + (r * -1) == x) by (nonlinear_arith)
            requires
                -x == (-d) * q + r,
        ;
        assert(a.checked_div(b) == Some(q as i32));
        assert(a.checked_rem(b) == Some((r * -1) as i32));
    } else if x < 0 {
        lemma_nat_div(-x, d);
        let q = (-x) / d;
        let r = (-x) % d;
        assert((q * -1) * d + (r * -1) == x) by (nonlinear_arith)
            requires
                -x == d * q + r,
        ;
        assert(a.checked_div(b) == Some((q * -1) as i32));
        assert(a.checked_rem(b) == Some((r * -1) as i32));
    } else {
        lemma_nat_div(x, -d);
        let q = x / (-d);
        let r = x % (-d);
        assert((q * -1) * d + r == x) by (nonlinear_arith)
            requires
                x == (-d) * q + r,
        ;
        assert(a.checked_div(b) == Some((q * -1) as i32));
        assert(a.checked_rem(b) == Some(r as i32));
    }
}


/// Lowering a resolved instruction that needs no lookup keeps what it does
/// when run: integer constants (`iconst`, `bipush`, `sipush`) push their
/// value, `aconst_null` pushes the null reference, a load of an argument
/// pushes it, and integer addition, subtraction and multiplication of `a`
/// (pushed first) and `b` push the exact result when it fits in 32 bits.
pub proof fn law_lowered_ops_keep_meaning(
    f: SpecFatOp,
    args: Seq<Value>,
    rest: Seq<Value>,
    a: i32,
    b: i32,
    objects: Seq<Object>,
    statics: Seq<Value>,
    classes: Seq<Class>,
)
    requires
        spec_simple_base_op(f) is Some,
    ensures
        ({
            let ops = seq![spec_simple_base_op(f)->0];
            let run = |data: Seq<Value>| spec_step(ops, 0, args, data, objects, statics, classes);
            let data = rest.push(Value::Int(a)).push(Value::Int(b));
            let exact: int = if f is IAdd { a + b } else if f is ISub { a - b } else { a * b };
            &&& f matches SpecFatOp::IConst(v) ==> run(rest) == (SpecStep::Next(1), rest.push(Value::Int(v)), MemEffect::Unchanged)
            &&& f matches SpecFatOp::BConst(v) ==> run(rest) == (SpecStep::Next(1), rest.push(Value::Int(v as i32)), MemEffect::Unchanged)
            &&& f matches SpecFatOp::SConst(v) ==> run(rest) == (SpecStep::Next(1), rest.push(Value::Int(v as i32)), MemEffect::Unchanged)
            &&& f is AConstNull ==> run(rest) == (SpecStep::Next(1), rest.push(Value::ObjectRef(0)), MemEffect::Unchanged)
            &&& forall|k: u8| f == SpecFatOp::ILoad(k) && (k as int) < args.len()
                ==> run(rest) == (SpecStep::Next(1), rest.push(args[k as int]), MemEffect::Unchanged)
            &&& (f is IAdd || f is ISub || f is IMul) ==> run(data) == if i32::MIN <= exact <= i32::MAX {
                (SpecStep::Next(1), rest.push(Value::Int(exact as i32)), MemEffect::Unchanged)
            } else {
                (SpecStep::Fault, data, MemEffect::Unchanged)
            }
        }),
{
    let ops = seq![spec_simple_base_op(f)->0];
    assert(ops.len() == 1 && ops[0] == spec_simple_base_op(f)->0);
    if f is IAdd || f is ISub || f is IMul {
        law_int_arith_step(ops, 0, args, rest, a, b, objects, statics, classes);
    }
}

/// The interpreter's branches: `if_icmpge` to `t` jumps when `a` (pushed
/// first) is at least `b`, `ifeq` when `a` is 0 and `ifne` when it is not,
/// each taking the tested values off; otherwise the next instruction runs.
/// `goto` always jumps and leaves the data as it is.
pub proof fn law_branch_step(
    ops: Seq<BaseIR>,
    i: usize,
    t: usize,
    args: Seq<Value>,
    rest: Seq<Value>,
    a: i32,
    b: i32,
    objects: Seq<Object>,
    statics: Seq<Value>,
    classes: Seq<Class>,
)
    requires
        i < ops.len(),
    ensures
        ({
            let run = |data: Seq<Value>| spec_step(ops, i, args, data, objects, statics, classes);
            let next = SpecStep::Next((i + 1) as usize);
            let two = rest.push(Value::Int(a)).push(Value::Int(b));
            let one = rest.push(Value::Int(a));
            &&& ops[i as int] == BaseIR::IfIGreterEqual(t)
                ==> run(two) == (if a >= b { SpecStep::Next(t) } else { next }, rest, MemEffect::Unchanged)
            &&& ops[i as int] == BaseIR::IfZero(t)
                ==> run(one) == (if a == 0 { SpecStep::Next(t) } else { next }, rest, MemEffect::Unchanged)
            &&& ops[i as int] == BaseIR::IfNotZero(t)
                ==> run(one) == (if a != 0 { SpecStep::Next(t) } else { next }, rest, MemEffect::Unchanged)
            &&& ops[i as int] == BaseIR::GoTo(t) ==> run(rest) == (SpecStep::Next(t), rest, MemEffect::Unchanged)
        }),
{
    let two = rest.push(Value::Int(a)).push(Value::Int(b));
    let one = rest.push(Value::Int(a));
    assert(two.subrange(0, two.len() - 2) =~= rest);
    assert(top_two_ints(two) == Some((a, b, rest)));
    assert(one.drop_last() =~= rest);
}

/// Storing a value into a local past the arguments and then loading that
/// local gives the value back, pushed on the data the store left.
pub proof fn law_store_then_load(
    ops: Seq<BaseIR>,
    i: usize,
    j: usize,
    k: u8,
    args: Seq<Value>,
    before: Seq<Value>,
    v: Value,
    objects: Seq<Object>,
    statics: Seq<Value>,
    classes: Seq<Class>,
)
    requires
        i < ops.len(),
        j < ops.len(),
        ops[i as int] == BaseIR::IStore(k),
        ops[j as int] == BaseIR::ILoad(k),
        args.len() <= k as int,
        (k as int) - args.len() < before.len(),
    ensures
        ({
            let (s1, d1, e1) = spec_step(ops, i, args, before.push(v), objects, statics, classes);
            &&& s1 == SpecStep::Next((i + 1) as usize)
            &&& e1 == MemEffect::Unchanged
            &&& d1.len() == before.len()
            &&& spec_step(ops, j, args, d1, objects, statics, classes) == (SpecStep::Next((j + 1) as usize), d1.push(v), MemEffect::Unchanged)
        }),
{
    let data = before.push(v);
    assert(data.drop_last() =~= before);
    let d1 = before.update(k as int - args.len(), v);
    assert(spec_step(ops, i, args, data, objects, statics, classes) == (SpecStep::Next((i + 1) as usize), d1, MemEffect::Unchanged));
    assert(local_at(args, d1, k) == Some(v));
}


/// Lowering a resolved branch keeps where and when it jumps: run with the
/// tested integers on top of the data (`a` pushed first), the lowered
/// `if_icmpge`, `ifeq`, `ifne` and `goto` go to the branch's target exactly
/// when the resolved branch is taken, and on to the next instruction
/// otherwise.
pub proof fn law_lowered_branch_keeps_condition(
    f: SpecFatOp,
    args: Seq<Value>,
    rest: Seq<Value>,
    a: i32,
    b: i32,
    objects: Seq<Object>,
    statics: Seq<Value>,
    classes: Seq<Class>,
)
    requires
        spec_simple_base_op(f) is Some,
        resolved_branch(f, a as int, b as int) is Some,
    ensures
        ({
            let ops = seq![spec_simple_base_op(f)->0];
            let run = |data: Seq<Value>| spec_step(ops, 0, args, data, objects, statics, classes);
            let (taken, t) = resolved_branch(f, a as int, b as int)->0;
            let to = if taken { SpecStep::Next(t) } else { SpecStep::Next(1) };
            &&& f is IfIGreterEqual ==> run(rest.push(Value::Int(a)).push(Value::Int(b))) == (to, rest, MemEffect::Unchanged)
            &&& (f is IfZero || f is IfNotZero) ==> run(rest.push(Value::Int(a))) == (to, rest, MemEffect::Unchanged)
            &&& f is GoTo ==> run(rest) == (SpecStep::Next(t), rest, MemEffect::Unchanged)
        }),
{
    let ops = seq![spec_simple_base_op(f)->0];
    let t = (resolved_branch(f, a as int, b as int)->0).1;
    law_branch_step(ops, 0, t, args, rest, a, b, objects, statics, classes);
}


/// The interpreter's stack instructions: `ireturn`, `freturn` and `areturn`
/// return the value on top of the data, `return` returns nothing, `dup`
/// pushes a copy of the top value, and `iconst` pushes its constant; each
/// leaves the objects as they are.
pub proof fn law_stack_ops_step(
    ops: Seq<BaseIR>,
    i: usize,
    args: Seq<Value>,
    rest: Seq<Value>,
    v: Value,
    objects: Seq<Object>,
    statics: Seq<Value>,
    classes: Seq<Class>,
)
    requires
        i < ops.len(),
    ensures
        ({
            let data = rest.push(v);
            let run = |d: Seq<Value>| spec_step(ops, i, args, d, objects, statics, classes);
            &&& (ops[i as int] == BaseIR::IReturn || ops[i as int] == BaseIR::FReturn || ops[i as int] == BaseIR::AReturn)
                ==> run(data).0 == SpecStep::Return(v) && run(data).2 == MemEffect::Unchanged
            &&& ops[i as int] == BaseIR::Return ==> run(data).0 == SpecStep::Return(Value::Void)
            &&& ops[i as int] == BaseIR::Dup
                ==> run(data) == (SpecStep::Next((i + 1) as usize), data.push(v), MemEffect::Unchanged)
            &&& forall|c: i32| ops[i as int] == BaseIR::IConst(c)
                ==> run(rest) == (SpecStep::Next((i + 1) as usize), rest.push(Value::Int(c)), MemEffect::Unchanged)
        }),
{
}

} // verus!
