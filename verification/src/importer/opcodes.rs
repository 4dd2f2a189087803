//! JVM instructions and the reading of a method's bytecode.
use vstd::prelude::*;
use super::reader::{Abort, Failure, IoFailure, lift, load_bytes, load_i16, load_i32, load_i8, load_u16, load_u8, spec_bytes, spec_i16, spec_i32, spec_i8, spec_u16, spec_u8};

verus! {

/// One JVM instruction. Float and double constants are held by their IEEE
/// bit patterns (`FConst(0x3f80_0000)` is `1.0f`).
#[derive(Debug)]
pub enum OpCode {
    Nop,
    ALoad(u8),
    FLoad(u8),
    DLoad(u8),
    ILoad(u8),
    LLoad(u8),
    DConst(u64),
    FConst(u32),
    IConst(i32),
    LConst(i64),
    AConstNull,
    AStore(u8),
    DStore(u8),
    FStore(u8),
    IStore(u8),
    LStore(u8),
    LAdd,
    IAdd,
    DAdd,
    FAdd,
    LSub,
    ISub,
    DSub,
    FSub,
    LMul,
    IMul,
    DMul,
    FMul,
    DDiv,
    FDiv,
    IDiv,
    LDiv,
    FRem,
    DRem,
    IRem,
    LRem,
    IShr,
    IShl,
    LShr,
    LShl,
    IUShr,
    LUShr,
    LUShl,
    IAnd,
    LAnd,
    IOr,
    LOr,
    IXOr,
    LXOr,
    DNeg,
    FNeg,
    INeg,
    LNeg,
    IInc(u8, i8),
    InvokeSpecial(u16),
    InvokeVirtual(u16),
    InvokeInterface(u16),
    InvokeStatic(u16),
    InvokeDynamic(u16),
    Return,
    AReturn,
    IReturn,
    DReturn,
    FReturn,
    LReturn,
    GetStatic(u16),
    PutStatic(u16),
    GetField(u16),
    PutField(u16),
    LoadConst(u16),
    IfICmpEq(i16),
    IfICmpNe(i16),
    IfICmpLessEqual(i16),
    IfICmpLessThan(i16),
    IfICmpGreater(i16),
    IfZero(i16),
    IfNotZero(i16),
    IfNull(i16),
    IfNotNull(i16),
    IfACmpNe(i16),
    IfACmpEq(i16),
    IfIGreterEqual(i16),
    IfGreterEqualZero(i16),
    IfGreterZero(i16),
    IfLessZero(i16),
    IfLessEqualZero(i16),
    GoTo(i16),
    Dup,
    DupX1,
    Dup2X1,
    Dup2X2,
    DupX2,
    Dup2,
    Swap,
    Pop,
    Pop2,
    New(u16),
    NewArray(u8),
    ANewArray(u16),
    MultiANewArray(u16, u8),
    BIPush(i8),
    SIPush(i16),
    ArrayLength,
    Throw,
    AALoad,
    BALoad,
    CALoad,
    FALoad,
    DALoad,
    IALoad,
    LALoad,
    SALoad,
    AAStore,
    BAStore,
    CAStore,
    DAStore,
    FAStore,
    IAStore,
    LAStore,
    SAStore,
    CheckCast(u16),
    InstanceOf(u16),
    D2F,
    D2I,
    D2L,
    F2I,
    F2L,
    F2D,
    I2B,
    I2C,
    I2D,
    I2F,
    I2L,
    I2S,
    L2I,
    L2F,
    L2D,
    LCmp,
    FCmpL,
    FCmpG,
    DCmpL,
    DCmpG,
    MonitorEnter,
    MonitorExit,
    Reserved,
    LookupSwitch(Box<LookupSwitch>),
}

/// The table of a `lookupswitch` instruction, kept apart to keep `OpCode` small.
#[derive(Debug)]
pub struct LookupSwitch {
    pub default_offset: i32,
    pub pairs: Vec<(i32, i32)>,
}

/// The mathematical value of an `OpCode`.
pub enum SpecOpCode {
    Nop,
    ALoad(u8),
    FLoad(u8),
    DLoad(u8),
    ILoad(u8),
    LLoad(u8),
    DConst(u64),
    FConst(u32),
    IConst(i32),
    LConst(i64),
    AConstNull,
    AStore(u8),
    DStore(u8),
    FStore(u8),
    IStore(u8),
    LStore(u8),
    LAdd,
    IAdd,
    DAdd,
    FAdd,
    LSub,
    ISub,
    DSub,
    FSub,
    LMul,
    IMul,
    DMul,
    FMul,
    DDiv,
    FDiv,
    IDiv,
    LDiv,
    FRem,
    DRem,
    IRem,
    LRem,
    IShr,
    IShl,
    LShr,
    LShl,
    IUShr,
    LUShr,
    LUShl,
    IAnd,
    LAnd,
    IOr,
    LOr,
    IXOr,
    LXOr,
    DNeg,
    FNeg,
    INeg,
    LNeg,
    IInc(u8, i8),
    InvokeSpecial(u16),
    InvokeVirtual(u16),
    InvokeInterface(u16),
    InvokeStatic(u16),
    InvokeDynamic(u16),
    Return,
    AReturn,
    IReturn,
    DReturn,
    FReturn,
    LReturn,
    GetStatic(u16),
    PutStatic(u16),
    GetField(u16),
    PutField(u16),
    LoadConst(u16),
    IfICmpEq(i16),
    IfICmpNe(i16),
    IfICmpLessEqual(i16),
    IfICmpLessThan(i16),
    IfICmpGreater(i16),
    IfZero(i16),
    IfNotZero(i16),
    IfNull(i16),
    IfNotNull(i16),
    IfACmpNe(i16),
    IfACmpEq(i16),
    IfIGreterEqual(i16),
    IfGreterEqualZero(i16),
    IfGreterZero(i16),
    IfLessZero(i16),
    IfLessEqualZero(i16),
    GoTo(i16),
    Dup,
    DupX1,
    Dup2X1,
    Dup2X2,
    DupX2,
    Dup2,
    Swap,
    Pop,
    Pop2,
    New(u16),
    NewArray(u8),
    ANewArray(u16),
    MultiANewArray(u16, u8),
    BIPush(i8),
    SIPush(i16),
    ArrayLength,
    Throw,
    AALoad,
    BALoad,
    CALoad,
    FALoad,
    DALoad,
    IALoad,
    LALoad,
    SALoad,
    AAStore,
    BAStore,
    CAStore,
    DAStore,
    FAStore,
    IAStore,
    LAStore,
    SAStore,
    CheckCast(u16),
    InstanceOf(u16),
    D2F,
    D2I,
    D2L,
    F2I,
    F2L,
    F2D,
    I2B,
    I2C,
    I2D,
    I2F,
    I2L,
    I2S,
    L2I,
    L2F,
    L2D,
    LCmp,
    FCmpL,
    FCmpG,
    DCmpL,
    DCmpG,
    MonitorEnter,
    MonitorExit,
    Reserved,
    LookupSwitch(i32, Seq<(i32, i32)>),
}

impl DeepView for OpCode {
    type V = SpecOpCode;

    open spec fn deep_view(&self) -> SpecOpCode {
        match self {
            OpCode::Nop => SpecOpCode::Nop,
            OpCode::ALoad(x0) => SpecOpCode::ALoad(*x0),
            OpCode::FLoad(x0) => SpecOpCode::FLoad(*x0),
            OpCode::DLoad(x0) => SpecOpCode::DLoad(*x0),
            OpCode::ILoad(x0) => SpecOpCode::ILoad(*x0),
            OpCode::LLoad(x0) => SpecOpCode::LLoad(*x0),
            OpCode::DConst(x0) => SpecOpCode::DConst(*x0),
            OpCode::FConst(x0) => SpecOpCode::FConst(*x0),
            OpCode::IConst(x0) => SpecOpCode::IConst(*x0),
            OpCode::LConst(x0) => SpecOpCode::LConst(*x0),
            OpCode::AConstNull => SpecOpCode::AConstNull,
            OpCode::AStore(x0) => SpecOpCode::AStore(*x0),
            OpCode::DStore(x0) => SpecOpCode::DStore(*x0),
            OpCode::FStore(x0) => SpecOpCode::FStore(*x0),
            OpCode::IStore(x0) => SpecOpCode::IStore(*x0),
            OpCode::LStore(x0) => SpecOpCode::LStore(*x0),
            OpCode::LAdd => SpecOpCode::LAdd,
            OpCode::IAdd => SpecOpCode::IAdd,
            OpCode::DAdd => SpecOpCode::DAdd,
            OpCode::FAdd => SpecOpCode::FAdd,
            OpCode::LSub => SpecOpCode::LSub,
            OpCode::ISub => SpecOpCode::ISub,
            OpCode::DSub => SpecOpCode::DSub,
            OpCode::FSub => SpecOpCode::FSub,
            OpCode::LMul => SpecOpCode::LMul,
            OpCode::IMul => SpecOpCode::IMul,
            OpCode::DMul => SpecOpCode::DMul,
            OpCode::FMul => SpecOpCode::FMul,
            OpCode::DDiv => SpecOpCode::DDiv,
            OpCode::FDiv => SpecOpCode::FDiv,
            OpCode::IDiv => SpecOpCode::IDiv,
            OpCode::LDiv => SpecOpCode::LDiv,
            OpCode::FRem => SpecOpCode::FRem,
            OpCode::DRem => SpecOpCode::DRem,
            OpCode::IRem => SpecOpCode::IRem,
            OpCode::LRem => SpecOpCode::LRem,
            OpCode::IShr => SpecOpCode::IShr,
            OpCode::IShl => SpecOpCode::IShl,
            OpCode::LShr => SpecOpCode::LShr,
            OpCode::LShl => SpecOpCode::LShl,
            OpCode::IUShr => SpecOpCode::IUShr,
            OpCode::LUShr => SpecOpCode::LUShr,
            OpCode::LUShl => SpecOpCode::LUShl,
            OpCode::IAnd => SpecOpCode::IAnd,
            OpCode::LAnd => SpecOpCode::LAnd,
            OpCode::IOr => SpecOpCode::IOr,
            OpCode::LOr => SpecOpCode::LOr,
            OpCode::IXOr => SpecOpCode::IXOr,
            OpCode::LXOr => SpecOpCode::LXOr,
            OpCode::DNeg => SpecOpCode::DNeg,
            OpCode::FNeg => SpecOpCode::FNeg,
            OpCode::INeg => SpecOpCode::INeg,
            OpCode::LNeg => SpecOpCode::LNeg,
            OpCode::IInc(x0, x1) => SpecOpCode::IInc(*x0, *x1),
            OpCode::InvokeSpecial(x0) => SpecOpCode::InvokeSpecial(*x0),
            OpCode::InvokeVirtual(x0) => SpecOpCode::InvokeVirtual(*x0),
            OpCode::InvokeInterface(x0) => SpecOpCode::InvokeInterface(*x0),
            OpCode::InvokeStatic(x0) => SpecOpCode::InvokeStatic(*x0),
            OpCode::InvokeDynamic(x0) => SpecOpCode::InvokeDynamic(*x0),
            OpCode::Return => SpecOpCode::Return,
            OpCode::AReturn => SpecOpCode::AReturn,
            OpCode::IReturn => SpecOpCode::IReturn,
            OpCode::DReturn => SpecOpCode::DReturn,
            OpCode::FReturn => SpecOpCode::FReturn,
            OpCode::LReturn => SpecOpCode::LReturn,
            OpCode::GetStatic(x0) => SpecOpCode::GetStatic(*x0),
            OpCode::PutStatic(x0) => SpecOpCode::PutStatic(*x0),
            OpCode::GetField(x0) => SpecOpCode::GetField(*x0),
            OpCode::PutField(x0) => SpecOpCode::PutField(*x0),
            OpCode::LoadConst(x0) => SpecOpCode::LoadConst(*x0),
            OpCode::IfICmpEq(x0) => SpecOpCode::IfICmpEq(*x0),
            OpCode::IfICmpNe(x0) => SpecOpCode::IfICmpNe(*x0),
            OpCode::IfICmpLessEqual(x0) => SpecOpCode::IfICmpLessEqual(*x0),
            OpCode::IfICmpLessThan(x0) => SpecOpCode::IfICmpLessThan(*x0),
            OpCode::IfICmpGreater(x0) => SpecOpCode::IfICmpGreater(*x0),
            OpCode::IfZero(x0) => SpecOpCode::IfZero(*x0),
            OpCode::IfNotZero(x0) => SpecOpCode::IfNotZero(*x0),
            OpCode::IfNull(x0) => SpecOpCode::IfNull(*x0),
            OpCode::IfNotNull(x0) => SpecOpCode::IfNotNull(*x0),
            OpCode::IfACmpNe(x0) => SpecOpCode::IfACmpNe(*x0),
            OpCode::IfACmpEq(x0) => SpecOpCode::IfACmpEq(*x0),
            OpCode::IfIGreterEqual(x0) => SpecOpCode::IfIGreterEqual(*x0),
            OpCode::IfGreterEqualZero(x0) => SpecOpCode::IfGreterEqualZero(*x0),
            OpCode::IfGreterZero(x0) => SpecOpCode::IfGreterZero(*x0),
            OpCode::IfLessZero(x0) => SpecOpCode::IfLessZero(*x0),
            OpCode::IfLessEqualZero(x0) => SpecOpCode::IfLessEqualZero(*x0),
            OpCode::GoTo(x0) => SpecOpCode::GoTo(*x0),
            OpCode::Dup => SpecOpCode::Dup,
            OpCode::DupX1 => SpecOpCode::DupX1,
            OpCode::Dup2X1 => SpecOpCode::Dup2X1,
            OpCode::Dup2X2 => SpecOpCode::Dup2X2,
            OpCode::DupX2 => SpecOpCode::DupX2,
            OpCode::Dup2 => SpecOpCode::Dup2,
            OpCode::Swap => SpecOpCode::Swap,
            OpCode::Pop => SpecOpCode::Pop,
            OpCode::Pop2 => SpecOpCode::Pop2,
            OpCode::New(x0) => SpecOpCode::New(*x0),
            OpCode::NewArray(x0) => SpecOpCode::NewArray(*x0),
            OpCode::ANewArray(x0) => SpecOpCode::ANewArray(*x0),
            OpCode::MultiANewArray(x0, x1) => SpecOpCode::MultiANewArray(*x0, *x1),
            OpCode::BIPush(x0) => SpecOpCode::BIPush(*x0),
            OpCode::SIPush(x0) => SpecOpCode::SIPush(*x0),
            OpCode::ArrayLength => SpecOpCode::ArrayLength,
            OpCode::Throw => SpecOpCode::Throw,
            OpCode::AALoad => SpecOpCode::AALoad,
            OpCode::BALoad => SpecOpCode::BALoad,
            OpCode::CALoad => SpecOpCode::CALoad,
            OpCode::FALoad => SpecOpCode::FALoad,
            OpCode::DALoad => SpecOpCode::DALoad,
            OpCode::IALoad => SpecOpCode::IALoad,
            OpCode::LALoad => SpecOpCode::LALoad,
            OpCode::SALoad => SpecOpCode::SALoad,
            OpCode::AAStore => SpecOpCode::AAStore,
            OpCode::BAStore => SpecOpCode::BAStore,
            OpCode::CAStore => SpecOpCode::CAStore,
            OpCode::DAStore => SpecOpCode::DAStore,
            OpCode::FAStore => SpecOpCode::FAStore,
            OpCode::IAStore => SpecOpCode::IAStore,
            OpCode::LAStore => SpecOpCode::LAStore,
            OpCode::SAStore => SpecOpCode::SAStore,
            OpCode::CheckCast(x0) => SpecOpCode::CheckCast(*x0),
            OpCode::InstanceOf(x0) => SpecOpCode::InstanceOf(*x0),
            OpCode::D2F => SpecOpCode::D2F,
            OpCode::D2I => SpecOpCode::D2I,
            OpCode::D2L => SpecOpCode::D2L,
            OpCode::F2I => SpecOpCode::F2I,
            OpCode::F2L => SpecOpCode::F2L,
            OpCode::F2D => SpecOpCode::F2D,
            OpCode::I2B => SpecOpCode::I2B,
            OpCode::I2C => SpecOpCode::I2C,
            OpCode::I2D => SpecOpCode::I2D,
            OpCode::I2F => SpecOpCode::I2F,
            OpCode::I2L => SpecOpCode::I2L,
            OpCode::I2S => SpecOpCode::I2S,
            OpCode::L2I => SpecOpCode::L2I,
            OpCode::L2F => SpecOpCode::L2F,
            OpCode::L2D => SpecOpCode::L2D,
            OpCode::LCmp => SpecOpCode::LCmp,
            OpCode::FCmpL => SpecOpCode::FCmpL,
            OpCode::FCmpG => SpecOpCode::FCmpG,
            OpCode::DCmpL => SpecOpCode::DCmpL,
            OpCode::DCmpG => SpecOpCode::DCmpG,
            OpCode::MonitorEnter => SpecOpCode::MonitorEnter,
            OpCode::MonitorExit => SpecOpCode::MonitorExit,
            OpCode::Reserved => SpecOpCode::Reserved,
            OpCode::LookupSwitch(t) => SpecOpCode::LookupSwitch(t.default_offset, t.pairs@),
        }
    }
}

/// Whether an instruction ends a method: a return, a `throw`, or a `goto`
/// that jumps backwards.
pub open spec fn spec_is_term(op: SpecOpCode) -> bool {
    match op {
        SpecOpCode::Return | SpecOpCode::AReturn | SpecOpCode::IReturn | SpecOpCode::FReturn
        | SpecOpCode::LReturn | SpecOpCode::DReturn | SpecOpCode::Throw => true,
        SpecOpCode::GoTo(offset) => offset <= -1,
        _ => false,
    }
}

impl OpCode {
    /// Whether this instruction ends a method: a return, a `throw`, or a
    /// `goto` that jumps backwards.
    pub fn is_term(&self) -> (r: bool)
        ensures
            r == spec_is_term(self.deep_view()),
    {
        match self {
            OpCode::Return | OpCode::AReturn | OpCode::IReturn | OpCode::FReturn | OpCode::LReturn
            | OpCode::DReturn | OpCode::Throw => true,
            OpCode::GoTo(offset) => *offset <= -1,
            _ => false,
        }
    }
}

/// How an opcode byte is followed by operands.
#[derive(PartialEq, Eq, Structural, Clone, Copy)]
pub enum Shape {
    Simple,
    U8,
    I8,
    I16,
    U16,
    IInc,
    Interface,
    Dynamic,
    MultiANew,
    LookupSwitch,
    TableSwitch,
    Wide,
    Reserved,
    Unhandled,
}

/// The operand layout of each opcode byte.
pub open spec fn op_shape(op: u8) -> Shape {
    if 0x00 <= op <= 0x0f {
        Shape::Simple
    } else if op == 0x10 {
        Shape::I8
    } else if op == 0x11 {
        Shape::I16
    } else if op == 0x12 {
        Shape::U8
    } else if 0x13 <= op <= 0x14 {
        Shape::U16
    } else if 0x15 <= op <= 0x19 {
        Shape::U8
    } else if 0x1a <= op <= 0x35 {
        Shape::Simple
    } else if 0x36 <= op <= 0x3a {
        Shape::U8
    } else if 0x3b <= op <= 0x83 {
        Shape::Simple
    } else if op == 0x84 {
        Shape::IInc
    } else if 0x85 <= op <= 0x98 {
        Shape::Simple
    } else if 0x99 <= op <= 0xa7 {
        Shape::I16
    } else if 0xa8 <= op <= 0xa9 {
        Shape::Unhandled
    } else if op == 0xaa {
        Shape::TableSwitch
    } else if op == 0xab {
        Shape::LookupSwitch
    } else if 0xac <= op <= 0xb1 {
        Shape::Simple
    } else if 0xb2 <= op <= 0xb8 {
        Shape::U16
    } else if op == 0xb9 {
        Shape::Interface
    } else if op == 0xba {
        Shape::Dynamic
    } else if op == 0xbb {
        Shape::U16
    } else if op == 0xbc {
        Shape::U8
    } else if op == 0xbd {
        Shape::U16
    } else if 0xbe <= op <= 0xbf {
        Shape::Simple
    } else if 0xc0 <= op <= 0xc1 {
        Shape::U16
    } else if 0xc2 <= op <= 0xc3 {
        Shape::Simple
    } else if op == 0xc4 {
        Shape::Wide
    } else if op == 0xc5 {
        Shape::MultiANew
    } else if 0xc6 <= op <= 0xc7 {
        Shape::I16
    } else if 0xc8 <= op <= 0xca {
        Shape::Unhandled
    } else if 0xcb <= op <= 0xfd {
        Shape::Reserved
    } else if 0xfe <= op <= 0xff {
        Shape::Unhandled
    } else {
        Shape::Unhandled
    }
}

/// The operand layout of an opcode byte.
pub fn shape_of(op: u8) -> (r: Shape)
    ensures
        r == op_shape(op),
{
    if 0x00 <= op && op <= 0x0f {
        Shape::Simple
    } else if op == 0x10 {
        Shape::I8
    } else if op == 0x11 {
        Shape::I16
    } else if op == 0x12 {
        Shape::U8
    } else if 0x13 <= op && op <= 0x14 {
        Shape::U16
    } else if 0x15 <= op && op <= 0x19 {
        Shape::U8
    } else if 0x1a <= op && op <= 0x35 {
        Shape::Simple
    } else if 0x36 <= op && op <= 0x3a {
        Shape::U8
    } else if 0x3b <= op && op <= 0x83 {
        Shape::Simple
    } else if op == 0x84 {
        Shape::IInc
    } else if 0x85 <= op && op <= 0x98 {
        Shape::Simple
    } else if 0x99 <= op && op <= 0xa7 {
        Shape::I16
    } else if 0xa8 <= op && op <= 0xa9 {
        Shape::Unhandled
    } else if op == 0xaa {
        Shape::TableSwitch
    } else if op == 0xab {
        Shape::LookupSwitch
    } else if 0xac <= op && op <= 0xb1 {
        Shape::Simple
    } else if 0xb2 <= op && op <= 0xb8 {
        Shape::U16
    } else if op == 0xb9 {
        Shape::Interface
    } else if op == 0xba {
        Shape::Dynamic
    } else if op == 0xbb {
        Shape::U16
    } else if op == 0xbc {
        Shape::U8
    } else if op == 0xbd {
        Shape::U16
    } else if 0xbe <= op && op <= 0xbf {
        Shape::Simple
    } else if 0xc0 <= op && op <= 0xc1 {
        Shape::U16
    } else if 0xc2 <= op && op <= 0xc3 {
        Shape::Simple
    } else if op == 0xc4 {
        Shape::Wide
    } else if op == 0xc5 {
        Shape::MultiANew
    } else if 0xc6 <= op && op <= 0xc7 {
        Shape::I16
    } else if 0xc8 <= op && op <= 0xca {
        Shape::Unhandled
    } else if 0xcb <= op && op <= 0xfd {
        Shape::Reserved
    } else if 0xfe <= op && op <= 0xff {
        Shape::Unhandled
    } else {
        Shape::Unhandled
    }
}

/// The instruction of opcode byte `op` that has no operands.
pub open spec fn spec_simple_op(op: u8) -> SpecOpCode {
    if op == 0x00 {
        SpecOpCode::Nop
    } else if op == 0x01 {
        SpecOpCode::AConstNull
    } else if op == 0x02 {
        SpecOpCode::IConst(-1i32)
    } else if op == 0x03 {
        SpecOpCode::IConst(0i32)
    } else if op == 0x04 {
        SpecOpCode::IConst(1i32)
    } else if op == 0x05 {
        SpecOpCode::IConst(2i32)
    } else if op == 0x06 {
        SpecOpCode::IConst(3i32)
    } else if op == 0x07 {
        SpecOpCode::IConst(4i32)
    } else if op == 0x08 {
        SpecOpCode::IConst(5i32)
    } else if op == 0x09 {
        SpecOpCode::LConst(0i64)
    } else if op == 0x0a {
        SpecOpCode::LConst(1i64)
    } else if op == 0x0b {
        SpecOpCode::FConst(0x0000_0000u32)
    } else if op == 0x0c {
        SpecOpCode::FConst(0x3f80_0000u32)
    } else if op == 0x0d {
        SpecOpCode::FConst(0x4000_0000u32)
    } else if op == 0x0e {
        SpecOpCode::DConst(0x0000_0000_0000_0000u64)
    } else if op == 0x0f {
        SpecOpCode::DConst(0x3ff0_0000_0000_0000u64)
    } else if op == 0x1a {
        SpecOpCode::ILoad(0u8)
    } else if op == 0x1b {
        SpecOpCode::ILoad(1u8)
    } else if op == 0x1c {
        SpecOpCode::ILoad(2u8)
    } else if op == 0x1d {
        SpecOpCode::ILoad(3u8)
    } else if op == 0x1e {
        SpecOpCode::LLoad(0u8)
    } else if op == 0x1f {
        SpecOpCode::LLoad(1u8)
    } else if op == 0x20 {
        SpecOpCode::LLoad(2u8)
    } else if op == 0x21 {
        SpecOpCode::LLoad(3u8)
    } else if op == 0x22 {
        SpecOpCode::FLoad(0u8)
    } else if op == 0x23 {
        SpecOpCode::FLoad(1u8)
    } else if op == 0x24 {
        SpecOpCode::FLoad(2u8)
    } else if op == 0x25 {
        SpecOpCode::FLoad(3u8)
    } else if op == 0x26 {
        SpecOpCode::DLoad(0u8)
    } else if op == 0x27 {
        SpecOpCode::DLoad(1u8)
    } else if op == 0x28 {
        SpecOpCode::DLoad(2u8)
    } else if op == 0x29 {
        SpecOpCode::DLoad(3u8)
    } else if op == 0x2a {
        SpecOpCode::ALoad(0u8)
    } else if op == 0x2b {
        SpecOpCode::ALoad(1u8)
    } else if op == 0x2c {
        SpecOpCode::ALoad(2u8)
    } else if op == 0x2d {
        SpecOpCode::ALoad(3u8)
    } else if op == 0x2e {
        SpecOpCode::IALoad
    } else if op == 0x2f {
        SpecOpCode::LALoad
    } else if op == 0x30 {
        SpecOpCode::FALoad
    } else if op == 0x31 {
        SpecOpCode::DALoad
    } else if op == 0x32 {
        SpecOpCode::AALoad
    } else if op == 0x33 {
        SpecOpCode::BALoad
    } else if op == 0x34 {
        SpecOpCode::CALoad
    } else if op == 0x35 {
        SpecOpCode::SALoad
    } else if op == 0x3b {
        SpecOpCode::IStore(0u8)
    } else if op == 0x3c {
        SpecOpCode::IStore(1u8)
    } else if op == 0x3d {
        SpecOpCode::IStore(2u8)
    } else if op == 0x3e {
        SpecOpCode::IStore(3u8)
    } else if op == 0x3f {
        SpecOpCode::LStore(0u8)
    } else if op == 0x40 {
        SpecOpCode::LStore(1u8)
    } else if op == 0x41 {
        SpecOpCode::LStore(2u8)
    } else if op == 0x42 {
        SpecOpCode::LStore(3u8)
    } else if op == 0x43 {
        SpecOpCode::FStore(0u8)
    } else if op == 0x44 {
        SpecOpCode::FStore(1u8)
    } else if op == 0x45 {
        SpecOpCode::FStore(2u8)
    } else if op == 0x46 {
        SpecOpCode::FStore(3u8)
    } else if op == 0x47 {
        SpecOpCode::DStore(0u8)
    } else if op == 0x48 {
        SpecOpCode::DStore(1u8)
    } else if op == 0x49 {
        SpecOpCode::DStore(2u8)
    } else if op == 0x4a {
        SpecOpCode::DStore(3u8)
    } else if op == 0x4b {
        SpecOpCode::AStore(0u8)
    } else if op == 0x4c {
        SpecOpCode::AStore(1u8)
    } else if op == 0x4d {
        SpecOpCode::AStore(2u8)
    } else if op == 0x4e {
        SpecOpCode::AStore(3u8)
    } else if op == 0x4f {
        SpecOpCode::IAStore
    } else if op == 0x50 {
        SpecOpCode::LAStore
    } else if op == 0x51 {
        SpecOpCode::FAStore
    } else if op == 0x52 {
        SpecOpCode::DAStore
    } else if op == 0x53 {
        SpecOpCode::AAStore
    } else if op == 0x54 {
        SpecOpCode::BAStore
    } else if op == 0x55 {
        SpecOpCode::CAStore
    } else if op == 0x56 {
        SpecOpCode::SAStore
    } else if op == 0x57 {
        SpecOpCode::Pop
    } else if op == 0x58 {
        SpecOpCode::Pop2
    } else if op == 0x59 {
        SpecOpCode::Dup
    } else if op == 0x5a {
        SpecOpCode::DupX1
    } else if op == 0x5b {
        SpecOpCode::DupX2
    } else if op == 0x5c {
        SpecOpCode::Dup2
    } else if op == 0x5d {
        SpecOpCode::Dup2X1
    } else if op == 0x5e {
        SpecOpCode::Dup2X2
    } else if op == 0x5f {
        SpecOpCode::Swap
    } else if op == 0x60 {
        SpecOpCode::IAdd
    } else if op == 0x61 {
        SpecOpCode::LAdd
    } else if op == 0x62 {
        SpecOpCode::FAdd
    } else if op == 0x63 {
        SpecOpCode::DAdd
    } else if op == 0x64 {
        SpecOpCode::ISub
    } else if op == 0x65 {
        SpecOpCode::LSub
    } else if op == 0x66 {
        SpecOpCode::FSub
    } else if op == 0x67 {
        SpecOpCode::DSub
    } else if op == 0x68 {
        SpecOpCode::IMul
    } else if op == 0x69 {
        SpecOpCode::LMul
    } else if op == 0x6a {
        SpecOpCode::FMul
    } else if op == 0x6b {
        SpecOpCode::DMul
    } else if op == 0x6c {
        SpecOpCode::IDiv
    } else if op == 0x6d {
        SpecOpCode::LDiv
    } else if op == 0x6e {
        SpecOpCode::FDiv
    } else if op == 0x6f {
        SpecOpCode::DDiv
    } else if op == 0x70 {
        SpecOpCode::IRem
    } else if op == 0x71 {
        SpecOpCode::LRem
    } else if op == 0x72 {
        SpecOpCode::FRem
    } else if op == 0x73 {
        SpecOpCode::DRem
    } else if op == 0x74 {
        SpecOpCode::INeg
    } else if op == 0x75 {
        SpecOpCode::LNeg
    } else if op == 0x76 {
        SpecOpCode::FNeg
    } else if op == 0x77 {
        SpecOpCode::DNeg
    } else if op == 0x78 {
        SpecOpCode::IShl
    } else if op == 0x79 {
        SpecOpCode::LShl
    } else if op == 0x7a {
        SpecOpCode::IShr
    } else if op == 0x7b {
        SpecOpCode::LShr
    } else if op == 0x7c {
        SpecOpCode::IUShr
    } else if op == 0x7d {
        SpecOpCode::LUShr
    } else if op == 0x7e {
        SpecOpCode::IAnd
    } else if op == 0x7f {
        SpecOpCode::LAnd
    } else if op == 0x80 {
        SpecOpCode::IOr
    } else if op == 0x81 {
        SpecOpCode::LOr
    } else if op == 0x82 {
        SpecOpCode::IXOr
    } else if op == 0x83 {
        SpecOpCode::LXOr
    } else if op == 0x85 {
        SpecOpCode::I2L
    } else if op == 0x86 {
        SpecOpCode::I2F
    } else if op == 0x87 {
        SpecOpCode::I2D
    } else if op == 0x88 {
        SpecOpCode::L2I
    } else if op == 0x89 {
        SpecOpCode::L2F
    } else if op == 0x8a {
        SpecOpCode::L2D
    } else if op == 0x8b {
        SpecOpCode::F2I
    } else if op == 0x8c {
        SpecOpCode::F2L
    } else if op == 0x8d {
        SpecOpCode::F2D
    } else if op == 0x8e {
        SpecOpCode::D2I
    } else if op == 0x8f {
        SpecOpCode::D2L
    } else if op == 0x90 {
        SpecOpCode::D2F
    } else if op == 0x91 {
        SpecOpCode::I2B
    } else if op == 0x92 {
        SpecOpCode::I2C
    } else if op == 0x93 {
        SpecOpCode::I2S
    } else if op == 0x94 {
        SpecOpCode::LCmp
    } else if op == 0x95 {
        SpecOpCode::FCmpL
    } else if op == 0x96 {
        SpecOpCode::FCmpG
    } else if op == 0x97 {
        SpecOpCode::DCmpL
    } else if op == 0x98 {
        SpecOpCode::DCmpG
    } else if op == 0xac {
        SpecOpCode::IReturn
    } else if op == 0xad {
        SpecOpCode::LReturn
    } else if op == 0xae {
        SpecOpCode::FReturn
    } else if op == 0xaf {
        SpecOpCode::DReturn
    } else if op == 0xb0 {
        SpecOpCode::AReturn
    } else if op == 0xb1 {
        SpecOpCode::Return
    } else if op == 0xbe {
        SpecOpCode::ArrayLength
    } else if op == 0xbf {
        SpecOpCode::Throw
    } else if op == 0xc2 {
        SpecOpCode::MonitorEnter
    } else if op == 0xc3 {
        SpecOpCode::MonitorExit
    } else {
        SpecOpCode::Reserved
    }
}

fn simple_op(op: u8) -> (r: OpCode)
    ensures
        r.deep_view() == spec_simple_op(op),
{
    match op {
        0x00 => OpCode::Nop,
        0x01 => OpCode::AConstNull,
        0x02 => OpCode::IConst(-1i32),
        0x03 => OpCode::IConst(0i32),
        0x04 => OpCode::IConst(1i32),
        0x05 => OpCode::IConst(2i32),
        0x06 => OpCode::IConst(3i32),
        0x07 => OpCode::IConst(4i32),
        0x08 => OpCode::IConst(5i32),
        0x09 => OpCode::LConst(0i64),
        0x0a => OpCode::LConst(1i64),
        0x0b => OpCode::FConst(0x0000_0000u32),
        0x0c => OpCode::FConst(0x3f80_0000u32),
        0x0d => OpCode::FConst(0x4000_0000u32),
        0x0e => OpCode::DConst(0x0000_0000_0000_0000u64),
        0x0f => OpCode::DConst(0x3ff0_0000_0000_0000u64),
        0x1a => OpCode::ILoad(0u8),
        0x1b => OpCode::ILoad(1u8),
        0x1c => OpCode::ILoad(2u8),
        0x1d => OpCode::ILoad(3u8),
        0x1e => OpCode::LLoad(0u8),
        0x1f => OpCode::LLoad(1u8),
        0x20 => OpCode::LLoad(2u8),
        0x21 => OpCode::LLoad(3u8),
        0x22 => OpCode::FLoad(0u8),
        0x23 => OpCode::FLoad(1u8),
        0x24 => OpCode::FLoad(2u8),
        0x25 => OpCode::FLoad(3u8),
        0x26 => OpCode::DLoad(0u8),
        0x27 => OpCode::DLoad(1u8),
        0x28 => OpCode::DLoad(2u8),
        0x29 => OpCode::DLoad(3u8),
        0x2a => OpCode::ALoad(0u8),
        0x2b => OpCode::ALoad(1u8),
        0x2c => OpCode::ALoad(2u8),
        0x2d => OpCode::ALoad(3u8),
        0x2e => OpCode::IALoad,
        0x2f => OpCode::LALoad,
        0x30 => OpCode::FALoad,
        0x31 => OpCode::DALoad,
        0x32 => OpCode::AALoad,
        0x33 => OpCode::BALoad,
        0x34 => OpCode::CALoad,
        0x35 => OpCode::SALoad,
        0x3b => OpCode::IStore(0u8),
        0x3c => OpCode::IStore(1u8),
        0x3d => OpCode::IStore(2u8),
        0x3e => OpCode::IStore(3u8),
        0x3f => OpCode::LStore(0u8),
        0x40 => OpCode::LStore(1u8),
        0x41 => OpCode::LStore(2u8),
        0x42 => OpCode::LStore(3u8),
        0x43 => OpCode::FStore(0u8),
        0x44 => OpCode::FStore(1u8),
        0x45 => OpCode::FStore(2u8),
        0x46 => OpCode::FStore(3u8),
        0x47 => OpCode::DStore(0u8),
        0x48 => OpCode::DStore(1u8),
        0x49 => OpCode::DStore(2u8),
        0x4a => OpCode::DStore(3u8),
        0x4b => OpCode::AStore(0u8),
        0x4c => OpCode::AStore(1u8),
        0x4d => OpCode::AStore(2u8),
        0x4e => OpCode::AStore(3u8),
        0x4f => OpCode::IAStore,
        0x50 => OpCode::LAStore,
        0x51 => OpCode::FAStore,
        0x52 => OpCode::DAStore,
        0x53 => OpCode::AAStore,
        0x54 => OpCode::BAStore,
        0x55 => OpCode::CAStore,
        0x56 => OpCode::SAStore,
        0x57 => OpCode::Pop,
        0x58 => OpCode::Pop2,
        0x59 => OpCode::Dup,
        0x5a => OpCode::DupX1,
        0x5b => OpCode::DupX2,
        0x5c => OpCode::Dup2,
        0x5d => OpCode::Dup2X1,
        0x5e => OpCode::Dup2X2,
        0x5f => OpCode::Swap,
        0x60 => OpCode::IAdd,
        0x61 => OpCode::LAdd,
        0x62 => OpCode::FAdd,
        0x63 => OpCode::DAdd,
        0x64 => OpCode::ISub,
        0x65 => OpCode::LSub,
        0x66 => OpCode::FSub,
        0x67 => OpCode::DSub,
        0x68 => OpCode::IMul,
        0x69 => OpCode::LMul,
        0x6a => OpCode::FMul,
        0x6b => OpCode::DMul,
        0x6c => OpCode::IDiv,
        0x6d => OpCode::LDiv,
        0x6e => OpCode::FDiv,
        0x6f => OpCode::DDiv,
        0x70 => OpCode::IRem,
        0x71 => OpCode::LRem,
        0x72 => OpCode::FRem,
        0x73 => OpCode::DRem,
        0x74 => OpCode::INeg,
        0x75 => OpCode::LNeg,
        0x76 => OpCode::FNeg,
        0x77 => OpCode::DNeg,
        0x78 => OpCode::IShl,
        0x79 => OpCode::LShl,
        0x7a => OpCode::IShr,
        0x7b => OpCode::LShr,
        0x7c => OpCode::IUShr,
        0x7d => OpCode::LUShr,
        0x7e => OpCode::IAnd,
        0x7f => OpCode::LAnd,
        0x80 => OpCode::IOr,
        0x81 => OpCode::LOr,
        0x82 => OpCode::IXOr,
        0x83 => OpCode::LXOr,
        0x85 => OpCode::I2L,
        0x86 => OpCode::I2F,
        0x87 => OpCode::I2D,
        0x88 => OpCode::L2I,
        0x89 => OpCode::L2F,
        0x8a => OpCode::L2D,
        0x8b => OpCode::F2I,
        0x8c => OpCode::F2L,
        0x8d => OpCode::F2D,
        0x8e => OpCode::D2I,
        0x8f => OpCode::D2L,
        0x90 => OpCode::D2F,
        0x91 => OpCode::I2B,
        0x92 => OpCode::I2C,
        0x93 => OpCode::I2S,
        0x94 => OpCode::LCmp,
        0x95 => OpCode::FCmpL,
        0x96 => OpCode::FCmpG,
        0x97 => OpCode::DCmpL,
        0x98 => OpCode::DCmpG,
        0xac => OpCode::IReturn,
        0xad => OpCode::LReturn,
        0xae => OpCode::FReturn,
        0xaf => OpCode::DReturn,
        0xb0 => OpCode::AReturn,
        0xb1 => OpCode::Return,
        0xbe => OpCode::ArrayLength,
        0xbf => OpCode::Throw,
        0xc2 => OpCode::MonitorEnter,
        0xc3 => OpCode::MonitorExit,
        _ => OpCode::Reserved,
    }
}

/// The instruction of opcode byte `op` with operand `v`.
pub open spec fn spec_u8_op(op: u8, v: u8) -> SpecOpCode {
    if op == 0x12 {
        SpecOpCode::LoadConst(v as u16)
    } else if op == 0x15 {
        SpecOpCode::ILoad(v)
    } else if op == 0x16 {
        SpecOpCode::LLoad(v)
    } else if op == 0x17 {
        SpecOpCode::FLoad(v)
    } else if op == 0x18 {
        SpecOpCode::DLoad(v)
    } else if op == 0x19 {
        SpecOpCode::ALoad(v)
    } else if op == 0x36 {
        SpecOpCode::IStore(v)
    } else if op == 0x37 {
        SpecOpCode::LStore(v)
    } else if op == 0x38 {
        SpecOpCode::FStore(v)
    } else if op == 0x39 {
        SpecOpCode::DStore(v)
    } else if op == 0x3a {
        SpecOpCode::AStore(v)
    } else if op == 0xbc {
        SpecOpCode::NewArray(v)
    } else {
        SpecOpCode::Reserved
    }
}

fn u8_op(op: u8, v: u8) -> (r: OpCode)
    ensures
        r.deep_view() == spec_u8_op(op, v),
{
    match op {
        0x12 => OpCode::LoadConst(v as u16),
        0x15 => OpCode::ILoad(v),
        0x16 => OpCode::LLoad(v),
        0x17 => OpCode::FLoad(v),
        0x18 => OpCode::DLoad(v),
        0x19 => OpCode::ALoad(v),
        0x36 => OpCode::IStore(v),
        0x37 => OpCode::LStore(v),
        0x38 => OpCode::FStore(v),
        0x39 => OpCode::DStore(v),
        0x3a => OpCode::AStore(v),
        0xbc => OpCode::NewArray(v),
        _ => OpCode::Reserved,
    }
}

/// The instruction of opcode byte `op` with operand `v`.
pub open spec fn spec_i8_op(op: u8, v: i8) -> SpecOpCode {
    if op == 0x10 {
        SpecOpCode::BIPush(v)
    } else {
        SpecOpCode::Reserved
    }
}

fn i8_op(op: u8, v: i8) -> (r: OpCode)
    ensures
        r.deep_view() == spec_i8_op(op, v),
{
    match op {
        0x10 => OpCode::BIPush(v),
        _ => OpCode::Reserved,
    }
}

/// The instruction of opcode byte `op` with operand `v`.
pub open spec fn spec_i16_op(op: u8, v: i16) -> SpecOpCode {
    if op == 0x11 {
        SpecOpCode::SIPush(v)
    } else if op == 0x99 {
        SpecOpCode::IfZero(v)
    } else if op == 0x9a {
        SpecOpCode::IfNotZero(v)
    } else if op == 0x9b {
        SpecOpCode::IfLessZero(v)
    } else if op == 0x9c {
        SpecOpCode::IfGreterEqualZero(v)
    } else if op == 0x9d {
        SpecOpCode::IfGreterZero(v)
    } else if op == 0x9e {
        SpecOpCode::IfLessEqualZero(v)
    } else if op == 0x9f {
        SpecOpCode::IfICmpEq(v)
    } else if op == 0xa0 {
        SpecOpCode::IfICmpNe(v)
    } else if op == 0xa1 {
        SpecOpCode::IfICmpLessThan(v)
    } else if op == 0xa2 {
        SpecOpCode::IfIGreterEqual(v)
    } else if op == 0xa3 {
        SpecOpCode::IfICmpGreater(v)
    } else if op == 0xa4 {
        SpecOpCode::IfICmpLessEqual(v)
    } else if op == 0xa5 {
        SpecOpCode::IfACmpEq(v)
    } else if op == 0xa6 {
        SpecOpCode::IfACmpNe(v)
    } else if op == 0xa7 {
        SpecOpCode::GoTo(v)
    } else if op == 0xc6 {
        SpecOpCode::IfNull(v)
    } else if op == 0xc7 {
        SpecOpCode::IfNotNull(v)
    } else {
        SpecOpCode::Reserved
    }
}

fn i16_op(op: u8, v: i16) -> (r: OpCode)
    ensures
        r.deep_view() == spec_i16_op(op, v),
{
    match op {
        0x11 => OpCode::SIPush(v),
        0x99 => OpCode::IfZero(v),
        0x9a => OpCode::IfNotZero(v),
        0x9b => OpCode::IfLessZero(v),
        0x9c => OpCode::IfGreterEqualZero(v),
        0x9d => OpCode::IfGreterZero(v),
        0x9e => OpCode::IfLessEqualZero(v),
        0x9f => OpCode::IfICmpEq(v),
        0xa0 => OpCode::IfICmpNe(v),
        0xa1 => OpCode::IfICmpLessThan(v),
        0xa2 => OpCode::IfIGreterEqual(v),
        0xa3 => OpCode::IfICmpGreater(v),
        0xa4 => OpCode::IfICmpLessEqual(v),
        0xa5 => OpCode::IfACmpEq(v),
        0xa6 => OpCode::IfACmpNe(v),
        0xa7 => OpCode::GoTo(v),
        0xc6 => OpCode::IfNull(v),
        0xc7 => OpCode::IfNotNull(v),
        _ => OpCode::Reserved,
    }
}

/// The instruction of opcode byte `op` with operand `v`.
pub open spec fn spec_u16_op(op: u8, v: u16) -> SpecOpCode {
    if op == 0x13 {
        SpecOpCode::LoadConst(v)
    } else if op == 0x14 {
        SpecOpCode::LoadConst(v)
    } else if op == 0xb2 {
        SpecOpCode::GetStatic(v)
    } else if op == 0xb3 {
        SpecOpCode::PutStatic(v)
    } else if op == 0xb4 {
        SpecOpCode::GetField(v)
    } else if op == 0xb5 {
        SpecOpCode::PutField(v)
    } else if op == 0xb6 {
        SpecOpCode::InvokeVirtual(v)
    } else if op == 0xb7 {
        SpecOpCode::InvokeSpecial(v)
    } else if op == 0xb8 {
        SpecOpCode::InvokeStatic(v)
    } else if op == 0xbb {
        SpecOpCode::New(v)
    } else if op == 0xbd {
        SpecOpCode::ANewArray(v)
    } else if op == 0xc0 {
        SpecOpCode::CheckCast(v)
    } else if op == 0xc1 {
        SpecOpCode::InstanceOf(v)
    } else {
        SpecOpCode::Reserved
    }
}

fn u16_op(op: u8, v: u16) -> (r: OpCode)
    ensures
        r.deep_view() == spec_u16_op(op, v),
{
    match op {
        0x13 => OpCode::LoadConst(v),
        0x14 => OpCode::LoadConst(v),
        0xb2 => OpCode::GetStatic(v),
        0xb3 => OpCode::PutStatic(v),
        0xb4 => OpCode::GetField(v),
        0xb5 => OpCode::PutField(v),
        0xb6 => OpCode::InvokeVirtual(v),
        0xb7 => OpCode::InvokeSpecial(v),
        0xb8 => OpCode::InvokeStatic(v),
        0xbb => OpCode::New(v),
        0xbd => OpCode::ANewArray(v),
        0xc0 => OpCode::CheckCast(v),
        0xc1 => OpCode::InstanceOf(v),
        _ => OpCode::Reserved,
    }
}


/// Adds `k` to an instruction offset, which must stay within 16 bits.
pub open spec fn bump(off: int, k: int) -> Result<int, Failure> {
    if off + k > 0xffff { Err(Failure::Abort(Abort::OffsetOverflow)) } else { Ok(off + k) }
}

/// An instruction whose operands end at `q`, with `k` operand bytes added to
/// the offset `off`.
pub open spec fn then_bump(c: SpecOpCode, q: int, off: int, k: int) -> Result<(SpecOpCode, int, int), Failure> {
    match bump(off, k) {
        Ok(o) => Ok((c, q, o)),
        Err(e) => Err(e),
    }
}

/// The match pairs of a `lookupswitch` table: `n` pairs of big-endian `i32`s.
pub open spec fn spec_switch_pairs(s: Seq<u8>, p: int, off: int, n: int) -> Result<(Seq<(i32, i32)>, int, int), Failure>
    decreases n,
{
    if n <= 0 {
        Ok((Seq::empty(), p, off))
    } else {
        match spec_i32(s, p) {
            Err(e) => Err(e),
            Ok((value, p1)) => match bump(off, 4) {
                Err(e) => Err(e),
                Ok(off1) => match spec_i32(s, p1) {
                    Err(e) => Err(e),
                    Ok((target, p2)) => match bump(off1, 4) {
                        Err(e) => Err(e),
                        Ok(off2) => match spec_switch_pairs(s, p2, off2, n - 1) {
                            Err(e) => Err(e),
                            Ok((rest, p3, off3)) => Ok((seq![(value, target)] + rest, p3, off3)),
                        },
                    },
                },
            },
        }
    }
}

/// The operands of a `lookupswitch` whose opcode byte ends at offset `off`:
/// padding to a multiple of four, the default target, the pair count, the
/// pairs.
pub open spec fn spec_lookup_switch(s: Seq<u8>, p: int, off: int) -> Result<(SpecOpCode, int, int), Failure> {
    let to_next = (4 - off % 4) % 4;
    match spec_bytes(s, p, to_next) {
        Err(e) => Err(e),
        Ok((_, p1)) => match bump(off, to_next) {
            Err(e) => Err(e),
            Ok(off1) => match spec_i32(s, p1) {
                Err(e) => Err(e),
                Ok((default_offset, p2)) => match bump(off1, 4) {
                    Err(e) => Err(e),
                    Ok(off2) => match spec_i32(s, p2) {
                        Err(e) => Err(e),
                        Ok((npairs, p3)) => match bump(off2, 4) {
                            Err(e) => Err(e),
                            Ok(off3) => if npairs < 0 {
                                Err(Failure::Abort(Abort::NegativeSwitchPairs))
                            } else {
                                match spec_switch_pairs(s, p3, off3, npairs as int) {
                                    Err(e) => Err(e),
                                    Ok((pairs, p4, off4)) => Ok((SpecOpCode::LookupSwitch(default_offset, pairs), p4, off4)),
                                }
                            },
                        },
                    },
                },
            },
        },
    }
}

/// The operands of opcode byte `op`, read at `p`, whose opcode byte ends at
/// offset `off`.
pub open spec fn spec_decode_operands(s: Seq<u8>, p: int, off: int, op: u8) -> Result<(SpecOpCode, int, int), Failure> {
    let shape = op_shape(op);
    if shape == Shape::Simple {
        Ok((spec_simple_op(op), p, off))
    } else if shape == Shape::U8 {
        match spec_u8(s, p) {
            Ok((v, q)) => then_bump(spec_u8_op(op, v), q, off, 1),
            Err(e) => Err(e),
        }
    } else if shape == Shape::I8 {
        match spec_i8(s, p) {
            Ok((v, q)) => then_bump(spec_i8_op(op, v), q, off, 1),
            Err(e) => Err(e),
        }
    } else if shape == Shape::I16 {
        match spec_i16(s, p) {
            Ok((v, q)) => then_bump(spec_i16_op(op, v), q, off, 2),
            Err(e) => Err(e),
        }
    } else if shape == Shape::U16 {
        match spec_u16(s, p) {
            Ok((v, q)) => then_bump(spec_u16_op(op, v), q, off, 2),
            Err(e) => Err(e),
        }
    } else if shape == Shape::IInc {
        match spec_u8(s, p) {
            Err(e) => Err(e),
            Ok((var, q1)) => match spec_i8(s, q1) {
                Err(e) => Err(e),
                Ok((incr, q2)) => then_bump(SpecOpCode::IInc(var, incr), q2, off, 2),
            },
        }
    } else if shape == Shape::Interface {
        match spec_u16(s, p) {
            Err(e) => Err(e),
            Ok((index, q1)) => match spec_u8(s, q1) {
                Err(e) => Err(e),
                Ok((_count, q2)) => match spec_u8(s, q2) {
                    Err(e) => Err(e),
                    Ok((zero, q3)) => if zero != 0 {
                        Err(Failure::Abort(Abort::InterfaceCallNotZero))
                    } else {
                        then_bump(SpecOpCode::InvokeInterface(index), q3, off, 4)
                    },
                },
            },
        }
    } else if shape == Shape::Dynamic {
        match spec_u16(s, p) {
            Err(e) => Err(e),
            Ok((index, q1)) => match spec_u16(s, q1) {
                Err(e) => Err(e),
                Ok((zeroes, q2)) => if zeroes != 0 {
                    Err(Failure::Abort(Abort::DynamicCallNotZero))
                } else {
                    then_bump(SpecOpCode::InvokeDynamic(index), q2, off, 4)
                },
            },
        }
    } else if shape == Shape::MultiANew {
        match spec_u16(s, p) {
            Err(e) => Err(e),
            Ok((index, q1)) => match spec_u8(s, q1) {
                Err(e) => Err(e),
                Ok((dims, q2)) => then_bump(SpecOpCode::MultiANewArray(index, dims), q2, off, 3),
            },
        }
    } else if shape == Shape::LookupSwitch {
        spec_lookup_switch(s, p, off)
    } else if shape == Shape::TableSwitch {
        Err(Failure::Io(IoFailure::TableSwitchUnsupported))
    } else if shape == Shape::Wide {
        Err(Failure::Io(IoFailure::WideUnsupported))
    } else if shape == Shape::Reserved {
        Err(Failure::Io(IoFailure::ReservedOpcode(op)))
    } else {
        Err(Failure::Abort(Abort::UnhandledOpcode(op)))
    }
}

/// One instruction read at byte position `p`, at offset `off` in the code:
/// the instruction, the position after it and the offset after it.
pub open spec fn spec_decode_op(s: Seq<u8>, p: int, off: int) -> Result<(SpecOpCode, int, int), Failure> {
    match spec_u8(s, p) {
        Err(e) => Err(e),
        Ok((op, p1)) => match bump(off, 1) {
            Err(e) => Err(e),
            Ok(off1) => spec_decode_operands(s, p1, off1, op),
        },
    }
}

/// The instructions read from position `p` while their offset, starting at
/// `off`, stays below `code_length`; each is paired with its own offset.
pub open spec fn spec_ops(s: Seq<u8>, p: int, off: int, code_length: int) -> Result<(Seq<(SpecOpCode, u16)>, int), Failure>
    decreases 0x10000 - off,
{
    if off >= code_length || off < 0 || off > 0xffff {
        Ok((Seq::empty(), p))
    } else {
        match spec_decode_op(s, p, off) {
            Err(e) => Err(e),
            Ok((op, p1, off1)) => if off < off1 <= 0xffff {
                match spec_ops(s, p1, off1, code_length) {
                    Err(e) => Err(e),
                    Ok((rest, p2)) => Ok((seq![(op, off as u16)] + rest, p2)),
                }
            } else {
                Err(Failure::Abort(Abort::OffsetOverflow))
            },
        }
    }
}

/// The instructions of a method's code of `code_length` bytes, read at `p`.
pub open spec fn spec_load_ops(s: Seq<u8>, p: int, code_length: u32) -> Result<(Seq<(SpecOpCode, u16)>, int), Failure> {
    spec_ops(s, p, 0, code_length as int)
}

/// The result of a decoding step in spec terms.
pub open spec fn lift_op(r: Result<(OpCode, usize, u32), Failure>) -> Result<(SpecOpCode, int, int), Failure> {
    match r {
        Ok((c, q, o)) => Ok((c.deep_view(), q as int, o as int)),
        Err(e) => Err(e),
    }
}

fn bump_exec(off: u32, k: u32) -> (r: Result<u32, Failure>)
    requires
        off <= 0xffff,
        k <= 4,
    ensures
        r matches Ok(o) ==> bump(off as int, k as int) == Ok::<int, Failure>(o as int) && o == off + k,
        r matches Err(e) ==> bump(off as int, k as int) == Err::<int, Failure>(e),
{
    if off + k > 0xffff {
        Err(Failure::Abort(Abort::OffsetOverflow))
    } else {
        Ok(off + k)
    }
}

fn switch_pairs(data: &[u8], pos: usize, off: u32, n: i32) -> (r: Result<(Vec<(i32, i32)>, usize, u32), Failure>)
    requires
        off <= 0xffff,
    ensures
        match (r, spec_switch_pairs(data@, pos as int, off as int, n as int)) {
            (Ok((v, q, o)), Ok((w, p, f))) => v@ == w && q as int == p && o as int == f && off <= o <= 0xffff,
            (Err(e1), Err(e2)) => e1 == e2,
            _ => false,
        },
{
    let mut pairs: Vec<(i32, i32)> = Vec::new();
    if n <= 0 {
        return Ok((pairs, pos, off));
    }
    let mut p = pos;
    let mut o = off;
    let mut i: i32 = 0;
    let ghost whole = spec_switch_pairs(data@, pos as int, off as int, n as int);
    while i < n
        invariant
            0 <= i <= n,
            off <= o <= 0xffff,
            whole == spec_switch_pairs(data@, pos as int, off as int, n as int),
            match spec_switch_pairs(data@, p as int, o as int, (n - i) as int) {
                Ok((rest, q, f)) => whole == Ok::<(Seq<(i32, i32)>, int, int), Failure>((pairs@ + rest, q, f)),
                Err(e) => whole == Err::<(Seq<(i32, i32)>, int, int), Failure>(e),
            },
        decreases n - i,
    {
        let (value, p1) = match load_i32(data, p) {
            Ok(x) => x,
            Err(e) => return Err(e),
        };
        let o1 = match bump_exec(o, 4) {
            Ok(x) => x,
            Err(e) => return Err(e),
        };
        let (target, p2) = match load_i32(data, p1) {
            Ok(x) => x,
            Err(e) => return Err(e),
        };
        let o2 = match bump_exec(o1, 4) {
            Ok(x) => x,
            Err(e) => return Err(e),
        };
        let ghost before = pairs@;
        pairs.push((value, target));
        proof {
            match spec_switch_pairs(data@, p2 as int, o2 as int, (n - i - 1) as int) {
                Ok((rest, q, f)) => {
                    assert(before + (seq![(value, target)] + rest) =~= pairs@ + rest);
                },
                Err(e) => {},
            }
        }
        p = p2;
        o = o2;
        i = i + 1;
    }
    proof {
        assert(pairs@ + Seq::<(i32, i32)>::empty() =~= pairs@);
    }
    Ok((pairs, p, o))
}

fn lookup_switch(data: &[u8], pos: usize, off: u32) -> (r: Result<(OpCode, usize, u32), Failure>)
    requires
        off <= 0xffff,
    ensures
        lift_op(r) == spec_lookup_switch(data@, pos as int, off as int),
        r matches Ok((_, _, o)) ==> o <= 0xffff && o >= off,
{
    let to_next = (4 - off % 4) % 4;
    let (_pad, p1) = match load_bytes(data, pos, to_next as usize) {
        Ok(x) => x,
        Err(e) => return Err(e),
    };
    let off1 = match bump_exec(off, to_next) {
        Ok(x) => x,
        Err(e) => return Err(e),
    };
    let (default_offset, p2) = match load_i32(data, p1) {
        Ok(x) => x,
        Err(e) => return Err(e),
    };
    let off2 = match bump_exec(off1, 4) {
        Ok(x) => x,
        Err(e) => return Err(e),
    };
    let (npairs, p3) = match load_i32(data, p2) {
        Ok(x) => x,
        Err(e) => return Err(e),
    };
    let off3 = match bump_exec(off2, 4) {
        Ok(x) => x,
        Err(e) => return Err(e),
    };
    if npairs < 0 {
        return Err(Failure::Abort(Abort::NegativeSwitchPairs));
    }
    match switch_pairs(data, p3, off3, npairs) {
        Ok((pairs, p4, off4)) => Ok((OpCode::LookupSwitch(Box::new(LookupSwitch { default_offset, pairs })), p4, off4)),
        Err(e) => Err(e),
    }
}

fn then_bump_exec(c: OpCode, q: usize, off: u32, k: u32) -> (r: Result<(OpCode, usize, u32), Failure>)
    requires
        off <= 0xffff,
        k <= 4,
    ensures
        lift_op(r) == then_bump(c.deep_view(), q as int, off as int, k as int),
        r matches Ok((_, _, o)) ==> o <= 0xffff && o == off + k,
{
    match bump_exec(off, k) {
        Ok(o) => Ok((c, q, o)),
        Err(e) => Err(e),
    }
}

fn decode_operands(data: &[u8], pos: usize, off: u32, op: u8) -> (r: Result<(OpCode, usize, u32), Failure>)
    requires
        off <= 0xffff,
    ensures
        lift_op(r) == spec_decode_operands(data@, pos as int, off as int, op),
        r matches Ok((_, _, o)) ==> o <= 0xffff && o >= off,
{
    let shape = shape_of(op);
    match shape {
        Shape::Simple => Ok((simple_op(op), pos, off)),
        Shape::U8 => match load_u8(data, pos) {
            Ok((v, q)) => then_bump_exec(u8_op(op, v), q, off, 1),
            Err(e) => Err(e),
        },
        Shape::I8 => match load_i8(data, pos) {
            Ok((v, q)) => then_bump_exec(i8_op(op, v), q, off, 1),
            Err(e) => Err(e),
        },
        Shape::I16 => match load_i16(data, pos) {
            Ok((v, q)) => then_bump_exec(i16_op(op, v), q, off, 2),
            Err(e) => Err(e),
        },
        Shape::U16 => match load_u16(data, pos) {
            Ok((v, q)) => then_bump_exec(u16_op(op, v), q, off, 2),
            Err(e) => Err(e),
        },
        Shape::IInc => {
            let (var, q1) = match load_u8(data, pos) {
                Ok(x) => x,
                Err(e) => return Err(e),
            };
            let (incr, q2) = match load_i8(data, q1) {
                Ok(x) => x,
                Err(e) => return Err(e),
            };
            then_bump_exec(OpCode::IInc(var, incr), q2, off, 2)
        },
        Shape::Interface => {
            let (index, q1) = match load_u16(data, pos) {
                Ok(x) => x,
                Err(e) => return Err(e),
            };
            let (_count, q2) = match load_u8(data, q1) {
                Ok(x) => x,
                Err(e) => return Err(e),
            };
            let (zero, q3) = match load_u8(data, q2) {
                Ok(x) => x,
                Err(e) => return Err(e),
            };
            if zero != 0 {
                return Err(Failure::Abort(Abort::InterfaceCallNotZero));
            }
            then_bump_exec(OpCode::InvokeInterface(index), q3, off, 4)
        },
        Shape::Dynamic => {
            let (index, q1) = match load_u16(data, pos) {
                Ok(x) => x,
                Err(e) => return Err(e),
            };
            let (zeroes, q2) = match load_u16(data, q1) {
                Ok(x) => x,
                Err(e) => return Err(e),
            };
            if zeroes != 0 {
                return Err(Failure::Abort(Abort::DynamicCallNotZero));
            }
            then_bump_exec(OpCode::InvokeDynamic(index), q2, off, 4)
        },
        Shape::MultiANew => {
            let (index, q1) = match load_u16(data, pos) {
                Ok(x) => x,
                Err(e) => return Err(e),
            };
            let (dims, q2) = match load_u8(data, q1) {
                Ok(x) => x,
                Err(e) => return Err(e),
            };
            then_bump_exec(OpCode::MultiANewArray(index, dims), q2, off, 3)
        },
        Shape::LookupSwitch => lookup_switch(data, pos, off),
        Shape::TableSwitch => Err(Failure::Io(IoFailure::TableSwitchUnsupported)),
        Shape::Wide => Err(Failure::Io(IoFailure::WideUnsupported)),
        Shape::Reserved => Err(Failure::Io(IoFailure::ReservedOpcode(op))),
        Shape::Unhandled => Err(Failure::Abort(Abort::UnhandledOpcode(op))),
    }
}

/// Reads one instruction at `pos`, whose offset in the code is `off`.
pub fn decode_op(data: &[u8], pos: usize, off: u32) -> (r: Result<(OpCode, usize, u32), Failure>)
    requires
        off <= 0xffff,
    ensures
        lift_op(r) == spec_decode_op(data@, pos as int, off as int),
        r matches Ok((_, _, o)) ==> off < o <= 0xffff,
{
    let (op, p1) = match load_u8(data, pos) {
        Ok(x) => x,
        Err(e) => return Err(e),
    };
    let off1 = match bump_exec(off, 1) {
        Ok(x) => x,
        Err(e) => return Err(e),
    };
    decode_operands(data, p1, off1, op)
}

/// The ops already read, put before the outcome of reading the rest.
pub open spec fn prepend_ops(done: Seq<(SpecOpCode, u16)>, r: Result<(Seq<(SpecOpCode, u16)>, int), Failure>) -> Result<(Seq<(SpecOpCode, u16)>, int), Failure> {
    match r {
        Ok((rest, q)) => Ok((done + rest, q)),
        Err(e) => Err(e),
    }
}

/// Reads the instructions of a method's code: while the offset of the next
/// instruction is below `code_length`, one instruction is read and paired
/// with its offset.
pub fn load_ops(data: &[u8], pos: usize, code_length: u32) -> (r: Result<(Vec<(OpCode, u16)>, usize), Failure>)
    ensures
        lift(r) == spec_load_ops(data@, pos as int, code_length),
{
    let mut curr_offset: u32 = 0;
    let mut p = pos;
    let mut ops: Vec<(OpCode, u16)> = Vec::new();
    let ghost whole = spec_load_ops(data@, pos as int, code_length);
    while curr_offset < code_length
        invariant
            curr_offset <= 0xffff,
            whole == spec_load_ops(data@, pos as int, code_length),
            whole == prepend_ops(ops.deep_view(), spec_ops(data@, p as int, curr_offset as int, code_length as int)),
        decreases 0x10000 - curr_offset,
    {
        let op_offset = curr_offset as u16;
        let (op, p1, off1) = match decode_op(data, p, curr_offset) {
            Ok(x) => x,
            Err(e) => return Err(e),
        };
        let ghost before = ops.deep_view();
        let ghost sop = op.deep_view();
        ops.push((op, op_offset));
        proof {
            assert(ops.deep_view() =~= before.push((sop, op_offset)));
            match spec_ops(data@, p1 as int, off1 as int, code_length as int) {
                Ok((rest, q)) => {
                    assert(before + (seq![(sop, op_offset)] + rest) =~= ops.deep_view() + rest);
                },
                Err(e) => {},
            }
        }
        p = p1;
        curr_offset = off1;
    }
    proof {
        assert(ops.deep_view() + Seq::<(SpecOpCode, u16)>::empty() =~= ops.deep_view());
    }
    Ok((ops, p))
}


/// The instructions of a method come in the order of their byte offsets,
/// each at a larger offset than the one before, the first at the starting
/// offset and all below the code's length.
pub proof fn law_offsets_increase(s: Seq<u8>, p: int, off: int, code_length: int)
    ensures
        match spec_ops(s, p, off, code_length) {
            Ok((ops, _)) => {
                &&& forall|i: int, j: int| 0 <= i < j < ops.len() ==> ops[i].1 < ops[j].1
                &&& forall|i: int| 0 <= i < ops.len() ==> off <= (#[trigger] ops[i]).1 < code_length
                &&& ops.len() > 0 ==> ops[0].1 == off
            },
            Err(_) => true,
        },
    decreases 0x10000 - off,
{
    if !(off >= code_length || off < 0 || off > 0xffff) {
        if let Ok((op, p1, off1)) = spec_decode_op(s, p, off) {
            if off < off1 <= 0xffff {
                law_offsets_increase(s, p1, off1, code_length);
                if let Ok((rest, p2)) = spec_ops(s, p1, off1, code_length) {
                    let ops = seq![(op, off as u16)] + rest;
                    assert forall|i: int, j: int| 0 <= i < j < ops.len() implies ops[i].1 < ops[j].1 by {
                        if i > 0 {
                            assert(ops[i] == rest[i - 1] && ops[j] == rest[j - 1]);
                        } else {
                            assert(ops[j] == rest[j - 1]);
                        }
                    }
                    assert forall|i: int| 0 <= i < ops.len() implies off <= (#[trigger] ops[i]).1 < code_length by {
                        if i > 0 {
                            assert(ops[i] == rest[i - 1]);
                        }
                    }
                }
            }
        }
    }
}


/// Whether the JVM's instruction set gives opcode byte `b` to instruction
/// `c`: its own opcode, or the short form that holds its operand (such as
/// `iload_2`, 0x1c, for `ILoad(2)`).
pub open spec fn jvm_opcode(c: SpecOpCode, b: u8) -> bool {
    match c {
        SpecOpCode::Nop => b == 0x00,
        SpecOpCode::AConstNull => b == 0x01,
        SpecOpCode::IConst(v) => -1 <= v <= 5 && b as int == 3 + v,
        SpecOpCode::LConst(v) => 0 <= v <= 1 && b as int == 9 + v,
        SpecOpCode::FConst(bits) => (bits == 0u32 && b == 0x0b) || (bits == 0x3f80_0000u32 && b == 0x0c)
            || (bits == 0x4000_0000u32 && b == 0x0d),
        SpecOpCode::DConst(bits) => (bits == 0u64 && b == 0x0e) || (bits == 0x3ff0_0000_0000_0000u64 && b == 0x0f),
        SpecOpCode::BIPush(_) => b == 0x10,
        SpecOpCode::SIPush(_) => b == 0x11,
        SpecOpCode::LoadConst(_) => b == 0x12 || b == 0x13 || b == 0x14,
        SpecOpCode::ILoad(v) => b == 0x15 || (v < 4 && b as int == 0x1a + v),
        SpecOpCode::LLoad(v) => b == 0x16 || (v < 4 && b as int == 0x1e + v),
        SpecOpCode::FLoad(v) => b == 0x17 || (v < 4 && b as int == 0x22 + v),
        SpecOpCode::DLoad(v) => b == 0x18 || (v < 4 && b as int == 0x26 + v),
        SpecOpCode::ALoad(v) => b == 0x19 || (v < 4 && b as int == 0x2a + v),
        SpecOpCode::IALoad => b == 0x2e,
        SpecOpCode::LALoad => b == 0x2f,
        SpecOpCode::FALoad => b == 0x30,
        SpecOpCode::DALoad => b == 0x31,
        SpecOpCode::AALoad => b == 0x32,
        SpecOpCode::BALoad => b == 0x33,
        SpecOpCode::CALoad => b == 0x34,
        SpecOpCode::SALoad => b == 0x35,
        SpecOpCode::IStore(v) => b == 0x36 || (v < 4 && b as int == 0x3b + v),
        SpecOpCode::LStore(v) => b == 0x37 || (v < 4 && b as int == 0x3f + v),
        SpecOpCode::FStore(v) => b == 0x38 || (v < 4 && b as int == 0x43 + v),
        SpecOpCode::DStore(v) => b == 0x39 || (v < 4 && b as int == 0x47 + v),
        SpecOpCode::AStore(v) => b == 0x3a || (v < 4 && b as int == 0x4b + v),
        SpecOpCode::IAStore => b == 0x4f,
        SpecOpCode::LAStore => b == 0x50,
        SpecOpCode::FAStore => b == 0x51,
        SpecOpCode::DAStore => b == 0x52,
        SpecOpCode::AAStore => b == 0x53,
        SpecOpCode::BAStore => b == 0x54,
        SpecOpCode::CAStore => b == 0x55,
        SpecOpCode::SAStore => b == 0x56,
        SpecOpCode::Pop => b == 0x57,
        SpecOpCode::Pop2 => b == 0x58,
        SpecOpCode::Dup => b == 0x59,
        SpecOpCode::DupX1 => b == 0x5a,
        SpecOpCode::DupX2 => b == 0x5b,
        SpecOpCode::Dup2 => b == 0x5c,
        SpecOpCode::Dup2X1 => b == 0x5d,
        SpecOpCode::Dup2X2 => b == 0x5e,
        SpecOpCode::Swap => b == 0x5f,
        SpecOpCode::IAdd => b == 0x60,
        SpecOpCode::LAdd => b == 0x61,
        SpecOpCode::FAdd => b == 0x62,
        SpecOpCode::DAdd => b == 0x63,
        SpecOpCode::ISub => b == 0x64,
        SpecOpCode::LSub => b == 0x65,
        SpecOpCode::FSub => b == 0x66,
        SpecOpCode::DSub => b == 0x67,
        SpecOpCode::IMul => b == 0x68,
        SpecOpCode::LMul => b == 0x69,
        SpecOpCode::FMul => b == 0x6a,
        SpecOpCode::DMul => b == 0x6b,
        SpecOpCode::IDiv => b == 0x6c,
        SpecOpCode::LDiv => b == 0x6d,
        SpecOpCode::FDiv => b == 0x6e,
        SpecOpCode::DDiv => b == 0x6f,
        SpecOpCode::IRem => b == 0x70,
        SpecOpCode::LRem => b == 0x71,
        SpecOpCode::FRem => b == 0x72,
        SpecOpCode::DRem => b == 0x73,
        SpecOpCode::INeg => b == 0x74,
        SpecOpCode::LNeg => b == 0x75,
        SpecOpCode::FNeg => b == 0x76,
        SpecOpCode::DNeg => b == 0x77,
        SpecOpCode::IShl => b == 0x78,
        SpecOpCode::LShl => b == 0x79,
        SpecOpCode::IShr => b == 0x7a,
        SpecOpCode::LShr => b == 0x7b,
        SpecOpCode::IUShr => b == 0x7c,
        SpecOpCode::LUShr => b == 0x7d,
        SpecOpCode::IAnd => b == 0x7e,
        SpecOpCode::LAnd => b == 0x7f,
        SpecOpCode::IOr => b == 0x80,
        SpecOpCode::LOr => b == 0x81,
        SpecOpCode::IXOr => b == 0x82,
        SpecOpCode::LXOr => b == 0x83,
        SpecOpCode::IInc(_, _) => b == 0x84,
        SpecOpCode::I2L => b == 0x85,
        SpecOpCode::I2F => b == 0x86,
        SpecOpCode::I2D => b == 0x87,
        SpecOpCode::L2I => b == 0x88,
        SpecOpCode::L2F => b == 0x89,
        SpecOpCode::L2D => b == 0x8a,
        SpecOpCode::F2I => b == 0x8b,
        SpecOpCode::F2L => b == 0x8c,
        SpecOpCode::F2D => b == 0x8d,
        SpecOpCode::D2I => b == 0x8e,
        SpecOpCode::D2L => b == 0x8f,
        SpecOpCode::D2F => b == 0x90,
        SpecOpCode::I2B => b == 0x91,
        SpecOpCode::I2C => b == 0x92,
        SpecOpCode::I2S => b == 0x93,
        SpecOpCode::LCmp => b == 0x94,
        SpecOpCode::FCmpL => b == 0x95,
        SpecOpCode::FCmpG => b == 0x96,
        SpecOpCode::DCmpL => b == 0x97,
        SpecOpCode::DCmpG => b == 0x98,
        SpecOpCode::IfZero(_) => b == 0x99,
        SpecOpCode::IfNotZero(_) => b == 0x9a,
        SpecOpCode::IfLessZero(_) => b == 0x9b,
        SpecOpCode::IfGreterEqualZero(_) => b == 0x9c,
        SpecOpCode::IfGreterZero(_) => b == 0x9d,
        SpecOpCode::IfLessEqualZero(_) => b == 0x9e,
        SpecOpCode::IfICmpEq(_) => b == 0x9f,
        SpecOpCode::IfICmpNe(_) => b == 0xa0,
        SpecOpCode::IfICmpLessThan(_) => b == 0xa1,
        SpecOpCode::IfIGreterEqual(_) => b == 0xa2,
        SpecOpCode::IfICmpGreater(_) => b == 0xa3,
        SpecOpCode::IfICmpLessEqual(_) => b == 0xa4,
        SpecOpCode::IfACmpEq(_) => b == 0xa5,
        SpecOpCode::IfACmpNe(_) => b == 0xa6,
        SpecOpCode::GoTo(_) => b == 0xa7,
        SpecOpCode::LookupSwitch(_, _) => b == 0xab,
        SpecOpCode::IReturn => b == 0xac,
        SpecOpCode::LReturn => b == 0xad,
        SpecOpCode::FReturn => b == 0xae,
        SpecOpCode::DReturn => b == 0xaf,
        SpecOpCode::AReturn => b == 0xb0,
        SpecOpCode::Return => b == 0xb1,
        SpecOpCode::GetStatic(_) => b == 0xb2,
        SpecOpCode::PutStatic(_) => b == 0xb3,
        SpecOpCode::GetField(_) => b == 0xb4,
        SpecOpCode::PutField(_) => b == 0xb5,
        SpecOpCode::InvokeVirtual(_) => b == 0xb6,
        SpecOpCode::InvokeSpecial(_) => b == 0xb7,
        SpecOpCode::InvokeStatic(_) => b == 0xb8,
        SpecOpCode::InvokeInterface(_) => b == 0xb9,
        SpecOpCode::InvokeDynamic(_) => b == 0xba,
        SpecOpCode::New(_) => b == 0xbb,
        SpecOpCode::NewArray(_) => b == 0xbc,
        SpecOpCode::ANewArray(_) => b == 0xbd,
        SpecOpCode::ArrayLength => b == 0xbe,
        SpecOpCode::Throw => b == 0xbf,
        SpecOpCode::CheckCast(_) => b == 0xc0,
        SpecOpCode::InstanceOf(_) => b == 0xc1,
        SpecOpCode::MonitorEnter => b == 0xc2,
        SpecOpCode::MonitorExit => b == 0xc3,
        SpecOpCode::MultiANewArray(_, _) => b == 0xc5,
        SpecOpCode::IfNull(_) => b == 0xc6,
        SpecOpCode::IfNotNull(_) => b == 0xc7,
        _ => false,
    }
}

proof fn lemma_simple_op_byte(op: u8)
    requires
        op_shape(op) == Shape::Simple,
    ensures
        jvm_opcode(spec_simple_op(op), op),
{
}

proof fn lemma_operand_op_byte(op: u8, v8: u8, i8v: i8, v16: i16, u16v: u16)
    ensures
        op_shape(op) == Shape::U8 ==> jvm_opcode(spec_u8_op(op, v8), op),
        op_shape(op) == Shape::I8 ==> jvm_opcode(spec_i8_op(op, i8v), op),
        op_shape(op) == Shape::I16 ==> jvm_opcode(spec_i16_op(op, v16), op),
        op_shape(op) == Shape::U16 ==> jvm_opcode(spec_u16_op(op, u16v), op),
{
}

proof fn lemma_lookup_switch_shape(s: Seq<u8>, p: int, off: int)
    ensures
        spec_lookup_switch(s, p, off) matches Ok((c, _, _)) ==> c is LookupSwitch,
{
}

/// Each instruction decoded is one that its opcode byte stands for in the
/// JVM's instruction set: decoding never gives one instruction for the
/// opcode of another, so two opcodes give the same instruction only where
/// the JVM defines one as a short form of the other.
pub proof fn law_decoded_op_matches_opcode(s: Seq<u8>, p: int, off: int)
    requires
        spec_decode_op(s, p, off) is Ok,
    ensures
        0 <= p < s.len(),
        jvm_opcode(spec_decode_op(s, p, off)->Ok_0.0, s[p]),
{
    assert(spec_u8(s, p) is Ok);
    let op = s[p];
    let p1 = p + 1;
    let off1 = bump(off, 1)->Ok_0;
    assert(spec_decode_op(s, p, off) == spec_decode_operands(s, p1, off1, op));
    let shape = op_shape(op);
    if shape == Shape::Simple {
        lemma_simple_op_byte(op);
    } else if shape == Shape::U8 {
        let v = spec_u8(s, p1)->Ok_0.0;
        lemma_operand_op_byte(op, v, 0, 0, 0);
    } else if shape == Shape::I8 {
        let v = spec_i8(s, p1)->Ok_0.0;
        lemma_operand_op_byte(op, 0, v, 0, 0);
    } else if shape == Shape::I16 {
        let v = spec_i16(s, p1)->Ok_0.0;
        lemma_operand_op_byte(op, 0, 0, v, 0);
    } else if shape == Shape::U16 {
        let v = spec_u16(s, p1)->Ok_0.0;
        lemma_operand_op_byte(op, 0, 0, 0, v);
    } else if shape == Shape::LookupSwitch {
        assert(op == 0xab);
        lemma_lookup_switch_shape(s, p1, off1);
    }
}

} // verus!
