//! Instructions with their constant-pool references and jumps resolved.
use vstd::prelude::*;
use crate::importer::opcodes::{OpCode, SpecOpCode};
use crate::importer::attribute::SpecAttribute;
use crate::importer::{
    ImportedJavaClass, ConstantItem, SpecConstantItem, in_pool, spec_lookup_utf8, class_lookup_ok,
    spec_lookup_class, first_bootstrap_from,
};
use crate::executor::{FieldType, spec_descriptor_ftype, ftype_of};
use crate::vartype::{argc_readable, argc_desc_readable};
use crate::mangling::{ascii, is_ascii_str, spec_mangle_method_name, mangle_method_name_partial};
use crate::{spec_interp_method_name, spec_paren_span_len, mangle_method_name, method_desc_to_argc};
use crate::text::{to_owned_string, str_contains_char};

verus! {

/// An instruction with its constant-pool references resolved to names.
#[derive(Debug)]
pub enum FatOp {
    AConstNull,
    IConst(i32),
    BConst(i8),
    SConst(i16),
    LConst(i64),
    StringConst(String),
    ClassConst(String),
    FConst(u32),
    DConst(u64),
    ALoad(u8),
    DLoad(u8),
    FLoad(u8),
    ILoad(u8),
    LLoad(u8),
    AStore(u8),
    DStore(u8),
    FStore(u8),
    IStore(u8),
    LStore(u8),
    DAdd,
    FAdd,
    IAdd,
    LAdd,
    IMul,
    FMul,
    ISub,
    DSub,
    FSub,
    LSub,
    IRem,
    IShr,
    LShr,
    IShl,
    LShl,
    IDiv,
    FDiv,
    IAnd,
    LAnd,
    IOr,
    LOr,
    IXOr,
    LXOr,
    INeg,
    LUShr,
    LUShl,
    InvokeSpecial(String, u8),
    InvokeStatic(String, u8),
    InvokeInterface(String, u8),
    InvokeDynamic,
    InvokeVirtual(String, String, u8, String),
    ZGetStatic(String, String),
    BGetStatic(String, String),
    SGetStatic(String, String),
    IGetStatic(String, String),
    LGetStatic(String, String),
    FGetStatic(String, String),
    DGetStatic(String, String),
    AGetStatic(String, String),
    CGetStatic(String, String),
    ZPutStatic(String, String),
    BPutStatic(String, String),
    SPutStatic(String, String),
    IPutStatic(String, String),
    LPutStatic(String, String),
    FPutStatic(String, String),
    DPutStatic(String, String),
    APutStatic(String, String),
    CPutStatic(String, String),
    ZGetField(String, String),
    BGetField(String, String),
    SGetField(String, String),
    IGetField(String, String),
    LGetField(String, String),
    FGetField(String, String),
    DGetField(String, String),
    AGetField(String, String),
    CGetField(String, String),
    ZPutField(String, String),
    BPutField(String, String),
    SPutField(String, String),
    IPutField(String, String),
    LPutField(String, String),
    FPutField(String, String),
    DPutField(String, String),
    APutField(String, String),
    CPutField(String, String),
    Dup,
    Dup2,
    Pop,
    Pop2,
    Return,
    AReturn,
    FReturn,
    IReturn,
    DReturn,
    LReturn,
    F2D,
    D2F,
    I2L,
    L2I,
    New(String),
    ANewArray(String),
    CheckedCast(String),
    InstanceOf(String),
    AAStore,
    AALoad,
    BALoad,
    CALoad,
    DALoad,
    FALoad,
    IALoad,
    LALoad,
    LCmp,
    ArrayLength,
    IfIGreterEqual(usize),
    IfGreterEqualZero(usize),
    IfGreterZero(usize),
    IfLessZero(usize),
    IfLessEqualZero(usize),
    IfNull(usize),
    IfNotNull(usize),
    IfZero(usize),
    IfNotZero(usize),
    IfICmpNe(usize),
    IfICmpEq(usize),
    IfACmpNe(usize),
    IfICmpLessEqual(usize),
    IfICmpLess(usize),
    GoTo(usize),
    IInc(u8, i8),
    Throw,
    DMul,
    DDiv,
    LMul,
    LDiv,
    LRem,
    FRem,
    I2F,
    FCmpL,
    FCmpG,
    DCmpL,
    DCmpG,
}

/// The mathematical value of a `FatOp`.
pub enum SpecFatOp {
    AConstNull,
    IConst(i32),
    BConst(i8),
    SConst(i16),
    LConst(i64),
    StringConst(Seq<char>),
    ClassConst(Seq<char>),
    FConst(u32),
    DConst(u64),
    ALoad(u8),
    DLoad(u8),
    FLoad(u8),
    ILoad(u8),
    LLoad(u8),
    AStore(u8),
    DStore(u8),
    FStore(u8),
    IStore(u8),
    LStore(u8),
    DAdd,
    FAdd,
    IAdd,
    LAdd,
    IMul,
    FMul,
    ISub,
    DSub,
    FSub,
    LSub,
    IRem,
    IShr,
    LShr,
    IShl,
    LShl,
    IDiv,
    FDiv,
    IAnd,
    LAnd,
    IOr,
    LOr,
    IXOr,
    LXOr,
    INeg,
    LUShr,
    LUShl,
    InvokeSpecial(Seq<char>, u8),
    InvokeStatic(Seq<char>, u8),
    InvokeInterface(Seq<char>, u8),
    InvokeDynamic,
    InvokeVirtual(Seq<char>, Seq<char>, u8, Seq<char>),
    ZGetStatic(Seq<char>, Seq<char>),
    BGetStatic(Seq<char>, Seq<char>),
    SGetStatic(Seq<char>, Seq<char>),
    IGetStatic(Seq<char>, Seq<char>),
    LGetStatic(Seq<char>, Seq<char>),
    FGetStatic(Seq<char>, Seq<char>),
    DGetStatic(Seq<char>, Seq<char>),
    AGetStatic(Seq<char>, Seq<char>),
    CGetStatic(Seq<char>, Seq<char>),
    ZPutStatic(Seq<char>, Seq<char>),
    BPutStatic(Seq<char>, Seq<char>),
    SPutStatic(Seq<char>, Seq<char>),
    IPutStatic(Seq<char>, Seq<char>),
    LPutStatic(Seq<char>, Seq<char>),
    FPutStatic(Seq<char>, Seq<char>),
    DPutStatic(Seq<char>, Seq<char>),
    APutStatic(Seq<char>, Seq<char>),
    CPutStatic(Seq<char>, Seq<char>),
    ZGetField(Seq<char>, Seq<char>),
    BGetField(Seq<char>, Seq<char>),
    SGetField(Seq<char>, Seq<char>),
    IGetField(Seq<char>, Seq<char>),
    LGetField(Seq<char>, Seq<char>),
    FGetField(Seq<char>, Seq<char>),
    DGetField(Seq<char>, Seq<char>),
    AGetField(Seq<char>, Seq<char>),
    CGetField(Seq<char>, Seq<char>),
    ZPutField(Seq<char>, Seq<char>),
    BPutField(Seq<char>, Seq<char>),
    SPutField(Seq<char>, Seq<char>),
    IPutField(Seq<char>, Seq<char>),
    LPutField(Seq<char>, Seq<char>),
    FPutField(Seq<char>, Seq<char>),
    DPutField(Seq<char>, Seq<char>),
    APutField(Seq<char>, Seq<char>),
    CPutField(Seq<char>, Seq<char>),
    Dup,
    Dup2,
    Pop,
    Pop2,
    Return,
    AReturn,
    FReturn,
    IReturn,
    DReturn,
    LReturn,
    F2D,
    D2F,
    I2L,
    L2I,
    New(Seq<char>),
    ANewArray(Seq<char>),
    CheckedCast(Seq<char>),
    InstanceOf(Seq<char>),
    AAStore,
    AALoad,
    BALoad,
    CALoad,
    DALoad,
    FALoad,
    IALoad,
    LALoad,
    LCmp,
    ArrayLength,
    IfIGreterEqual(usize),
    IfGreterEqualZero(usize),
    IfGreterZero(usize),
    IfLessZero(usize),
    IfLessEqualZero(usize),
    IfNull(usize),
    IfNotNull(usize),
    IfZero(usize),
    IfNotZero(usize),
    IfICmpNe(usize),
    IfICmpEq(usize),
    IfACmpNe(usize),
    IfICmpLessEqual(usize),
    IfICmpLess(usize),
    GoTo(usize),
    IInc(u8, i8),
    Throw,
    DMul,
    DDiv,
    LMul,
    LDiv,
    LRem,
    FRem,
    I2F,
    FCmpL,
    FCmpG,
    DCmpL,
    DCmpG,
}

impl DeepView for FatOp {
    type V = SpecFatOp;

    open spec fn deep_view(&self) -> SpecFatOp {
        match self {
            FatOp::AConstNull => SpecFatOp::AConstNull,
            FatOp::IConst(x0) => SpecFatOp::IConst(*x0),
            FatOp::BConst(x0) => SpecFatOp::BConst(*x0),
            FatOp::SConst(x0) => SpecFatOp::SConst(*x0),
            FatOp::LConst(x0) => SpecFatOp::LConst(*x0),
            FatOp::StringConst(x0) => SpecFatOp::StringConst(x0@),
            FatOp::ClassConst(x0) => SpecFatOp::ClassConst(x0@),
            FatOp::FConst(x0) => SpecFatOp::FConst(*x0),
            FatOp::DConst(x0) => SpecFatOp::DConst(*x0),
            FatOp::ALoad(x0) => SpecFatOp::ALoad(*x0),
            FatOp::DLoad(x0) => SpecFatOp::DLoad(*x0),
            FatOp::FLoad(x0) => SpecFatOp::FLoad(*x0),
            FatOp::ILoad(x0) => SpecFatOp::ILoad(*x0),
            FatOp::LLoad(x0) => SpecFatOp::LLoad(*x0),
            FatOp::AStore(x0) => SpecFatOp::AStore(*x0),
            FatOp::DStore(x0) => SpecFatOp::DStore(*x0),
            FatOp::FStore(x0) => SpecFatOp::FStore(*x0),
            FatOp::IStore(x0) => SpecFatOp::IStore(*x0),
            FatOp::LStore(x0) => SpecFatOp::LStore(*x0),
            FatOp::DAdd => SpecFatOp::DAdd,
            FatOp::FAdd => SpecFatOp::FAdd,
            FatOp::IAdd => SpecFatOp::IAdd,
            FatOp::LAdd => SpecFatOp::LAdd,
            FatOp::IMul => SpecFatOp::IMul,
            FatOp::FMul => SpecFatOp::FMul,
            FatOp::ISub => SpecFatOp::ISub,
            FatOp::DSub => SpecFatOp::DSub,
            FatOp::FSub => SpecFatOp::FSub,
            FatOp::LSub => SpecFatOp::LSub,
            FatOp::IRem => SpecFatOp::IRem,
            FatOp::IShr => SpecFatOp::IShr,
            FatOp::LShr => SpecFatOp::LShr,
            FatOp::IShl => SpecFatOp::IShl,
            FatOp::LShl => SpecFatOp::LShl,
            FatOp::IDiv => SpecFatOp::IDiv,
            FatOp::FDiv => SpecFatOp::FDiv,
            FatOp::IAnd => SpecFatOp::IAnd,
            FatOp::LAnd => SpecFatOp::LAnd,
            FatOp::IOr => SpecFatOp::IOr,
            FatOp::LOr => SpecFatOp::LOr,
            FatOp::IXOr => SpecFatOp::IXOr,
            FatOp::LXOr => SpecFatOp::LXOr,
            FatOp::INeg => SpecFatOp::INeg,
            FatOp::LUShr => SpecFatOp::LUShr,
            FatOp::LUShl => SpecFatOp::LUShl,
            FatOp::InvokeSpecial(x0, x1) => SpecFatOp::InvokeSpecial(x0@, *x1),
            FatOp::InvokeStatic(x0, x1) => SpecFatOp::InvokeStatic(x0@, *x1),
            FatOp::InvokeInterface(x0, x1) => SpecFatOp::InvokeInterface(x0@, *x1),
            FatOp::InvokeDynamic => SpecFatOp::InvokeDynamic,
            FatOp::InvokeVirtual(x0, x1, x2, x3) => SpecFatOp::InvokeVirtual(x0@, x1@, *x2, x3@),
            FatOp::ZGetStatic(x0, x1) => SpecFatOp::ZGetStatic(x0@, x1@),
            FatOp::BGetStatic(x0, x1) => SpecFatOp::BGetStatic(x0@, x1@),
            FatOp::SGetStatic(x0, x1) => SpecFatOp::SGetStatic(x0@, x1@),
            FatOp::IGetStatic(x0, x1) => SpecFatOp::IGetStatic(x0@, x1@),
            FatOp::LGetStatic(x0, x1) => SpecFatOp::LGetStatic(x0@, x1@),
            FatOp::FGetStatic(x0, x1) => SpecFatOp::FGetStatic(x0@, x1@),
            FatOp::DGetStatic(x0, x1) => SpecFatOp::DGetStatic(x0@, x1@),
            FatOp::AGetStatic(x0, x1) => SpecFatOp::AGetStatic(x0@, x1@),
            FatOp::CGetStatic(x0, x1) => SpecFatOp::CGetStatic(x0@, x1@),
            FatOp::ZPutStatic(x0, x1) => SpecFatOp::ZPutStatic(x0@, x1@),
            FatOp::BPutStatic(x0, x1) => SpecFatOp::BPutStatic(x0@, x1@),
            FatOp::SPutStatic(x0, x1) => SpecFatOp::SPutStatic(x0@, x1@),
            FatOp::IPutStatic(x0, x1) => SpecFatOp::IPutStatic(x0@, x1@),
            FatOp::LPutStatic(x0, x1) => SpecFatOp::LPutStatic(x0@, x1@),
            FatOp::FPutStatic(x0, x1) => SpecFatOp::FPutStatic(x0@, x1@),
            FatOp::DPutStatic(x0, x1) => SpecFatOp::DPutStatic(x0@, x1@),
            FatOp::APutStatic(x0, x1) => SpecFatOp::APutStatic(x0@, x1@),
            FatOp::CPutStatic(x0, x1) => SpecFatOp::CPutStatic(x0@, x1@),
            FatOp::ZGetField(x0, x1) => SpecFatOp::ZGetField(x0@, x1@),
            FatOp::BGetField(x0, x1) => SpecFatOp::BGetField(x0@, x1@),
            FatOp::SGetField(x0, x1) => SpecFatOp::SGetField(x0@, x1@),
            FatOp::IGetField(x0, x1) => SpecFatOp::IGetField(x0@, x1@),
            FatOp::LGetField(x0, x1) => SpecFatOp::LGetField(x0@, x1@),
            FatOp::FGetField(x0, x1) => SpecFatOp::FGetField(x0@, x1@),
            FatOp::DGetField(x0, x1) => SpecFatOp::DGetField(x0@, x1@),
            FatOp::AGetField(x0, x1) => SpecFatOp::AGetField(x0@, x1@),
            FatOp::CGetField(x0, x1) => SpecFatOp::CGetField(x0@, x1@),
            FatOp::ZPutField(x0, x1) => SpecFatOp::ZPutField(x0@, x1@),
            FatOp::BPutField(x0, x1) => SpecFatOp::BPutField(x0@, x1@),
            FatOp::SPutField(x0, x1) => SpecFatOp::SPutField(x0@, x1@),
            FatOp::IPutField(x0, x1) => SpecFatOp::IPutField(x0@, x1@),
            FatOp::LPutField(x0, x1) => SpecFatOp::LPutField(x0@, x1@),
            FatOp::FPutField(x0, x1) => SpecFatOp::FPutField(x0@, x1@),
            FatOp::DPutField(x0, x1) => SpecFatOp::DPutField(x0@, x1@),
            FatOp::APutField(x0, x1) => SpecFatOp::APutField(x0@, x1@),
            FatOp::CPutField(x0, x1) => SpecFatOp::CPutField(x0@, x1@),
            FatOp::Dup => SpecFatOp::Dup,
            FatOp::Dup2 => SpecFatOp::Dup2,
            FatOp::Pop => SpecFatOp::Pop,
            FatOp::Pop2 => SpecFatOp::Pop2,
            FatOp::Return => SpecFatOp::Return,
            FatOp::AReturn => SpecFatOp::AReturn,
            FatOp::FReturn => SpecFatOp::FReturn,
            FatOp::IReturn => SpecFatOp::IReturn,
            FatOp::DReturn => SpecFatOp::DReturn,
            FatOp::LReturn => SpecFatOp::LReturn,
            FatOp::F2D => SpecFatOp::F2D,
            FatOp::D2F => SpecFatOp::D2F,
            FatOp::I2L => SpecFatOp::I2L,
            FatOp::L2I => SpecFatOp::L2I,
            FatOp::New(x0) => SpecFatOp::New(x0@),
            FatOp::ANewArray(x0) => SpecFatOp::ANewArray(x0@),
            FatOp::CheckedCast(x0) => SpecFatOp::CheckedCast(x0@),
            FatOp::InstanceOf(x0) => SpecFatOp::InstanceOf(x0@),
            FatOp::AAStore => SpecFatOp::AAStore,
            FatOp::AALoad => SpecFatOp::AALoad,
            FatOp::BALoad => SpecFatOp::BALoad,
            FatOp::CALoad => SpecFatOp::CALoad,
            FatOp::DALoad => SpecFatOp::DALoad,
            FatOp::FALoad => SpecFatOp::FALoad,
            FatOp::IALoad => SpecFatOp::IALoad,
            FatOp::LALoad => SpecFatOp::LALoad,
            FatOp::LCmp => SpecFatOp::LCmp,
            FatOp::ArrayLength => SpecFatOp::ArrayLength,
            FatOp::IfIGreterEqual(x0) => SpecFatOp::IfIGreterEqual(*x0),
            FatOp::IfGreterEqualZero(x0) => SpecFatOp::IfGreterEqualZero(*x0),
            FatOp::IfGreterZero(x0) => SpecFatOp::IfGreterZero(*x0),
            FatOp::IfLessZero(x0) => SpecFatOp::IfLessZero(*x0),
            FatOp::IfLessEqualZero(x0) => SpecFatOp::IfLessEqualZero(*x0),
            FatOp::IfNull(x0) => SpecFatOp::IfNull(*x0),
            FatOp::IfNotNull(x0) => SpecFatOp::IfNotNull(*x0),
            FatOp::IfZero(x0) => SpecFatOp::IfZero(*x0),
            FatOp::IfNotZero(x0) => SpecFatOp::IfNotZero(*x0),
            FatOp::IfICmpNe(x0) => SpecFatOp::IfICmpNe(*x0),
            FatOp::IfICmpEq(x0) => SpecFatOp::IfICmpEq(*x0),
            FatOp::IfACmpNe(x0) => SpecFatOp::IfACmpNe(*x0),
            FatOp::IfICmpLessEqual(x0) => SpecFatOp::IfICmpLessEqual(*x0),
            FatOp::IfICmpLess(x0) => SpecFatOp::IfICmpLess(*x0),
            FatOp::GoTo(x0) => SpecFatOp::GoTo(*x0),
            FatOp::IInc(x0, x1) => SpecFatOp::IInc(*x0, *x1),
            FatOp::Throw => SpecFatOp::Throw,
            FatOp::DMul => SpecFatOp::DMul,
            FatOp::DDiv => SpecFatOp::DDiv,
            FatOp::LMul => SpecFatOp::LMul,
            FatOp::LDiv => SpecFatOp::LDiv,
            FatOp::LRem => SpecFatOp::LRem,
            FatOp::FRem => SpecFatOp::FRem,
            FatOp::I2F => SpecFatOp::I2F,
            FatOp::FCmpL => SpecFatOp::FCmpL,
            FatOp::FCmpG => SpecFatOp::FCmpG,
            FatOp::DCmpL => SpecFatOp::DCmpL,
            FatOp::DCmpG => SpecFatOp::DCmpG,
        }
    }
}

/// The resolved form of an instruction that needs nothing from the constant
/// pool and is no branch; `None` for the others.
pub open spec fn spec_plain_fat_op(op: SpecOpCode) -> Option<SpecFatOp> {
    match op {
        SpecOpCode::AConstNull => Some(SpecFatOp::AConstNull),
        SpecOpCode::DMul => Some(SpecFatOp::DMul),
        SpecOpCode::DDiv => Some(SpecFatOp::DDiv),
        SpecOpCode::LMul => Some(SpecFatOp::LMul),
        SpecOpCode::LDiv => Some(SpecFatOp::LDiv),
        SpecOpCode::LRem => Some(SpecFatOp::LRem),
        SpecOpCode::FRem => Some(SpecFatOp::FRem),
        SpecOpCode::I2F => Some(SpecFatOp::I2F),
        SpecOpCode::FCmpL => Some(SpecFatOp::FCmpL),
        SpecOpCode::FCmpG => Some(SpecFatOp::FCmpG),
        SpecOpCode::DCmpL => Some(SpecFatOp::DCmpL),
        SpecOpCode::DCmpG => Some(SpecFatOp::DCmpG),
        SpecOpCode::LCmp => Some(SpecFatOp::LCmp),
        SpecOpCode::F2D => Some(SpecFatOp::F2D),
        SpecOpCode::D2F => Some(SpecFatOp::D2F),
        SpecOpCode::ISub => Some(SpecFatOp::ISub),
        SpecOpCode::DSub => Some(SpecFatOp::DSub),
        SpecOpCode::FSub => Some(SpecFatOp::FSub),
        SpecOpCode::LSub => Some(SpecFatOp::LSub),
        SpecOpCode::IAdd => Some(SpecFatOp::IAdd),
        SpecOpCode::FAdd => Some(SpecFatOp::FAdd),
        SpecOpCode::LAdd => Some(SpecFatOp::LAdd),
        SpecOpCode::IMul => Some(SpecFatOp::IMul),
        SpecOpCode::FMul => Some(SpecFatOp::FMul),
        SpecOpCode::IDiv => Some(SpecFatOp::IDiv),
        SpecOpCode::FDiv => Some(SpecFatOp::FDiv),
        SpecOpCode::IRem => Some(SpecFatOp::IRem),
        SpecOpCode::IShr => Some(SpecFatOp::IShr),
        SpecOpCode::LShr => Some(SpecFatOp::LShr),
        SpecOpCode::IShl => Some(SpecFatOp::IShl),
        SpecOpCode::LShl => Some(SpecFatOp::LShl),
        SpecOpCode::LUShr => Some(SpecFatOp::LUShr),
        SpecOpCode::LUShl => Some(SpecFatOp::LUShl),
        SpecOpCode::IAnd => Some(SpecFatOp::IAnd),
        SpecOpCode::LAnd => Some(SpecFatOp::LAnd),
        SpecOpCode::IOr => Some(SpecFatOp::IOr),
        SpecOpCode::LOr => Some(SpecFatOp::LOr),
        SpecOpCode::IXOr => Some(SpecFatOp::IXOr),
        SpecOpCode::LXOr => Some(SpecFatOp::LXOr),
        SpecOpCode::INeg => Some(SpecFatOp::INeg),
        SpecOpCode::I2L => Some(SpecFatOp::I2L),
        SpecOpCode::L2I => Some(SpecFatOp::L2I),
        SpecOpCode::Dup => Some(SpecFatOp::Dup),
        SpecOpCode::Pop => Some(SpecFatOp::Pop),
        SpecOpCode::Pop2 => Some(SpecFatOp::Pop2),
        SpecOpCode::Return => Some(SpecFatOp::Return),
        SpecOpCode::AReturn => Some(SpecFatOp::AReturn),
        SpecOpCode::FReturn => Some(SpecFatOp::FReturn),
        SpecOpCode::IReturn => Some(SpecFatOp::IReturn),
        SpecOpCode::LReturn => Some(SpecFatOp::LReturn),
        SpecOpCode::DReturn => Some(SpecFatOp::DReturn),
        SpecOpCode::AAStore => Some(SpecFatOp::AAStore),
        SpecOpCode::AALoad => Some(SpecFatOp::AALoad),
        SpecOpCode::BALoad => Some(SpecFatOp::BALoad),
        SpecOpCode::CALoad => Some(SpecFatOp::CALoad),
        SpecOpCode::DALoad => Some(SpecFatOp::DALoad),
        SpecOpCode::FALoad => Some(SpecFatOp::FALoad),
        SpecOpCode::IALoad => Some(SpecFatOp::IALoad),
        SpecOpCode::LALoad => Some(SpecFatOp::LALoad),
        SpecOpCode::ArrayLength => Some(SpecFatOp::ArrayLength),
        SpecOpCode::Throw => Some(SpecFatOp::Throw),
        SpecOpCode::IConst(x0) => Some(SpecFatOp::IConst(x0)),
        SpecOpCode::FConst(x0) => Some(SpecFatOp::FConst(x0)),
        SpecOpCode::LConst(x0) => Some(SpecFatOp::LConst(x0)),
        SpecOpCode::BIPush(x0) => Some(SpecFatOp::BConst(x0)),
        SpecOpCode::SIPush(x0) => Some(SpecFatOp::SConst(x0)),
        SpecOpCode::ALoad(x0) => Some(SpecFatOp::ALoad(x0)),
        SpecOpCode::ILoad(x0) => Some(SpecFatOp::ILoad(x0)),
        SpecOpCode::LLoad(x0) => Some(SpecFatOp::LLoad(x0)),
        SpecOpCode::AStore(x0) => Some(SpecFatOp::AStore(x0)),
        SpecOpCode::DStore(x0) => Some(SpecFatOp::DStore(x0)),
        SpecOpCode::FStore(x0) => Some(SpecFatOp::FStore(x0)),
        SpecOpCode::IStore(x0) => Some(SpecFatOp::IStore(x0)),
        SpecOpCode::LStore(x0) => Some(SpecFatOp::LStore(x0)),
        SpecOpCode::FLoad(x0) => Some(SpecFatOp::FLoad(x0)),
        SpecOpCode::IInc(x0, x1) => Some(SpecFatOp::IInc(x0, x1)),
        _ => None,
    }
}

/// The resolved form of an instruction that needs nothing from the constant
/// pool and is no branch.
pub fn plain_fat_op(op: &OpCode) -> (r: Option<FatOp>)
    ensures
        match spec_plain_fat_op(op.deep_view()) {
            Some(f) => r matches Some(g) && g.deep_view() == f,
            None => r is None,
        },
{
    match op {
        OpCode::AConstNull => Some(FatOp::AConstNull),
        OpCode::DMul => Some(FatOp::DMul),
        OpCode::DDiv => Some(FatOp::DDiv),
        OpCode::LMul => Some(FatOp::LMul),
        OpCode::LDiv => Some(FatOp::LDiv),
        OpCode::LRem => Some(FatOp::LRem),
        OpCode::FRem => Some(FatOp::FRem),
        OpCode::I2F => Some(FatOp::I2F),
        OpCode::FCmpL => Some(FatOp::FCmpL),
        OpCode::FCmpG => Some(FatOp::FCmpG),
        OpCode::DCmpL => Some(FatOp::DCmpL),
        OpCode::DCmpG => Some(FatOp::DCmpG),
        OpCode::LCmp => Some(FatOp::LCmp),
        OpCode::F2D => Some(FatOp::F2D),
        OpCode::D2F => Some(FatOp::D2F),
        OpCode::ISub => Some(FatOp::ISub),
        OpCode::DSub => Some(FatOp::DSub),
        OpCode::FSub => Some(FatOp::FSub),
        OpCode::LSub => Some(FatOp::LSub),
        OpCode::IAdd => Some(FatOp::IAdd),
        OpCode::FAdd => Some(FatOp::FAdd),
        OpCode::LAdd => Some(FatOp::LAdd),
        OpCode::IMul => Some(FatOp::IMul),
        OpCode::FMul => Some(FatOp::FMul),
        OpCode::IDiv => Some(FatOp::IDiv),
        OpCode::FDiv => Some(FatOp::FDiv),
        OpCode::IRem => Some(FatOp::IRem),
        OpCode::IShr => Some(FatOp::IShr),
        OpCode::LShr => Some(FatOp::LShr),
        OpCode::IShl => Some(FatOp::IShl),
        OpCode::LShl => Some(FatOp::LShl),
        OpCode::LUShr => Some(FatOp::LUShr),
        OpCode::LUShl => Some(FatOp::LUShl),
        OpCode::IAnd => Some(FatOp::IAnd),
        OpCode::LAnd => Some(FatOp::LAnd),
        OpCode::IOr => Some(FatOp::IOr),
        OpCode::LOr => Some(FatOp::LOr),
        OpCode::IXOr => Some(FatOp::IXOr),
        OpCode::LXOr => Some(FatOp::LXOr),
        OpCode::INeg => Some(FatOp::INeg),
        OpCode::I2L => Some(FatOp::I2L),
        OpCode::L2I => Some(FatOp::L2I),
        OpCode::Dup => Some(FatOp::Dup),
        OpCode::Pop => Some(FatOp::Pop),
        OpCode::Pop2 => Some(FatOp::Pop2),
        OpCode::Return => Some(FatOp::Return),
        OpCode::AReturn => Some(FatOp::AReturn),
        OpCode::FReturn => Some(FatOp::FReturn),
        OpCode::IReturn => Some(FatOp::IReturn),
        OpCode::LReturn => Some(FatOp::LReturn),
        OpCode::DReturn => Some(FatOp::DReturn),
        OpCode::AAStore => Some(FatOp::AAStore),
        OpCode::AALoad => Some(FatOp::AALoad),
        OpCode::BALoad => Some(FatOp::BALoad),
        OpCode::CALoad => Some(FatOp::CALoad),
        OpCode::DALoad => Some(FatOp::DALoad),
        OpCode::FALoad => Some(FatOp::FALoad),
        OpCode::IALoad => Some(FatOp::IALoad),
        OpCode::LALoad => Some(FatOp::LALoad),
        OpCode::ArrayLength => Some(FatOp::ArrayLength),
        OpCode::Throw => Some(FatOp::Throw),
        OpCode::IConst(x0) => Some(FatOp::IConst(*x0)),
        OpCode::FConst(x0) => Some(FatOp::FConst(*x0)),
        OpCode::LConst(x0) => Some(FatOp::LConst(*x0)),
        OpCode::BIPush(x0) => Some(FatOp::BConst(*x0)),
        OpCode::SIPush(x0) => Some(FatOp::SConst(*x0)),
        OpCode::ALoad(x0) => Some(FatOp::ALoad(*x0)),
        OpCode::ILoad(x0) => Some(FatOp::ILoad(*x0)),
        OpCode::LLoad(x0) => Some(FatOp::LLoad(*x0)),
        OpCode::AStore(x0) => Some(FatOp::AStore(*x0)),
        OpCode::DStore(x0) => Some(FatOp::DStore(*x0)),
        OpCode::FStore(x0) => Some(FatOp::FStore(*x0)),
        OpCode::IStore(x0) => Some(FatOp::IStore(*x0)),
        OpCode::LStore(x0) => Some(FatOp::LStore(*x0)),
        OpCode::FLoad(x0) => Some(FatOp::FLoad(*x0)),
        OpCode::IInc(x0, x1) => Some(FatOp::IInc(*x0, *x1)),
        _ => None,
    }
}

/// The relative jump of a branch instruction, for the branches that are
/// resolved; `None` for other instructions.
pub open spec fn spec_branch_offset(op: SpecOpCode) -> Option<i16> {
    match op {
        SpecOpCode::IfICmpEq(x) => Some(x),
        SpecOpCode::IfNull(x) => Some(x),
        SpecOpCode::IfNotNull(x) => Some(x),
        SpecOpCode::IfZero(x) => Some(x),
        SpecOpCode::IfNotZero(x) => Some(x),
        SpecOpCode::IfICmpNe(x) => Some(x),
        SpecOpCode::IfIGreterEqual(x) => Some(x),
        SpecOpCode::IfGreterEqualZero(x) => Some(x),
        SpecOpCode::IfGreterZero(x) => Some(x),
        SpecOpCode::IfLessZero(x) => Some(x),
        SpecOpCode::IfICmpLessEqual(x) => Some(x),
        SpecOpCode::IfICmpLessThan(x) => Some(x),
        SpecOpCode::IfLessEqualZero(x) => Some(x),
        SpecOpCode::IfACmpNe(x) => Some(x),
        SpecOpCode::GoTo(x) => Some(x),
        _ => None,
    }
}

/// The branch instruction a resolved branch becomes, jumping to instruction
/// `target`.
pub open spec fn spec_branch_fat_op(op: SpecOpCode, target: usize) -> SpecFatOp {
    match op {
        SpecOpCode::IfICmpEq(_) => SpecFatOp::IfICmpEq(target),
        SpecOpCode::IfNull(_) => SpecFatOp::IfNull(target),
        SpecOpCode::IfNotNull(_) => SpecFatOp::IfNotNull(target),
        SpecOpCode::IfZero(_) => SpecFatOp::IfZero(target),
        SpecOpCode::IfNotZero(_) => SpecFatOp::IfNotZero(target),
        SpecOpCode::IfICmpNe(_) => SpecFatOp::IfICmpNe(target),
        SpecOpCode::IfIGreterEqual(_) => SpecFatOp::IfIGreterEqual(target),
        SpecOpCode::IfGreterEqualZero(_) => SpecFatOp::IfGreterEqualZero(target),
        SpecOpCode::IfGreterZero(_) => SpecFatOp::IfGreterZero(target),
        SpecOpCode::IfLessZero(_) => SpecFatOp::IfLessZero(target),
        SpecOpCode::IfICmpLessEqual(_) => SpecFatOp::IfICmpLessEqual(target),
        SpecOpCode::IfICmpLessThan(_) => SpecFatOp::IfICmpLess(target),
        SpecOpCode::IfLessEqualZero(_) => SpecFatOp::IfLessEqualZero(target),
        SpecOpCode::IfACmpNe(_) => SpecFatOp::IfACmpNe(target),
        SpecOpCode::GoTo(_) => SpecFatOp::GoTo(target),
        _ => SpecFatOp::Throw,
    }
}

/// The relative jump of a branch instruction.
pub fn branch_offset(op: &OpCode) -> (r: Option<i16>)
    ensures
        r == spec_branch_offset(op.deep_view()),
{
    match op {
        OpCode::IfICmpEq(x) => Some(*x),
        OpCode::IfNull(x) => Some(*x),
        OpCode::IfNotNull(x) => Some(*x),
        OpCode::IfZero(x) => Some(*x),
        OpCode::IfNotZero(x) => Some(*x),
        OpCode::IfICmpNe(x) => Some(*x),
        OpCode::IfIGreterEqual(x) => Some(*x),
        OpCode::IfGreterEqualZero(x) => Some(*x),
        OpCode::IfGreterZero(x) => Some(*x),
        OpCode::IfLessZero(x) => Some(*x),
        OpCode::IfICmpLessEqual(x) => Some(*x),
        OpCode::IfICmpLessThan(x) => Some(*x),
        OpCode::IfLessEqualZero(x) => Some(*x),
        OpCode::IfACmpNe(x) => Some(*x),
        OpCode::GoTo(x) => Some(*x),
        _ => None,
    }
}

/// The branch instruction a resolved branch becomes.
pub fn branch_fat_op(op: &OpCode, target: usize) -> (r: FatOp)
    ensures
        r.deep_view() == spec_branch_fat_op(op.deep_view(), target),
{
    match op {
        OpCode::IfICmpEq(_) => FatOp::IfICmpEq(target),
        OpCode::IfNull(_) => FatOp::IfNull(target),
        OpCode::IfNotNull(_) => FatOp::IfNotNull(target),
        OpCode::IfZero(_) => FatOp::IfZero(target),
        OpCode::IfNotZero(_) => FatOp::IfNotZero(target),
        OpCode::IfICmpNe(_) => FatOp::IfICmpNe(target),
        OpCode::IfIGreterEqual(_) => FatOp::IfIGreterEqual(target),
        OpCode::IfGreterEqualZero(_) => FatOp::IfGreterEqualZero(target),
        OpCode::IfGreterZero(_) => FatOp::IfGreterZero(target),
        OpCode::IfLessZero(_) => FatOp::IfLessZero(target),
        OpCode::IfICmpLessEqual(_) => FatOp::IfICmpLessEqual(target),
        OpCode::IfICmpLessThan(_) => FatOp::IfICmpLess(target),
        OpCode::IfLessEqualZero(_) => FatOp::IfLessEqualZero(target),
        OpCode::IfACmpNe(_) => FatOp::IfACmpNe(target),
        OpCode::GoTo(_) => FatOp::GoTo(target),
        _ => FatOp::Throw,
    }
}


/// The field instruction a resolved field access becomes, by the access
/// and the field's type.
pub open spec fn spec_field_op(op: SpecOpCode, ft: FieldType, c: Seq<char>, n: Seq<char>) -> SpecFatOp {
    match op {
        SpecOpCode::GetStatic(_) => match ft {
            FieldType::Bool => SpecFatOp::ZGetStatic(c, n),
            FieldType::Byte => SpecFatOp::BGetStatic(c, n),
            FieldType::Short => SpecFatOp::SGetStatic(c, n),
            FieldType::Char => SpecFatOp::CGetStatic(c, n),
            FieldType::Int => SpecFatOp::IGetStatic(c, n),
            FieldType::Long => SpecFatOp::LGetStatic(c, n),
            FieldType::Float => SpecFatOp::FGetStatic(c, n),
            FieldType::Double => SpecFatOp::DGetStatic(c, n),
            FieldType::ObjectRef => SpecFatOp::AGetStatic(c, n),
        },
        SpecOpCode::PutStatic(_) => match ft {
            FieldType::Bool => SpecFatOp::ZPutStatic(c, n),
            FieldType::Byte => SpecFatOp::BPutStatic(c, n),
            FieldType::Short => SpecFatOp::SPutStatic(c, n),
            FieldType::Char => SpecFatOp::CPutStatic(c, n),
            FieldType::Int => SpecFatOp::IPutStatic(c, n),
            FieldType::Long => SpecFatOp::LPutStatic(c, n),
            FieldType::Float => SpecFatOp::FPutStatic(c, n),
            FieldType::Double => SpecFatOp::DPutStatic(c, n),
            FieldType::ObjectRef => SpecFatOp::APutStatic(c, n),
        },
        SpecOpCode::GetField(_) => match ft {
            FieldType::Bool => SpecFatOp::ZGetField(c, n),
            FieldType::Byte => SpecFatOp::BGetField(c, n),
            FieldType::Short => SpecFatOp::SGetField(c, n),
            FieldType::Char => SpecFatOp::CGetField(c, n),
            FieldType::Int => SpecFatOp::IGetField(c, n),
            FieldType::Long => SpecFatOp::LGetField(c, n),
            FieldType::Float => SpecFatOp::FGetField(c, n),
            FieldType::Double => SpecFatOp::DGetField(c, n),
            FieldType::ObjectRef => SpecFatOp::AGetField(c, n),
        },
        SpecOpCode::PutField(_) => match ft {
            FieldType::Bool => SpecFatOp::ZPutField(c, n),
            FieldType::Byte => SpecFatOp::BPutField(c, n),
            FieldType::Short => SpecFatOp::SPutField(c, n),
            FieldType::Char => SpecFatOp::CPutField(c, n),
            FieldType::Int => SpecFatOp::IPutField(c, n),
            FieldType::Long => SpecFatOp::LPutField(c, n),
            FieldType::Float => SpecFatOp::FPutField(c, n),
            FieldType::Double => SpecFatOp::DPutField(c, n),
            FieldType::ObjectRef => SpecFatOp::APutField(c, n),
        },
        _ => SpecFatOp::Throw,
    }
}

/// The field instruction a resolved field access becomes.
fn field_op(op: &OpCode, ft: FieldType, c: String, n: String) -> (r: FatOp)
    ensures
        r.deep_view() == spec_field_op(op.deep_view(), ft, c@, n@),
{
    match op {
        OpCode::GetStatic(_) => match ft {
            FieldType::Bool => FatOp::ZGetStatic(c, n),
            FieldType::Byte => FatOp::BGetStatic(c, n),
            FieldType::Short => FatOp::SGetStatic(c, n),
            FieldType::Char => FatOp::CGetStatic(c, n),
            FieldType::Int => FatOp::IGetStatic(c, n),
            FieldType::Long => FatOp::LGetStatic(c, n),
            FieldType::Float => FatOp::FGetStatic(c, n),
            FieldType::Double => FatOp::DGetStatic(c, n),
            FieldType::ObjectRef => FatOp::AGetStatic(c, n),
        },
        OpCode::PutStatic(_) => match ft {
            FieldType::Bool => FatOp::ZPutStatic(c, n),
            FieldType::Byte => FatOp::BPutStatic(c, n),
            FieldType::Short => FatOp::SPutStatic(c, n),
            FieldType::Char => FatOp::CPutStatic(c, n),
            FieldType::Int => FatOp::IPutStatic(c, n),
            FieldType::Long => FatOp::LPutStatic(c, n),
            FieldType::Float => FatOp::FPutStatic(c, n),
            FieldType::Double => FatOp::DPutStatic(c, n),
            FieldType::ObjectRef => FatOp::APutStatic(c, n),
        },
        OpCode::GetField(_) => match ft {
            FieldType::Bool => FatOp::ZGetField(c, n),
            FieldType::Byte => FatOp::BGetField(c, n),
            FieldType::Short => FatOp::SGetField(c, n),
            FieldType::Char => FatOp::CGetField(c, n),
            FieldType::Int => FatOp::IGetField(c, n),
            FieldType::Long => FatOp::LGetField(c, n),
            FieldType::Float => FatOp::FGetField(c, n),
            FieldType::Double => FatOp::DGetField(c, n),
            FieldType::ObjectRef => FatOp::AGetField(c, n),
        },
        OpCode::PutField(_) => match ft {
            FieldType::Bool => FatOp::ZPutField(c, n),
            FieldType::Byte => FatOp::BPutField(c, n),
            FieldType::Short => FatOp::SPutField(c, n),
            FieldType::Char => FatOp::CPutField(c, n),
            FieldType::Int => FatOp::IPutField(c, n),
            FieldType::Long => FatOp::LPutField(c, n),
            FieldType::Float => FatOp::FPutField(c, n),
            FieldType::Double => FatOp::DPutField(c, n),
            FieldType::ObjectRef => FatOp::APutField(c, n),
        },
        _ => FatOp::Throw,
    }
}

/// The option of a string slice, seen as characters.
pub open spec fn opt_str_view(o: Option<&str>) -> Option<Seq<char>> {
    match o {
        Some(s) => Some(s@),
        None => None,
    }
}

/// The string of the UTF-8 constant at `i`, when `i` is inside the pool.
pub open spec fn spec_utf8_at(items: Seq<SpecConstantItem>, i: u16) -> Option<Seq<char>> {
    if in_pool(items.len() as int, i) {
        spec_lookup_utf8(items, i)
    } else {
        None
    }
}

/// The name of the class at `i`, when looking it up stays inside the pool.
pub open spec fn spec_class_at(items: Seq<SpecConstantItem>, i: u16) -> Option<Seq<char>> {
    if class_lookup_ok(items, i) {
        spec_lookup_class(items, i)
    } else {
        None
    }
}

/// The type, class name and field name of the field reference at `index`.
pub open spec fn spec_fieldref_info(items: Seq<SpecConstantItem>, index: u16) -> Option<(FieldType, Seq<char>, Seq<char>)> {
    if !in_pool(items.len() as int, index) {
        None
    } else {
        match items[index - 1] {
            SpecConstantItem::FieldRef { class_index, name_and_type_index } => {
                if in_pool(items.len() as int, name_and_type_index) {
                    match (spec_class_at(items, class_index), items[name_and_type_index - 1]) {
                        (Some(c), SpecConstantItem::NameAndType { name_index, descriptor_index }) => {
                            match (spec_descriptor_ftype(items, descriptor_index), spec_utf8_at(items, name_index)) {
                                (Some(ft), Some(nm)) => Some((ft, c, nm)),
                                _ => None,
                            }
                        },
                        _ => None,
                    }
                } else {
                    None
                }
            },
            _ => None,
        }
    }
}

/// The class name, method name and descriptor of the method reference at
/// `index`.
pub open spec fn spec_methodref(items: Seq<SpecConstantItem>, index: u16) -> Option<(Seq<char>, Seq<char>, Seq<char>)> {
    if !in_pool(items.len() as int, index) {
        None
    } else {
        match items[index - 1] {
            SpecConstantItem::MethodRef { class_index, name_and_type_index } => {
                if in_pool(items.len() as int, name_and_type_index) {
                    match items[name_and_type_index - 1] {
                        SpecConstantItem::NameAndType { name_index, descriptor_index } => {
                            match (
                                spec_class_at(items, class_index),
                                spec_utf8_at(items, name_index),
                                spec_utf8_at(items, descriptor_index),
                            ) {
                                (Some(c), Some(nm), Some(d)) => Some((c, nm, d)),
                                _ => None,
                            }
                        },
                        _ => None,
                    }
                } else {
                    None
                }
            },
            _ => None,
        }
    }
}

/// The interpreter's name and the argument count of the method referenced
/// at `index`.
pub open spec fn spec_mangled_and_argc(items: Seq<SpecConstantItem>, index: u16) -> Option<(Seq<char>, u8)> {
    match spec_methodref(items, index) {
        Some((c, nm, d)) => if argc_readable(d) {
            Some((spec_interp_method_name(c, nm, d), spec_paren_span_len(d)))
        } else {
            None
        },
        None => None,
    }
}

/// The class, class-less C++ name, argument count and descriptor of the method
/// referenced at `index`.
pub open spec fn spec_partial_mangled_and_argc(items: Seq<SpecConstantItem>, index: u16) -> Option<(Seq<char>, Seq<char>, u8, Seq<char>)> {
    match spec_methodref(items, index) {
        Some((c, nm, d)) => if argc_readable(d) && ascii(d) {
            Some((c, spec_mangle_method_name(nm, d), spec_paren_span_len(d), d))
        } else {
            None
        },
        None => None,
    }
}

/// Whether the invokedynamic entry at `index` leads, through the class's
/// bootstrap methods, to a method handle.
pub open spec fn spec_invoke_dynamic_ok(items: Seq<SpecConstantItem>, attrs: Seq<SpecAttribute>, index: u16) -> bool {
    &&& in_pool(items.len() as int, index)
    &&& match items[index - 1] {
        SpecConstantItem::InvokeDynamic { bootstrap_method_attr_index, .. } => {
            match first_bootstrap_from(attrs, 0) {
                Some(table) => {
                    &&& bootstrap_method_attr_index < table.len()
                    &&& in_pool(items.len() as int, table[bootstrap_method_attr_index as int].0)
                    &&& items[table[bootstrap_method_attr_index as int].0 - 1] is MethodHandle
                },
                None => false,
            }
        },
        _ => false,
    }
}

/// The constant a `ldc` of the entry at `index` pushes: a string or a class.
pub open spec fn spec_load_const(items: Seq<SpecConstantItem>, index: u16) -> Option<SpecFatOp> {
    if 1 <= index < items.len() {
        match items[index - 1] {
            SpecConstantItem::ConstString { string_index } => match spec_utf8_at(items, string_index) {
                Some(s) => Some(SpecFatOp::StringConst(s)),
                None => None,
            },
            SpecConstantItem::Class { name_index } => match spec_utf8_at(items, name_index) {
                Some(s) => Some(SpecFatOp::ClassConst(s)),
                None => None,
            },
            _ => None,
        }
    } else {
        None
    }
}

/// The resolved field instruction of a field access to the entry at `index`.
pub open spec fn spec_field_access(op: SpecOpCode, items: Seq<SpecConstantItem>, index: u16) -> Option<SpecFatOp> {
    match spec_fieldref_info(items, index) {
        Some((ft, c, nm)) => Some(spec_field_op(op, ft, c, nm)),
        None => None,
    }
}

/// A resolved class instruction, or `None` when the class cannot be named.
pub open spec fn spec_class_op(op: SpecOpCode, items: Seq<SpecConstantItem>, index: u16) -> Option<SpecFatOp> {
    match spec_class_at(items, index) {
        Some(c) => match op {
            SpecOpCode::New(_) => Some(SpecFatOp::New(c)),
            SpecOpCode::ANewArray(_) => Some(SpecFatOp::ANewArray(c)),
            SpecOpCode::CheckCast(_) => Some(SpecFatOp::CheckedCast(c)),
            _ => Some(SpecFatOp::InstanceOf(c)),
        },
        None => None,
    }
}

/// The byte offset a branch at `offset` jumps to (kept to 16 bits).
pub open spec fn branch_target(offset: u16, rel: i16) -> u16 {
    (offset as int + rel as int) as u16
}

/// What the instruction `op` at byte offset `offset` of the method `ops`
/// becomes once its constant-pool references and jumps are resolved; `None`
/// where it cannot be resolved (a missing or ill-typed entry, an unknown
/// jump target, an argument count past 255, or an instruction the
/// interpreter does not take).
pub open spec fn spec_expand_op(
    op: SpecOpCode,
    offset: u16,
    ops: Seq<(SpecOpCode, u16)>,
    items: Seq<SpecConstantItem>,
    attrs: Seq<SpecAttribute>,
) -> Option<SpecFatOp> {
    if spec_plain_fat_op(op) is Some {
        spec_plain_fat_op(op)
    } else if spec_branch_offset(op) is Some {
        match first_at_offset(ops, branch_target(offset, spec_branch_offset(op)->0), 0) {
            Some(i) => Some(spec_branch_fat_op(op, i as usize)),
            None => None,
        }
    } else {
        match op {
            SpecOpCode::LoadConst(index) => spec_load_const(items, index),
            SpecOpCode::GetStatic(index) => spec_field_access(op, items, index),
            SpecOpCode::PutStatic(index) => spec_field_access(op, items, index),
            SpecOpCode::GetField(index) => spec_field_access(op, items, index),
            SpecOpCode::PutField(index) => spec_field_access(op, items, index),
            SpecOpCode::New(index) => spec_class_op(op, items, index),
            SpecOpCode::ANewArray(index) => spec_class_op(op, items, index),
            SpecOpCode::CheckCast(index) => spec_class_op(op, items, index),
            SpecOpCode::InstanceOf(index) => spec_class_op(op, items, index),
            SpecOpCode::InvokeSpecial(index) => match spec_mangled_and_argc(items, index) {
                Some((m, a)) => if m.contains('<') {
                    if a < 255 {
                        Some(SpecFatOp::InvokeSpecial(m, (a + 1) as u8))
                    } else {
                        None
                    }
                } else {
                    Some(SpecFatOp::InvokeSpecial(m, a))
                },
                None => None,
            },
            SpecOpCode::InvokeStatic(index) => match spec_mangled_and_argc(items, index) {
                Some((m, a)) => Some(SpecFatOp::InvokeStatic(m, a)),
                None => None,
            },
            SpecOpCode::InvokeVirtual(index) => match spec_partial_mangled_and_argc(items, index) {
                Some((c, m, a, d)) => if a < 255 {
                    Some(SpecFatOp::InvokeVirtual(c, m, (a + 1) as u8, d))
                } else {
                    None
                },
                None => None,
            },
            SpecOpCode::InvokeInterface(index) => match spec_mangled_and_argc(items, index) {
                Some((m, a)) => if a < 255 {
                    Some(SpecFatOp::InvokeInterface(m, (a + 1) as u8))
                } else {
                    None
                },
                None => None,
            },
            SpecOpCode::InvokeDynamic(index) => if spec_invoke_dynamic_ok(items, attrs, index) {
                Some(SpecFatOp::InvokeDynamic)
            } else {
                None
            },
            _ => None,
        }
    }
}

/// The index of the first instruction at or after position `k` whose byte
/// offset is `idx`.
pub open spec fn first_at_offset(ops: Seq<(SpecOpCode, u16)>, idx: u16, k: int) -> Option<int>
    decreases ops.len() - k,
{
    if k < 0 || k >= ops.len() {
        None
    } else if ops[k].1 == idx {
        Some(k)
    } else {
        first_at_offset(ops, idx, k + 1)
    }
}

/// The position of the first instruction at byte offset `idx`.
pub fn find_op_with_offset(ops: &[(OpCode, u16)], idx: u16) -> (r: Option<usize>)
    ensures
        match first_at_offset(ops.deep_view(), idx, 0) {
            Some(i) => r == Some(i as usize),
            None => r is None,
        },
{
    let ghost s = ops.deep_view();
    let mut i: usize = 0;
    while i < ops.len()
        invariant
            i <= ops@.len(),
            s == ops.deep_view(),
            s.len() == ops@.len(),
            first_at_offset(s, idx, 0) == first_at_offset(s, idx, i as int),
        decreases ops@.len() - i,
    {
        assert(s[i as int] == ops@[i as int].deep_view());
        if ops[i].1 == idx {
            return Some(i);
        }
        i = i + 1;
    }
    None
}

/// The string of the UTF-8 constant at `i`, checking that `i` is in the pool.
pub(crate) fn utf8_at(class: &ImportedJavaClass, i: u16) -> (r: Option<&str>)
    ensures
        opt_str_view(r) == spec_utf8_at(class.const_items.deep_view(), i),
{
    assert(class.const_items.deep_view().len() == class.const_items@.len());
    if i < 1 || i as usize > class.const_items.len() {
        return None;
    }
    class.lookup_utf8(i)
}

/// The name of the class at `i`, checking that the lookup stays in the pool.
pub(crate) fn class_at(class: &ImportedJavaClass, i: u16) -> (r: Option<&str>)
    ensures
        opt_str_view(r) == spec_class_at(class.const_items.deep_view(), i),
{
    let ghost items = class.const_items.deep_view();
    assert(items.len() == class.const_items@.len());
    if i < 1 || i as usize > class.const_items.len() {
        return None;
    }
    assert(items[i - 1] == class.const_items@[i - 1].deep_view());
    let ok = match &class.const_items[i as usize - 1] {
        ConstantItem::Class { name_index } => 1 <= *name_index && *name_index as usize <= class.const_items.len(),
        _ => true,
    };
    if !ok {
        return None;
    }
    class.lookup_class(i)
}

/// The type, class name and field name of the field reference at `index`.
fn fieldref_to_info(index: u16, class: &ImportedJavaClass) -> (r: Option<(FieldType, String, String)>)
    ensures
        match r {
            Some((ft, c, nm)) => spec_fieldref_info(class.const_items.deep_view(), index) == Some((ft, c@, nm@)),
            None => spec_fieldref_info(class.const_items.deep_view(), index) is None,
        },
{
    let ghost items = class.const_items.deep_view();
    assert(items.len() == class.const_items@.len());
    let n = class.const_items.len();
    if index < 1 || index as usize > n {
        return None;
    }
    let (field_class, nametype) = match class.lookup_filed_ref(index) {
        Some(p) => p,
        None => return None,
    };
    let field_class = match class_at(class, field_class) {
        Some(c) => c,
        None => return None,
    };
    if nametype < 1 || nametype as usize > n {
        return None;
    }
    let (name, descriptor) = match class.lookup_nametype(nametype) {
        Some(p) => p,
        None => return None,
    };
    if descriptor < 1 || descriptor as usize > n {
        return None;
    }
    let ftype = match class.lookup_utf8(descriptor) {
        Some(d) => match ftype_of(d) {
            Some(f) => f,
            None => return None,
        },
        None => return None,
    };
    let name = match utf8_at(class, name) {
        Some(s) => s,
        None => return None,
    };
    Some((ftype, to_owned_string(field_class), to_owned_string(name)))
}

/// The class name, method name and descriptor of the method reference at
/// `index`.
fn methodref_parts(index: u16, class: &ImportedJavaClass) -> (r: Option<(&str, &str, &str)>)
    ensures
        match r {
            Some((c, nm, d)) => spec_methodref(class.const_items.deep_view(), index) == Some((c@, nm@, d@)),
            None => spec_methodref(class.const_items.deep_view(), index) is None,
        },
{
    let ghost items = class.const_items.deep_view();
    assert(items.len() == class.const_items@.len());
    let n = class.const_items.len();
    if index < 1 || index as usize > n {
        return None;
    }
    let (method_class, nametype) = match class.lookup_method_ref(index) {
        Some(p) => p,
        None => return None,
    };
    if nametype < 1 || nametype as usize > n {
        return None;
    }
    let (name, descriptor) = match class.lookup_nametype(nametype) {
        Some(p) => p,
        None => return None,
    };
    let method_class = match class_at(class, method_class) {
        Some(c) => c,
        None => return None,
    };
    let name = match utf8_at(class, name) {
        Some(s) => s,
        None => return None,
    };
    let descriptor = match utf8_at(class, descriptor) {
        Some(s) => s,
        None => return None,
    };
    Some((method_class, name, descriptor))
}

/// The interpreter's name and argument count of the method referenced at
/// `index`.
fn methodref_to_mangled_and_argc(index: u16, class: &ImportedJavaClass) -> (r: Option<(String, u8)>)
    ensures
        match r {
            Some((m, a)) => spec_mangled_and_argc(class.const_items.deep_view(), index) == Some((m@, a)),
            None => spec_mangled_and_argc(class.const_items.deep_view(), index) is None,
        },
{
    let (method_class, name, descriptor) = match methodref_parts(index, class) {
        Some(p) => p,
        None => return None,
    };
    if !argc_desc_readable(descriptor) {
        return None;
    }
    let mangled = mangle_method_name(method_class, name, descriptor);
    let argc = method_desc_to_argc(descriptor);
    Some((mangled, argc))
}

/// The class, class-less C++ name, argument count and descriptor of the method
/// referenced at `index`.
fn methodref_to_partial_mangled_and_argc(index: u16, class: &ImportedJavaClass) -> (r: Option<(String, String, u8, String)>)
    ensures
        match r {
            Some((c, m, a, d)) => spec_partial_mangled_and_argc(class.const_items.deep_view(), index) == Some((c@, m@, a, d@)),
            None => spec_partial_mangled_and_argc(class.const_items.deep_view(), index) is None,
        },
{
    let (method_class, name, descriptor) = match methodref_parts(index, class) {
        Some(p) => p,
        None => return None,
    };
    if !argc_desc_readable(descriptor) || !is_ascii_str(descriptor) {
        return None;
    }
    let mangled = mangle_method_name_partial(name, descriptor);
    let argc = method_desc_to_argc(descriptor);
    Some((to_owned_string(method_class), mangled, argc, to_owned_string(descriptor)))
}

/// Whether the invokedynamic entry at `index` leads to a method handle.
fn invoke_dynamic_ok(index: u16, class: &ImportedJavaClass) -> (r: bool)
    ensures
        r == spec_invoke_dynamic_ok(class.const_items.deep_view(), class.attributes.deep_view(), index),
{
    let ghost items = class.const_items.deep_view();
    assert(items.len() == class.const_items@.len());
    let n = class.const_items.len();
    if index < 1 || index as usize > n {
        return false;
    }
    let (bootstrap_method_attr_index, _name_and_type_index) = match class.lookup_invoke_dynamic(index) {
        Some(p) => p,
        None => return false,
    };
    let bootstrap_method = match class.lookup_bootstrap_method(bootstrap_method_attr_index) {
        Some(m) => m,
        None => return false,
    };
    let reference = bootstrap_method.bootstrap_method_ref;
    if reference < 1 || reference as usize > n {
        return false;
    }
    class.lookup_method_handle(reference).is_some()
}

/// Resolves one instruction at byte offset `offset` of the method `ops`:
/// constant-pool references become names, jumps become instruction indices.
pub fn expand_op(op: &OpCode, offset: u16, ops: &[(OpCode, u16)], class: &ImportedJavaClass) -> (r: Option<FatOp>)
    ensures
        r.deep_view() == spec_expand_op(
            op.deep_view(),
            offset,
            ops.deep_view(),
            class.const_items.deep_view(),
            class.attributes.deep_view(),
        ),
{
    let plain = plain_fat_op(op);
    if plain.is_some() {
        return plain;
    }
    match branch_offset(op) {
        Some(rel) => {
            let target: u16 = (offset as i32 + rel as i32) as u16;
            assert(target == branch_target(offset, rel));
            return match find_op_with_offset(ops, target) {
                Some(i) => Some(branch_fat_op(op, i)),
                None => None,
            };
        },
        None => {},
    }
    match op {
        OpCode::LoadConst(index) => {
            let ghost items = class.const_items.deep_view();
            let index = *index;
            let item = match class.lookup_item(index) {
                Some(item) => item,
                None => return None,
            };
            assert(items[index - 1] == class.const_items@[index - 1].deep_view());
            match item {
                ConstantItem::ConstString { string_index } => match utf8_at(class, *string_index) {
                    Some(s) => Some(FatOp::StringConst(to_owned_string(s))),
                    None => None,
                },
                ConstantItem::Class { name_index } => match utf8_at(class, *name_index) {
                    Some(s) => Some(FatOp::ClassConst(to_owned_string(s))),
                    None => None,
                },
                _ => None,
            }
        },
        OpCode::GetStatic(index) | OpCode::PutStatic(index) | OpCode::GetField(index) | OpCode::PutField(index) => {
            match fieldref_to_info(*index, class) {
                Some((ftype, c, name)) => Some(field_op(op, ftype, c, name)),
                None => None,
            }
        },
        OpCode::New(index) | OpCode::ANewArray(index) | OpCode::CheckCast(index) | OpCode::InstanceOf(index) => {
            match class_at(class, *index) {
                Some(c) => {
                    let c = to_owned_string(c);
                    Some(match op {
                        OpCode::New(_) => FatOp::New(c),
                        OpCode::ANewArray(_) => FatOp::ANewArray(c),
                        OpCode::CheckCast(_) => FatOp::CheckedCast(c),
                        _ => FatOp::InstanceOf(c),
                    })
                },
                None => None,
            }
        },
        OpCode::InvokeSpecial(index) => {
            let (name, argc) = match methodref_to_mangled_and_argc(*index, class) {
                Some(p) => p,
                None => return None,
            };
            // Either <init> or <clinit>: the object is passed as well.
            if str_contains_char(name.as_str(), '<') {
                if argc == 255 {
                    return None;
                }
                Some(FatOp::InvokeSpecial(name, argc + 1))
            } else {
                Some(FatOp::InvokeSpecial(name, argc))
            }
        },
        OpCode::InvokeStatic(index) => match methodref_to_mangled_and_argc(*index, class) {
            Some((name, argc)) => Some(FatOp::InvokeStatic(name, argc)),
            None => None,
        },
        OpCode::InvokeVirtual(index) => match methodref_to_partial_mangled_and_argc(*index, class) {
            Some((c, name, argc, desc)) => if argc == 255 {
                None
            } else {
                Some(FatOp::InvokeVirtual(c, name, argc + 1, desc))
            },
            None => None,
        },
        OpCode::InvokeInterface(index) => match methodref_to_mangled_and_argc(*index, class) {
            Some((name, argc)) => if argc == 255 {
                None
            } else {
                Some(FatOp::InvokeInterface(name, argc + 1))
            },
            None => None,
        },
        OpCode::InvokeDynamic(index) => if invoke_dynamic_ok(*index, class) {
            Some(FatOp::InvokeDynamic)
        } else {
            None
        },
        _ => None,
    }
}

/// Whether every instruction of the method `ops` can be resolved.
pub open spec fn expandable(ops: Seq<(SpecOpCode, u16)>, items: Seq<SpecConstantItem>, attrs: Seq<SpecAttribute>) -> bool {
    forall|i: int| 0 <= i < ops.len() ==> (#[trigger] spec_expand_op(ops[i].0, ops[i].1, ops, items, attrs)) is Some
}

/// The resolved instructions of the method `ops`, one for each instruction.
pub open spec fn spec_expand_ops(ops: Seq<(SpecOpCode, u16)>, items: Seq<SpecConstantItem>, attrs: Seq<SpecAttribute>) -> Seq<SpecFatOp> {
    Seq::new(ops.len(), |i: int| spec_expand_op(ops[i].0, ops[i].1, ops, items, attrs)->0)
}

/// Resolves every instruction of a method, or gives `None` when one of them
/// cannot be resolved.
pub fn try_expand_ops(ops: &[(OpCode, u16)], class: &ImportedJavaClass) -> (r: Option<Vec<FatOp>>)
    ensures
        r is Some <==> expandable(ops.deep_view(), class.const_items.deep_view(), class.attributes.deep_view()),
        r matches Some(v) ==> v.deep_view() == spec_expand_ops(
            ops.deep_view(),
            class.const_items.deep_view(),
            class.attributes.deep_view(),
        ),
{
    let ghost s = ops.deep_view();
    let ghost items = class.const_items.deep_view();
    let ghost attrs = class.attributes.deep_view();
    let mut fatops: Vec<FatOp> = Vec::new();
    let mut i: usize = 0;
    while i < ops.len()
        invariant
            i <= ops@.len(),
            s == ops.deep_view(),
            s.len() == ops@.len(),
            items == class.const_items.deep_view(),
            attrs == class.attributes.deep_view(),
            fatops@.len() == i,
            forall|j: int| 0 <= j < i ==> (#[trigger] spec_expand_op(s[j].0, s[j].1, s, items, attrs)) == Some(fatops@[j].deep_view()),
        decreases ops@.len() - i,
    {
        assert(s[i as int] == ops@[i as int].deep_view());
        match expand_op(&ops[i].0, ops[i].1, ops, class) {
            Some(f) => fatops.push(f),
            None => {
                assert(!expandable(s, items, attrs)) by {
                    assert(spec_expand_op(s[i as int].0, s[i as int].1, s, items, attrs) is None);
                }
                return None;
            },
        }
        i = i + 1;
    }
    assert(fatops.deep_view() =~= spec_expand_ops(s, items, attrs)) by {
        assert forall|j: int| 0 <= j < s.len() implies fatops.deep_view()[j] == spec_expand_ops(s, items, attrs)[j] by {
            assert(spec_expand_op(s[j].0, s[j].1, s, items, attrs) == Some(fatops@[j].deep_view()));
        }
    }
    assert(expandable(s, items, attrs)) by {
        assert forall|j: int| 0 <= j < s.len() implies (#[trigger] spec_expand_op(s[j].0, s[j].1, s, items, attrs)) is Some by {
            assert(spec_expand_op(s[j].0, s[j].1, s, items, attrs) == Some(fatops@[j].deep_view()));
        }
    }
    Some(fatops)
}

/// Resolves every instruction of a method whose instructions can all be
/// resolved.
pub fn expand_ops(ops: &[(OpCode, u16)], class: &ImportedJavaClass) -> (r: Vec<FatOp>)
    requires
        expandable(ops.deep_view(), class.const_items.deep_view(), class.attributes.deep_view()),
    ensures
        r.deep_view() == spec_expand_ops(ops.deep_view(), class.const_items.deep_view(), class.attributes.deep_view()),
{
    try_expand_ops(ops, class).unwrap()
}


/// The search for an offset finds the first instruction at or after `k`
/// that has it.
proof fn lemma_first_at_offset(ops: Seq<(SpecOpCode, u16)>, idx: u16, k: int)
    requires
        0 <= k,
    ensures
        match first_at_offset(ops, idx, k) {
            Some(t) => k <= t < ops.len() && ops[t].1 == idx && forall|j: int| k <= j < t ==> ops[j].1 != idx,
            None => forall|j: int| k <= j < ops.len() ==> ops[j].1 != idx,
        },
    decreases ops.len() - k,
{
    if k < ops.len() && ops[k].1 != idx {
        lemma_first_at_offset(ops, idx, k + 1);
    }
}

/// A resolved branch jumps to the first instruction of the method whose
/// byte offset is the branch's own offset plus its relative jump.
pub proof fn law_branch_target_is_first_at_offset(
    op: SpecOpCode,
    offset: u16,
    ops: Seq<(SpecOpCode, u16)>,
    items: Seq<SpecConstantItem>,
    attrs: Seq<SpecAttribute>,
)
    requires
        spec_branch_offset(op) is Some,
        spec_expand_op(op, offset, ops, items, attrs) is Some,
    ensures
        ({
            let target = branch_target(offset, spec_branch_offset(op)->0);
            exists|t: int| {
                &&& 0 <= t < ops.len()
                &&& ops[t].1 == target
                &&& forall|j: int| 0 <= j < t ==> ops[j].1 != target
                &&& spec_expand_op(op, offset, ops, items, attrs) == Some(spec_branch_fat_op(op, t as usize))
            }
        }),
{
    let target = branch_target(offset, spec_branch_offset(op)->0);
    lemma_first_at_offset(ops, target, 0);
    assert(spec_plain_fat_op(op) is None);
    let t = first_at_offset(ops, target, 0)->0;
    assert(spec_expand_op(op, offset, ops, items, attrs) == Some(spec_branch_fat_op(op, t as usize)));
}


/// Whether a JVM branch instruction jumps, given the values it tests: `a`
/// (the first pushed, or the only one) and `b` (the second, for a
/// comparison of two values); a reference is taken as a number, null as 0.
/// `None` for an instruction that is no branch.
pub open spec fn jvm_branch_taken(op: SpecOpCode, a: int, b: int) -> Option<bool> {
    match op {
        SpecOpCode::IfZero(_) => Some(a == 0),
        SpecOpCode::IfNotZero(_) => Some(a != 0),
        SpecOpCode::IfLessZero(_) => Some(a < 0),
        SpecOpCode::IfGreterEqualZero(_) => Some(a >= 0),
        SpecOpCode::IfGreterZero(_) => Some(a > 0),
        SpecOpCode::IfLessEqualZero(_) => Some(a <= 0),
        SpecOpCode::IfICmpEq(_) => Some(a == b),
        SpecOpCode::IfICmpNe(_) => Some(a != b),
        SpecOpCode::IfICmpLessThan(_) => Some(a < b),
        SpecOpCode::IfIGreterEqual(_) => Some(a >= b),
        SpecOpCode::IfICmpGreater(_) => Some(a > b),
        SpecOpCode::IfICmpLessEqual(_) => Some(a <= b),
        SpecOpCode::IfACmpEq(_) => Some(a == b),
        SpecOpCode::IfACmpNe(_) => Some(a != b),
        SpecOpCode::IfNull(_) => Some(a == 0),
        SpecOpCode::IfNotNull(_) => Some(a != 0),
        SpecOpCode::GoTo(_) => Some(true),
        _ => None,
    }
}

/// Whether a resolved branch jumps, given the values it tests (as for
/// `jvm_branch_taken`), and the instruction it jumps to; `None` for an
/// instruction that is no branch.
pub open spec fn resolved_branch(f: SpecFatOp, a: int, b: int) -> Option<(bool, usize)> {
    match f {
        SpecFatOp::IfZero(t) => Some((a == 0, t)),
        SpecFatOp::IfNotZero(t) => Some((a != 0, t)),
        SpecFatOp::IfLessZero(t) => Some((a < 0, t)),
        SpecFatOp::IfGreterEqualZero(t) => Some((a >= 0, t)),
        SpecFatOp::IfGreterZero(t) => Some((a > 0, t)),
        SpecFatOp::IfLessEqualZero(t) => Some((a <= 0, t)),
        SpecFatOp::IfICmpEq(t) => Some((a == b, t)),
        SpecFatOp::IfICmpNe(t) => Some((a != b, t)),
        SpecFatOp::IfICmpLess(t) => Some((a < b, t)),
        SpecFatOp::IfIGreterEqual(t) => Some((a >= b, t)),
        SpecFatOp::IfICmpLessEqual(t) => Some((a <= b, t)),
        SpecFatOp::IfACmpNe(t) => Some((a != b, t)),
        SpecFatOp::IfNull(t) => Some((a == 0, t)),
        SpecFatOp::IfNotNull(t) => Some((a != 0, t)),
        SpecFatOp::GoTo(t) => Some((true, t)),
        _ => None,
    }
}

/// Resolving a method's instructions keeps the sense of every branch: where
/// instruction `i` is a branch, its resolved form jumps on exactly the
/// values on which the JVM instruction jumps, and to the first instruction
/// at the byte offset the branch names.
pub proof fn law_resolved_branch_keeps_condition(
    ops: Seq<(SpecOpCode, u16)>,
    items: Seq<SpecConstantItem>,
    attrs: Seq<SpecAttribute>,
    i: int,
    a: int,
    b: int,
)
    requires
        expandable(ops, items, attrs),
        0 <= i < ops.len() <= usize::MAX,
        jvm_branch_taken(ops[i].0, a, b) is Some,
    ensures
        ({
            let target = branch_target(ops[i].1, spec_branch_offset(ops[i].0)->0);
            resolved_branch(spec_expand_ops(ops, items, attrs)[i], a, b) matches Some((taken, t))
                && taken == jvm_branch_taken(ops[i].0, a, b)->0
                && 0 <= t < ops.len()
                && ops[t as int].1 == target
                && forall|j: int| 0 <= j < t ==> ops[j].1 != target
        }),
{
    let op = ops[i].0;
    assert(spec_expand_op(ops[i].0, ops[i].1, ops, items, attrs) is Some);
    assert(spec_expand_ops(ops, items, attrs)[i] == spec_expand_op(ops[i].0, ops[i].1, ops, items, attrs)->0);
    assert(spec_plain_fat_op(op) is None);
    if spec_branch_offset(op) is Some {
        law_branch_target_is_first_at_offset(op, ops[i].1, ops, items, attrs);
        let target = branch_target(ops[i].1, spec_branch_offset(op)->0);
        let t = choose|t: int| {
            &&& 0 <= t < ops.len()
            &&& ops[t].1 == target
            &&& forall|j: int| 0 <= j < t ==> ops[j].1 != target
            &&& spec_expand_op(op, ops[i].1, ops, items, attrs) == Some(spec_branch_fat_op(op, t as usize))
        };
        assert(resolved_branch(spec_branch_fat_op(op, t as usize), a, b) == Some((jvm_branch_taken(op, a, b)->0, t as usize)));
    } else {
        assert(spec_expand_op(op, ops[i].1, ops, items, attrs) is None);
    }
}

/// The decoded instruction that a resolved instruction needing nothing from
/// the constant pool, and no branch, stands for: the same instruction with
/// the same operands (`bipush` and `sipush` become byte and short
/// constants).
pub open spec fn plain_source(f: SpecFatOp) -> Option<SpecOpCode> {
    match f {
        SpecFatOp::AConstNull => Some(SpecOpCode::AConstNull),
        SpecFatOp::DMul => Some(SpecOpCode::DMul),
        SpecFatOp::DDiv => Some(SpecOpCode::DDiv),
        SpecFatOp::LMul => Some(SpecOpCode::LMul),
        SpecFatOp::LDiv => Some(SpecOpCode::LDiv),
        SpecFatOp::LRem => Some(SpecOpCode::LRem),
        SpecFatOp::FRem => Some(SpecOpCode::FRem),
        SpecFatOp::I2F => Some(SpecOpCode::I2F),
        SpecFatOp::FCmpL => Some(SpecOpCode::FCmpL),
        SpecFatOp::FCmpG => Some(SpecOpCode::FCmpG),
        SpecFatOp::DCmpL => Some(SpecOpCode::DCmpL),
        SpecFatOp::DCmpG => Some(SpecOpCode::DCmpG),
        SpecFatOp::LCmp => Some(SpecOpCode::LCmp),
        SpecFatOp::F2D => Some(SpecOpCode::F2D),
        SpecFatOp::D2F => Some(SpecOpCode::D2F),
        SpecFatOp::ISub => Some(SpecOpCode::ISub),
        SpecFatOp::DSub => Some(SpecOpCode::DSub),
        SpecFatOp::FSub => Some(SpecOpCode::FSub),
        SpecFatOp::LSub => Some(SpecOpCode::LSub),
        SpecFatOp::IAdd => Some(SpecOpCode::IAdd),
        SpecFatOp::FAdd => Some(SpecOpCode::FAdd),
        SpecFatOp::LAdd => Some(SpecOpCode::LAdd),
        SpecFatOp::IMul => Some(SpecOpCode::IMul),
        SpecFatOp::FMul => Some(SpecOpCode::FMul),
        SpecFatOp::IDiv => Some(SpecOpCode::IDiv),
        SpecFatOp::FDiv => Some(SpecOpCode::FDiv),
        SpecFatOp::IRem => Some(SpecOpCode::IRem),
        SpecFatOp::IShr => Some(SpecOpCode::IShr),
        SpecFatOp::LShr => Some(SpecOpCode::LShr),
        SpecFatOp::IShl => Some(SpecOpCode::IShl),
        SpecFatOp::LShl => Some(SpecOpCode::LShl),
        SpecFatOp::LUShr => Some(SpecOpCode::LUShr),
        SpecFatOp::LUShl => Some(SpecOpCode::LUShl),
        SpecFatOp::IAnd => Some(SpecOpCode::IAnd),
        SpecFatOp::LAnd => Some(SpecOpCode::LAnd),
        SpecFatOp::IOr => Some(SpecOpCode::IOr),
        SpecFatOp::LOr => Some(SpecOpCode::LOr),
        SpecFatOp::IXOr => Some(SpecOpCode::IXOr),
        SpecFatOp::LXOr => Some(SpecOpCode::LXOr),
        SpecFatOp::INeg => Some(SpecOpCode::INeg),
        SpecFatOp::I2L => Some(SpecOpCode::I2L),
        SpecFatOp::L2I => Some(SpecOpCode::L2I),
        SpecFatOp::Dup => Some(SpecOpCode::Dup),
        SpecFatOp::Pop => Some(SpecOpCode::Pop),
        SpecFatOp::Pop2 => Some(SpecOpCode::Pop2),
        SpecFatOp::Return => Some(SpecOpCode::Return),
        SpecFatOp::AReturn => Some(SpecOpCode::AReturn),
        SpecFatOp::FReturn => Some(SpecOpCode::FReturn),
        SpecFatOp::IReturn => Some(SpecOpCode::IReturn),
        SpecFatOp::LReturn => Some(SpecOpCode::LReturn),
        SpecFatOp::DReturn => Some(SpecOpCode::DReturn),
        SpecFatOp::AAStore => Some(SpecOpCode::AAStore),
        SpecFatOp::AALoad => Some(SpecOpCode::AALoad),
        SpecFatOp::BALoad => Some(SpecOpCode::BALoad),
        SpecFatOp::CALoad => Some(SpecOpCode::CALoad),
        SpecFatOp::DALoad => Some(SpecOpCode::DALoad),
        SpecFatOp::FALoad => Some(SpecOpCode::FALoad),
        SpecFatOp::IALoad => Some(SpecOpCode::IALoad),
        SpecFatOp::LALoad => Some(SpecOpCode::LALoad),
        SpecFatOp::ArrayLength => Some(SpecOpCode::ArrayLength),
        SpecFatOp::Throw => Some(SpecOpCode::Throw),
        SpecFatOp::IConst(x0) => Some(SpecOpCode::IConst(x0)),
        SpecFatOp::FConst(x0) => Some(SpecOpCode::FConst(x0)),
        SpecFatOp::LConst(x0) => Some(SpecOpCode::LConst(x0)),
        SpecFatOp::BConst(x0) => Some(SpecOpCode::BIPush(x0)),
        SpecFatOp::SConst(x0) => Some(SpecOpCode::SIPush(x0)),
        SpecFatOp::ALoad(x0) => Some(SpecOpCode::ALoad(x0)),
        SpecFatOp::ILoad(x0) => Some(SpecOpCode::ILoad(x0)),
        SpecFatOp::LLoad(x0) => Some(SpecOpCode::LLoad(x0)),
        SpecFatOp::AStore(x0) => Some(SpecOpCode::AStore(x0)),
        SpecFatOp::DStore(x0) => Some(SpecOpCode::DStore(x0)),
        SpecFatOp::FStore(x0) => Some(SpecOpCode::FStore(x0)),
        SpecFatOp::IStore(x0) => Some(SpecOpCode::IStore(x0)),
        SpecFatOp::LStore(x0) => Some(SpecOpCode::LStore(x0)),
        SpecFatOp::FLoad(x0) => Some(SpecOpCode::FLoad(x0)),
        SpecFatOp::IInc(x0, x1) => Some(SpecOpCode::IInc(x0, x1)),
        _ => None,
    }
}

/// Resolving a method's instructions keeps every instruction that needs
/// nothing from the constant pool and is no branch: its resolved form stands
/// for the same instruction, with the same operands.
pub proof fn law_plain_ops_kept(
    ops: Seq<(SpecOpCode, u16)>,
    items: Seq<SpecConstantItem>,
    attrs: Seq<SpecAttribute>,
    i: int,
)
    requires
        expandable(ops, items, attrs),
        0 <= i < ops.len(),
        spec_plain_fat_op(ops[i].0) is Some,
    ensures
        plain_source(spec_expand_ops(ops, items, attrs)[i]) == Some(ops[i].0),
{
    assert(spec_expand_ops(ops, items, attrs)[i] == spec_expand_op(ops[i].0, ops[i].1, ops, items, attrs)->0);
    lemma_plain_source(ops[i].0);
}

proof fn lemma_plain_source(op: SpecOpCode)
    requires
        spec_plain_fat_op(op) is Some,
    ensures
        plain_source(spec_plain_fat_op(op)->0) == Some(op),
{
}

/// What a resolved field instruction does: whether it reads (or writes),
/// whether the field is static, the field's type, and the field's class and
/// name; `None` for other instructions.
pub open spec fn field_access_of(f: SpecFatOp) -> Option<(bool, bool, FieldType, Seq<char>, Seq<char>)> {
    match f {
        SpecFatOp::ZGetStatic(c, n) => Some((true, true, FieldType::Bool, c, n)),
        SpecFatOp::BGetStatic(c, n) => Some((true, true, FieldType::Byte, c, n)),
        SpecFatOp::SGetStatic(c, n) => Some((true, true, FieldType::Short, c, n)),
        SpecFatOp::CGetStatic(c, n) => Some((true, true, FieldType::Char, c, n)),
        SpecFatOp::IGetStatic(c, n) => Some((true, true, FieldType::Int, c, n)),
        SpecFatOp::LGetStatic(c, n) => Some((true, true, FieldType::Long, c, n)),
        SpecFatOp::FGetStatic(c, n) => Some((true, true, FieldType::Float, c, n)),
        SpecFatOp::DGetStatic(c, n) => Some((true, true, FieldType::Double, c, n)),
        SpecFatOp::AGetStatic(c, n) => Some((true, true, FieldType::ObjectRef, c, n)),
        SpecFatOp::ZPutStatic(c, n) => Some((false, true, FieldType::Bool, c, n)),
        SpecFatOp::BPutStatic(c, n) => Some((false, true, FieldType::Byte, c, n)),
        SpecFatOp::SPutStatic(c, n) => Some((false, true, FieldType::Short, c, n)),
        SpecFatOp::CPutStatic(c, n) => Some((false, true, FieldType::Char, c, n)),
        SpecFatOp::IPutStatic(c, n) => Some((false, true, FieldType::Int, c, n)),
        SpecFatOp::LPutStatic(c, n) => Some((false, true, FieldType::Long, c, n)),
        SpecFatOp::FPutStatic(c, n) => Some((false, true, FieldType::Float, c, n)),
        SpecFatOp::DPutStatic(c, n) => Some((false, true, FieldType::Double, c, n)),
        SpecFatOp::APutStatic(c, n) => Some((false, true, FieldType::ObjectRef, c, n)),
        SpecFatOp::ZGetField(c, n) => Some((true, false, FieldType::Bool, c, n)),
        SpecFatOp::BGetField(c, n) => Some((true, false, FieldType::Byte, c, n)),
        SpecFatOp::SGetField(c, n) => Some((true, false, FieldType::Short, c, n)),
        SpecFatOp::CGetField(c, n) => Some((true, false, FieldType::Char, c, n)),
        SpecFatOp::IGetField(c, n) => Some((true, false, FieldType::Int, c, n)),
        SpecFatOp::LGetField(c, n) => Some((true, false, FieldType::Long, c, n)),
        SpecFatOp::FGetField(c, n) => Some((true, false, FieldType::Float, c, n)),
        SpecFatOp::DGetField(c, n) => Some((true, false, FieldType::Double, c, n)),
        SpecFatOp::AGetField(c, n) => Some((true, false, FieldType::ObjectRef, c, n)),
        SpecFatOp::ZPutField(c, n) => Some((false, false, FieldType::Bool, c, n)),
        SpecFatOp::BPutField(c, n) => Some((false, false, FieldType::Byte, c, n)),
        SpecFatOp::SPutField(c, n) => Some((false, false, FieldType::Short, c, n)),
        SpecFatOp::CPutField(c, n) => Some((false, false, FieldType::Char, c, n)),
        SpecFatOp::IPutField(c, n) => Some((false, false, FieldType::Int, c, n)),
        SpecFatOp::LPutField(c, n) => Some((false, false, FieldType::Long, c, n)),
        SpecFatOp::FPutField(c, n) => Some((false, false, FieldType::Float, c, n)),
        SpecFatOp::DPutField(c, n) => Some((false, false, FieldType::Double, c, n)),
        SpecFatOp::APutField(c, n) => Some((false, false, FieldType::ObjectRef, c, n)),
        _ => None,
    }
}

/// Resolving a field instruction keeps what it does: `getstatic` and
/// `getfield` read, `putstatic` and `putfield` write, `getstatic` and
/// `putstatic` on a static field, and the resolved form names the field
/// reference's class, name and type.
pub proof fn law_field_access_kept(
    ops: Seq<(SpecOpCode, u16)>,
    items: Seq<SpecConstantItem>,
    attrs: Seq<SpecAttribute>,
    i: int,
    index: u16,
)
    requires
        expandable(ops, items, attrs),
        0 <= i < ops.len(),
        ops[i].0 == SpecOpCode::GetStatic(index) || ops[i].0 == SpecOpCode::PutStatic(index)
            || ops[i].0 == SpecOpCode::GetField(index) || ops[i].0 == SpecOpCode::PutField(index),
    ensures
        spec_fieldref_info(items, index) matches Some((ft, c, n))
            && field_access_of(spec_expand_ops(ops, items, attrs)[i]) == Some((
                ops[i].0 is GetStatic || ops[i].0 is GetField,
                ops[i].0 is GetStatic || ops[i].0 is PutStatic,
                ft,
                c,
                n,
            )),
{
    assert(spec_expand_ops(ops, items, attrs)[i] == spec_expand_op(ops[i].0, ops[i].1, ops, items, attrs)->0);
    assert(spec_expand_op(ops[i].0, ops[i].1, ops, items, attrs) is Some);
}

impl FatOp {
    /// A copy of the instruction.
    pub fn duplicate(&self) -> (r: FatOp)
        ensures
            r.deep_view() == self.deep_view(),
    {
        match self {
            FatOp::AConstNull => FatOp::AConstNull,
            FatOp::IConst(x0) => FatOp::IConst(*x0),
            FatOp::BConst(x0) => FatOp::BConst(*x0),
            FatOp::SConst(x0) => FatOp::SConst(*x0),
            FatOp::LConst(x0) => FatOp::LConst(*x0),
            FatOp::StringConst(x0) => FatOp::StringConst(to_owned_string(x0.as_str())),
            FatOp::ClassConst(x0) => FatOp::ClassConst(to_owned_string(x0.as_str())),
            FatOp::FConst(x0) => FatOp::FConst(*x0),
            FatOp::DConst(x0) => FatOp::DConst(*x0),
            FatOp::ALoad(x0) => FatOp::ALoad(*x0),
            FatOp::DLoad(x0) => FatOp::DLoad(*x0),
            FatOp::FLoad(x0) => FatOp::FLoad(*x0),
            FatOp::ILoad(x0) => FatOp::ILoad(*x0),
            FatOp::LLoad(x0) => FatOp::LLoad(*x0),
            FatOp::AStore(x0) => FatOp::AStore(*x0),
            FatOp::DStore(x0) => FatOp::DStore(*x0),
            FatOp::FStore(x0) => FatOp::FStore(*x0),
            FatOp::IStore(x0) => FatOp::IStore(*x0),
            FatOp::LStore(x0) => FatOp::LStore(*x0),
            FatOp::DAdd => FatOp::DAdd,
            FatOp::FAdd => FatOp::FAdd,
            FatOp::IAdd => FatOp::IAdd,
            FatOp::LAdd => FatOp::LAdd,
            FatOp::IMul => FatOp::IMul,
            FatOp::FMul => FatOp::FMul,
            FatOp::ISub => FatOp::ISub,
            FatOp::DSub => FatOp::DSub,
            FatOp::FSub => FatOp::FSub,
            FatOp::LSub => FatOp::LSub,
            FatOp::IRem => FatOp::IRem,
            FatOp::IShr => FatOp::IShr,
            FatOp::LShr => FatOp::LShr,
            FatOp::IShl => FatOp::IShl,
            FatOp::LShl => FatOp::LShl,
            FatOp::IDiv => FatOp::IDiv,
            FatOp::FDiv => FatOp::FDiv,
            FatOp::IAnd => FatOp::IAnd,
            FatOp::LAnd => FatOp::LAnd,
            FatOp::IOr => FatOp::IOr,
            FatOp::LOr => FatOp::LOr,
            FatOp::IXOr => FatOp::IXOr,
            FatOp::LXOr => FatOp::LXOr,
            FatOp::INeg => FatOp::INeg,
            FatOp::LUShr => FatOp::LUShr,
            FatOp::LUShl => FatOp::LUShl,
            FatOp::InvokeSpecial(x0, x1) => FatOp::InvokeSpecial(to_owned_string(x0.as_str()), *x1),
            FatOp::InvokeStatic(x0, x1) => FatOp::InvokeStatic(to_owned_string(x0.as_str()), *x1),
            FatOp::InvokeInterface(x0, x1) => FatOp::InvokeInterface(to_owned_string(x0.as_str()), *x1),
            FatOp::InvokeDynamic => FatOp::InvokeDynamic,
            FatOp::InvokeVirtual(x0, x1, x2, x3) => FatOp::InvokeVirtual(to_owned_string(x0.as_str()), to_owned_string(x1.as_str()), *x2, to_owned_string(x3.as_str())),
            FatOp::ZGetStatic(x0, x1) => FatOp::ZGetStatic(to_owned_string(x0.as_str()), to_owned_string(x1.as_str())),
            FatOp::BGetStatic(x0, x1) => FatOp::BGetStatic(to_owned_string(x0.as_str()), to_owned_string(x1.as_str())),
            FatOp::SGetStatic(x0, x1) => FatOp::SGetStatic(to_owned_string(x0.as_str()), to_owned_string(x1.as_str())),
            FatOp::IGetStatic(x0, x1) => FatOp::IGetStatic(to_owned_string(x0.as_str()), to_owned_string(x1.as_str())),
            FatOp::LGetStatic(x0, x1) => FatOp::LGetStatic(to_owned_string(x0.as_str()), to_owned_string(x1.as_str())),
            FatOp::FGetStatic(x0, x1) => FatOp::FGetStatic(to_owned_string(x0.as_str()), to_owned_string(x1.as_str())),
            FatOp::DGetStatic(x0, x1) => FatOp::DGetStatic(to_owned_string(x0.as_str()), to_owned_string(x1.as_str())),
            FatOp::AGetStatic(x0, x1) => FatOp::AGetStatic(to_owned_string(x0.as_str()), to_owned_string(x1.as_str())),
            FatOp::CGetStatic(x0, x1) => FatOp::CGetStatic(to_owned_string(x0.as_str()), to_owned_string(x1.as_str())),
            FatOp::ZPutStatic(x0, x1) => FatOp::ZPutStatic(to_owned_string(x0.as_str()), to_owned_string(x1.as_str())),
            FatOp::BPutStatic(x0, x1) => FatOp::BPutStatic(to_owned_string(x0.as_str()), to_owned_string(x1.as_str())),
            FatOp::SPutStatic(x0, x1) => FatOp::SPutStatic(to_owned_string(x0.as_str()), to_owned_string(x1.as_str())),
            FatOp::IPutStatic(x0, x1) => FatOp::IPutStatic(to_owned_string(x0.as_str()), to_owned_string(x1.as_str())),
            FatOp::LPutStatic(x0, x1) => FatOp::LPutStatic(to_owned_string(x0.as_str()), to_owned_string(x1.as_str())),
            FatOp::FPutStatic(x0, x1) => FatOp::FPutStatic(to_owned_string(x0.as_str()), to_owned_string(x1.as_str())),
            FatOp::DPutStatic(x0, x1) => FatOp::DPutStatic(to_owned_string(x0.as_str()), to_owned_string(x1.as_str())),
            FatOp::APutStatic(x0, x1) => FatOp::APutStatic(to_owned_string(x0.as_str()), to_owned_string(x1.as_str())),
            FatOp::CPutStatic(x0, x1) => FatOp::CPutStatic(to_owned_string(x0.as_str()), to_owned_string(x1.as_str())),
            FatOp::ZGetField(x0, x1) => FatOp::ZGetField(to_owned_string(x0.as_str()), to_owned_string(x1.as_str())),
            FatOp::BGetField(x0, x1) => FatOp::BGetField(to_owned_string(x0.as_str()), to_owned_string(x1.as_str())),
            FatOp::SGetField(x0, x1) => FatOp::SGetField(to_owned_string(x0.as_str()), to_owned_string(x1.as_str())),
            FatOp::IGetField(x0, x1) => FatOp::IGetField(to_owned_string(x0.as_str()), to_owned_string(x1.as_str())),
            FatOp::LGetField(x0, x1) => FatOp::LGetField(to_owned_string(x0.as_str()), to_owned_string(x1.as_str())),
            FatOp::FGetField(x0, x1) => FatOp::FGetField(to_owned_string(x0.as_str()), to_owned_string(x1.as_str())),
            FatOp::DGetField(x0, x1) => FatOp::DGetField(to_owned_string(x0.as_str()), to_owned_string(x1.as_str())),
            FatOp::AGetField(x0, x1) => FatOp::AGetField(to_owned_string(x0.as_str()), to_owned_string(x1.as_str())),
            FatOp::CGetField(x0, x1) => FatOp::CGetField(to_owned_string(x0.as_str()), to_owned_string(x1.as_str())),
            FatOp::ZPutField(x0, x1) => FatOp::ZPutField(to_owned_string(x0.as_str()), to_owned_string(x1.as_str())),
            FatOp::BPutField(x0, x1) => FatOp::BPutField(to_owned_string(x0.as_str()), to_owned_string(x1.as_str())),
            FatOp::SPutField(x0, x1) => FatOp::SPutField(to_owned_string(x0.as_str()), to_owned_string(x1.as_str())),
            FatOp::IPutField(x0, x1) => FatOp::IPutField(to_owned_string(x0.as_str()), to_owned_string(x1.as_str())),
            FatOp::LPutField(x0, x1) => FatOp::LPutField(to_owned_string(x0.as_str()), to_owned_string(x1.as_str())),
            FatOp::FPutField(x0, x1) => FatOp::FPutField(to_owned_string(x0.as_str()), to_owned_string(x1.as_str())),
            FatOp::DPutField(x0, x1) => FatOp::DPutField(to_owned_string(x0.as_str()), to_owned_string(x1.as_str())),
            FatOp::APutField(x0, x1) => FatOp::APutField(to_owned_string(x0.as_str()), to_owned_string(x1.as_str())),
            FatOp::CPutField(x0, x1) => FatOp::CPutField(to_owned_string(x0.as_str()), to_owned_string(x1.as_str())),
            FatOp::Dup => FatOp::Dup,
            FatOp::Dup2 => FatOp::Dup2,
            FatOp::Pop => FatOp::Pop,
            FatOp::Pop2 => FatOp::Pop2,
            FatOp::Return => FatOp::Return,
            FatOp::AReturn => FatOp::AReturn,
            FatOp::FReturn => FatOp::FReturn,
            FatOp::IReturn => FatOp::IReturn,
            FatOp::DReturn => FatOp::DReturn,
            FatOp::LReturn => FatOp::LReturn,
            FatOp::F2D => FatOp::F2D,
            FatOp::D2F => FatOp::D2F,
            FatOp::I2L => FatOp::I2L,
            FatOp::L2I => FatOp::L2I,
            FatOp::New(x0) => FatOp::New(to_owned_string(x0.as_str())),
            FatOp::ANewArray(x0) => FatOp::ANewArray(to_owned_string(x0.as_str())),
            FatOp::CheckedCast(x0) => FatOp::CheckedCast(to_owned_string(x0.as_str())),
            FatOp::InstanceOf(x0) => FatOp::InstanceOf(to_owned_string(x0.as_str())),
            FatOp::AAStore => FatOp::AAStore,
            FatOp::AALoad => FatOp::AALoad,
            FatOp::BALoad => FatOp::BALoad,
            FatOp::CALoad => FatOp::CALoad,
            FatOp::DALoad => FatOp::DALoad,
            FatOp::FALoad => FatOp::FALoad,
            FatOp::IALoad => FatOp::IALoad,
            FatOp::LALoad => FatOp::LALoad,
            FatOp::LCmp => FatOp::LCmp,
            FatOp::ArrayLength => FatOp::ArrayLength,
            FatOp::IfIGreterEqual(x0) => FatOp::IfIGreterEqual(*x0),
            FatOp::IfGreterEqualZero(x0) => FatOp::IfGreterEqualZero(*x0),
            FatOp::IfGreterZero(x0) => FatOp::IfGreterZero(*x0),
            FatOp::IfLessZero(x0) => FatOp::IfLessZero(*x0),
            FatOp::IfLessEqualZero(x0) => FatOp::IfLessEqualZero(*x0),
            FatOp::IfNull(x0) => FatOp::IfNull(*x0),
            FatOp::IfNotNull(x0) => FatOp::IfNotNull(*x0),
            FatOp::IfZero(x0) => FatOp::IfZero(*x0),
            FatOp::IfNotZero(x0) => FatOp::IfNotZero(*x0),
            FatOp::IfICmpNe(x0) => FatOp::IfICmpNe(*x0),
            FatOp::IfICmpEq(x0) => FatOp::IfICmpEq(*x0),
            FatOp::IfACmpNe(x0) => FatOp::IfACmpNe(*x0),
            FatOp::IfICmpLessEqual(x0) => FatOp::IfICmpLessEqual(*x0),
            FatOp::IfICmpLess(x0) => FatOp::IfICmpLess(*x0),
            FatOp::GoTo(x0) => FatOp::GoTo(*x0),
            FatOp::IInc(x0, x1) => FatOp::IInc(*x0, *x1),
            FatOp::Throw => FatOp::Throw,
            FatOp::DMul => FatOp::DMul,
            FatOp::DDiv => FatOp::DDiv,
            FatOp::LMul => FatOp::LMul,
            FatOp::LDiv => FatOp::LDiv,
            FatOp::LRem => FatOp::LRem,
            FatOp::FRem => FatOp::FRem,
            FatOp::I2F => FatOp::I2F,
            FatOp::FCmpL => FatOp::FCmpL,
            FatOp::FCmpG => FatOp::FCmpG,
            FatOp::DCmpL => FatOp::DCmpL,
            FatOp::DCmpG => FatOp::DCmpG,
        }
    }

    /// The instruction a branch or jump goes to; `None` for the others.
    pub fn jump_target(&self) -> (r: Option<usize>)
        ensures
            r == spec_jump_target(self.deep_view()),
    {
        match self {
            FatOp::IfIGreterEqual(t) => Some(*t),
            FatOp::IfGreterEqualZero(t) => Some(*t),
            FatOp::IfGreterZero(t) => Some(*t),
            FatOp::IfLessZero(t) => Some(*t),
            FatOp::IfLessEqualZero(t) => Some(*t),
            FatOp::IfNull(t) => Some(*t),
            FatOp::IfNotNull(t) => Some(*t),
            FatOp::IfZero(t) => Some(*t),
            FatOp::IfNotZero(t) => Some(*t),
            FatOp::IfICmpNe(t) => Some(*t),
            FatOp::IfICmpEq(t) => Some(*t),
            FatOp::IfACmpNe(t) => Some(*t),
            FatOp::IfICmpLessEqual(t) => Some(*t),
            FatOp::IfICmpLess(t) => Some(*t),
            FatOp::GoTo(t) => Some(*t),
            _ => None,
        }
    }
}

/// The instruction a branch or jump goes to; `None` for the others.
pub open spec fn spec_jump_target(op: SpecFatOp) -> Option<usize> {
    match op {
        SpecFatOp::IfIGreterEqual(t) => Some(t),
        SpecFatOp::IfGreterEqualZero(t) => Some(t),
        SpecFatOp::IfGreterZero(t) => Some(t),
        SpecFatOp::IfLessZero(t) => Some(t),
        SpecFatOp::IfLessEqualZero(t) => Some(t),
        SpecFatOp::IfNull(t) => Some(t),
        SpecFatOp::IfNotNull(t) => Some(t),
        SpecFatOp::IfZero(t) => Some(t),
        SpecFatOp::IfNotZero(t) => Some(t),
        SpecFatOp::IfICmpNe(t) => Some(t),
        SpecFatOp::IfICmpEq(t) => Some(t),
        SpecFatOp::IfACmpNe(t) => Some(t),
        SpecFatOp::IfICmpLessEqual(t) => Some(t),
        SpecFatOp::IfICmpLess(t) => Some(t),
        SpecFatOp::GoTo(t) => Some(t),
        _ => None,
    }
}

} // verus!
