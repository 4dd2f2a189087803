//! Big-endian reading from a class file held in memory, with the failures
//! that reading a class can end in.
use vstd::prelude::*;
use vstd::utf8::{decode_utf8, valid_utf8};

verus! {

/// The input/output failures of reading a class: running out of bytes, and
/// the refusals that the reader reports as I/O errors.
#[derive(Debug, Clone, Copy, PartialEq, Eq, Structural)]
pub enum IoFailure {
    /// The class ended before a value could be read.
    UnexpectedEof,
    /// A `tableswitch` instruction, which the reader does not support.
    TableSwitchUnsupported,
    /// A `wide` instruction, which the reader does not support.
    WideUnsupported,
    /// A reserved opcode.
    ReservedOpcode(u8),
    /// An attribute whose name shows that the class was misread; it holds the
    /// constant-pool index of the name.
    NonsenseAttribute(u16),
    /// An attribute whose name index is 0.
    AttributeNameIndexZero,
    /// An attribute whose name index lies outside the constant pool.
    AttributeNameIndexOutside,
    /// An attribute whose name index does not point to a UTF-8 constant.
    AttributeNameNotUtf8,
    /// An entry of a jar archive could not be read to its end.
    ReadFailed,
}

/// Inputs on which reading a class stops the whole program: a constant tag,
/// an opcode or an attribute name that reading has no case for, an
/// instruction offset past 65535, a nonzero byte where the JVM requires zero,
/// a negative `lookupswitch` pair count, and a constant-pool count of 0.
#[derive(Debug, Clone, Copy, PartialEq, Eq, Structural)]
pub enum Abort {
    UnhandledConstantTag(u8),
    UnhandledOpcode(u8),
    /// Holds the constant-pool index of the attribute's name.
    UnhandledAttribute(u16),
    OffsetOverflow,
    InterfaceCallNotZero,
    DynamicCallNotZero,
    NegativeSwitchPairs,
    EmptyConstantPool,
    /// Jar archives nested deeper than the reader follows.
    JarNestingTooDeep,
}

/// Why reading part of a class failed.
#[derive(Debug, Clone, Copy, PartialEq, Eq, Structural)]
pub enum Failure {
    Io(IoFailure),
    /// A UTF-8 constant whose bytes are not valid UTF-8.
    BadUtf8,
    Abort(Abort),
}

/// Running out of bytes.
pub open spec fn eof() -> Failure {
    Failure::Io(IoFailure::UnexpectedEof)
}

/// The outcome of an exec reader in spec terms: the value's deep view and
/// the position after it.
pub open spec fn lift<T: DeepView>(r: Result<(T, usize), Failure>) -> Result<(T::V, int), Failure> {
    match r {
        Ok((v, q)) => Ok((v.deep_view(), q as int)),
        Err(e) => Err(e),
    }
}

/// Whether `n` bytes can be read at position `p`.
pub open spec fn fits(s: Seq<u8>, p: int, n: int) -> bool {
    0 <= p && p + n <= s.len()
}

/// The big-endian value of the two bytes at `p`.
pub open spec fn be16(s: Seq<u8>, p: int) -> int {
    s[p] as int * 256 + s[p + 1] as int
}

/// The big-endian value of the four bytes at `p`.
pub open spec fn be32(s: Seq<u8>, p: int) -> int {
    ((s[p] as int * 256 + s[p + 1] as int) * 256 + s[p + 2] as int) * 256 + s[p + 3] as int
}

pub open spec fn spec_u8(s: Seq<u8>, p: int) -> Result<(u8, int), Failure> {
    if fits(s, p, 1) { Ok((s[p], p + 1)) } else { Err(eof()) }
}

pub open spec fn spec_i8(s: Seq<u8>, p: int) -> Result<(i8, int), Failure> {
    if fits(s, p, 1) { Ok((s[p] as i8, p + 1)) } else { Err(eof()) }
}

pub open spec fn spec_u16(s: Seq<u8>, p: int) -> Result<(u16, int), Failure> {
    if fits(s, p, 2) { Ok((be16(s, p) as u16, p + 2)) } else { Err(eof()) }
}

pub open spec fn spec_i16(s: Seq<u8>, p: int) -> Result<(i16, int), Failure> {
    if fits(s, p, 2) { Ok((be16(s, p) as u16 as i16, p + 2)) } else { Err(eof()) }
}

pub open spec fn spec_u32(s: Seq<u8>, p: int) -> Result<(u32, int), Failure> {
    if fits(s, p, 4) { Ok((be32(s, p) as u32, p + 4)) } else { Err(eof()) }
}

pub open spec fn spec_i32(s: Seq<u8>, p: int) -> Result<(i32, int), Failure> {
    if fits(s, p, 4) { Ok((be32(s, p) as u32 as i32, p + 4)) } else { Err(eof()) }
}

pub open spec fn spec_u64(s: Seq<u8>, p: int) -> Result<(u64, int), Failure> {
    if fits(s, p, 8) {
        Ok(((be32(s, p) * 0x1_0000_0000 + be32(s, p + 4)) as u64, p + 8))
    } else {
        Err(eof())
    }
}

/// Reading exactly `n` bytes (`read_exact`).
pub open spec fn spec_bytes(s: Seq<u8>, p: int, n: int) -> Result<(Seq<u8>, int), Failure> {
    if fits(s, p, n) && n >= 0 { Ok((s.subrange(p, p + n), p + n)) } else { Err(eof()) }
}

/// Reading up to `n` bytes into a zeroed buffer of `n` bytes (one `read`
/// call on a byte slice): the bytes that remain, at most `n` of them, then
/// zeros up to `n`.
pub open spec fn spec_window(s: Seq<u8>, p: int, n: nat) -> (Seq<u8>, int) {
    let avail = if p + n <= s.len() { n as int } else { s.len() - p };
    (s.subrange(p, p + avail) + Seq::new((n - avail) as nat, |i: int| 0u8), p + avail)
}

pub fn load_u8(data: &[u8], pos: usize) -> (r: Result<(u8, usize), Failure>)
    ensures
        lift(r) == spec_u8(data@, pos as int),
{
    if pos < data.len() {
        Ok((data[pos], pos + 1))
    } else {
        Err(Failure::Io(IoFailure::UnexpectedEof))
    }
}

pub fn load_i8(data: &[u8], pos: usize) -> (r: Result<(i8, usize), Failure>)
    ensures
        lift(r) == spec_i8(data@, pos as int),
{
    if pos < data.len() {
        Ok((data[pos] as i8, pos + 1))
    } else {
        Err(Failure::Io(IoFailure::UnexpectedEof))
    }
}

pub fn load_u16(data: &[u8], pos: usize) -> (r: Result<(u16, usize), Failure>)
    ensures
        lift(r) == spec_u16(data@, pos as int),
{
    if pos < data.len() && data.len() - pos >= 2 {
        let v = data[pos] as u16 * 256 + data[pos + 1] as u16;
        Ok((v, pos + 2))
    } else {
        Err(Failure::Io(IoFailure::UnexpectedEof))
    }
}

pub fn load_i16(data: &[u8], pos: usize) -> (r: Result<(i16, usize), Failure>)
    ensures
        lift(r) == spec_i16(data@, pos as int),
{
    match load_u16(data, pos) {
        Ok((v, q)) => Ok((v as i16, q)),
        Err(e) => Err(e),
    }
}

pub fn load_u32(data: &[u8], pos: usize) -> (r: Result<(u32, usize), Failure>)
    ensures
        lift(r) == spec_u32(data@, pos as int),
{
    if pos < data.len() && data.len() - pos >= 4 {
        let v = ((data[pos] as u32 * 256 + data[pos + 1] as u32) * 256 + data[pos + 2] as u32) * 256
            + data[pos + 3] as u32;
        Ok((v, pos + 4))
    } else {
        Err(Failure::Io(IoFailure::UnexpectedEof))
    }
}

pub fn load_i32(data: &[u8], pos: usize) -> (r: Result<(i32, usize), Failure>)
    ensures
        lift(r) == spec_i32(data@, pos as int),
{
    match load_u32(data, pos) {
        Ok((v, q)) => Ok((v as i32, q)),
        Err(e) => Err(e),
    }
}

pub fn load_u64(data: &[u8], pos: usize) -> (r: Result<(u64, usize), Failure>)
    ensures
        lift(r) == spec_u64(data@, pos as int),
{
    if pos < data.len() && data.len() - pos >= 8 {
        let (hi, q) = match load_u32(data, pos) {
            Ok(x) => x,
            Err(e) => return Err(e),
        };
        let (lo, q) = match load_u32(data, q) {
            Ok(x) => x,
            Err(e) => return Err(e),
        };
        Ok((hi as u64 * 0x1_0000_0000u64 + lo as u64, q))
    } else {
        Err(Failure::Io(IoFailure::UnexpectedEof))
    }
}

/// Reads exactly `n` bytes.
pub fn load_bytes(data: &[u8], pos: usize, n: usize) -> (r: Result<(Vec<u8>, usize), Failure>)
    ensures
        lift(r) == spec_bytes(data@, pos as int, n as int),
{
    if pos <= data.len() && data.len() - pos >= n {
        let mut out: Vec<u8> = Vec::new();
        let mut i: usize = 0;
        while i < n
            invariant
                pos + n <= data.len(),
                i <= n,
                out@ == data@.subrange(pos as int, pos + i),
            decreases n - i,
        {
            out.push(data[pos + i]);
            i = i + 1;
        }
        assert(out.deep_view() =~= out@);
        Ok((out, pos + n))
    } else {
        Err(Failure::Io(IoFailure::UnexpectedEof))
    }
}

/// Reads up to `n` bytes into a zeroed buffer of `n` bytes.
pub fn load_window(data: &[u8], pos: usize, n: usize) -> (r: (Vec<u8>, usize))
    requires
        pos <= data@.len(),
    ensures
        (r.0@, r.1 as int) == spec_window(data@, pos as int, n as nat),
{
    let avail = if data.len() - pos >= n { n } else { data.len() - pos };
    let mut out: Vec<u8> = Vec::new();
    let mut i: usize = 0;
    while i < n
        invariant
            pos + avail <= data.len(),
            avail <= n,
            avail == (if pos + n <= data@.len() { n as int } else { data@.len() - pos }),
            i <= n,
            out@.len() == i,
            forall|j: int| 0 <= j < i ==> out@[j] == if j < avail { data@[pos + j] } else { 0u8 },
        decreases n - i,
    {
        if i < avail {
            out.push(data[pos + i]);
        } else {
            out.push(0u8);
        }
        i = i + 1;
    }
    let ghost w = spec_window(data@, pos as int, n as nat);
    assert(out@ =~= w.0);
    (out, pos + avail)
}

/// Decodes UTF-8 bytes (`std::str::from_utf8`): the text they encode, or
/// `None` when they are not valid UTF-8.
#[verifier::external_body]
fn utf8_str(bytes: &[u8]) -> (r: Option<&str>)
    ensures
        r is Some <==> valid_utf8(bytes@),
        r matches Some(s) ==> s@ == decode_utf8(bytes@),
{
    std::str::from_utf8(bytes).ok()
}

/// Decodes UTF-8 bytes into an owned string.
pub(crate) fn utf8_to_string(bytes: &[u8]) -> (r: Option<String>)
    ensures
        r is Some <==> valid_utf8(bytes@),
        r matches Some(s) ==> s@ == decode_utf8(bytes@),
{
    match utf8_str(bytes) {
        Some(s) => Some(s.to_owned()),
        None => None,
    }
}

} // verus!
