//! Reading the classes of a jar archive.
use vstd::prelude::*;
use super::reader::{Abort, IoFailure};
use super::{BytecodeImportError, ImportedJavaClass, SpecClass, ZipFailure, load_class, spec_load_class};
use crate::text::{char_at, char_len, str_eq};

verus! {

/// The zip crate's error type.
#[verifier::external_type_specification]
#[verifier::external_body]
pub struct ExZipError(zip::result::ZipError);

/// What opening a zip archive held in `data` gives: the number of its
/// entries, or why it could not be opened.
pub uninterp spec fn zip_open_outcome(data: Seq<u8>) -> Result<usize, ZipFailure>;

/// What reading the name of entry `index` of the zip archive held in `data`
/// gives: the name, or why it could not be had.
pub uninterp spec fn zip_name_outcome(data: Seq<u8>, index: usize) -> Result<Seq<char>, ZipFailure>;

/// What reading all the uncompressed bytes of entry `index` of the zip
/// archive held in `data` gives: the bytes, or why they could not be had.
pub uninterp spec fn zip_bytes_outcome(data: Seq<u8>, index: usize) -> Result<Seq<u8>, BytecodeImportError>;

/// The case of `ZipFailure` that a zip error belongs to.
#[verifier::external_body]
fn zip_failure(e: zip::result::ZipError) -> ZipFailure {
    match e {
        zip::result::ZipError::Io(_) => ZipFailure::Io,
        zip::result::ZipError::InvalidArchive(_) => ZipFailure::InvalidArchive,
        zip::result::ZipError::UnsupportedArchive(_) => ZipFailure::UnsupportedArchive,
        zip::result::ZipError::FileNotFound => ZipFailure::FileNotFound,
        zip::result::ZipError::InvalidPassword => ZipFailure::InvalidPassword,
        zip::result::ZipError::CompressionMethodNotSupported(id) => ZipFailure::CompressionMethodNotSupported(id),
        _ => ZipFailure::Other,
    }
}

/// Opens the zip archive held in `data` (`zip::ZipArchive::new` on a cursor
/// over the bytes) and counts its entries (`ZipArchive::len`). The outcome is
/// named, not stated: it depends on the bytes alone.
#[verifier::external_body]
fn zip_entry_count(data: &[u8]) -> (r: Result<usize, ZipFailure>)
    ensures
        r == zip_open_outcome(data@),
{
    match zip::ZipArchive::new(std::io::Cursor::new(data)) {
        Ok(archive) => Ok(archive.len()),
        Err(e) => Err(zip_failure(e)),
    }
}

/// Opens the zip archive held in `data`, takes entry `index`
/// (`ZipArchive::by_index`) and reads its name (`ZipFile::name`). The
/// outcome is named, not stated: it depends on the bytes and the index
/// alone.
#[verifier::external_body]
fn zip_entry_name(data: &[u8], index: usize) -> (r: Result<String, ZipFailure>)
    ensures
        match r {
            Ok(name) => zip_name_outcome(data@, index) == Ok::<Seq<char>, ZipFailure>(name@),
            Err(e) => zip_name_outcome(data@, index) == Err::<Seq<char>, ZipFailure>(e),
        },
{
    let mut archive = zip::ZipArchive::new(std::io::Cursor::new(data)).map_err(zip_failure)?;
    let file = archive.by_index(index).map_err(zip_failure)?;
    let name = file.name().map_err(zip_failure)?.into_owned();
    Ok(name)
}

/// Opens the zip archive held in `data`, takes entry `index`
/// (`ZipArchive::by_index`) and reads all its bytes (`read_to_end`). The
/// outcome is named, not stated: it depends on the bytes and the index
/// alone. A zip error is `ZipError`; a failure while reading the bytes (such
/// as a checksum that does not match) is the I/O error `ReadFailed`.
#[verifier::external_body]
fn zip_entry_bytes(data: &[u8], index: usize) -> (r: Result<Vec<u8>, BytecodeImportError>)
    ensures
        match r {
            Ok(bytes) => zip_bytes_outcome(data@, index) == Ok::<Seq<u8>, BytecodeImportError>(bytes@),
            Err(e) => zip_bytes_outcome(data@, index) == Err::<Seq<u8>, BytecodeImportError>(e),
        },
{
    let zip_err = |e| BytecodeImportError::ZipError(zip_failure(e));
    let mut archive = zip::ZipArchive::new(std::io::Cursor::new(data)).map_err(zip_err)?;
    let mut file = archive.by_index(index).map_err(zip_err)?;
    let mut bytes = Vec::new();
    match std::io::Read::read_to_end(&mut file, &mut bytes) {
        Ok(_) => Ok(bytes),
        Err(_) => Err(BytecodeImportError::IoError(IoFailure::ReadFailed)),
    }
}

/// The part of `s` after its last `c` (all of `s` when there is none); what
/// `s.split(c).last()` gives.
pub open spec fn after_last(s: Seq<char>, c: char) -> Seq<char>
    decreases s.len(),
{
    if s.len() == 0 {
        s
    } else if s.last() == c {
        Seq::empty()
    } else {
        after_last(s.drop_last(), c).push(s.last())
    }
}

/// The extension of an entry name: what follows its last dot.
pub fn extension(name: &str) -> (r: &str)
    ensures
        r@ == after_last(name@, '.'),
{
    let n = char_len(name);
    let mut i: usize = n;
    assert(name@.take(n as int) =~= name@);
    assert(name@.subrange(n as int, n as int) =~= Seq::<char>::empty());
    assert(after_last(name@, '.') + Seq::<char>::empty() =~= after_last(name@, '.'));
    while i > 0
        invariant
            n == name@.len(),
            i <= n,
            forall|j: int| i <= j < n ==> name@[j] != '.',
            after_last(name@, '.') == after_last(name@.take(i as int), '.') + name@.subrange(i as int, n as int),
        decreases i,
    {
        if char_at(name, i - 1) == '.' {
            assert(name@.take(i as int).drop_last() =~= name@.take(i - 1));
            return name.substring_char(i, n);
        }
        assert(name@.take(i as int).drop_last() =~= name@.take(i - 1));
        assert(name@.subrange(i - 1, n as int) =~= seq![name@[i - 1]] + name@.subrange(i as int, n as int));
        assert(after_last(name@.take(i - 1), '.').push(name@[i - 1]) + name@.subrange(i as int, n as int)
            =~= after_last(name@.take(i - 1), '.') + name@.subrange(i - 1, n as int));
        i = i - 1;
    }
    assert(name@.take(0) =~= Seq::<char>::empty());
    name.substring_char(0, n)
}

/// How deeply `load_jar` follows jars inside jars: as deep as memory can
/// hold them, since each level keeps the bytes of its own jar.
pub const JAR_NESTING_LIMIT: usize = usize::MAX;

/// The classes of a jar archive held in `data`, following jars inside it to
/// `depth` more levels: each entry named `*.class` is read as a class, each
/// entry named `*.jar` as a jar, in the order of the archive; the bytes of
/// other entries are not read. The first failure ends the reading.
pub open spec fn spec_load_jar(data: Seq<u8>, depth: nat) -> Result<Seq<SpecClass>, BytecodeImportError>
    decreases depth, 1nat, 0nat,
{
    match zip_open_outcome(data) {
        Err(z) => Err(BytecodeImportError::ZipError(z)),
        Ok(n) => spec_jar_entries(data, 0, n as nat, depth),
    }
}

/// What entry `i` of the jar held in `data` adds, given its name: the class
/// it holds for a `*.class` entry, the classes of the jar it holds for a
/// `*.jar` entry, nothing for another.
pub open spec fn spec_jar_entry(data: Seq<u8>, i: nat, name: Seq<char>, depth: nat) -> Result<Seq<SpecClass>, BytecodeImportError>
    decreases depth, 0nat, 0nat,
{
    let ext = after_last(name, '.');
    if ext == "class"@ {
        match zip_bytes_outcome(data, i as usize) {
            Err(e) => Err(e),
            Ok(bytes) => match spec_load_class(bytes) {
                Ok(c) => Ok(seq![c]),
                Err(e) => Err(e),
            },
        }
    } else if ext == "jar"@ {
        if depth == 0 {
            Err(BytecodeImportError::Aborted(Abort::JarNestingTooDeep))
        } else {
            match zip_bytes_outcome(data, i as usize) {
                Err(e) => Err(e),
                Ok(bytes) => spec_load_jar(bytes, (depth - 1) as nat),
            }
        }
    } else {
        Ok(Seq::empty())
    }
}

/// The classes of the entries `i` and after, of the `n` entries of the jar
/// held in `data`.
pub open spec fn spec_jar_entries(data: Seq<u8>, i: nat, n: nat, depth: nat) -> Result<Seq<SpecClass>, BytecodeImportError>
    decreases depth, 0nat, n - i,
{
    if i >= n {
        Ok(Seq::empty())
    } else {
        match zip_name_outcome(data, i as usize) {
            Err(z) => Err(BytecodeImportError::ZipError(z)),
            Ok(name) => match spec_jar_entry(data, i, name, depth) {
                Err(e) => Err(e),
                Ok(cs) => match spec_jar_entries(data, i + 1, n, depth) {
                    Err(e) => Err(e),
                    Ok(rest) => Ok(cs + rest),
                },
            },
        }
    }
}

/// The outcome of reading a jar in spec terms.
pub open spec fn lift_classes(r: Result<Vec<ImportedJavaClass>, BytecodeImportError>) -> Result<Seq<SpecClass>, BytecodeImportError> {
    match r {
        Ok(v) => Ok(v.deep_view()),
        Err(e) => Err(e),
    }
}

/// What entry `index` of the jar held in `data`, named `name`, adds to the
/// classes read: its class, the classes of the jar it holds, or nothing.
fn load_jar_entry(data: &[u8], index: usize, name: &str, depth: usize) -> (r: Result<Vec<ImportedJavaClass>, BytecodeImportError>)
    ensures
        lift_classes(r) == spec_jar_entry(data@, index as nat, name@, depth as nat),
    decreases depth, 0nat,
{
    let ext = extension(name);
    proof {
        reveal_strlit("class");
        reveal_strlit("jar");
    }
    if str_eq(ext, "class") {
        let bytes = match zip_entry_bytes(data, index) {
            Ok(b) => b,
            Err(e) => return Err(e),
        };
        match load_class(bytes.as_slice()) {
            Ok(c) => {
                let ghost sc = c.deep_view();
                let v = vec![c];
                assert(v.deep_view() =~= seq![sc]);
                Ok(v)
            },
            Err(e) => Err(e),
        }
    } else if str_eq(ext, "jar") {
        if depth == 0 {
            return Err(BytecodeImportError::Aborted(Abort::JarNestingTooDeep));
        }
        let bytes = match zip_entry_bytes(data, index) {
            Ok(b) => b,
            Err(e) => return Err(e),
        };
        load_jar_nested(bytes.as_slice(), depth - 1)
    } else {
        let v: Vec<ImportedJavaClass> = Vec::new();
        assert(v.deep_view() =~= Seq::<SpecClass>::empty());
        Ok(v)
    }
}

/// Reads the classes of a jar archive held in `data`, following jars inside
/// it up to `depth` levels.
pub fn load_jar_nested(data: &[u8], depth: usize) -> (r: Result<Vec<ImportedJavaClass>, BytecodeImportError>)
    ensures
        lift_classes(r) == spec_load_jar(data@, depth as nat),
    decreases depth, 1nat,
{
    let n = match zip_entry_count(data) {
        Ok(n) => n,
        Err(z) => return Err(BytecodeImportError::ZipError(z)),
    };
    let mut classes: Vec<ImportedJavaClass> = Vec::new();
    let mut i: usize = 0;
    let ghost whole = spec_load_jar(data@, depth as nat);
    assert(classes.deep_view() =~= Seq::<SpecClass>::empty());
    while i < n
        invariant
            i <= n,
            n as nat == zip_open_outcome(data@)->Ok_0,
            zip_open_outcome(data@) is Ok,
            whole == spec_load_jar(data@, depth as nat),
            whole == match spec_jar_entries(data@, i as nat, n as nat, depth as nat) {
                Ok(rest) => Ok::<Seq<SpecClass>, BytecodeImportError>(classes.deep_view() + rest),
                Err(e) => Err(e),
            },
        decreases n - i,
    {
        let name = match zip_entry_name(data, i) {
            Ok(x) => x,
            Err(z) => return Err(BytecodeImportError::ZipError(z)),
        };
        let ghost before = classes.deep_view();
        let mut added = match load_jar_entry(data, i, name.as_str(), depth) {
            Ok(v) => v,
            Err(e) => return Err(e),
        };
        let ghost sa = added.deep_view();
        classes.append(&mut added);
        assert(classes.deep_view() =~= before + sa);
        proof {
            match spec_jar_entries(data@, (i + 1) as nat, n as nat, depth as nat) {
                Ok(rest) => {
                    assert(before + (sa + rest) =~= classes.deep_view() + rest);
                },
                Err(e) => {},
            }
        }
        i = i + 1;
    }
    assert(classes.deep_view() + Seq::<SpecClass>::empty() =~= classes.deep_view());
    Ok(classes)
}

/// Reads the classes of a jar archive held in `data`: each `*.class` entry
/// as a class, each `*.jar` entry as a jar, in archive order; other entries
/// are skipped unread.
pub fn load_jar(data: &[u8]) -> (r: Result<Vec<ImportedJavaClass>, BytecodeImportError>)
    ensures
        lift_classes(r) == spec_load_jar(data@, JAR_NESTING_LIMIT as nat),
{
    load_jar_nested(data, JAR_NESTING_LIMIT)
}

} // verus!
