use jtcpp::importer::jar::{load_jar, load_jar_nested};
use jtcpp::importer::{BytecodeImportError, ZipFailure};
use jtcpp::importer::reader::{Abort, IoFailure};
use std::io::Write;

fn utf8(out: &mut Vec<u8>, s: &str) {
    out.push(1);
    out.extend_from_slice(&(s.len() as u16).to_be_bytes());
    out.extend_from_slice(s.as_bytes());
}

/// A class with no members, named `name`, extending `java/lang/Object`.
fn empty_class(name: &str) -> Vec<u8> {
    let mut b = vec![0xCA, 0xFE, 0xBA, 0xBE, 0, 0, 0, 52];
    b.extend_from_slice(&5u16.to_be_bytes());
    utf8(&mut b, name);
    b.push(7);
    b.extend_from_slice(&1u16.to_be_bytes());
    utf8(&mut b, "java/lang/Object");
    b.push(7);
    b.extend_from_slice(&3u16.to_be_bytes());
    for v in [0x0021u16, 2, 4, 0, 0, 0, 0] {
        b.extend_from_slice(&v.to_be_bytes());
    }
    b
}

fn zip_of(entries: &[(&str, Vec<u8>)]) -> Vec<u8> {
    let mut zw = zip::ZipWriter::new(std::io::Cursor::new(Vec::new()));
    let opts = zip::write::SimpleFileOptions::default().compression_method(zip::CompressionMethod::Stored);
    for (name, bytes) in entries {
        zw.start_file(*name, opts).unwrap();
        zw.write_all(bytes).unwrap();
    }
    zw.finish().unwrap().into_inner()
}

#[test]
fn reads_the_classes_of_a_jar_in_order() {
    let jar = zip_of(&[
        ("META-INF/MANIFEST.MF", b"Manifest-Version: 1.0\n".to_vec()),
        ("a/First.class", empty_class("a/First")),
        ("b/Second.class", empty_class("b/Second")),
    ]);
    let classes = load_jar(&jar).unwrap();
    assert_eq!(classes.len(), 2);
    assert_eq!(classes[0].lookup_class(2), Some("a/First"));
    assert_eq!(classes[1].lookup_class(2), Some("b/Second"));
}

#[test]
fn follows_jars_inside_jars() {
    let inner = zip_of(&[("Inner.class", empty_class("Inner"))]);
    let outer = zip_of(&[("Outer.class", empty_class("Outer")), ("lib/inner.jar", inner)]);
    let classes = load_jar(&outer).unwrap();
    assert_eq!(classes.len(), 2);
    assert_eq!(classes[1].lookup_class(2), Some("Inner"));
    assert!(matches!(
        load_jar_nested(&outer, 0),
        Err(BytecodeImportError::Aborted(Abort::JarNestingTooDeep))
    ));
}

#[test]
fn a_bad_class_in_a_jar_fails_the_jar() {
    let mut bad = empty_class("Bad");
    bad[0] = 0xAB;
    let jar = zip_of(&[("Bad.class", bad)]);
    assert!(matches!(load_jar(&jar), Err(BytecodeImportError::NotJavaBytecode(_))));
}

#[test]
fn bytes_that_are_no_zip_are_refused() {
    assert!(matches!(
        load_jar(b"this is not a zip archive at all"),
        Err(BytecodeImportError::ZipError(ZipFailure::InvalidArchive))
    ));
}

#[test]
fn other_entries_are_skipped_unread() {
    let mut jar = zip_of(&[("notes.txt", b"unreadable notes".to_vec()), ("A.class", empty_class("A"))]);
    let at = jar.windows(10).position(|w| w == b"unreadable").unwrap();
    jar[at] ^= 0xff;
    let classes = load_jar(&jar).unwrap();
    assert_eq!(classes.len(), 1);
    assert_eq!(classes[0].lookup_class(2), Some("A"));
}

#[test]
fn an_entry_that_cannot_be_read_is_an_io_error() {
    let mut jar = zip_of(&[("A.class", empty_class("A"))]);
    let at = jar.windows(16).position(|w| w == b"java/lang/Object").unwrap();
    jar[at] ^= 0xff;
    assert!(matches!(load_jar(&jar), Err(BytecodeImportError::IoError(IoFailure::ReadFailed))));
}
