use jtcpp::executor::baseir::BaseIR;
use jtcpp::importer::{load_class, BytecodeImportError, ConstantImportError, ConstantItem};
use jtcpp::importer::reader::{Abort, IoFailure};
use jtcpp::{ExecEnv, Method};

fn utf8(out: &mut Vec<u8>, s: &str) {
    out.push(1);
    out.extend_from_slice(&(s.len() as u16).to_be_bytes());
    out.extend_from_slice(s.as_bytes());
}

fn u16be(out: &mut Vec<u8>, v: u16) {
    out.extend_from_slice(&v.to_be_bytes());
}

/// A class `Identity` with one static method `Identity(I)I` whose code is
/// `iload_0; ireturn`.
fn identity_class() -> Vec<u8> {
    let mut b = vec![0xCA, 0xFE, 0xBA, 0xBE, 0, 0, 0, 52];
    u16be(&mut b, 7);
    utf8(&mut b, "Identity"); // 1
    b.push(7);
    u16be(&mut b, 1); // 2: class Identity
    utf8(&mut b, "java/lang/Object"); // 3
    b.push(7);
    u16be(&mut b, 3); // 4: class java/lang/Object
    utf8(&mut b, "(I)I"); // 5
    utf8(&mut b, "Code"); // 6
    u16be(&mut b, 0x0021);
    u16be(&mut b, 2);
    u16be(&mut b, 4);
    u16be(&mut b, 0); // interfaces
    u16be(&mut b, 0); // fields
    u16be(&mut b, 1); // methods
    u16be(&mut b, 0x0009);
    u16be(&mut b, 1);
    u16be(&mut b, 5);
    u16be(&mut b, 1);
    u16be(&mut b, 6);
    b.extend_from_slice(&14u32.to_be_bytes());
    u16be(&mut b, 1);
    u16be(&mut b, 1);
    b.extend_from_slice(&2u32.to_be_bytes());
    b.push(0x1a);
    b.push(0xac);
    u16be(&mut b, 0);
    u16be(&mut b, 0);
    u16be(&mut b, 0); // class attributes
    b
}

#[test]
fn loads_a_class_file() {
    let bytes = identity_class();
    let class = load_class(&bytes).unwrap();
    assert_eq!(class.this_class, 2);
    assert_eq!(class.super_class, 4);
    assert_eq!(class.const_items.len(), 6);
    assert_eq!(class.lookup_class(2), Some("Identity"));
    assert_eq!(class.lookup_utf8(5), Some("(I)I"));
    assert!(matches!(class.const_items[1], ConstantItem::Class { name_index: 1 }));
    assert_eq!(class.methods.len(), 1);
    assert!(class.methods[0].access_flags.is_static());
    assert!(!class.access_flags.is_static());
    assert!(class.access_flags.is_super());
    assert_eq!(class.methods[0].max_locals(), Some(1));
    assert_eq!(class.methods[0].bytecode().unwrap().len(), 2);
}

#[test]
fn rejects_bad_headers() {
    let mut bytes = identity_class();
    bytes[0] = 0;
    assert!(matches!(load_class(&bytes), Err(BytecodeImportError::NotJavaBytecode(0x00FEBABE))));
    let mut bytes = identity_class();
    bytes[7] = 70;
    assert!(matches!(load_class(&bytes), Err(BytecodeImportError::UnsuportedVersion(70, 0))));
    let bytes = identity_class();
    assert!(matches!(load_class(&bytes[..20]), Err(BytecodeImportError::IoError(_))));
}

#[test]
fn loads_a_class_into_the_interpreter() {
    let bytes = identity_class();
    let class = load_class(&bytes).unwrap();
    let mut env = ExecEnv::new();
    assert_eq!(env.lookup_class("java/lang/Object"), Some(0));
    assert!(env.load_class(class));
    assert_eq!(env.lookup_class("Identity"), Some(1));
    let name = jtcpp::mangle_method_name("Identity", "Identity", "(I)I");
    let id = env.lookup_method(name.as_str()).unwrap();
    match &env.code_container.methods[id] {
        Some(Method::BaseIR { ops }) => assert_eq!(ops.as_slice(), &[BaseIR::ILoad(0), BaseIR::IReturn]),
        _ => panic!("method not stored as code"),
    }
    let obj = env.new_obj(1);
    assert_eq!(obj, 0);
}

#[test]
fn a_class_needs_its_super_class() {
    let mut bytes = identity_class();
    // Rename the super class so that it is not loaded.
    let pos = bytes.windows(16).position(|w| w == b"java/lang/Object").unwrap();
    bytes[pos] = b'k';
    let class = load_class(&bytes).unwrap();
    let mut env = ExecEnv::new();
    assert!(!env.load_class(class));
    assert_eq!(env.lookup_class("Identity"), None);
    // Nothing changed.
    assert_eq!(env.code_container.classes.len(), 1);
    assert_eq!(env.code_container.methods.len(), 0);
    assert_eq!(env.env_mem.statics.len(), 0);
}

/// The position of `this_class` in the identity class: after the header (8),
/// the pool count (2), the pool and the access flags (2).
fn this_class_pos(b: &[u8]) -> usize {
    let pos = b.windows(4).position(|w| w == b"Code").unwrap();
    pos + 4 + 2
}

#[test]
fn class_indices_are_checked() {
    let mut bytes = identity_class();
    let p = this_class_pos(&bytes);
    assert_eq!(&bytes[p..p + 2], &[0, 2]);
    bytes[p + 1] = 0;
    assert!(matches!(load_class(&bytes), Err(BytecodeImportError::InvalidThisClass)));
    let mut bytes = identity_class();
    bytes[p + 1] = 8;
    assert!(matches!(load_class(&bytes), Err(BytecodeImportError::InvalidThisClass)));
    let mut bytes = identity_class();
    bytes[p + 3] = 8;
    assert!(matches!(load_class(&bytes), Err(BytecodeImportError::InvalidSuperClass)));
}

#[test]
fn constant_pool_errors() {
    let mut bytes = identity_class();
    bytes[8] = 0;
    bytes[9] = 0;
    assert!(matches!(load_class(&bytes), Err(BytecodeImportError::Aborted(Abort::EmptyConstantPool))));
    let mut bytes = identity_class();
    bytes[10] = 99;
    assert!(matches!(load_class(&bytes), Err(BytecodeImportError::Aborted(Abort::UnhandledConstantTag(99)))));
    let mut bytes = identity_class();
    // The first byte of the first UTF-8 constant's text.
    bytes[13] = 0xFF;
    assert!(matches!(
        load_class(&bytes),
        Err(BytecodeImportError::ConstantImportError(ConstantImportError::Utf8Error))
    ));
}

#[test]
fn unknown_opcodes_abort() {
    let mut bytes = identity_class();
    let code = bytes.len() - 2 - 2 - 2 - 2;
    assert_eq!(bytes[code], 0x1a);
    bytes[code] = 0xc8;
    assert!(matches!(load_class(&bytes), Err(BytecodeImportError::Aborted(Abort::UnhandledOpcode(0xc8)))));
    bytes[code] = 0xcb;
    assert!(matches!(load_class(&bytes), Err(BytecodeImportError::IoError(IoFailure::ReservedOpcode(0xcb)))));
}
