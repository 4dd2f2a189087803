use jtcpp::executor::class::finalize;
use jtcpp::executor::fatclass::FatClass;
use jtcpp::executor::fatops::{expand_ops, try_expand_ops, FatOp};
use jtcpp::executor::{FieldType, UnmetDependency};
use jtcpp::importer::opcodes::{load_ops, OpCode};
use jtcpp::importer::{AccessFlags, ImportedJavaClass};
use jtcpp::ExecEnv;

fn no_pool_class() -> ImportedJavaClass {
    ImportedJavaClass {
        const_items: vec![],
        access_flags: AccessFlags { mask: 0 },
        this_class: 1,
        super_class: 0,
        interfaces: vec![],
        fields: vec![],
        methods: vec![],
        attributes: vec![],
    }
}

#[test]
fn branches_resolve_to_instruction_indices() {
    let class = no_pool_class();
    let ops = vec![(OpCode::IConst(0), 0u16), (OpCode::GoTo(2), 1), (OpCode::IConst(1), 3), (OpCode::IfZero(-3), 4), (OpCode::IReturn, 7)];
    let fat = expand_ops(&ops, &class);
    assert_eq!(fat.len(), ops.len());
    assert!(matches!(fat[1], FatOp::GoTo(2)));
    assert!(matches!(fat[3], FatOp::IfZero(1)));
    // A jump to an offset where no instruction starts cannot be resolved.
    let bad = vec![(OpCode::GoTo(1), 0u16), (OpCode::IReturn, 3)];
    assert!(try_expand_ops(&bad, &class).is_none());
    // `ifne` keeps its sense.
    let ne = vec![(OpCode::IfNotZero(0), 0u16)];
    assert!(matches!(expand_ops(&ne, &class)[0], FatOp::IfNotZero(0)));
}

#[test]
fn instruction_offsets_increase() {
    // iconst_0, bipush 7, sipush 300, iadd, ireturn
    let code = [0x03, 0x10, 7, 0x11, 0x01, 0x2c, 0x60, 0xac];
    let (ops, end) = load_ops(&code, 0, code.len() as u32).unwrap();
    let offsets: Vec<u16> = ops.iter().map(|op| op.1).collect();
    assert_eq!(offsets, vec![0, 1, 3, 6, 7]);
    assert_eq!(end, code.len());
    assert!(matches!(ops[1].0, OpCode::BIPush(7)));
    assert!(matches!(ops[2].0, OpCode::SIPush(300)));
}

#[test]
fn argument_counts_agree_on_primitive_descriptors() {
    for d in ["()V", "(I)I", "(IJF)I", "(ZBCSD)V"] {
        assert_eq!(jtcpp::method_desc_to_argc(d), jtcpp::vartype::method_desc_to_argc(d), "for {d}");
    }
    // With a class name they differ: one counts characters, the other types.
    assert_eq!(jtcpp::method_desc_to_argc("(Ljava/lang/Object;)V"), 18);
    assert_eq!(jtcpp::vartype::method_desc_to_argc("(Ljava/lang/Object;)V"), 1);
}

#[test]
fn subclasses_keep_inherited_field_positions() {
    let mut env = ExecEnv::new();
    let base = FatClass {
        class_name: "Base".to_string(),
        super_name: "java/lang/Object".to_string(),
        fields: vec![("a".to_string(), FieldType::Int), ("b".to_string(), FieldType::Float)],
        static_fields: vec![("count".to_string(), FieldType::Int)],
    };
    let linked = finalize(&base, &mut env).unwrap();
    assert_eq!(env.env_mem.statics.len(), 1);
    assert_eq!(linked.get_static("count"), Some(0));
    let base_id = env.code_container.set_or_replace_class("Base", linked);
    let again = finalize(&base, &mut env).unwrap();
    assert_eq!(again.get_static("count"), Some(1));
    assert_eq!(env.code_container.set_or_replace_class("Base", again), base_id);
    assert_eq!(env.lookup_class("Base"), Some(base_id));
    let derived = FatClass {
        class_name: "Derived".to_string(),
        super_name: "Base".to_string(),
        fields: vec![("c".to_string(), FieldType::ObjectRef), ("b".to_string(), FieldType::Int)],
        static_fields: vec![],
    };
    let linked = finalize(&derived, &mut env).unwrap();
    assert_eq!(linked.get_field("a"), Some((0, FieldType::Int)));
    assert_eq!(linked.get_field("c"), Some((2, FieldType::ObjectRef)));
    // A field of the same name hides the inherited one.
    assert_eq!(linked.get_field("b"), Some((3, FieldType::Int)));
    assert_eq!(linked.field_types.len(), 4);
    let orphan = FatClass {
        class_name: "Orphan".to_string(),
        super_name: "Missing".to_string(),
        fields: vec![],
        static_fields: vec![],
    };
    match finalize(&orphan, &mut env) {
        Err(UnmetDependency::NeedsClass(name)) => assert_eq!(name, "Missing"),
        Ok(_) => panic!("linked without its super class"),
    }
}

#[test]
fn stores_and_shifts_decode_to_their_own_instructions() {
    let (ops, _) = load_ops(&[0x3a, 0x04], 0, 2).unwrap();
    assert_eq!(ops.len(), 1);
    assert!(matches!(ops[0], (OpCode::AStore(4), 0)));
    let (ops, _) = load_ops(&[0x36, 0x04], 0, 2).unwrap();
    assert!(matches!(ops[0], (OpCode::IStore(4), 0)));
    let (ops, _) = load_ops(&[0x7a, 0x7b, 0x7c, 0x7d], 0, 4).unwrap();
    assert!(matches!(ops[0], (OpCode::IShr, 0)));
    assert!(matches!(ops[1], (OpCode::LShr, 1)));
    assert!(matches!(ops[2], (OpCode::IUShr, 2)));
    assert!(matches!(ops[3], (OpCode::LUShr, 3)));
}
