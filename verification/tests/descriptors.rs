use jtcpp::importer::{AccessFlags, ConstantItem, ImportedJavaClass};
use jtcpp::vartype::{field_desc_str_to_ftype, method_desc_to_args, VariableType};

#[test]
fn lib_arg_counter() {
    assert_eq!(jtcpp::method_desc_to_argc("()I"), 0);
    assert_eq!(jtcpp::method_desc_to_argc("(I)I"), 1);
    assert_eq!(jtcpp::method_desc_to_argc("(IL)I"), 2);
    assert_eq!(jtcpp::method_desc_to_argc("(ILF)I"), 3);
    assert_eq!(jtcpp::method_desc_to_argc("(ILF)"), 3);
}

#[test]
fn main_arg_counter() {
    assert_eq!(jtcpp::vartype::method_desc_to_argc("()I"), 0);
    assert_eq!(jtcpp::vartype::method_desc_to_argc("(I)I"), 1);
    assert_eq!(jtcpp::vartype::method_desc_to_argc("(IL)I"), 2);
    assert_eq!(jtcpp::vartype::method_desc_to_argc("(IJF)I"), 3);
    assert_eq!(jtcpp::vartype::method_desc_to_argc("(IJF)"), 3);
    assert_eq!(jtcpp::vartype::method_desc_to_argc("(Ljava/lang/Object;)V"), 1);
    assert_eq!(jtcpp::vartype::method_desc_to_argc("([[[D)V"), 1);
}

#[test]
fn interpreter_names() {
    assert_eq!(jtcpp::mangle_method_name("Identity", "Identity", "(I)I").as_str(), "Identity::Identity(I)I");
}

#[test]
fn field_descriptors() {
    assert!(matches!(field_desc_str_to_ftype("I", 0), VariableType::Int));
    assert!(matches!(field_desc_str_to_ftype("Z", 0), VariableType::Bool));
    match field_desc_str_to_ftype("Ljava/lang/String;", 0) {
        VariableType::ObjectRef { name } => assert_eq!(name.as_str(), "java_cs_lang_cs_String"),
        other => panic!("unexpected {:?}", other),
    }
    match field_desc_str_to_ftype("[[F", 0) {
        VariableType::ArrayRef(inner) => match *inner {
            VariableType::ArrayRef(inner2) => assert!(matches!(*inner2, VariableType::Float)),
            other => panic!("unexpected {:?}", other),
        },
        other => panic!("unexpected {:?}", other),
    }
}

#[test]
fn method_descriptors() {
    let (args, ret) = method_desc_to_args("(IF)V");
    assert_eq!(args.len(), 2);
    assert!(matches!(args[0], VariableType::Int));
    assert!(matches!(args[1], VariableType::Float));
    assert!(matches!(ret, VariableType::Void));
    assert_eq!(VariableType::Int.c_type().as_str(), "int");
    assert_eq!(VariableType::ArrayRef(Box::new(VariableType::Float)).c_type().as_str(), "RuntimeArray<float>*");
}

#[test]
fn field_types_from_the_constant_pool() {
    let class = ImportedJavaClass {
        const_items: vec![ConstantItem::Utf8("[I".to_string()), ConstantItem::Utf8("J".to_string())],
        access_flags: AccessFlags { mask: 0 },
        this_class: 1,
        super_class: 0,
        interfaces: vec![],
        fields: vec![],
        methods: vec![],
        attributes: vec![],
    };
    match jtcpp::vartype::field_descriptor_to_ftype(1, &class) {
        VariableType::ArrayRef(inner) => assert!(matches!(*inner, VariableType::Int)),
        other => panic!("unexpected {:?}", other),
    }
    assert!(matches!(jtcpp::vartype::field_descriptor_to_ftype(2, &class), VariableType::Long));
    assert_eq!(jtcpp::executor::field_descriptor_to_ftype(2, &class), jtcpp::executor::FieldType::Long);
}

#[test]
fn array_arguments_end_at_their_element_type() {
    let (args, ret) = method_desc_to_args("([II)V");
    assert_eq!(args.len(), 2);
    match &args[0] {
        VariableType::ArrayRef(inner) => assert!(matches!(**inner, VariableType::Int)),
        other => panic!("unexpected {:?}", other),
    }
    assert!(matches!(args[1], VariableType::Int));
    assert!(matches!(ret, VariableType::Void));
    let (args, _) = method_desc_to_args("([[Ljava/lang/Object;J[F)V");
    assert_eq!(args.len(), 3);
    assert!(matches!(args[1], VariableType::Long));
    assert!(matches!(args[2], VariableType::ArrayRef(_)));
    assert_eq!(jtcpp::vartype::method_desc_to_argc("([II)V"), 2);
    assert_eq!(jtcpp::vartype::method_desc_to_argc("([II)é"), 2);
}

#[test]
fn argument_types_match_the_argument_count() {
    for d in ["()V", "(I)I", "([II)V", "(Ljava/lang/Object;[[DJ)I", "([Ljava/lang/String;)V", "(ZBCSF)V"] {
        let (args, _) = method_desc_to_args(d);
        assert_eq!(args.len(), jtcpp::vartype::method_desc_to_argc(d) as usize, "for {d}");
    }
}
