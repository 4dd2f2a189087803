use jtcpp::class::{cpp_class_to_path, java_class_to_cpp_class};
use jtcpp::cpp_codegen::create_namespace_def;
use jtcpp::mangling::{class_path_to_class_mangled, desc_to_mangled, mangle_method_name, method_name_to_c_name};

#[test]
fn java_to_cpp_paths() {
    assert_eq!(java_class_to_cpp_class("java/lang/Object").as_str(), "java::lang::Object");
    assert_eq!(java_class_to_cpp_class("Vector3").as_str(), "Vector3");
    assert_eq!(
        cpp_class_to_path(java_class_to_cpp_class("java/lang/Object").as_str()).as_str(),
        "java_cs_lang_cs_Object"
    );
}

#[test]
fn class_name_to_namespace_def() {
    assert_eq!(
        create_namespace_def("java::lang::Object").as_str(),
        "namespace java{namespace lang{struct Object;};};"
    );
    assert_eq!(create_namespace_def("Vector3").as_str(), "struct Vector3;");
}

#[test]
fn namespace_def_edge_cases() {
    assert_eq!(create_namespace_def("").as_str(), "struct ;");
    assert_eq!(create_namespace_def("::").as_str(), "namespace {struct ;};");
    assert_eq!(create_namespace_def("a:::b").as_str(), "namespace a{struct :b;};");
}

#[test]
fn cpp_path_keeps_single_colons() {
    assert_eq!(cpp_class_to_path("a:b::c").as_str(), "a:b_cs_c");
    assert_eq!(cpp_class_to_path(":::").as_str(), "_cs_:");
}

#[test]
fn class_paths_are_mangled() {
    assert_eq!(class_path_to_class_mangled("java/lang/Object").as_str(), "java_cs_lang_cs_Object");
    assert_eq!(class_path_to_class_mangled("Outer$Inner").as_str(), "Outer_dolsig_Inner");
}

#[test]
fn method_names_are_mangled() {
    assert_eq!(method_name_to_c_name("<init>").as_str(), "_init_");
    assert_eq!(method_name_to_c_name("<clinit>").as_str(), "_clinit_");
    assert_eq!(method_name_to_c_name("Add").as_str(), "Add");
    assert_eq!(desc_to_mangled("(ILjava/lang/Object;)V").as_str(), "_ab_Ijava_cs_lang_cs_Object_as_ae_V");
    assert_eq!(desc_to_mangled("([I)V").as_str(), "_ab__arr_Iae_V");
    assert_eq!(mangle_method_name("Add", "(II)I").as_str(), "Add_ne__ab_IIae_I");
    assert_eq!(mangle_method_name("<init>", "()V").as_str(), "_init__ne__ab_ae_V");
}

#[test]
fn header_paths_match_mangled_paths() {
    for p in ["java/lang/Object", "Vector3", "a/b/c/D", "", "/", "x//y"] {
        assert_eq!(
            cpp_class_to_path(java_class_to_cpp_class(p).as_str()),
            class_path_to_class_mangled(p),
            "for {p:?}"
        );
    }
    for p in ["a/B$C", "$", "x$/$y"] {
        assert_eq!(
            cpp_class_to_path(java_class_to_cpp_class(p).as_str()).replace('$', "_dolsig_"),
            class_path_to_class_mangled(p),
            "for {p:?}"
        );
    }
    assert_eq!(class_path_to_class_mangled("a/B$C"), "a_cs_B_dolsig_C");
}
