use jtcpp::class::ClassConversionError;
use jtcpp::importer::attribute::Attribute;
use jtcpp::importer::opcodes::OpCode;
use jtcpp::importer::{AccessFlags, ConstantItem, Field, ImportedJavaClass};
use jtcpp::cpp_codegen::method::{create_method_impl, fat_ops_to_bb_tree, write_op};
use jtcpp::executor::fatops::FatOp;
use jtcpp::class::Class;
use jtcpp::cpp_codegen::method_writer::{LocalKind, MethodWriter};
use jtcpp::cpp_codegen::{create_header, push_method_sig, push_method_sig_args, IncludeBuilder};
use jtcpp::method::Method;
use jtcpp::vartype::VariableType;

#[test]
fn includes_are_written_once() {
    let mut b = IncludeBuilder::new("Self");
    b.add_include("Other");
    b.add_include("Other");
    b.add_include("Self");
    b.add_include("Third");
    assert_eq!(b.get_code(), "#include \"Other.hpp\"\n#include \"Third.hpp\"\n");
}

fn method(args: Vec<VariableType>, ret: VariableType, is_virtual: bool) -> Method {
    Method { is_virtual, class_name: "Vec".to_string(), name: "m".to_string(), ops: vec![], args, ret_val: ret }
}

#[test]
fn method_signatures() {
    let m = method(vec![VariableType::Int, VariableType::Float], VariableType::Void, false);
    let mut s = String::new();
    push_method_sig(&mut s, "Add", &m);
    assert_eq!(s, "void Add(int,float)");
    let mut s = String::new();
    push_method_sig_args(&mut s, "Vec::Add", &m);
    assert_eq!(s, "void Vec::Add(int l0i,float l1f)");
    let v = method(vec![VariableType::ObjectRef { name: "java_cs_lang_cs_String".to_string() }], VariableType::Int, true);
    let mut s = String::new();
    push_method_sig_args(&mut s, "Vec::Len", &v);
    assert_eq!(s, "int Vec::Len(java_cs_lang_cs_String* l1a)");
    let none = method(vec![], VariableType::Long, false);
    let mut s = String::from(">");
    push_method_sig(&mut s, "F", &none);
    assert_eq!(s, ">long F()");
}

#[test]
fn class_headers() {
    let class = Class {
        name: "geo::Vec".to_string(),
        parrent: "java::lang::Object".to_string(),
        ifaces: vec![],
        fields: vec![("x".to_string(), VariableType::Float)],
        static_fields: vec![("count".to_string(), VariableType::Int)],
        static_methods: vec![(
            "Make".to_string(),
            method(vec![VariableType::Float], VariableType::ObjectRef { name: "geo_cs_Vec".to_string() }, false),
        )],
        virtual_methods: vec![(
            "Add".to_string(),
            method(vec![VariableType::ObjectRef { name: "geo_cs_Other".to_string() }], VariableType::Void, true),
        )],
    };
    let header = create_header(&class);
    assert_eq!(
        header,
        "namespace geo{struct Vec;};\n#pragma once\n#include \"java_cs_lang_cs_Object.hpp\"\n#include \"geo_cs_Other.hpp\"\n\nstruct geo::Vec: java::lang::Object{\n\tstatic int count;\n\tfloat x;\n\tstatic geo_cs_Vec* Make(float);\n\tvirtual void Add(geo_cs_Other*);\n};"
    );
}

#[test]
fn method_writer_locals_and_scopes() {
    let mut w = MethodWriter::new(&vec![VariableType::Int]);
    let (name, t) = w.get_local(0, LocalKind::ObjectRef);
    assert_eq!(name, "l0a");
    assert!(matches!(t, Some(VariableType::Int)));
    let (name, _) = w.ensure_local_exists(3, LocalKind::Float, VariableType::Float);
    assert_eq!(name, "l3f");
    w.ensure_local_exists(3, LocalKind::Float, VariableType::Float);
    assert_eq!(w.local_decl, "\tfloat l3f;\n");
    assert!(matches!(w.get_local_type(3), Some(VariableType::Float)));
    assert!(w.get_local_type(2).is_none());
    assert_eq!(w.get_intermidiate(), "i0");
    assert_eq!(w.get_intermidiate(), "i1");
    w.begin_bb(7);
    w.begin_scope();
    w.write_raw("x = 1;");
    w.end_scope();
    assert_eq!(w.code, "\tbb7:\n\t{\n\t\tx = 1;\n\t}\n");
    w.vstack_push("i0", VariableType::Int);
    let (t, v) = w.vstack_pop().unwrap();
    assert!(matches!(t, VariableType::Int));
    assert_eq!(v, "i0");
    assert!(w.vstack_pop().is_none());
    w.set_sig("void f()");
    w.add_include("Dep");
    w.push_locals("tmp", "\tint tmp;\n");
    w.push_locals("tmp", "\tint tmp;\n");
    assert_eq!(
        w.final_code(),
        "#include \"Dep.hpp\"\nvoid f(){\n\tfloat l3f;\n\tint tmp;\n\tbb7:\n\t{\n\t\tx = 1;\n\t}\n}"
    );
}

#[test]
fn instructions_become_statements() {
    let mut mw = MethodWriter::new(&vec![VariableType::Int, VariableType::Int]);
    write_op(&FatOp::ILoad(0), &mut mw);
    write_op(&FatOp::ILoad(1), &mut mw);
    write_op(&FatOp::IAdd, &mut mw);
    write_op(&FatOp::IConst(-3), &mut mw);
    write_op(&FatOp::IMul, &mut mw);
    write_op(&FatOp::IStore(2), &mut mw);
    write_op(&FatOp::IInc(2, -1), &mut mw);
    write_op(&FatOp::ILoad(2), &mut mw);
    write_op(&FatOp::IfNotZero(7), &mut mw);
    write_op(&FatOp::GoTo(3), &mut mw);
    write_op(&FatOp::Return, &mut mw);
    assert_eq!(
        mw.code,
        "\tint i0 = l0i+l1i;\n\tint i1 = i0*-3;\n\tl2i = i1;\n\tl2i += -1;\n\tif(l2i!=0) goto bb7;\n\tgoto bb3;\n\treturn;\n"
    );
    assert_eq!(mw.local_decl, "\tint l2i;\n");
    assert!(mw.vstack.is_empty());
}

#[test]
fn objects_and_classes_are_included() {
    let mut mw = MethodWriter::new(&vec![]);
    write_op(&FatOp::New("geo/Vec".to_string()), &mut mw);
    write_op(&FatOp::Dup, &mut mw);
    write_op(&FatOp::IConst(4), &mut mw);
    write_op(&FatOp::IPutField("geo/Vec".to_string(), "len".to_string()), &mut mw);
    write_op(&FatOp::AReturn, &mut mw);
    assert_eq!(
        mw.code,
        "\tManagedPointer<geo::Vec> i0 = new_managed(geo::Vec,);\n\ti0->len = 4;\n\treturn i0;\n"
    );
    assert_eq!(mw.includes.get_code(), "#include \"geo_cs_Vec.hpp\"\n");
}

#[test]
fn blocks_are_split_at_jump_targets() {
    let ops = vec![FatOp::ILoad(0), FatOp::IfZero(3), FatOp::IConst(1), FatOp::IReturn];
    let blocks = fat_ops_to_bb_tree(&ops);
    assert_eq!(blocks.len(), 2);
    assert_eq!(blocks[0].starts, 0);
    assert_eq!(blocks[0].ops.len(), 3);
    assert_eq!(blocks[1].starts, 3);
    assert_eq!(blocks[1].ops.len(), 1);
    let mut mw = MethodWriter::new(&vec![VariableType::Int]);
    mw.vstack_push("c", VariableType::Int);
    blocks[1].codegen(&mut mw);
    assert_eq!(mw.code, "\tbb3:\n\t{\n\t\treturn c;\n\t}\n");
    let looped = vec![FatOp::GoTo(0)];
    let blocks = fat_ops_to_bb_tree(&looped);
    assert_eq!(blocks.len(), 1);
    assert_eq!(blocks[0].starts, 0);
    assert_eq!(blocks[0].ops.len(), 1);
}

#[test]
fn method_definitions() {
    let mut m = method(vec![VariableType::Int], VariableType::Int, false);
    m.ops = vec![FatOp::ILoad(0), FatOp::IReturn];
    assert_eq!(
        create_method_impl(&m).unwrap(),
        "#include \"Vec.hpp\"\nint Vec::m(int l0i){\n\tbb0:\n\t{\n\t\treturn l0i;\n\t}\n}"
    );
    let mut v = method(vec![], VariableType::Void, true);
    v.ops = vec![FatOp::Return];
    assert_eq!(
        create_method_impl(&v).unwrap(),
        "#include \"Vec.hpp\"\nvoid Vec::m(){\n\tManagedPointer<Vec> l0a = managed_from_this(Vec);\n\tbb0:\n\t{\n\t\treturn;\n\t}\n}"
    );
    let mut main = method(
        vec![VariableType::ArrayRef(Box::new(VariableType::ObjectRef { name: "java_cs_lang_cs_String".to_string() }))],
        VariableType::Void,
        false,
    );
    main.name = "main__arr_java_cs_lang_cs_String__V".to_string();
    main.ops = vec![FatOp::Return];
    let text = create_method_impl(&main).unwrap();
    assert!(text.starts_with("int main(int argc, char** argv){"));
    assert!(text.contains("\tVec::main__arr_java_cs_lang_cs_String__V(args);\n\treturn 0;\n}\n#include"));
    let mut bad = method(vec![], VariableType::Void, false);
    bad.ops = vec![FatOp::LConst(1)];
    assert!(create_method_impl(&bad).is_none());
    bad.ops = vec![FatOp::IAdd];
    assert!(create_method_impl(&bad).is_none());
}

#[test]
fn blocks_hold_every_instruction_once() {
    let ops = vec![FatOp::ILoad(0), FatOp::IfZero(4), FatOp::GoTo(1), FatOp::IConst(2), FatOp::IReturn];
    let blocks = fat_ops_to_bb_tree(&ops);
    let starts: Vec<usize> = blocks.iter().map(|b| b.starts).collect();
    let lens: Vec<usize> = blocks.iter().map(|b| b.ops.len()).collect();
    assert_eq!(starts, vec![0, 1, 4]);
    assert_eq!(lens, vec![1, 3, 1]);
    assert_eq!(lens.iter().sum::<usize>(), ops.len());
    assert!(matches!(blocks[1].ops[0], FatOp::IfZero(4)));
    assert!(matches!(blocks[2].ops[0], FatOp::IReturn));
}

#[test]
fn remainders_comparisons_and_class_tests() {
    let mut mw = MethodWriter::new(&vec![VariableType::Int, VariableType::Int]);
    write_op(&FatOp::ILoad(0), &mut mw);
    write_op(&FatOp::ILoad(1), &mut mw);
    write_op(&FatOp::IRem, &mut mw);
    assert!(matches!(mw.vstack.last().unwrap().0, VariableType::Int));
    write_op(&FatOp::Pop, &mut mw);
    write_op(&FatOp::FLoad(2), &mut mw);
    write_op(&FatOp::FLoad(3), &mut mw);
    write_op(&FatOp::FCmpL, &mut mw);
    write_op(&FatOp::FLoad(2), &mut mw);
    write_op(&FatOp::FLoad(3), &mut mw);
    write_op(&FatOp::FCmpG, &mut mw);
    write_op(&FatOp::ALoad(4), &mut mw);
    write_op(&FatOp::InstanceOf("geo/Vec".to_string()), &mut mw);
    write_op(&FatOp::ALoad(4), &mut mw);
    write_op(&FatOp::CheckedCast("geo/Vec".to_string()), &mut mw);
    assert_eq!(
        mw.code,
        "\tint i0 = l0i%l1i;\n\tint i1 = l2f > l3f ? 1 : (l2f == l3f ? 0 : -1);\n\tint i2 = l2f < l3f ? -1 : (l2f == l3f ? 0 : 1);\n\tint i3 = typeid(*l4a) == typeid(geo::Vec) ? 1:0;\n\tif(typeid(*l4a) != typeid(geo::Vec)) throw new java::lang::ClassCastException();\n"
    );
}

#[test]
fn calls_are_written_with_their_arguments_in_order() {
    let mut mw = MethodWriter::new(&vec![VariableType::Int, VariableType::Int]);
    write_op(&FatOp::ILoad(0), &mut mw);
    write_op(&FatOp::ILoad(1), &mut mw);
    write_op(&FatOp::InvokeStatic("geo/Calc::add(II)I".to_string(), 2), &mut mw);
    let add = jtcpp::mangling::mangle_method_name("add", "(II)I");
    assert_eq!(mw.code, format!("\tint i0 = geo::Calc::{add}(l0i,l1i);\n"));
    assert_eq!(mw.includes.get_code(), "#include \"geo_cs_Calc.hpp\"\n");
    write_op(&FatOp::ALoad(2), &mut mw);
    write_op(&FatOp::ILoad(0), &mut mw);
    write_op(&FatOp::InvokeVirtual("geo/Vec".to_string(), "scale".to_string(), 2, "(I)V".to_string()), &mut mw);
    write_op(&FatOp::AGetStatic("geo/Vec".to_string(), "ZERO".to_string()), &mut mw);
    write_op(&FatOp::AGetField("geo/Vec".to_string(), "next".to_string()), &mut mw);
    assert!(mw.code.ends_with("\tl2a->scale(l0i);\n\tauto i1 = geo::Vec::ZERO;\n\tauto i2 = i1->next;\n"));
    // The calculation's result is still on the stack.
    assert_eq!(mw.vstack.len(), 2);
}

fn vec_class() -> ImportedJavaClass {
    let utf8 = |s: &str| ConstantItem::Utf8(s.to_string());
    let member = |flags: u16, name: u16, desc: u16, attributes: Vec<Attribute>| jtcpp::importer::Method {
        access_flags: AccessFlags { mask: flags },
        name_index: name,
        descriptor_index: desc,
        attributes,
    };
    let code = Attribute::Code {
        max_stack: 2,
        max_locals: 1,
        ops: vec![(OpCode::ILoad(0), 0), (OpCode::ILoad(0), 1), (OpCode::IAdd, 2), (OpCode::IReturn, 3)],
        exceptions: vec![],
        attributes: vec![],
    };
    ImportedJavaClass {
        const_items: vec![
            utf8("geo/Vec"),
            ConstantItem::Class { name_index: 1 },
            utf8("java/lang/Object"),
            ConstantItem::Class { name_index: 3 },
            utf8("x"),
            utf8("F"),
            utf8("count"),
            utf8("I"),
            utf8("len"),
            utf8("()I"),
            utf8("twice"),
            utf8("(I)I"),
        ],
        access_flags: AccessFlags { mask: 0x21 },
        this_class: 2,
        super_class: 4,
        interfaces: vec![],
        fields: vec![
            Field { flags: AccessFlags { mask: 0 }, name_index: 5, descriptor_index: 6, attributes: vec![] },
            Field { flags: AccessFlags { mask: 8 }, name_index: 7, descriptor_index: 8, attributes: vec![] },
        ],
        methods: vec![member(0x0401, 9, 10, vec![]), member(0x0009, 11, 12, vec![code])],
        attributes: vec![],
    }
}

#[test]
fn imported_classes_convert_to_headers_and_methods() {
    let class = Class::from_java_class(&vec_class()).unwrap();
    assert_eq!(class.name, "geo::Vec");
    assert_eq!(class.parrent, "java::lang::Object");
    assert_eq!(class.fields.len(), 1);
    assert_eq!(class.fields[0].0, "x");
    assert_eq!(class.static_fields[0].0, "count");
    assert_eq!(class.virtual_methods.len(), 1);
    assert_eq!(class.static_methods.len(), 1);
    let len = jtcpp::mangling::mangle_method_name("len", "()I");
    assert_eq!(class.virtual_methods[0].0, len);
    let (twice_name, twice) = &class.static_methods[0];
    assert_eq!(twice.ops.len(), 4);
    let text = create_method_impl(twice).unwrap();
    assert_eq!(
        text,
        format!("#include \"geo_cs_Vec.hpp\"\nint geo::Vec::{twice_name}(int l0i){{\n\tbb0:\n\t{{\n\t\tint i0 = l0i+l0i;\n\t\treturn i0;\n\t}}\n}}")
    );
    assert!(create_header(&class).contains("struct geo::Vec: java::lang::Object{"));
}

#[test]
fn classes_with_unreadable_parts_are_refused() {
    let mut c = vec_class();
    c.super_class = 0;
    assert!(matches!(Class::from_java_class(&c), Err(ClassConversionError::SuperInvalid)));
    let mut c = vec_class();
    c.this_class = 1;
    assert!(matches!(Class::from_java_class(&c), Err(ClassConversionError::ThisInvalid)));
    let mut c = vec_class();
    c.fields[0].descriptor_index = 5;
    assert!(matches!(Class::from_java_class(&c), Err(ClassConversionError::BadField)));
    let mut c = vec_class();
    c.methods[0].descriptor_index = 6;
    assert!(matches!(Class::from_java_class(&c), Err(ClassConversionError::BadMethod)));
}

#[test]
fn double_arithmetic_is_typed_double() {
    let ops = vec![FatOp::DLoad(0), FatOp::DLoad(2), FatOp::DAdd, FatOp::DLoad(2), FatOp::DMul, FatOp::D2F, FatOp::FReturn];
    let blocks = fat_ops_to_bb_tree(&ops);
    assert_eq!(blocks.len(), 1);
    let mut mw = MethodWriter::new(&vec![VariableType::Double, VariableType::Double]);
    blocks[0].codegen(&mut mw);
    assert_eq!(
        mw.code,
        "\tbb0:\n\t{\n\t\tdouble i0 = l0f+l2f;\n\t\tdouble i1 = i0*l2f;\n\t\tfloat i2 = (float)i1;\n\t\treturn i2;\n\t}\n"
    );
}
