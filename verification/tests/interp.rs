use jtcpp::executor::baseir::{step, BaseIR, FloatOp, Step};
use jtcpp::executor::class::Class;
use jtcpp::executor::{ExecCtx, FieldType};
use jtcpp::{ExecEnv, ExecException, Method, Object, Value};

fn run(env: &mut ExecEnv, ops: &[BaseIR], mut ctx: ExecCtx) -> Value {
    let mut i = 0;
    for _ in 0..10_000 {
        match step(ops, i, &mut ctx, env) {
            Step::Next(n) => i = n,
            Step::Return(v) => return v,
            Step::Invoke { method_id, args } => {
                // The only native method of these tests adds five to its argument.
                let res = if env.native_argc(method_id) == Some(1) {
                    match args[0] {
                        Value::Int(a) => Value::Int(a + 5),
                        _ => panic!("not an int"),
                    }
                } else {
                    let (callee, frame) = env.invoke_frame(method_id, args).unwrap();
                    run(env, &callee, frame)
                };
                if res != Value::Void {
                    ctx.stack_push(res);
                }
                i += 1;
            }
            Step::Float { op, a, b } => {
                let (a, b) = (f32::from_bits(a), f32::from_bits(b));
                let r = match op {
                    FloatOp::Add => a + b,
                    FloatOp::Sub => a - b,
                    FloatOp::Mul => a * b,
                    FloatOp::Div => a / b,
                };
                ctx.stack_push(Value::Float(r.to_bits()));
                i += 1;
            }
            Step::Fault => panic!("fault at {i}"),
        }
    }
    panic!("did not return");
}

#[test]
fn identity_returns_its_argument() {
    let mut env = ExecEnv::new();
    let ops = [BaseIR::ILoad(0), BaseIR::IReturn];
    for a in [-5, 0, 7, i32::MAX] {
        let ctx = ExecCtx::new(vec![Value::Int(a)], 10);
        assert_eq!(run(&mut env, &ops, ctx), Value::Int(a));
    }
}

#[test]
fn arithmetic_follows_the_operand_order() {
    let mut env = ExecEnv::new();
    let sub = [BaseIR::ILoad(0), BaseIR::ILoad(1), BaseIR::ISub, BaseIR::IReturn];
    let ctx = ExecCtx::new(vec![Value::Int(10), Value::Int(3)], 10);
    assert_eq!(run(&mut env, &sub, ctx), Value::Int(7));
    let rem = [BaseIR::ILoad(0), BaseIR::ILoad(1), BaseIR::IRem, BaseIR::IReturn];
    let ctx = ExecCtx::new(vec![Value::Int(-7), Value::Int(3)], 10);
    assert_eq!(run(&mut env, &rem, ctx), Value::Int(-1));
    let div = [BaseIR::ILoad(0), BaseIR::ILoad(1), BaseIR::IDiv, BaseIR::IReturn];
    let ctx = ExecCtx::new(vec![Value::Int(-7), Value::Int(2)], 10);
    assert_eq!(run(&mut env, &div, ctx), Value::Int(-3));
}

#[test]
fn overflow_and_zero_divisors_fault() {
    let mut env = ExecEnv::new();
    let add = [BaseIR::ILoad(0), BaseIR::ILoad(1), BaseIR::IAdd, BaseIR::IReturn];
    let mut ctx = ExecCtx::new(vec![Value::Int(i32::MAX), Value::Int(1)], 10);
    assert!(matches!(step(&add, 0, &mut ctx, &mut env), Step::Next(1)));
    assert!(matches!(step(&add, 1, &mut ctx, &mut env), Step::Next(2)));
    assert!(matches!(step(&add, 2, &mut ctx, &mut env), Step::Fault));
    let div = [BaseIR::IConst(1), BaseIR::IConst(0), BaseIR::IDiv];
    let mut ctx = ExecCtx::new(vec![], 0);
    step(&div, 0, &mut ctx, &mut env);
    step(&div, 1, &mut ctx, &mut env);
    assert!(matches!(step(&div, 2, &mut ctx, &mut env), Step::Fault));
    assert!(matches!(step(&div, 3, &mut ctx, &mut env), Step::Fault));
}

#[test]
fn comparison_jumps_on_greater_or_equal() {
    let mut env = ExecEnv::new();
    // The value pushed first is compared against the one pushed after it.
    let ops = [
        BaseIR::ILoad(0),
        BaseIR::IConst(0),
        BaseIR::IfIGreterEqual(5),
        BaseIR::IConst(1),
        BaseIR::IReturn,
        BaseIR::IConst(2),
        BaseIR::IReturn,
    ];
    let ctx = ExecCtx::new(vec![Value::Int(5)], 10);
    assert_eq!(run(&mut env, &ops, ctx), Value::Int(2));
    let ctx = ExecCtx::new(vec![Value::Int(0)], 10);
    assert_eq!(run(&mut env, &ops, ctx), Value::Int(2));
    let ctx = ExecCtx::new(vec![Value::Int(-5)], 10);
    assert_eq!(run(&mut env, &ops, ctx), Value::Int(1));
    let mut ctx = ExecCtx::new(vec![Value::Int(-5)], 10);
    assert!(matches!(step(&ops, 0, &mut ctx, &mut env), Step::Next(1)));
    assert!(matches!(step(&ops, 1, &mut ctx, &mut env), Step::Next(2)));
    assert!(matches!(step(&ops, 2, &mut ctx, &mut env), Step::Next(3)));
    assert_eq!(ctx.data.len(), 10);
}

#[test]
fn zero_tests_and_jumps() {
    let mut env = ExecEnv::new();
    let eq = [BaseIR::ILoad(0), BaseIR::IfZero(3), BaseIR::GoTo(5), BaseIR::IConst(7), BaseIR::IReturn, BaseIR::IConst(8), BaseIR::IReturn];
    assert_eq!(run(&mut env, &eq, ExecCtx::new(vec![Value::Int(0)], 10)), Value::Int(7));
    assert_eq!(run(&mut env, &eq, ExecCtx::new(vec![Value::Int(3)], 10)), Value::Int(8));
    let ne = [BaseIR::ILoad(0), BaseIR::IfNotZero(3), BaseIR::GoTo(5), BaseIR::IConst(7), BaseIR::IReturn, BaseIR::IConst(8), BaseIR::IReturn];
    assert_eq!(run(&mut env, &ne, ExecCtx::new(vec![Value::Int(0)], 10)), Value::Int(8));
    assert_eq!(run(&mut env, &ne, ExecCtx::new(vec![Value::Int(3)], 10)), Value::Int(7));
}

#[test]
fn a_loop_counts_up() {
    let mut env = ExecEnv::new();
    let ops = [
        BaseIR::IConst(0),
        BaseIR::IStore(1),
        BaseIR::ILoad(1),
        BaseIR::IConst(1),
        BaseIR::IAdd,
        BaseIR::IStore(1),
        BaseIR::IConst(2),
        BaseIR::ILoad(1),
        BaseIR::IfIGreterEqual(2),
        BaseIR::ILoad(1),
        BaseIR::IReturn,
    ];
    let ctx = ExecCtx::new(vec![Value::Int(0)], 10);
    assert_eq!(run(&mut env, &ops, ctx), Value::Int(3));
}

#[test]
fn floats_are_left_to_the_caller() {
    let mut env = ExecEnv::new();
    let ops = [BaseIR::FLoad(0), BaseIR::FLoad(1), BaseIR::FMul, BaseIR::FReturn];
    let mut ctx = ExecCtx::new(vec![Value::Float(2.0f32.to_bits()), Value::Float(1.5f32.to_bits())], 0);
    step(&ops, 0, &mut ctx, &mut env);
    step(&ops, 1, &mut ctx, &mut env);
    match step(&ops, 2, &mut ctx, &mut env) {
        Step::Float { op, a, b } => {
            assert_eq!(op, FloatOp::Mul);
            assert_eq!(f32::from_bits(a), 2.0);
            assert_eq!(f32::from_bits(b), 1.5);
        }
        other => panic!("unexpected {other:?}"),
    }
}

#[test]
fn objects_and_fields() {
    let mut env = ExecEnv::new();
    let mut class = Class::empty();
    class.field_types.push(FieldType::Int);
    class.field_types.push(FieldType::ObjectRef);
    class.field_map.insert("x", 0);
    class.field_map.insert("next", 1);
    let id = env.code_container.set_or_replace_class("Node", class);
    assert_eq!(id, 1);
    let ops = [
        BaseIR::New(1),
        BaseIR::Dup,
        BaseIR::IConst(42),
        BaseIR::APutField(0),
        BaseIR::AGetField(0),
        BaseIR::IReturn,
    ];
    let ctx = ExecCtx::new(vec![], 0);
    assert_eq!(run(&mut env, &ops, ctx), Value::Int(42));
    assert_eq!(env.env_mem.objects.len(), 1);
    assert_eq!(env.env_mem.objects[0].get_field(0), Some(Value::Int(42)));
    assert_eq!(env.env_mem.objects[0].get_field(1), Some(Value::ObjectRef(0)));
    assert_eq!(env.env_mem.objects[0].get_field(2), None);
    assert!(matches!(env.env_mem.objects[0], Object::Object { class_id: 0, .. }));
}

#[test]
fn calls_go_through_the_method_table() {
    let mut env = ExecEnv::new();
    let callee = env.code_container.lookup_or_insert_method("Calls::Second(II)I");
    assert_eq!(env.code_container.lookup_or_insert_method("Calls::Second(II)I"), callee);
    env.code_container.methods[callee] = Some(Method::BaseIR { ops: vec![BaseIR::ILoad(1), BaseIR::IReturn] });
    let caller_ops = [BaseIR::IConst(1), BaseIR::IConst(2), BaseIR::InvokeStatic(callee, 2), BaseIR::IReturn];
    let ctx = ExecCtx::new(vec![], 0);
    assert_eq!(run(&mut env, &caller_ops, ctx), Value::Int(2));
    // Calling from outside passes the arguments in reverse order.
    let (ops, frame) = env.call_frame(callee, &[Value::Int(7), Value::Int(8)]).unwrap();
    assert_eq!(frame.args, vec![Value::Int(8), Value::Int(7)]);
    assert_eq!(run(&mut env, &ops, frame), Value::Int(7));
    assert!(matches!(env.call_frame(99, &[]), Err(ExecException::MethodNotFound)));
}

#[test]
fn native_methods_are_run_by_the_caller() {
    let mut env = ExecEnv::new();
    let add_five = env.code_container.lookup_or_insert_method("Calls::AddFive(I)I");
    env.code_container.methods[add_five] = Some(Method::Invokable { argc: 1 });
    assert_eq!(env.native_argc(add_five), Some(1));
    assert!(matches!(env.invoke_frame(add_five, vec![Value::Int(1)]), Err(ExecException::MethodNotFound)));
    let ops = [BaseIR::ILoad(0), BaseIR::InvokeStatic(add_five, 1), BaseIR::IReturn];
    for a in [-1000, 0, 7, 1000] {
        let ctx = ExecCtx::new(vec![Value::Int(a)], 10);
        assert_eq!(run(&mut env, &ops, ctx), Value::Int(a + 5));
    }
}
