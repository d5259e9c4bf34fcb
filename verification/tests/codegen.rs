use blast::codegen::{define_all_funs, gen_ctx, get_cl_type, make_fun_sig, BinaryIns, ClType, Ins};
use blast::common::{LineInfo, Settings, Stop};
use blast::compile::compile;
use blast::context::{Context, Imm, Param, Type, Value};

fn sum(lhs: Context, rhs: Context) -> Context {
    let line_info = LineInfo::default();
    Context::make(
        false,
        Type::Int32,
        Value::Add { line_info, lhs: Box::new(lhs), rhs: Box::new(rhs) },
    )
}

#[test]
fn operands_come_before_operators() {
    let ctx = Context::make(
        false,
        Type::Noreturn,
        Value::Ret(Box::new(sum(Context::from_i32(1), Context::from_i32(2)))),
    );
    let Ok(code) = gen_ctx(&ctx, Vec::new()) else { panic!("not generated") };
    assert_eq!(code.value, None);
    assert_eq!(code.ins.len(), 4);
    assert!(matches!(code.ins[0], Ins::Iconst { taipe: ClType::I32, value: 1 }));
    assert!(matches!(code.ins[1], Ins::Iconst { taipe: ClType::I32, value: 2 }));
    assert!(matches!(code.ins[2], Ins::Binary { op: BinaryIns::Iadd, lhs: 0, rhs: 1 }));
    assert!(matches!(code.ins[3], Ins::Return(Some(2))));
}

#[test]
fn shifts_follow_the_sign() {
    for (lhs, op) in [
        (Context::from_u8(8), BinaryIns::Ushr),
        (Context::from_i8(8), BinaryIns::Sshr),
    ] {
        let line_info = LineInfo::default();
        let value = Value::Shr { line_info, lhs: Box::new(lhs), rhs: Box::new(Context::from_u32(1)) };
        let Ok(code) = gen_ctx(&Context::make(false, Type::Uint8, value), Vec::new()) else {
            panic!("not generated")
        };
        match code.ins[2] {
            Ins::Binary { op: found, lhs: 0, rhs: 1 } => assert_eq!(found, op),
            _ => panic!("no shift"),
        }
        assert_eq!(code.value, Some(2));
    }
}

#[test]
fn wide_integers_are_cut() {
    let ctx = Context::make(false, Type::Uint64, Value::Imm(Imm::Uint64(u64::MAX)));
    let Ok(code) = gen_ctx(&ctx, Vec::new()) else { panic!("not generated") };
    assert!(matches!(code.ins[0], Ins::Iconst { taipe: ClType::I64, value: -1 }));
}

#[test]
fn negation_depends_on_the_type() {
    let line_info = LineInfo::default();
    let value = Value::Negate { line_info, ctx: Box::new(Context::from_i64(5)) };
    let Ok(code) = gen_ctx(&Context::make(false, Type::Int64, value), Vec::new()) else {
        panic!("not generated")
    };
    assert!(matches!(code.ins[1], Ins::Ineg(0)));
}

#[test]
fn machine_types() {
    assert_eq!(get_cl_type(&Type::Bool).ok(), Some(ClType::I8));
    assert_eq!(get_cl_type(&Type::Char.add_const()).ok(), Some(ClType::I32));
    assert_eq!(get_cl_type(&Type::Pointer(Box::new(Type::Bool))).ok(), Some(ClType::Pointer));
    assert!(matches!(get_cl_type(&Type::Void), Err(Stop::Unsupported(_))));
}

#[test]
fn signatures_of_functions() {
    let params = vec![Param { taipe: Type::Int8 }, Param { taipe: Type::Float32 }];
    let Ok(sig) = make_fun_sig(&Type::Void, &params) else { panic!("no signature") };
    assert_eq!(sig.params, vec![ClType::I8, ClType::F32]);
    assert!(sig.results.is_empty());
    let Ok(sig) = make_fun_sig(&Type::Int64, &Vec::new()) else { panic!("no signature") };
    assert_eq!(sig.results, vec![ClType::I64]);
}

#[test]
fn functions_of_a_program() {
    let settings = Settings { register_size: 8, pointer_size: 8 };
    let text = "f :: fun() -> __i64 { return 1 + 2; } m :: module { g :: fun() -> __i8 { return 3i8; } }";
    let Ok(r) = compile(settings, "a.bl", "main", text) else { panic!("not compiled") };
    let Ok(functions) = define_all_funs(&r.scope_pool, 0, Vec::new()) else {
        panic!("not generated")
    };
    let names: Vec<&str> = functions.list.iter().map(|f| f.name.as_str()).collect();
    assert_eq!(names, vec!["main.f", "main.m.g"]);
    assert!(matches!(functions.list[0].ins[0], Ins::Block));
    assert!(matches!(functions.list[1].ins[1], Ins::Iconst { taipe: ClType::I8, value: 3 }));
    assert!(matches!(functions.list[1].ins[2], Ins::Return(Some(1))));
}
