use blast::analyzer::analysis::SemResult;
use blast::common::{CompileError, Settings, Stop};
use blast::compile::compile;
use blast::context::{Context, Value};
use blast::scope::{Payload, Scope, ScopeKind};

fn run(text: &str) -> Result<SemResult, Stop> {
    compile(Settings { register_size: 8, pointer_size: 8 }, "dir/main.bl", "main", text)
}

fn flat(e: &CompileError, out: &mut Vec<String>) {
    match e {
        CompileError::Errors(v) => {
            for x in v {
                flat(x, out);
            }
        }
        CompileError::LexerError { line_info, msg, .. }
        | CompileError::ParserError { line_info, msg, .. }
        | CompileError::SemError { line_info, msg, .. } => {
            out.push(format!("{}:{}: {}", line_info.line_start, line_info.col_start, msg));
        }
        CompileError::SemWarning { line_info, msg, .. } => {
            out.push(format!("{}:{}: warning: {}", line_info.line_start, line_info.col_start, msg));
        }
        CompileError::LexerNote { line_info, msg, .. }
        | CompileError::SemNote { line_info, msg, .. } => {
            out.push(format!("{}:{}: note: {}", line_info.line_start, line_info.col_start, msg));
        }
        CompileError::SemNoteWithoutPath { msg } => out.push(format!("note: {}", msg)),
        CompileError::SemHelp { msg } => out.push(format!("help: {}", msg)),
        CompileError::SemCyclic { .. } => out.push("cyclic".to_string()),
    }
}

fn errors(text: &str) -> Vec<String> {
    match run(text) {
        Err(Stop::Errors(e)) => {
            let mut v = Vec::new();
            flat(&e, &mut v);
            v
        }
        Err(Stop::Unsupported(m)) => panic!("stopped: {}", m),
        Ok(_) => panic!("accepted"),
    }
}

fn stopped(text: &str) -> String {
    match run(text) {
        Err(Stop::Unsupported(m)) => m,
        Err(Stop::Errors(_)) => panic!("errors"),
        Ok(_) => panic!("accepted"),
    }
}

fn accepted(text: &str) -> SemResult {
    match run(text) {
        Ok(r) => r,
        Err(Stop::Errors(e)) => {
            let mut v = Vec::new();
            flat(&e, &mut v);
            panic!("errors: {:?}", v)
        }
        Err(Stop::Unsupported(m)) => panic!("stopped: {}", m),
    }
}

fn scope<'a>(r: &'a SemResult, path: &str) -> &'a Scope {
    r.scope_pool.pool.iter().find(|s| s.id.sym_path.text == path).unwrap()
}

fn global<'a>(r: &'a SemResult, path: &str) -> &'a Context {
    match &scope(r, path).payload {
        Payload::Global(ctx) => ctx,
        _ => panic!("no global"),
    }
}

fn constant(text: &str) -> String {
    let r = accepted(text);
    match &global(&r, "main.a").value {
        Value::Imm(imm) => imm.to_text(),
        _ => panic!("no immediate value"),
    }
}

#[test]
fn globals_with_a_type() {
    let r = accepted("a : __i32 = 5;");
    assert_eq!(global(&r, "main.a").taipe.to_text(), "__i32");
    assert_eq!(scope(&r, "main.a").kind, ScopeKind::Variable);
    assert_eq!(scope(&r, "main").kind, ScopeKind::Module);
    assert!(r.warnings.is_empty());
}

#[test]
fn constants_are_evaluated() {
    assert_eq!(constant("a :: 1 + 2 * 3;"), "7");
    assert_eq!(constant("a :: (1 + 2) * 3;"), "9");
    assert_eq!(constant("a :: -7 / 2;"), "-3");
    assert_eq!(constant("a :: -7 % 2;"), "-1");
    assert_eq!(constant("a :: 1 << 4;"), "16");
    assert_eq!(constant("a :: ~0;"), "-1");
    assert_eq!(constant("a :: 12 & 10;"), "8");
    assert_eq!(constant("a :: 12 | 10;"), "14");
    assert_eq!(constant("a :: 12 ^ 10;"), "6");
    assert_eq!(constant("a :: true and false;"), "false");
    assert_eq!(constant("a :: true or false;"), "true");
    assert_eq!(constant("a :: not true;"), "false");
}

#[test]
fn right_operand_is_not_evaluated_where_the_left_one_decides() {
    assert_eq!(constant("a :: false and f(); f :: fun() -> __bool { return true; }"), "false");
    assert_eq!(constant("a :: true or f(); f :: fun() -> __bool { return true; }"), "true");
    assert_eq!(
        errors("a :: true and f(); f :: fun() -> __bool { return true; }")[0],
        "1:15: could not evaluate expression trivially at compile time"
    );
}

#[test]
fn overflow_is_reported() {
    assert_eq!(errors("a :: 127i8 + 1i8;"), vec!["1:6: detected integer overflow"]);
    assert_eq!(errors("a :: 7 / 0;"), vec!["1:6: detected integer overflow"]);
}

#[test]
fn literals_that_a_type_cannot_hold() {
    assert_eq!(errors("a : __u8 = 256;"), vec!["1:12: '__u8' cannot hold this value: '256'"]);
    assert_eq!(errors("a :: 300i8;"), vec!["1:6: '__i8' cannot hold this value: '300'"]);
    assert_eq!(constant("a : __u8 : 255;"), "255");
    assert_eq!(errors("a :: 300 as __u8;"), vec!["1:6: '__u8' cannot hold this value: '300'"]);
}

#[test]
fn literals_of_huge_numbers() {
    assert_eq!(
        constant("a :: 340282366920938463463374607431768211455u128;"),
        "340282366920938463463374607431768211455"
    );
    assert_eq!(
        errors("a :: 340282366920938463463374607431768211456u128;"),
        vec!["1:6: '__u128' cannot hold this value: '340282366920938463463374607431768211456'"]
    );
}

#[test]
fn casts_of_constants() {
    assert_eq!(constant("a :: 300i32 as __u8;"), "44");
    assert_eq!(errors("a :: true as __u8;").len(), 1);
}

#[test]
fn names_that_are_not_there() {
    assert_eq!(
        errors("abc :: 1; d :: abd;"),
        vec!["1:16: undefined reference", "help: did you mean 'abc'?"]
    );
}

#[test]
fn names_may_be_used_before_their_declaration() {
    assert_eq!(constant("a :: b + 1; b :: 2;"), "3");
}

#[test]
fn names_are_declared_once() {
    assert_eq!(
        errors("a :: 5; a :: 6;"),
        vec!["1:9: redeclaration of symbol", "1:1: note: already declared here"]
    );
    let r = accepted("f :: fun() { _ :: 1; _ :: 2; }");
    assert_eq!(scope(&r, "main.f.block0$.unnamed0$").kind, ScopeKind::Const);
    assert_eq!(scope(&r, "main.f.block0$.unnamed1$").kind, ScopeKind::Const);
}

#[test]
fn unnamed_declarations_outside_of_blocks_have_no_end() {
    assert_eq!(stopped("_ :: 1;"), "the analysis does not end");
}

#[test]
fn modules_are_merged() {
    let r = accepted("m :: module { x :: 1; } m :: module { y :: x; } a :: m.y;");
    assert_eq!(scope(&r, "main.m").kind, ScopeKind::Module);
    assert_eq!(global(&r, "main.a").taipe.to_text(), "const __i64");
    assert_eq!(
        errors("m :: module { xyz :: 1; } a :: m.xy;"),
        vec!["1:34: 'main.m' has no member named 'xy'", "help: did you mean 'xyz'?"]
    );
}

#[test]
fn modules_have_no_type() {
    assert_eq!(
        errors("m : __i8 : module { }"),
        vec!["1:5: modules do not have a type", "help: consider removing the type annotation"]
    );
}

#[test]
fn layouts_of_structs_and_unions() {
    let r = accepted("p :: struct { x: __i8, y: __i64, z: __i16 } u :: union { x: __i8, y: __i64 }");
    match &scope(&r, "main.p").payload {
        Payload::Compound(info) => {
            assert_eq!((info.layout.size, info.layout.alignment), (24, 8));
            assert_eq!(info.field_data_table.get("x").unwrap().offset, 0);
            assert_eq!(info.field_data_table.get("y").unwrap().offset, 1);
            assert_eq!(info.field_data_table.get("z").unwrap().offset, 16);
        }
        _ => panic!("no struct"),
    }
    match &scope(&r, "main.u").payload {
        Payload::Compound(info) => {
            assert_eq!((info.layout.size, info.layout.alignment), (8, 8));
            assert_eq!(info.field_data_table.get("y").unwrap().offset, 0);
        }
        _ => panic!("no union"),
    }
    assert_eq!(constant("a :: sizeof p; p :: struct { x: __i8, y: __i64, z: __i16 }"), "24");
    assert_eq!(constant("a :: alignof (1i8, 2i32);"), "4");
    assert_eq!(constant("a :: sizeof (1i8, 2i32);"), "8");
}

#[test]
fn cyclic_layouts() {
    assert_eq!(stopped("s :: struct { t: s }"), "probably some analyzer bug");
}

#[test]
fn failed_lookup_stays_in_its_scope() {
    assert_eq!(stopped("x :: 5; m :: module { a :: x; x :: m.x; }"), "probably some analyzer bug");
    let e = errors("x :: 5; m :: module { f :: fun() { w := 1; y := x; w; } x :: m.x; }");
    assert_eq!(e[0], "1:52: undefined reference");
    let e = errors("x :: 5; m :: module { f :: fun() { w := 1; y := x; v; } }");
    assert_eq!(e, vec!["1:52: undefined reference", "help: did you mean one of 'f', 'm', 'w', 'x', 'y'?"]);
}

#[test]
fn types_of_values() {
    let r = accepted("t :: typeof 5i32;");
    assert_eq!(scope(&r, "main.t").kind, ScopeKind::Typedef);
    let r = accepted("t :: typedef __i16; a : t = 7;");
    assert_eq!(global(&r, "main.a").taipe.to_text(), "__i16");
}

#[test]
fn items_of_tuples() {
    assert_eq!(constant("a :: (1, 2i8, true).2;"), "true");
    assert_eq!(
        errors("a :: (1, 2).2;"),
        vec!["1:13: index out of bounds, tuple length: 2, index: '2'"]
    );
}

#[test]
fn functions_and_their_types() {
    let r = accepted("f :: fun(x: __i32, y: __i32 = 3) -> __i32 { return x + y; }");
    match &scope(&r, "main.f").payload {
        Payload::Function(info) => {
            assert_eq!(info.taipe.to_text(), "fun (__i32, __i32) -> __i32");
            assert_eq!(info.get_total_param_count(), 2);
            assert_eq!(info.get_min_param_count(), 1);
            assert!(info.has_default_params());
            assert!(info.ctx.is_some());
        }
        _ => panic!("no function"),
    }
    assert_eq!(scope(&r, "main.f.x").kind, ScopeKind::Param);
}

#[test]
fn calls_give_every_parameter_a_value() {
    let r = accepted(
        "f :: fun(x: __i32, y: __i32 = 3) -> __i32 { return x + y; } g :: fun() -> __i32 { return f(1); }",
    );
    let Payload::Function(info) = &scope(&r, "main.g").payload else { panic!("no function") };
    let Value::Block(items) = &info.ctx.as_ref().unwrap().value else { panic!("no block") };
    let Value::Ret(ret) = &items[0].value else { panic!("no return") };
    let Value::DirectCall { line_info: _, fun_scope_id, args } = &ret.value else { panic!("no call") };
    assert_eq!(fun_scope_id.sym_path.text, "main.f");
    assert!(args.has("x") && args.has("y"));
    assert_eq!(args.len(), 2);
}

#[test]
fn calls_with_wrong_arguments() {
    let f = "f :: fun(x: __i32, y: __i32 = 3) -> __i32 { return x + y; } ";
    assert_eq!(
        errors(&format!("{}{}", f, "g :: fun() -> __i32 { return f(z: 1); }")),
        vec!["1:92: unknown argument: 'z'", "help: did you mean one of 'x', 'y'?"]
    );
    assert_eq!(
        errors(&format!("{}{}", f, "g :: fun() -> __i32 { return f(x: 1, x: 2); }")),
        vec!["1:98: duplicate named argument", "1:92: note: previous named argument is here"]
    );
    assert_eq!(
        errors(&format!("{}{}", f, "g :: fun() -> __i32 { return f(x: 1, 2); }")),
        vec![
            "1:98: unnamed argument is not allowed here",
            "1:92: note: previous named argument is here"
        ]
    );
    assert_eq!(
        errors(&format!("{}{}", f, "g :: fun() -> __i32 { return f(); }"))[0],
        "1:90: expected '1' to '2' arguments but got '0'"
    );
    assert_eq!(
        stopped(&format!("{}{}", f, "g :: fun() -> __i32 { return f(1, 2, 3); }")),
        "too many arguments"
    );
}

#[test]
fn parameters_without_a_default_come_first() {
    assert_eq!(
        errors("f :: fun(x: __i32 = 3, y: __i32) {}"),
        vec![
            "1:24: non-default parameter is not allowed here",
            "1:10: note: previous default parameter is here"
        ]
    );
}

#[test]
fn returns_have_the_type_of_the_function() {
    assert_eq!(
        errors("f :: fun() { return 1; }"),
        vec!["1:21: invalid expression", "1:1: note: function expects return type 'void'"]
    );
    assert_eq!(
        errors("f :: fun() -> __i32 { return; }"),
        vec![
            "1:23: expected <expression> for 'return'",
            "1:15: note: function expects return type '__i32'"
        ]
    );
    assert_eq!(
        errors("f :: fun() -> __i32 { }"),
        vec!["1:24: not all control paths return a value"]
    );
    accepted("f :: fun() -> __i32 { if true { return 1; } else { return 2; } }");
}

#[test]
fn code_after_a_return_is_unreachable() {
    let r = accepted("f :: fun() { return; x : __i32 = 1; }");
    let mut v = Vec::new();
    flat(&r.warnings, &mut v);
    assert_eq!(v, vec!["1:22: warning: unreachable code"]);
}

#[test]
fn variables_are_used_after_they_have_a_value() {
    accepted("f :: fun() -> __i32 { x : __i32; x = 1; return x; }");
    assert_eq!(
        errors("f :: fun(c: __bool) -> __i32 { x : __i32 = 1; y : __i32 = x; return y + z; }")[0],
        "1:73: undefined reference"
    );
}

#[test]
fn conditions_are_truth_values() {
    assert_eq!(
        errors("f :: fun() { if 1 {} }"),
        vec!["1:17: expected value of type '__bool' but got value of type '{integer}'"]
    );
}

#[test]
fn loops_and_jumps() {
    assert_eq!(errors("f :: fun() { break; }"), vec!["1:14: 'break' can be used only in a loop"]);
    assert_eq!(errors("f :: fun() { continue; }"), vec!["1:14: 'continue' can be used only in a loop"]);
    assert_eq!(
        errors("f :: fun() { $l while true { continue $k; } }"),
        vec!["1:39: undefined loop label '$k'", "help: did you mean '$l'?"]
    );
    accepted("f :: fun() { while true { } }");
}

#[test]
fn functions_are_not_evaluated() {
    assert_eq!(
        errors("a :: f(); f :: fun() -> __i64 { return 2; }"),
        vec![
            "1:6: could not evaluate expression trivially at compile time",
            "note: function call may have side effects"
        ]
    );
}

#[test]
fn errors_of_the_parser() {
    assert_eq!(
        errors("a ::"),
        vec!["1:5: expected <expression>, 'module', 'struct', 'union', 'fun' or 'typedef'"]
    );
}

#[test]
fn every_scope_has_its_place() {
    let r = accepted("m :: module { a :: 1; } f :: fun(x: __i8) { }");
    for s in r.scope_pool.pool.iter() {
        assert_eq!(r.scope_pool.get_scope(&s.id).name, s.name);
    }
    assert_eq!(r.roots.get("main").unwrap().index, 0);
}

#[test]
fn imports_are_not_supported() {
    assert_eq!(stopped("using a.b;"), "import statements are not yet supported");
}

#[test]
fn results_of_operators_have_the_common_type() {
    for (text, taipe) in [
        ("a := 1i8 + 2i8;", "__i8"),
        ("a := 1 + 2u16;", "__u16"),
        ("a := 2u16 - 1;", "__u16"),
        ("a := 1 + 2;", "__i64"),
        ("a := 3i32 * 2;", "__i32"),
        ("a := 6 | 1u8;", "__u8"),
        ("a := 1.5 + 2.5;", "__f64"),
    ] {
        let r = accepted(text);
        assert_eq!(global(&r, "main.a").taipe.to_text(), taipe);
    }
    assert_eq!(
        errors("a := 1i8 + 2i16;"),
        vec!["1:6: cannot apply '+' operator on values of types '__i8' and '__i16'"]
    );
}

#[test]
fn assigned_values_have_the_type_of_the_variable() {
    accepted("f :: fun(x: __i8, y: __i64) { y = x; }");
    accepted("f :: fun(x: __i8, y: __i8) { y = x; }");
    assert_eq!(
        errors("f :: fun(x: __i8, y: __i64) { x = y; }"),
        vec![
            "1:35: cannot assign value of type '__i64'",
            "1:31: note: cannot assign to '__i8'"
        ]
    );
    assert_eq!(
        errors("f :: fun(x: __u8, y: __i64) { y = x; }"),
        vec![
            "1:35: cannot assign value of type '__u8'",
            "1:31: note: cannot assign to '__i64'"
        ]
    );
}

#[test]
fn pointers_keep_constants() {
    accepted("f :: fun(p: *__i32, q: *__i32) { q = p; }");
    accepted("f :: fun(p: *__i32, q: *const __i32) { q = p; }");
    accepted("f :: fun(p: *const __i32, q: *const __i32) { q = p; }");
    assert_eq!(
        errors("f :: fun(p: *const __i32, q: *__i32) { q = p; }"),
        vec![
            "1:44: cannot assign value of type '*const __i32'",
            "1:40: note: cannot assign to '*__i32'"
        ]
    );
}

#[test]
fn constants_have_one_value() {
    let r = accepted("a : __i32 : 5; b := a;");
    assert_eq!(global(&r, "main.a").taipe.to_text(), "const __i32");
    assert_eq!(global(&r, "main.b").taipe.to_text(), "__i32");
    assert_eq!(
        errors("a : __i32 : 5; f :: fun() { a = 6; }"),
        vec![
            "1:29: cannot assign to a constant of type: 'const __i32'",
            "1:33: note: type of value is '__i32'"
        ]
    );
}

#[test]
fn operands_of_unary_operators() {
    let r = accepted("a := -5i8; b := ~5u16; c := -5; d := -1.5;");
    assert_eq!(global(&r, "main.a").taipe.to_text(), "__i8");
    assert_eq!(global(&r, "main.b").taipe.to_text(), "__u16");
    assert_eq!(global(&r, "main.c").taipe.to_text(), "__i64");
    assert_eq!(global(&r, "main.d").taipe.to_text(), "__f64");
    assert_eq!(
        errors("a := -1u8;"),
        vec!["1:7: cannot apply '-' operator on type '__u8': unsigned values cannot be negated"]
    );
    assert_eq!(errors("a := ~true;"), vec!["1:7: cannot apply '~' operator on type '__bool'"]);
}

#[test]
fn addresses_are_followed() {
    accepted("f :: fun(x: __i32) -> __i32 { p := &x; return *p; }");
    assert_eq!(stopped("f :: fun(x: __i32) { p := &x; *p = 3; }"), "probably some analyzer bug");
    assert_eq!(
        errors("f :: fun(x: __i32) { *x = 3; }"),
        vec!["1:23: cannot dereference type '__i32'"]
    );
    assert_eq!(
        errors("f :: fun() { p := &true; }"),
        vec!["1:20: cannot take address of a prvalue (pure rvalue)"]
    );
}

#[test]
fn empty_programs() {
    for text in ["", " \n\t"] {
        let r = accepted(text);
        assert_eq!(r.scope_pool.pool.len(), 1);
        assert_eq!(scope(&r, "main").kind, ScopeKind::Module);
    }
}

#[test]
fn types_are_compared() {
    assert_eq!(constant("a :: __i8 == __i8;"), "true");
    assert_eq!(constant("a :: __i8 == __i16;"), "false");
    assert_eq!(constant("a :: __i8 != __i8;"), "false");
    assert_eq!(constant("a :: __i8 != __i16;"), "true");
}

#[test]
fn products_are_not_constant() {
    for op in ["*", "/", "%", "&", "^", "|", "+", "-"] {
        assert_eq!(constant(&format!("a :: typeof (1i8 {} 2i8) == __i8;", op)), "true");
    }
    assert_eq!(constant("a :: typeof (1i16 << 2) == __i16;"), "true");
    assert_eq!(constant("a :: typeof (1i16 >> 2) == __i16;"), "true");
}

#[test]
fn addresses_of_literals_are_constant() {
    accepted("f :: fun() { p : *const __i64 = &1; }");
    assert_eq!(errors("f :: fun() { p : *__i64 = &1; }").len(), 2);
}

#[test]
fn sizes_are_multiples_of_alignments() {
    let r = accepted("u :: union { x: __u32, y: [5]__u8 }");
    match &scope(&r, "main.u").payload {
        Payload::Compound(info) => {
            assert_eq!((info.layout.size, info.layout.alignment), (8, 4));
        }
        _ => panic!("no union"),
    }
}

#[test]
fn widened_constants_are_evaluated() {
    assert_eq!(constant("b : __i64 : 5i8; a :: b + 1i64;"), "6");
}

#[test]
fn measures_stand_before_other_operators() {
    assert_eq!(constant("a :: sizeof -1i8;"), "1");
    assert!(!errors("a :: -sizeof 1i8;").is_empty());
}

#[test]
fn marked_sums_have_no_meaning_yet() {
    for op in ["+%", "+:", "-%", "-:"] {
        assert_eq!(
            errors(&format!("a :: 1 {} 2;", op)),
            vec![format!(
                "1:6: cannot apply '{}' operator on values of types '{{integer}}' and '{{integer}}'",
                op
            )]
        );
    }
}
