use blast::ast::{Decl, Expr, Field, Object, Stmt, Type};
use blast::common::{CompileError, Stop};
use blast::compile::{parse_tokens, tokenize};

fn parse(text: &str) -> Result<Vec<Decl>, Vec<String>> {
    let tokens = tokenize("a.bl", text);
    assert!(tokens.error.is_none());
    match parse_tokens("a.bl", &tokens.list) {
        Ok(Object::Module { line_info: _, decls }) => Ok(decls),
        Ok(_) => panic!("no module"),
        Err(Stop::Errors(e)) => Err(messages(&e)),
        Err(Stop::Unsupported(m)) => Err(vec![m]),
    }
}

fn messages(e: &CompileError) -> Vec<String> {
    match e {
        CompileError::Errors(v) => v.iter().flat_map(messages).collect(),
        CompileError::ParserError { file_path: _, line_info, msg } => {
            vec![format!("{}:{}: {}", line_info.line_start, line_info.col_start, msg)]
        }
        _ => panic!("another kind of report"),
    }
}

fn show_type(taipe: &Type) -> String {
    match taipe {
        Type::Path { items } => {
            items.iter().map(|t| t.text.as_str()).collect::<Vec<_>>().join(".")
        }
        other => format!("{:?}", other).split(['{', '(', ' ']).next().unwrap().to_string(),
    }
}

fn show(expr: &Expr) -> String {
    match expr {
        Expr::Literal(token) => token.text.clone(),
        Expr::Binary { left, op, right } => format!("({} {} {})", show(left), op.text, show(right)),
        Expr::Unary { op, expr } => format!("({} {})", op.text, show(expr)),
        Expr::Cast { expr, taipe } => format!("({} as {})", show(expr), show_type(taipe)),
        Expr::Member { expr, name } => format!("{}.{}", show(expr), name.text),
        Expr::Paren { line_info: _, expr } => format!("<{}>", show(expr)),
        Expr::Tuple { line_info: _, exprs } => {
            format!("[{}]", exprs.iter().map(show).collect::<Vec<_>>().join(","))
        }
        Expr::Call { line_info: _, expr, args } => {
            let args: Vec<String> = args
                .iter()
                .map(|a| match &a.name {
                    Some(name) => format!("{}:{}", name.text, show(&a.expr)),
                    None => show(&a.expr),
                })
                .collect();
            format!("{}({})", show(expr), args.join(","))
        }
        Expr::Index { line_info: _, expr, items } => {
            format!("{}[{}]", show(expr), items.iter().map(show).collect::<Vec<_>>().join(","))
        }
        Expr::Assign { lhses, op, rhses } => format!(
            "{} {} {}",
            lhses.iter().map(show).collect::<Vec<_>>().join(","),
            op.text,
            rhses.iter().map(show).collect::<Vec<_>>().join(",")
        ),
        _ => panic!("another expression"),
    }
}

fn value(text: &str) -> String {
    let decls = parse(&format!("a :: {};", text)).unwrap();
    match &decls[0] {
        Decl::Decl { name: _, taipe: _, eq_token: _, object: Some(Object::Expr(expr)) } => show(expr),
        _ => panic!("no value"),
    }
}

fn body(text: &str) -> Vec<Stmt> {
    let mut decls = parse(&format!("f :: fun() {{ {} }}", text)).unwrap();
    match decls.pop().unwrap() {
        Decl::Decl { name: _, taipe: _, eq_token: _, object: Some(Object::Fun { body: Some(Stmt::Block { line_info: _, stmts }), .. }) } => stmts,
        _ => panic!("no body"),
    }
}

#[test]
fn operators_bind_as_tightly_as_they_should() {
    assert_eq!(value("1 + 2 * 3"), "(1 + (2 * 3))");
    assert_eq!(value("1 * 2 + 3"), "((1 * 2) + 3)");
    assert_eq!(value("1 - 2 - 3"), "((1 - 2) - 3)");
    assert_eq!(value("1 << 2 + 3"), "(1 << (2 + 3))");
    assert_eq!(value("1 & 2 << 3"), "(1 & (2 << 3))");
    assert_eq!(value("1 < 2 & 3"), "(1 < (2 & 3))");
    assert_eq!(value("a and b or c"), "((a and b) or c)");
    assert_eq!(value("not a and b"), "((not a) and b)");
    assert_eq!(value("-1 * 2"), "((- 1) * 2)");
    assert_eq!(value("1 as __u8 * 2"), "((1 as __u8) * 2)");
}

#[test]
fn parentheses_and_tuples() {
    assert_eq!(value("(1 + 2) * 3"), "(<(1 + 2)> * 3)");
    assert_eq!(value("(1, 2)"), "[1,2]");
}

#[test]
fn members_calls_and_items() {
    assert_eq!(value("a.b.c"), "a.b.c");
    assert_eq!(value("f(1, x: 2).y[3]"), "f(1,x:2).y[3]");
    assert_eq!(value("t.0"), "t.0");
}

#[test]
fn statements_of_a_body() {
    let stmts = body("x = 1; return x; if a { } else { } $l while b { break $l; } yield 2; ;");
    assert_eq!(stmts.len(), 6);
    match &stmts[0] {
        Stmt::Expr(expr) => assert_eq!(show(expr), "x = 1"),
        _ => panic!("no assignment"),
    }
    assert!(matches!(&stmts[1], Stmt::Return { token: _, expr: Some(_) }));
    assert!(matches!(&stmts[2], Stmt::If { else_body: Some(_), .. }));
    match &stmts[3] {
        Stmt::While { label: Some(label), .. } => assert_eq!(label.text, "$l"),
        _ => panic!("no loop"),
    }
    assert!(matches!(&stmts[4], Stmt::Yield { .. }));
    assert!(matches!(&stmts[5], Stmt::Nop(_)));
}

#[test]
fn several_assignments_at_once() {
    match &body("a, b = 1, 2;")[0] {
        Stmt::Expr(expr) => assert_eq!(show(expr), "a,b = 1,2"),
        _ => panic!("no assignment"),
    }
}

#[test]
fn declarations_with_and_without_a_type() {
    let decls = parse("a : __i8; b : m.t = 1; c :: 2;").unwrap();
    assert_eq!(decls.len(), 3);
    match &decls[0] {
        Decl::Decl { name, taipe: Some(taipe), eq_token: None, object: None } => {
            assert_eq!(name.text, "a");
            assert_eq!(show_type(taipe), "__i8");
        }
        _ => panic!("another declaration"),
    }
    match &decls[1] {
        Decl::Decl { name: _, taipe: Some(taipe), eq_token: Some(token), object: Some(_) } => {
            assert_eq!(show_type(taipe), "m.t");
            assert_eq!(token.text, "=");
        }
        _ => panic!("another declaration"),
    }
    match &decls[2] {
        Decl::Decl { name: _, taipe: None, eq_token: Some(token), object: Some(_) } => {
            assert_eq!(token.text, ":");
        }
        _ => panic!("another declaration"),
    }
}

#[test]
fn objects_of_all_kinds() {
    let decls = parse(
        "m :: module { a :: 1; } s :: struct { x: __i8, y: __i8 = 2 } f :: fun(p: __i8) -> __i8; t :: typedef *__i8;",
    )
    .unwrap();
    let objects: Vec<&Object> = decls
        .iter()
        .map(|d| match d {
            Decl::Decl { object: Some(object), .. } => object,
            _ => panic!("no object"),
        })
        .collect();
    match objects[0] {
        Object::Module { line_info: _, decls } => assert_eq!(decls.len(), 1),
        _ => panic!("no module"),
    }
    match objects[1] {
        Object::Compound { line_info: _, field: Field::Compound { fields, .. } } => {
            assert_eq!(fields.len(), 2);
        }
        _ => panic!("no struct"),
    }
    match objects[2] {
        Object::Fun { params, ret: Some(_), body: None, .. } => assert_eq!(params.len(), 1),
        _ => panic!("no function"),
    }
    assert!(matches!(objects[3], Object::Typedef(Type::Pointer { .. })));
    assert!(objects[0].is_module() && !objects[1].is_module());
}

#[test]
fn names_that_are_imported() {
    match &parse("a :: 1; using b.c;").unwrap()[1] {
        Decl::Using { line_info: _, items } => {
            let names: Vec<&str> = items.iter().map(|t| t.text.as_str()).collect();
            assert_eq!(names, vec!["b", "c"]);
        }
        _ => panic!("no import"),
    }
}

#[test]
fn reports_of_the_parser() {
    assert_eq!(
        parse("a : ;").unwrap_err(),
        vec!["1:4: expected <type>, '=' or ':'"]
    );
    assert_eq!(parse("a :: (1;").unwrap_err().len(), 1);
    assert_eq!(parse("a 1;").unwrap_err(), vec!["1:2: expected ':'"]);
    assert!(parse("").unwrap().is_empty());
    assert!(parse("1").unwrap().is_empty());
}

#[test]
fn missing_semicolons_are_reported_all_together() {
    let reports = parse("a :: 1 b :: 2 c :: 3").unwrap_err();
    assert_eq!(reports.len(), 3);
    for r in reports {
        assert!(r.contains("expected ';'"));
    }
}
