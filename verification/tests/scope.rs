use linger::ast::{Builtin, Expr, Program, Statement};
use linger::error::RuntimeError;
use linger::host::Host;
use linger::interpreter::{interp_program, Value};
use linger::number::Number;
use linger::tokenizer::Operator;

fn arith(op: Operator, a: Number, b: Number) -> Number {
    let (x, y) = (f64::from_bits(a.bits), f64::from_bits(b.bits));
    let r = match op {
        Operator::Plus => x + y,
        Operator::Minus => x - y,
        Operator::Times => x * y,
        Operator::Div => x / y,
        Operator::Mod => x % y,
        _ => f64::NAN,
    };
    Number::from_bits(r.to_bits())
}

fn show(n: Number) -> String {
    format!("{}", f64::from_bits(n.bits))
}

fn num(x: f64) -> Expr {
    Expr::Num(Number::from_bits(x.to_bits()))
}

fn var(name: &str) -> Expr {
    Expr::Var(name.to_string())
}

fn text(s: &str) -> Expr {
    Expr::Str(s.to_string())
}

fn print(args: Vec<Expr>) -> Statement {
    Statement::Expr(Expr::PrimitiveCall(Builtin::Print, args))
}

fn set(name: &str, e: Expr) -> Statement {
    Statement::Let(name.to_string(), e)
}

fn assign(name: &str, e: Expr) -> Statement {
    Statement::Assign(name.to_string(), e)
}

fn call(callee: Expr, args: Vec<Expr>) -> Expr {
    Expr::Call(Box::new(callee), args)
}

fn lambda(params: Vec<&str>, body: Statement) -> Expr {
    Expr::Lambda(params.into_iter().map(|p| p.to_string()).collect(), Box::new(body))
}

fn run(main: Vec<Statement>) -> (Result<String, String>, String) {
    let program = Program { procedures: vec![], main: Statement::Block(main) };
    let host = Host::new(arith, show);
    let mut out = String::new();
    let r = interp_program(&program, &host, &mut out, 1000);
    let r = match r {
        Ok(v) => Ok(format!("{:?}", v)),
        Err(e) => Err(format!("{:?}", e)),
    };
    (r, out)
}

#[test]
fn shadowing() {
    let (r, out) = run(vec![
        set("x", num(5.0)),
        print(vec![var("x"), text("")]),
        Statement::Block(vec![set("x", num(10.0)), print(vec![var("x"), text("")])]),
        print(vec![var("x")]),
    ]);
    assert!(r.is_ok());
    assert!(out.contains("5 10 5"));
    assert_eq!(out, "5 10 5");
}

#[test]
fn reassignment_in_block() {
    let (r, out) = run(vec![
        set("x", num(5.0)),
        print(vec![var("x"), text("")]),
        Statement::Block(vec![assign("x", num(10.0)), print(vec![var("x"), text("")])]),
        print(vec![var("x")]),
    ]);
    assert!(r.is_ok());
    assert!(out.contains("5 10 10"));
    assert_eq!(out, "5 10 10");
}

#[test]
fn block_declaration_prints_inner_then_outer() {
    let (r, out) = run(vec![
        set("x", num(5.0)),
        Statement::Block(vec![set("x", num(10.0)), print(vec![var("x")])]),
        print(vec![text(" ")]),
        print(vec![var("x")]),
    ]);
    assert!(r.is_ok());
    assert_eq!(out, "10 5");
}

#[test]
fn block_assignment_reaches_outer_variable() {
    let (r, out) = run(vec![
        set("x", num(5.0)),
        Statement::Block(vec![assign("x", num(10.0))]),
        print(vec![var("x")]),
    ]);
    assert!(r.is_ok());
    assert_eq!(out, "10");
}

#[test]
fn assignment_to_shadowing_variable_stays_inside() {
    let (r, out) = run(vec![
        set("x", num(5.0)),
        Statement::Block(vec![
            set("x", num(10.0)),
            assign("x", num(11.0)),
            print(vec![var("x"), text("")]),
        ]),
        print(vec![var("x")]),
    ]);
    assert!(r.is_ok());
    assert_eq!(out, "11 5");
}

#[test]
fn assignment_before_shadowing_reaches_outer_variable() {
    let (r, out) = run(vec![
        set("x", num(5.0)),
        Statement::Block(vec![assign("x", num(7.0)), set("x", num(10.0)), assign("x", num(11.0))]),
        print(vec![var("x")]),
    ]);
    assert!(r.is_ok());
    assert_eq!(out, "7");
}

#[test]
fn declaration_in_block_is_unknown_afterwards() {
    let (r, out) = run(vec![
        Statement::Block(vec![set("y", num(1.0)), print(vec![var("y")])]),
        print(vec![var("y")]),
    ]);
    assert_eq!(out, "1");
    assert_eq!(r, Err("UnknownVariable(\"y\")".to_string()));
}

#[test]
fn nested_blocks_pass_assignments_outwards() {
    let (r, out) = run(vec![
        set("x", num(1.0)),
        Statement::Block(vec![
            set("y", num(2.0)),
            Statement::Block(vec![assign("x", num(3.0)), assign("y", num(4.0))]),
            print(vec![var("x"), var("y"), text("")]),
        ]),
        print(vec![var("x")]),
    ]);
    assert!(r.is_ok());
    assert_eq!(out, "3 4 3");
}

#[test]
fn closure_sees_value_of_creation_time() {
    let (r, out) = run(vec![
        set("x", num(1.0)),
        set("f", lambda(vec![], Statement::Return(Some(var("x"))))),
        assign("x", num(2.0)),
        print(vec![call(var("f"), vec![]), var("x")]),
    ]);
    assert!(r.is_ok());
    assert_eq!(out, "1 2");
}

#[test]
fn assignment_inside_closure_stays_inside() {
    let (r, out) = run(vec![
        set("x", num(1.0)),
        set(
            "f",
            lambda(
                vec![],
                Statement::Block(vec![assign("x", num(9.0)), Statement::Return(Some(var("x")))]),
            ),
        ),
        print(vec![call(var("f"), vec![]), var("x"), call(var("f"), vec![])]),
    ]);
    assert!(r.is_ok());
    assert_eq!(out, "9 1 9");
}

#[test]
fn call_binds_arguments_in_captured_environment() {
    let (r, out) = run(vec![
        set("a", num(10.0)),
        set(
            "add",
            lambda(
                vec!["n"],
                Statement::Return(Some(Expr::Binary(
                    Operator::Plus,
                    Box::new(var("a")),
                    Box::new(var("n")),
                ))),
            ),
        ),
        Statement::Block(vec![
            set("a", num(100.0)),
            set("n", num(1000.0)),
            print(vec![call(var("add"), vec![num(5.0)])]),
        ]),
    ]);
    assert!(r.is_ok());
    assert_eq!(out, "15");
}

#[test]
fn parameters_are_constants() {
    let (r, _) = run(vec![
        set("f", lambda(vec!["n"], assign("n", num(1.0)))),
        Statement::Expr(call(var("f"), vec![num(5.0)])),
    ]);
    assert_eq!(r, Err("ConstantReassignment(\"n\")".to_string()));
}

#[test]
fn constants_cannot_be_assigned() {
    let (r, out) = run(vec![
        Statement::Const("c".to_string(), num(1.0)),
        print(vec![var("c")]),
        assign("c", num(2.0)),
    ]);
    assert_eq!(out, "1");
    assert_eq!(r, Err("ConstantReassignment(\"c\")".to_string()));
}

#[test]
fn assignment_to_unknown_name_fails() {
    let (r, _) = run(vec![assign("nobody", num(2.0))]);
    assert_eq!(r, Err("UnknownVariable(\"nobody\")".to_string()));
}

#[test]
fn if_branch_declares_in_current_scope() {
    let (r, out) = run(vec![
        Statement::If(Expr::Bool(true), Box::new(set("z", num(3.0))), None),
        print(vec![var("z")]),
    ]);
    assert!(r.is_ok());
    assert_eq!(out, "3");
}

#[test]
fn program_value_is_value_of_last_statement() {
    let program = Program {
        procedures: vec![],
        main: Statement::Block(vec![set("x", num(5.0)), Statement::Expr(var("x"))]),
    };
    let host = Host::new(arith, show);
    let mut out = String::new();
    let r = interp_program(&program, &host, &mut out, 10);
    match r {
        Ok(Value::Num(n)) => assert_eq!(f64::from_bits(n.bits), 5.0),
        other => panic!("unexpected result {:?}", other),
    }
    let empty = Program { procedures: vec![], main: Statement::Block(vec![]) };
    assert!(matches!(interp_program(&empty, &host, &mut out, 10), Ok(Value::Nil)));
    let failing = Program { procedures: vec![], main: Statement::Break };
    assert!(matches!(interp_program(&failing, &host, &mut out, 10), Ok(Value::Nil)));
    let stray = Program { procedures: vec![], main: Statement::Block(vec![Statement::Break]) };
    assert!(matches!(
        interp_program(&stray, &host, &mut out, 10),
        Err(RuntimeError::BreakNotInLoop)
    ));
}

#[test]
fn closure_made_in_a_block_keeps_the_block_scope() {
    let (r, out) = run(vec![
        set("f", num(0.0)),
        Statement::Block(vec![
            set("hidden", num(42.0)),
            assign("f", lambda(vec![], Statement::Return(Some(var("hidden"))))),
        ]),
        print(vec![call(var("f"), vec![])]),
    ]);
    assert!(r.is_ok());
    assert_eq!(out, "42");
}

#[test]
fn procedure_returning_a_closure() {
    let adder = lambda(
        vec!["n"],
        Statement::Return(Some(lambda(
            vec!["m"],
            Statement::Return(Some(Expr::Binary(
                Operator::Plus,
                Box::new(var("n")),
                Box::new(var("m")),
            ))),
        ))),
    );
    let (r, out) = run(vec![
        set("adder", adder),
        set("add2", call(var("adder"), vec![num(2.0)])),
        set("add10", call(var("adder"), vec![num(10.0)])),
        print(vec![call(var("add2"), vec![num(1.0)]), call(var("add10"), vec![num(1.0)])]),
    ]);
    assert!(r.is_ok());
    assert_eq!(out, "3 11");
}

#[test]
fn closure_cannot_call_itself_through_its_own_variable() {
    let (r, _) = run(vec![
        set("f", lambda(vec![], Statement::Return(Some(call(var("f"), vec![]))))),
        Statement::Expr(call(var("f"), vec![])),
    ]);
    assert_eq!(r, Err("UnknownVariable(\"f\")".to_string()));
}

#[test]
fn more_fuel_does_not_change_a_result() {
    let main = || {
        vec![
            set("i", num(0.0)),
            Statement::While(
                Expr::Binary(Operator::LT, Box::new(var("i")), Box::new(num(4.0))),
                Box::new(Statement::Block(vec![
                    print(vec![var("i")]),
                    assign(
                        "i",
                        Expr::Binary(Operator::Plus, Box::new(var("i")), Box::new(num(1.0))),
                    ),
                ])),
            ),
            Statement::Expr(var("i")),
        ]
    };
    let host = Host::new(arith, show);
    let mut results = vec![];
    for fuel in [4u64, 5, 100, u64::MAX] {
        let program = Program { procedures: vec![], main: Statement::Block(main()) };
        let mut out = String::new();
        let r = interp_program(&program, &host, &mut out, fuel);
        results.push((format!("{:?}", r), out));
    }
    assert_eq!(results[0].1, "0123");
    assert!(results.iter().all(|r| *r == results[0]));
    let program = Program { procedures: vec![], main: Statement::Block(main()) };
    let mut out = String::new();
    assert!(matches!(
        interp_program(&program, &host, &mut out, 3),
        Err(RuntimeError::OutOfFuel)
    ));
    assert_eq!(out, "0123");
}

#[test]
fn output_given_before_is_kept() {
    let program = Program { procedures: vec![], main: print(vec![text("b"), var("nobody")]) };
    let host = Host::new(arith, show);
    let mut out = "a".to_string();
    assert!(interp_program(&program, &host, &mut out, 10).is_err());
    assert_eq!(out, "a");
    let program = Program { procedures: vec![], main: print(vec![text("b")]) };
    assert!(interp_program(&program, &host, &mut out, 10).is_ok());
    assert_eq!(out, "ab");
}

#[test]
fn loop_body_without_block_declares_in_the_loops_scope() {
    let (r, out) = run(vec![
        set("i", num(0.0)),
        Statement::While(
            Expr::Binary(Operator::LT, Box::new(var("i")), Box::new(num(1.0))),
            Box::new(Statement::If(
                Expr::Bool(true),
                Box::new(assign(
                    "i",
                    Expr::Binary(Operator::Plus, Box::new(var("i")), Box::new(num(1.0))),
                )),
                None,
            )),
        ),
        print(vec![var("i")]),
    ]);
    assert!(r.is_ok());
    assert_eq!(out, "1");
}
