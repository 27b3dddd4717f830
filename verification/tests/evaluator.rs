use linger::ast::{Builtin, Expr, Procedure, Program, Statement};
use linger::environment::Environment;
use linger::error::RuntimeError;
use linger::host::Host;
use linger::interpreter::{
    interp_expression, interp_program, interp_statement, ControlFlow, Value,
};
use linger::number::Number;
use linger::tokenizer::Operator;

fn arith(op: Operator, a: Number, b: Number) -> Number {
    let (x, y) = (f64::from_bits(a.bits), f64::from_bits(b.bits));
    let r = match op {
        Operator::Plus => x + y,
        Operator::Minus => x - y,
        Operator::Times => x * y,
        Operator::Div => x / y,
        Operator::Mod => x % y,
        _ => f64::NAN,
    };
    Number::from_bits(r.to_bits())
}

fn show(n: Number) -> String {
    format!("{}", f64::from_bits(n.bits))
}

fn num(x: f64) -> Expr {
    Expr::Num(Number::from_bits(x.to_bits()))
}

fn var(name: &str) -> Expr {
    Expr::Var(name.to_string())
}

fn text(s: &str) -> Expr {
    Expr::Str(s.to_string())
}

fn bin(op: Operator, l: Expr, r: Expr) -> Expr {
    Expr::Binary(op, Box::new(l), Box::new(r))
}

fn un(op: Operator, e: Expr) -> Expr {
    Expr::Unary(op, Box::new(e))
}

fn prim(b: Builtin, args: Vec<Expr>) -> Expr {
    Expr::PrimitiveCall(b, args)
}

fn list(items: Vec<Expr>) -> Expr {
    prim(Builtin::List, items)
}

fn print(args: Vec<Expr>) -> Statement {
    Statement::Expr(prim(Builtin::Print, args))
}

fn set(name: &str, e: Expr) -> Statement {
    Statement::Let(name.to_string(), e)
}

fn assign(name: &str, e: Expr) -> Statement {
    Statement::Assign(name.to_string(), e)
}

fn call(callee: Expr, args: Vec<Expr>) -> Expr {
    Expr::Call(Box::new(callee), args)
}

fn lambda(params: Vec<&str>, body: Statement) -> Expr {
    Expr::Lambda(params.into_iter().map(|p| p.to_string()).collect(), Box::new(body))
}

fn index(t: Expr, i: Expr) -> Expr {
    Expr::Index(Box::new(t), Box::new(i))
}

fn ret(e: Expr) -> Statement {
    Statement::Return(Some(e))
}

fn block(stmts: Vec<Statement>) -> Statement {
    Statement::Block(stmts)
}

fn while_(c: Expr, body: Statement) -> Statement {
    Statement::While(c, Box::new(body))
}

fn if_(c: Expr, t: Statement) -> Statement {
    Statement::If(c, Box::new(t), None)
}

/// The text of what an expression evaluates to, or the error, and what was printed.
fn eval(e: Expr) -> (Result<String, String>, String) {
    let procedures = vec![];
    let mut env = Environment::new(&procedures);
    let host = Host::new(arith, show);
    let mut out = String::new();
    let r = interp_expression(&mut env, &e, &host, &mut out, 100);
    let r = match r {
        Ok(v) => Ok(v.text(&host)),
        Err(e) => Err(format!("{:?}", e)),
    };
    (r, out)
}

fn run_with(procedures: Vec<Procedure>, main: Vec<Statement>, fuel: u64) -> (Result<String, String>, String) {
    let program = Program { procedures, main: Statement::Block(main) };
    let host = Host::new(arith, show);
    let mut out = String::new();
    let r = interp_program(&program, &host, &mut out, fuel);
    let r = match r {
        Ok(v) => Ok(v.text(&host)),
        Err(e) => Err(format!("{:?}", e)),
    };
    (r, out)
}

fn run(main: Vec<Statement>) -> (Result<String, String>, String) {
    run_with(vec![], main, 1000)
}

fn ok(s: &str) -> Result<String, String> {
    Ok(s.to_string())
}

fn err(s: &str) -> Result<String, String> {
    Err(s.to_string())
}

#[test]
fn literals_evaluate_to_themselves() {
    assert_eq!(eval(Expr::Nil).0, ok("nil"));
    assert_eq!(eval(num(2.5)).0, ok("2.5"));
    assert_eq!(eval(Expr::Bool(true)).0, ok("true"));
    assert_eq!(eval(Expr::Bool(false)).0, ok("false"));
    assert_eq!(eval(text("hi")).0, ok("hi"));
    assert_eq!(eval(lambda(vec!["a"], Statement::Break)).0, ok("<lambda>"));
}

#[test]
fn arithmetic_on_numbers() {
    assert_eq!(eval(bin(Operator::Plus, num(1.0), num(2.0))).0, ok("3"));
    assert_eq!(eval(bin(Operator::Minus, num(1.0), num(2.0))).0, ok("-1"));
    assert_eq!(eval(bin(Operator::Times, num(3.0), num(4.0))).0, ok("12"));
    assert_eq!(eval(bin(Operator::Div, num(7.0), num(2.0))).0, ok("3.5"));
    assert_eq!(eval(bin(Operator::Mod, num(7.0), num(4.0))).0, ok("3"));
    assert_eq!(eval(bin(Operator::Div, num(1.0), num(0.0))).0, ok("inf"));
}

#[test]
fn plus_joins_strings_and_lists() {
    assert_eq!(eval(bin(Operator::Plus, text("ab"), text("cd"))).0, ok("abcd"));
    assert_eq!(
        eval(bin(Operator::Plus, list(vec![num(1.0), num(2.0)]), list(vec![num(3.0)]))).0,
        ok("[1, 2, 3]")
    );
    assert_eq!(eval(bin(Operator::Plus, list(vec![]), list(vec![]))).0, ok("[]"));
}

#[test]
fn arithmetic_names_the_operand_that_does_not_fit() {
    assert_eq!(eval(bin(Operator::Minus, text("a"), num(1.0))).0, err("BadArg(Str(\"a\"))"));
    assert_eq!(eval(bin(Operator::Minus, num(1.0), text("a"))).0, err("BadArg(Str(\"a\"))"));
    assert_eq!(eval(bin(Operator::Plus, num(1.0), Expr::Bool(true))).0, err("BadArg(Bool(true))"));
    assert_eq!(eval(bin(Operator::Plus, text("a"), num(1.0))).0, err("BadArg(Str(\"a\"))"));
    assert_eq!(eval(bin(Operator::Times, Expr::Nil, num(1.0))).0, err("BadArg(Nil)"));
    assert_eq!(eval(bin(Operator::Div, num(1.0), Expr::Nil)).0, err("BadArg(Nil)"));
    assert_eq!(eval(bin(Operator::Mod, text("a"), text("b"))).0, err("BadArg(Str(\"a\"))"));
    assert_eq!(
        eval(bin(Operator::Minus, list(vec![]), list(vec![]))).0,
        err("BadArg(List([]))")
    );
}

#[test]
fn equality_on_numbers_and_booleans() {
    assert_eq!(eval(bin(Operator::Eq, num(1.0), num(1.0))).0, ok("true"));
    assert_eq!(eval(bin(Operator::Eq, num(1.0), num(2.0))).0, ok("false"));
    assert_eq!(eval(bin(Operator::Ne, num(1.0), num(2.0))).0, ok("true"));
    assert_eq!(eval(bin(Operator::Ne, num(1.0), num(1.0))).0, ok("false"));
    assert_eq!(eval(bin(Operator::Eq, Expr::Bool(true), Expr::Bool(true))).0, ok("true"));
    assert_eq!(eval(bin(Operator::Ne, Expr::Bool(true), Expr::Bool(false))).0, ok("true"));
    assert_eq!(eval(bin(Operator::Eq, num(0.0), num(-0.0))).0, ok("true"));
    assert_eq!(eval(bin(Operator::Eq, num(f64::NAN), num(f64::NAN))).0, ok("false"));
    assert_eq!(eval(bin(Operator::Ne, num(f64::NAN), num(f64::NAN))).0, ok("true"));
}

#[test]
fn equality_reports_both_operands() {
    assert_eq!(
        eval(bin(Operator::Eq, num(1.0), Expr::Bool(true))).0,
        err("BadArgs([Num(Number { bits: 4607182418800017408 }), Bool(true)])")
    );
    assert_eq!(
        eval(bin(Operator::Ne, text("a"), text("a"))).0,
        err("BadArgs([Str(\"a\"), Str(\"a\")])")
    );
}

#[test]
fn ordering_on_numbers() {
    assert_eq!(eval(bin(Operator::LT, num(1.0), num(2.0))).0, ok("true"));
    assert_eq!(eval(bin(Operator::LT, num(2.0), num(2.0))).0, ok("false"));
    assert_eq!(eval(bin(Operator::GT, num(3.0), num(2.0))).0, ok("true"));
    assert_eq!(eval(bin(Operator::GT, num(2.0), num(3.0))).0, ok("false"));
    assert_eq!(eval(bin(Operator::LTE, num(2.0), num(2.0))).0, ok("true"));
    assert_eq!(eval(bin(Operator::LTE, num(3.0), num(2.0))).0, ok("false"));
    assert_eq!(eval(bin(Operator::GTE, num(2.0), num(2.0))).0, ok("true"));
    assert_eq!(eval(bin(Operator::GTE, num(-1.0), num(2.0))).0, ok("false"));
    assert_eq!(
        eval(bin(Operator::LT, Expr::Bool(true), Expr::Bool(false))).0,
        err("BadArgs([Bool(true), Bool(false)])")
    );
}

#[test]
fn and_skips_right_operand_when_left_is_false() {
    let noisy = prim(Builtin::Print, vec![text("evaluated")]);
    let (r, out) = eval(bin(Operator::LogicAnd, Expr::Bool(false), noisy));
    assert_eq!(r, ok("false"));
    assert_eq!(out, "");
}

#[test]
fn or_skips_right_operand_when_left_is_true() {
    let noisy = prim(Builtin::Print, vec![text("evaluated")]);
    let (r, out) = eval(bin(Operator::LogicOr, Expr::Bool(true), noisy));
    assert_eq!(r, ok("true"));
    assert_eq!(out, "");
}

#[test]
fn logic_evaluates_right_operand_when_needed() {
    assert_eq!(eval(bin(Operator::LogicAnd, Expr::Bool(true), Expr::Bool(false))).0, ok("false"));
    assert_eq!(eval(bin(Operator::LogicAnd, Expr::Bool(true), Expr::Bool(true))).0, ok("true"));
    assert_eq!(eval(bin(Operator::LogicOr, Expr::Bool(false), Expr::Bool(true))).0, ok("true"));
    assert_eq!(eval(bin(Operator::LogicOr, Expr::Bool(false), Expr::Bool(false))).0, ok("false"));
    let noisy = prim(Builtin::Print, vec![text("evaluated")]);
    let (r, out) = eval(bin(Operator::LogicAnd, Expr::Bool(true), noisy));
    assert_eq!(r, err("BadArg(Nil)"));
    assert_eq!(out, "evaluated");
}

#[test]
fn logic_wants_booleans() {
    assert_eq!(
        eval(bin(Operator::LogicAnd, num(1.0), Expr::Bool(true))).0,
        err("BadArg(Num(Number { bits: 4607182418800017408 }))")
    );
    assert_eq!(eval(bin(Operator::LogicOr, text("a"), Expr::Bool(true))).0, err("BadArg(Str(\"a\"))"));
    assert_eq!(eval(bin(Operator::LogicOr, Expr::Bool(false), text("b"))).0, err("BadArg(Str(\"b\"))"));
}

#[test]
fn unary_operators() {
    assert_eq!(eval(un(Operator::Minus, num(5.0))).0, ok("-5"));
    assert_eq!(eval(un(Operator::LogicNot, Expr::Bool(true))).0, ok("false"));
    assert_eq!(eval(un(Operator::Minus, Expr::Bool(true))).0, err("BadArg(Bool(true))"));
    assert_eq!(eval(un(Operator::LogicNot, num(1.0))).0, err("BadArg(Num(Number { bits: 4607182418800017408 }))"));
}

#[test]
fn operators_with_wrong_number_of_operands() {
    assert_eq!(eval(un(Operator::Plus, num(5.0))).0, err("BinaryAsUnary(Plus)"));
    assert_eq!(eval(un(Operator::Eq, num(5.0))).0, err("BinaryAsUnary(Eq)"));
    assert_eq!(
        eval(bin(Operator::LogicNot, Expr::Bool(true), Expr::Bool(true))).0,
        err("UnaryAsBinary(LogicNot)")
    );
    let noisy = prim(Builtin::Print, vec![text("evaluated")]);
    let (r, out) = eval(bin(Operator::PreIncrement, noisy, num(1.0)));
    assert_eq!(r, err("UnaryAsBinary(PreIncrement)"));
    assert_eq!(out, "");
}

#[test]
fn increments_and_decrements() {
    let (r, out) = run(vec![
        set("x", num(5.0)),
        print(vec![un(Operator::PreIncrement, var("x")), var("x")]),
        print(vec![text(" ")]),
        print(vec![un(Operator::PostIncrement, var("x")), var("x")]),
        print(vec![text(" ")]),
        print(vec![un(Operator::PreDecrement, var("x")), var("x")]),
        print(vec![text(" ")]),
        print(vec![un(Operator::PostDecrement, var("x")), var("x")]),
    ]);
    assert_eq!(r, ok("nil"));
    assert_eq!(out, "6 6 6 7 6 6 6 5");
}

#[test]
fn increment_wants_a_mutable_number_variable() {
    assert_eq!(eval(un(Operator::PreIncrement, num(1.0))).0, err("InvalidAssignmentTarget"));
    assert_eq!(
        eval(un(Operator::PostDecrement, bin(Operator::Plus, num(1.0), num(1.0)))).0,
        err("InvalidAssignmentTarget")
    );
    assert_eq!(eval(un(Operator::PreIncrement, var("x"))).0, err("UnknownVariable(\"x\")"));
    assert_eq!(
        run(vec![set("s", text("a")), Statement::Expr(un(Operator::PostIncrement, var("s")))]).0,
        err("BadArg(Str(\"a\"))")
    );
    assert_eq!(
        run(vec![
            Statement::Const("c".to_string(), num(1.0)),
            Statement::Expr(un(Operator::PreIncrement, var("c")))
        ])
        .0,
        err("ConstantReassignment(\"c\")")
    );
}

#[test]
fn call_checks_number_of_arguments() {
    let two = lambda(vec!["a", "b"], ret(var("a")));
    assert_eq!(
        run(vec![set("f", two), Statement::Expr(call(var("f"), vec![num(1.0)]))]).0,
        err("ArgMismatch(\"f\", 2, 1)")
    );
    let none = lambda(vec![], ret(num(1.0)));
    assert_eq!(eval(call(none, vec![num(1.0)])).0, err("ArgMismatch(\"<lambda>\", 0, 1)"));
}

#[test]
fn call_wants_a_procedure() {
    assert_eq!(eval(call(num(1.0), vec![])).0, err("BadArg(Num(Number { bits: 4607182418800017408 }))"));
    assert_eq!(eval(call(text("f"), vec![])).0, err("BadArg(Str(\"f\"))"));
    assert_eq!(eval(call(var("f"), vec![])).0, err("UnknownVariable(\"f\")"));
}

#[test]
fn call_evaluates_arguments_left_to_right_in_callers_environment() {
    let (r, out) = run(vec![
        set("f", lambda(vec!["a", "b"], ret(bin(Operator::Minus, var("a"), var("b"))))),
        set("x", num(10.0)),
        print(vec![call(
            var("f"),
            vec![un(Operator::PostIncrement, var("x")), un(Operator::PostIncrement, var("x"))],
        )]),
        print(vec![text(" "), var("x")]),
    ]);
    assert_eq!(r, ok("nil"));
    assert_eq!(out, "-1  12");
}

#[test]
fn call_returns_value_of_body_whatever_its_ending() {
    assert_eq!(eval(call(lambda(vec![], ret(num(3.0))), vec![])).0, ok("3"));
    assert_eq!(eval(call(lambda(vec![], Statement::Expr(num(4.0))), vec![])).0, ok("4"));
    assert_eq!(eval(call(lambda(vec![], Statement::Break), vec![])).0, ok("nil"));
    assert_eq!(eval(call(lambda(vec![], Statement::Continue), vec![])).0, ok("nil"));
    assert_eq!(
        eval(call(lambda(vec![], block(vec![Statement::Break])), vec![])).0,
        err("BreakNotInLoop")
    );
    assert_eq!(
        eval(call(lambda(vec![], block(vec![Statement::Continue])), vec![])).0,
        err("ContinueNotInLoop")
    );
}

#[test]
fn procedures_of_the_program_call_themselves_and_each_other() {
    let fact = Procedure {
        name: "fact".to_string(),
        params: vec!["n".to_string()],
        body: block(vec![
            if_(bin(Operator::LTE, var("n"), num(1.0)), ret(num(1.0))),
            ret(bin(
                Operator::Times,
                var("n"),
                call(var("fact"), vec![bin(Operator::Minus, var("n"), num(1.0))]),
            )),
        ]),
    };
    let even = Procedure {
        name: "even".to_string(),
        params: vec!["n".to_string()],
        body: block(vec![
            if_(bin(Operator::Eq, var("n"), num(0.0)), ret(Expr::Bool(true))),
            ret(call(var("odd"), vec![bin(Operator::Minus, var("n"), num(1.0))])),
        ]),
    };
    let odd = Procedure {
        name: "odd".to_string(),
        params: vec!["n".to_string()],
        body: block(vec![
            if_(bin(Operator::Eq, var("n"), num(0.0)), ret(Expr::Bool(false))),
            ret(call(var("even"), vec![bin(Operator::Minus, var("n"), num(1.0))])),
        ]),
    };
    let (r, out) = run_with(
        vec![fact, even, odd],
        vec![print(vec![call(var("fact"), vec![num(5.0)]), call(var("even"), vec![num(7.0)])])],
        100,
    );
    assert_eq!(r, ok("nil"));
    assert_eq!(out, "120 false");
}

#[test]
fn procedures_of_the_program_are_constants_that_can_be_shadowed() {
    let f = || Procedure { name: "f".to_string(), params: vec![], body: ret(num(1.0)) };
    assert_eq!(
        run_with(vec![f()], vec![assign("f", num(2.0))], 10).0,
        err("ConstantReassignment(\"f\")")
    );
    let (r, out) = run_with(vec![f()], vec![set("f", num(2.0)), print(vec![var("f")])], 10);
    assert_eq!(r, ok("nil"));
    assert_eq!(out, "2");
    let (r, out) = run_with(
        vec![f()],
        vec![set("x", num(5.0)), print(vec![call(var("f"), vec![]), var("f")])],
        10,
    );
    assert_eq!(r, ok("nil"));
    assert_eq!(out, "1 <lambda>");
}

#[test]
fn procedure_does_not_see_callers_variables() {
    let f = Procedure { name: "f".to_string(), params: vec![], body: ret(var("x")) };
    assert_eq!(
        run_with(vec![f], vec![set("x", num(5.0)), Statement::Expr(call(var("f"), vec![]))], 10).0,
        err("UnknownVariable(\"x\")")
    );
}

#[test]
fn while_counts() {
    let (r, out) = run(vec![
        set("i", num(0.0)),
        while_(
            bin(Operator::LT, var("i"), num(3.0)),
            block(vec![print(vec![var("i")]), Statement::Expr(un(Operator::PreIncrement, var("i")))]),
        ),
        print(vec![text(" "), var("i")]),
    ]);
    assert_eq!(r, ok("nil"));
    assert_eq!(out, "012  3");
}

#[test]
fn while_with_break_yields_nil() {
    let procedures = vec![];
    let mut env = Environment::new(&procedures);
    let host = Host::new(arith, show);
    let mut out = String::new();
    let looping = while_(
        Expr::Bool(true),
        block(vec![print(vec![text("once")]), Statement::Break, print(vec![text("never")])]),
    );
    let r = interp_statement(&mut env, &looping, false, &host, &mut out, 50);
    assert!(matches!(r, Ok((Value::Nil, ControlFlow::Normal))));
    assert_eq!(out, "once");
}

#[test]
fn continue_skips_rest_of_body_and_tests_condition_again() {
    let (r, out) = run(vec![
        set("i", num(0.0)),
        while_(
            bin(Operator::LT, var("i"), num(5.0)),
            block(vec![
                Statement::Expr(un(Operator::PreIncrement, var("i"))),
                if_(
                    bin(Operator::Eq, bin(Operator::Mod, var("i"), num(2.0)), num(0.0)),
                    Statement::Continue,
                ),
                print(vec![var("i")]),
            ]),
        ),
    ]);
    assert_eq!(r, ok("nil"));
    assert_eq!(out, "135");
}

#[test]
fn return_inside_while_ends_the_call() {
    let f = lambda(
        vec![],
        block(vec![
            set("i", num(0.0)),
            while_(
                Expr::Bool(true),
                block(vec![
                    Statement::Expr(un(Operator::PreIncrement, var("i"))),
                    if_(bin(Operator::Eq, var("i"), num(3.0)), ret(var("i"))),
                ]),
            ),
            print(vec![text("never")]),
            ret(num(-1.0)),
        ]),
    );
    let (r, out) = run(vec![print(vec![call(f, vec![])])]);
    assert_eq!(r, ok("nil"));
    assert_eq!(out, "3");
}

#[test]
fn while_wants_a_boolean_condition() {
    assert_eq!(
        run(vec![while_(num(1.0), Statement::Break)]).0,
        err("BadCondition(Num(Number { bits: 4607182418800017408 }))")
    );
    let procedures = vec![];
    let mut env = Environment::new(&procedures);
    let host = Host::new(arith, show);
    let mut out = String::new();
    let looping = while_(text("yes"), Statement::Break);
    let r = interp_statement(&mut env, &looping, false, &host, &mut out, 50);
    assert!(matches!(r, Err(RuntimeError::BadCondition(Value::Str(_)))));
    let branching = if_(Expr::Nil, Statement::Break);
    let r = interp_statement(&mut env, &branching, false, &host, &mut out, 50);
    assert!(matches!(r, Err(RuntimeError::BadCondition(Value::Nil))));
}

#[test]
fn if_chooses_a_branch() {
    let s = |c: bool| {
        Statement::If(
            Expr::Bool(c),
            Box::new(print(vec![text("then")])),
            Some(Box::new(print(vec![text("else")]))),
        )
    };
    assert_eq!(run(vec![s(true)]).1, "then");
    assert_eq!(run(vec![s(false)]).1, "else");
    assert_eq!(run(vec![if_(Expr::Bool(false), print(vec![text("then")]))]), (ok("nil"), String::new()));
}

#[test]
fn endless_loop_runs_out_of_fuel() {
    let (r, out) = run_with(
        vec![],
        vec![while_(Expr::Bool(true), print(vec![text("x")]))],
        3,
    );
    assert_eq!(r, err("OutOfFuel"));
    assert_eq!(out, "xxxx");
}

#[test]
fn endless_recursion_runs_out_of_fuel() {
    let f = Procedure { name: "f".to_string(), params: vec![], body: ret(call(var("f"), vec![])) };
    assert_eq!(run_with(vec![f], vec![Statement::Expr(call(var("f"), vec![]))], 20).0, err("OutOfFuel"));
}

#[test]
fn loop_within_its_fuel_finishes() {
    let counted = |fuel| {
        run_with(
            vec![],
            vec![
                set("i", num(0.0)),
                while_(
                    bin(Operator::LT, var("i"), num(3.0)),
                    Statement::Expr(un(Operator::PreIncrement, var("i"))),
                ),
                Statement::Expr(var("i")),
            ],
            fuel,
        )
        .0
    };
    assert_eq!(counted(3), ok("3"));
    assert_eq!(counted(2), err("OutOfFuel"));
}

#[test]
fn print_joins_with_spaces_and_returns_nil() {
    let (r, out) = eval(prim(
        Builtin::Print,
        vec![num(1.0), text("two"), Expr::Bool(true), Expr::Nil, list(vec![num(1.5), text("s")])],
    ));
    assert_eq!(r, ok("nil"));
    assert_eq!(out, "1 two true nil [1.5, s]");
    assert_eq!(eval(prim(Builtin::Print, vec![])), (ok("nil"), String::new()));
}

#[test]
fn output_before_a_failure_stays() {
    let (r, out) = run(vec![print(vec![text("kept")]), print(vec![text("lost"), var("nobody")])]);
    assert_eq!(r, err("UnknownVariable(\"nobody\")"));
    assert_eq!(out, "kept");
}

#[test]
fn list_builtin_collects_values() {
    assert_eq!(eval(list(vec![])).0, ok("[]"));
    assert_eq!(
        eval(list(vec![num(1.0), list(vec![num(2.0)]), text("x")])).0,
        ok("[1, [2], x]")
    );
}

#[test]
fn is_empty_wants_one_list() {
    assert_eq!(eval(prim(Builtin::IsEmpty, vec![list(vec![])])).0, ok("true"));
    assert_eq!(eval(prim(Builtin::IsEmpty, vec![list(vec![num(1.0)])])).0, ok("false"));
    assert_eq!(eval(prim(Builtin::IsEmpty, vec![])).0, err("ArgMismatch(\"is_empty\", 1, 0)"));
    assert_eq!(
        eval(prim(Builtin::IsEmpty, vec![list(vec![]), list(vec![])])).0,
        err("ArgMismatch(\"is_empty\", 1, 2)")
    );
    assert_eq!(eval(prim(Builtin::IsEmpty, vec![num(1.0)])).0, err("ExpectedList(\"1\")"));
    assert_eq!(eval(prim(Builtin::IsEmpty, vec![text("s")])).0, err("ExpectedList(\"s\")"));
}

#[test]
fn is_nil_wants_one_argument() {
    assert_eq!(eval(prim(Builtin::IsNil, vec![Expr::Nil])).0, ok("true"));
    assert_eq!(eval(prim(Builtin::IsNil, vec![num(0.0)])).0, ok("false"));
    assert_eq!(eval(prim(Builtin::IsNil, vec![list(vec![])])).0, ok("false"));
    assert_eq!(eval(prim(Builtin::IsNil, vec![])).0, err("ArgMismatch(\"is_nil\", 1, 0)"));
    assert_eq!(
        eval(prim(Builtin::IsNil, vec![Expr::Nil, Expr::Nil])).0,
        err("ArgMismatch(\"is_nil\", 1, 2)")
    );
}

#[test]
fn index_within_bounds() {
    let l = || list(vec![num(10.0), num(20.0), num(30.0)]);
    assert_eq!(eval(index(l(), num(0.0))).0, ok("10"));
    assert_eq!(eval(index(l(), num(1.0))).0, ok("20"));
    assert_eq!(eval(index(l(), num(2.0))).0, ok("30"));
    assert_eq!(eval(index(l(), num(-0.0))).0, ok("10"));
}

#[test]
fn index_out_of_bounds() {
    let l = || list(vec![num(10.0), num(20.0), num(30.0)]);
    assert_eq!(eval(index(l(), num(3.0))).0, err("IndexOutOfBounds(3)"));
    assert_eq!(eval(index(l(), num(-1.0))).0, err("IndexOutOfBounds(-1)"));
    assert_eq!(eval(index(list(vec![]), num(0.0))).0, err("IndexOutOfBounds(0)"));
    assert_eq!(eval(index(l(), num(1e30))).0, err("IndexOutOfBounds(9223372036854775807)"));
}

#[test]
fn index_wants_an_integer() {
    let l = || list(vec![num(10.0), num(20.0), num(30.0)]);
    assert_eq!(eval(index(l(), num(1.5))).0, err("ExpectedInteger(\"1.5\")"));
    assert_eq!(eval(index(l(), num(f64::NAN))).0, err("ExpectedInteger(\"NaN\")"));
    assert_eq!(eval(index(l(), num(f64::INFINITY))).0, err("ExpectedInteger(\"inf\")"));
    assert_eq!(eval(index(l(), text("1"))).0, err("ExpectedInteger(\"1\")"));
    assert_eq!(eval(index(l(), Expr::Bool(true))).0, err("ExpectedInteger(\"true\")"));
}

#[test]
fn index_wants_a_list() {
    let noisy = prim(Builtin::Print, vec![text("evaluated")]);
    let (r, out) = eval(index(text("abc"), noisy));
    assert_eq!(r, err("NotIndexable(\"abc\")"));
    assert_eq!(out, "");
    assert_eq!(eval(index(num(1.0), num(0.0))).0, err("NotIndexable(\"1\")"));
    assert_eq!(eval(index(Expr::Nil, num(0.0))).0, err("NotIndexable(\"nil\")"));
}

#[test]
fn values_are_independent_copies() {
    let (r, out) = run(vec![
        set("a", list(vec![num(1.0)])),
        set("b", var("a")),
        assign("b", bin(Operator::Plus, var("b"), list(vec![num(2.0)]))),
        print(vec![var("a"), var("b")]),
    ]);
    assert_eq!(r, ok("nil"));
    assert_eq!(out, "[1] [1, 2]");
}

#[test]
fn statements_end_as_their_kind_says() {
    let procedures = vec![];
    let mut env = Environment::new(&procedures);
    let host = Host::new(arith, show);
    let mut out = String::new();
    let stmts = vec![
        Statement::Break,
        Statement::Continue,
        Statement::Return(None),
        ret(num(1.0)),
        set("x", num(1.0)),
        Statement::Expr(num(2.0)),
    ];
    let flows: Vec<ControlFlow> = stmts
        .iter()
        .map(|s| interp_statement(&mut env, s, false, &host, &mut out, 5).unwrap().1)
        .collect();
    assert_eq!(
        flows,
        vec![
            ControlFlow::Break,
            ControlFlow::Continue,
            ControlFlow::Return,
            ControlFlow::Return,
            ControlFlow::Normal,
            ControlFlow::Normal
        ]
    );
    let in_loop = block(vec![Statement::Continue, print(vec![text("never")])]);
    let r = interp_statement(&mut env, &in_loop, true, &host, &mut out, 5);
    assert!(matches!(r, Ok((Value::Nil, ControlFlow::Continue))));
    let r = interp_statement(&mut env, &in_loop, false, &host, &mut out, 5);
    assert!(matches!(r, Err(RuntimeError::ContinueNotInLoop)));
    assert_eq!(out, "");
}
