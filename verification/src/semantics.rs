//! The meaning of programs: what an expression evaluates to and what a
//! statement does, as mathematical functions of the state in which they run.
//!
//! `fuel` bounds the nesting of calls and the rounds of a loop: a call runs
//! its body with one unit less, and so does each further round of a loop.
//! Where nothing is left, evaluation stops with `OutOfFuel`.

use vstd::prelude::*;
use crate::ast::{names_of, Builtin, Expr, Program, Statement};
use crate::environment::{EnvView, Mutability};
use crate::error::RuntimeErrorView;
use crate::host::HostModel;
use crate::interpreter::{ControlFlow, ValueView};
use crate::number::{Number, ONE_BITS};
use crate::tokenizer::Operator;

verus! {

/// What an evaluation works on: the bindings in sight and the text printed
/// so far.
pub struct State {
    pub env: EnvView,
    pub out: Seq<char>,
}

/// How the evaluation of an expression ends.
pub struct ExprOutcome {
    pub result: Result<ValueView, RuntimeErrorView>,
    pub state: State,
}

/// How the evaluation of a list of expressions ends.
pub struct ListOutcome {
    pub result: Result<Seq<ValueView>, RuntimeErrorView>,
    pub state: State,
}

/// How the execution of a statement ends.
pub struct StmtOutcome {
    pub result: Result<(ValueView, ControlFlow), RuntimeErrorView>,
    pub state: State,
}

pub open spec fn value_ok(v: ValueView, state: State) -> ExprOutcome {
    ExprOutcome { result: Ok(v), state }
}

pub open spec fn value_err(e: RuntimeErrorView, state: State) -> ExprOutcome {
    ExprOutcome { result: Err(e), state }
}

pub open spec fn stmt_ok(v: ValueView, flow: ControlFlow, state: State) -> StmtOutcome {
    StmtOutcome { result: Ok((v, flow)), state }
}

pub open spec fn stmt_err(e: RuntimeErrorView, state: State) -> StmtOutcome {
    StmtOutcome { result: Err(e), state }
}

/// The text of a value: a number as the host writes it, `true`, `false`,
/// `nil`, a string as it is, `<lambda>` for a procedure, and a list as its
/// items' texts between brackets, with a comma and a space between two.
pub open spec fn value_text(h: HostModel, v: ValueView) -> Seq<char>
    decreases v,
{
    match v {
        ValueView::Num(n) => (h.show)(n),
        ValueView::Bool(b) => if b {
            "true"@
        } else {
            "false"@
        },
        ValueView::Str(s) => s,
        ValueView::Proc(_, _, _) => "<lambda>"@,
        ValueView::List(items) => "["@ + joined_text(h, items, ", "@) + "]"@,
        ValueView::Nil => "nil"@,
    }
}

/// The texts of the values, with the separator between two.
pub open spec fn joined_text(h: HostModel, items: Seq<ValueView>, sep: Seq<char>) -> Seq<char>
    decreases items,
{
    if items.len() == 0 {
        Seq::empty()
    } else if items.len() == 1 {
        value_text(h, items[0])
    } else {
        joined_text(h, items.drop_last(), sep) + sep + value_text(h, items.last())
    }
}

/// The operators that compute a number from two.
pub open spec fn is_arithmetic(op: Operator) -> bool {
    op == Operator::Plus || op == Operator::Minus || op == Operator::Times || op == Operator::Div
        || op == Operator::Mod
}

/// The operators `==` and `!=`.
pub open spec fn is_equality(op: Operator) -> bool {
    op == Operator::Eq || op == Operator::Ne
}

/// The operators `<`, `>`, `<=` and `>=`.
pub open spec fn is_ordering(op: Operator) -> bool {
    op == Operator::LT || op == Operator::GT || op == Operator::LTE || op == Operator::GTE
}

/// The operators `||` and `&&`.
pub open spec fn is_logical(op: Operator) -> bool {
    op == Operator::LogicOr || op == Operator::LogicAnd
}

/// The four increments and decrements.
pub open spec fn is_step(op: Operator) -> bool {
    op == Operator::PreIncrement || op == Operator::PostIncrement || op == Operator::PreDecrement
        || op == Operator::PostDecrement
}

/// `l op r` for an arithmetic operator: the host's result on two numbers;
/// for `+` also two strings or two lists, one after the other. Otherwise the
/// error names the right operand if the left one is a number, else the left
/// one.
pub open spec fn arithmetic(h: HostModel, op: Operator, l: ValueView, r: ValueView) -> Result<
    ValueView,
    RuntimeErrorView,
> {
    match (l, r) {
        (ValueView::Num(a), ValueView::Num(b)) => Ok(ValueView::Num((h.arith)(op, a, b))),
        (ValueView::Num(_), v) => Err(RuntimeErrorView::BadArg(v)),
        (ValueView::Str(a), ValueView::Str(b)) => if op == Operator::Plus {
            Ok(ValueView::Str(a + b))
        } else {
            Err(RuntimeErrorView::BadArg(l))
        },
        (ValueView::List(a), ValueView::List(b)) => if op == Operator::Plus {
            Ok(ValueView::List(a + b))
        } else {
            Err(RuntimeErrorView::BadArg(l))
        },
        (v, _) => Err(RuntimeErrorView::BadArg(v)),
    }
}

/// `l op r` for `==` and `!=`: on two numbers or two booleans.
pub open spec fn equality(op: Operator, l: ValueView, r: ValueView) -> Result<
    ValueView,
    RuntimeErrorView,
> {
    match (l, r) {
        (ValueView::Num(a), ValueView::Num(b)) => Ok(
            ValueView::Bool(a.num_eq(b) == (op == Operator::Eq)),
        ),
        (ValueView::Bool(a), ValueView::Bool(b)) => Ok(
            ValueView::Bool((a == b) == (op == Operator::Eq)),
        ),
        _ => Err(RuntimeErrorView::BadArgs(seq![l, r])),
    }
}

/// Whether `a op b` holds, for `<`, `>`, `<=` and `>=`.
pub open spec fn compares(op: Operator, a: Number, b: Number) -> bool {
    match op {
        Operator::LT => a.num_lt(b),
        Operator::GT => b.num_lt(a),
        Operator::LTE => a.num_le(b),
        _ => b.num_le(a),
    }
}

/// `l op r` for `<`, `>`, `<=` and `>=`: on two numbers.
pub open spec fn ordering(op: Operator, l: ValueView, r: ValueView) -> Result<
    ValueView,
    RuntimeErrorView,
> {
    match (l, r) {
        (ValueView::Num(a), ValueView::Num(b)) => Ok(ValueView::Bool(compares(op, a, b))),
        _ => Err(RuntimeErrorView::BadArgs(seq![l, r])),
    }
}

/// `l op r` for the operators that evaluate both operands first: the
/// arithmetic ones, the equalities and the orderings.
pub open spec fn binary(h: HostModel, op: Operator, l: ValueView, r: ValueView) -> Result<
    ValueView,
    RuntimeErrorView,
> {
    if is_arithmetic(op) {
        arithmetic(h, op, l, r)
    } else if is_equality(op) {
        equality(op, l, r)
    } else {
        ordering(op, l, r)
    }
}

/// The item of a list at an index given as a value: the index must be a
/// number without fractional part, from 0 to the last position.
pub open spec fn indexed(h: HostModel, items: Seq<ValueView>, index: ValueView) -> Result<
    ValueView,
    RuntimeErrorView,
> {
    match index {
        ValueView::Num(n) => if !n.is_integral() {
            Err(RuntimeErrorView::ExpectedInteger((h.show)(n)))
        } else if n.to_i64() < 0 || n.to_i64() >= items.len() {
            Err(RuntimeErrorView::IndexOutOfBounds(n.to_i64()))
        } else {
            Ok(items[n.to_i64() as int])
        },
        v => Err(RuntimeErrorView::ExpectedInteger(value_text(h, v))),
    }
}

/// The name under which a callee is reported: the variable's, or
/// `<lambda>`.
pub open spec fn callee_name(callee: Expr) -> Seq<char> {
    match callee {
        Expr::Var(id) => id@,
        _ => "<lambda>"@,
    }
}

/// The number one.
pub open spec fn one() -> Number {
    Number { bits: ONE_BITS }
}

/// An increment or decrement of a variable: its value must be a number; the
/// variable is assigned that number plus or minus one; the result is the new
/// number for the forms written before the variable, the old one for those
/// written after it.
pub open spec fn step(h: HostModel, state: State, op: Operator, id: Seq<char>) -> ExprOutcome {
    match state.env.lookup(id) {
        None => value_err(RuntimeErrorView::UnknownVariable(id), state),
        Some(ValueView::Num(n)) => {
            let up = op == Operator::PreIncrement || op == Operator::PostIncrement;
            let pre = op == Operator::PreIncrement || op == Operator::PreDecrement;
            let m = (h.arith)(
                if up {
                    Operator::Plus
                } else {
                    Operator::Minus
                },
                n,
                one(),
            );
            match state.env.reassign(id, ValueView::Num(m)) {
                Ok(env) => value_ok(
                    ValueView::Num(
                        if pre {
                            m
                        } else {
                            n
                        },
                    ),
                    State { env, out: state.out },
                ),
                Err(e) => value_err(e, state),
            }
        },
        Some(v) => value_err(RuntimeErrorView::BadArg(v), state),
    }
}

/// What an expression evaluates to.
pub open spec fn eval_expr(h: HostModel, state: State, expr: Expr, fuel: nat) -> ExprOutcome
    decreases fuel, expr, 0nat,
{
    match expr {
        Expr::Nil => value_ok(ValueView::Nil, state),
        Expr::Num(n) => value_ok(ValueView::Num(n), state),
        Expr::Bool(b) => value_ok(ValueView::Bool(b), state),
        Expr::Str(s) => value_ok(ValueView::Str(s@), state),
        Expr::Lambda(params, body) => value_ok(
            ValueView::Proc(names_of(params@), *body, state.env),
            state,
        ),
        Expr::Var(id) => match state.env.lookup(id@) {
            Some(v) => value_ok(v, state),
            None => value_err(RuntimeErrorView::UnknownVariable(id@), state),
        },
        Expr::Binary(op, left, right) => if is_logical(op) {
            let l = eval_expr(h, state, *left, fuel);
            match l.result {
                Ok(ValueView::Bool(a)) => if a == (op == Operator::LogicOr) {
                    value_ok(ValueView::Bool(a), l.state)
                } else {
                    let r = eval_expr(h, l.state, *right, fuel);
                    match r.result {
                        Ok(ValueView::Bool(b)) => value_ok(ValueView::Bool(b), r.state),
                        Ok(v) => value_err(RuntimeErrorView::BadArg(v), r.state),
                        Err(_) => r,
                    }
                },
                Ok(v) => value_err(RuntimeErrorView::BadArg(v), l.state),
                Err(_) => l,
            }
        } else if is_arithmetic(op) || is_equality(op) || is_ordering(op) {
            let l = eval_expr(h, state, *left, fuel);
            match l.result {
                Ok(a) => {
                    let r = eval_expr(h, l.state, *right, fuel);
                    match r.result {
                        Ok(b) => ExprOutcome { result: binary(h, op, a, b), state: r.state },
                        Err(_) => r,
                    }
                },
                Err(_) => l,
            }
        } else {
            value_err(RuntimeErrorView::UnaryAsBinary(op), state)
        },
        Expr::Unary(op, operand) => if is_step(op) {
            match *operand {
                Expr::Var(id) => step(h, state, op, id@),
                _ => value_err(RuntimeErrorView::InvalidAssignmentTarget, state),
            }
        } else if op == Operator::Minus {
            let a = eval_expr(h, state, *operand, fuel);
            match a.result {
                Ok(ValueView::Num(n)) => value_ok(ValueView::Num(n.negate()), a.state),
                Ok(v) => value_err(RuntimeErrorView::BadArg(v), a.state),
                Err(_) => a,
            }
        } else if op == Operator::LogicNot {
            let a = eval_expr(h, state, *operand, fuel);
            match a.result {
                Ok(ValueView::Bool(b)) => value_ok(ValueView::Bool(!b), a.state),
                Ok(v) => value_err(RuntimeErrorView::BadArg(v), a.state),
                Err(_) => a,
            }
        } else {
            value_err(RuntimeErrorView::BinaryAsUnary(op), state)
        },
        Expr::Call(callee, args) => {
            let f = eval_expr(h, state, *callee, fuel);
            match f.result {
                Ok(ValueView::Proc(params, body, captured)) => if args.len() != params.len() {
                    value_err(
                        RuntimeErrorView::ArgMismatch(
                            callee_name(*callee),
                            params.len() as usize,
                            args.len(),
                        ),
                        f.state,
                    )
                } else {
                    let a = eval_list(h, f.state, args@, args@.len(), fuel);
                    match a.result {
                        Ok(values) => if fuel == 0 {
                            value_err(RuntimeErrorView::OutOfFuel, a.state)
                        } else {
                            let frame = State {
                                env: captured.extend(EnvView::frame(params, values)),
                                out: a.state.out,
                            };
                            let b = exec_stmt(h, frame, body, false, (fuel - 1) as nat);
                            ExprOutcome {
                                result: match b.result {
                                    Ok((v, _)) => Ok(v),
                                    Err(e) => Err(e),
                                },
                                state: State { env: a.state.env, out: b.state.out },
                            }
                        },
                        Err(e) => value_err(e, a.state),
                    }
                },
                Ok(v) => value_err(RuntimeErrorView::BadArg(v), f.state),
                Err(_) => f,
            }
        },
        Expr::PrimitiveCall(builtin, args) => match builtin {
            Builtin::Print => {
                let a = eval_list(h, state, args@, args@.len(), fuel);
                match a.result {
                    Ok(values) => value_ok(
                        ValueView::Nil,
                        State { env: a.state.env, out: a.state.out + joined_text(h, values, " "@) },
                    ),
                    Err(e) => value_err(e, a.state),
                }
            },
            Builtin::List => {
                let a = eval_list(h, state, args@, args@.len(), fuel);
                match a.result {
                    Ok(values) => value_ok(ValueView::List(values), a.state),
                    Err(e) => value_err(e, a.state),
                }
            },
            Builtin::IsEmpty => if args.len() != 1 {
                value_err(RuntimeErrorView::ArgMismatch("is_empty"@, 1, args.len()), state)
            } else {
                let a = eval_expr(h, state, args[0], fuel);
                match a.result {
                    Ok(ValueView::List(items)) => value_ok(
                        ValueView::Bool(items.len() == 0),
                        a.state,
                    ),
                    Ok(v) => value_err(RuntimeErrorView::ExpectedList(value_text(h, v)), a.state),
                    Err(_) => a,
                }
            },
            Builtin::IsNil => if args.len() != 1 {
                value_err(RuntimeErrorView::ArgMismatch("is_nil"@, 1, args.len()), state)
            } else {
                let a = eval_expr(h, state, args[0], fuel);
                match a.result {
                    Ok(v) => value_ok(ValueView::Bool(v is Nil), a.state),
                    Err(_) => a,
                }
            },
        },
        Expr::Index(target, index) => {
            let t = eval_expr(h, state, *target, fuel);
            match t.result {
                Ok(ValueView::List(items)) => {
                    let i = eval_expr(h, t.state, *index, fuel);
                    match i.result {
                        Ok(v) => ExprOutcome { result: indexed(h, items, v), state: i.state },
                        Err(_) => i,
                    }
                },
                Ok(v) => value_err(RuntimeErrorView::NotIndexable(value_text(h, v)), t.state),
                Err(_) => t,
            }
        },
    }
}

/// What the first `n` expressions of a list evaluate to, one after the
/// other, up to the first that fails.
pub open spec fn eval_list(h: HostModel, state: State, exprs: Seq<Expr>, n: nat, fuel: nat)
    -> ListOutcome
    decreases fuel, exprs, n,
{
    if n == 0 || n > exprs.len() {
        ListOutcome { result: Ok(Seq::empty()), state }
    } else {
        let before = eval_list(h, state, exprs, (n - 1) as nat, fuel);
        match before.result {
            Ok(values) => {
                let e = eval_expr(h, before.state, exprs[n - 1], fuel);
                match e.result {
                    Ok(v) => ListOutcome { result: Ok(values.push(v)), state: e.state },
                    Err(err) => ListOutcome { result: Err(err), state: e.state },
                }
            },
            Err(_) => before,
        }
    }
}

/// What a statement does.
pub open spec fn exec_stmt(
    h: HostModel,
    state: State,
    stmt: Statement,
    in_loop: bool,
    fuel: nat,
) -> StmtOutcome
    decreases fuel, stmt, 0nat,
{
    match stmt {
        Statement::Expr(e) => {
            let a = eval_expr(h, state, e, fuel);
            match a.result {
                Ok(v) => stmt_ok(v, ControlFlow::Normal, a.state),
                Err(err) => stmt_err(err, a.state),
            }
        },
        Statement::Let(id, e) => {
            let a = eval_expr(h, state, e, fuel);
            match a.result {
                Ok(v) => stmt_ok(
                    ValueView::Nil,
                    ControlFlow::Normal,
                    State {
                        env: a.state.env.declare(id@, v, Mutability::Mutable),
                        out: a.state.out,
                    },
                ),
                Err(err) => stmt_err(err, a.state),
            }
        },
        Statement::Const(id, e) => {
            let a = eval_expr(h, state, e, fuel);
            match a.result {
                Ok(v) => stmt_ok(
                    ValueView::Nil,
                    ControlFlow::Normal,
                    State {
                        env: a.state.env.declare(id@, v, Mutability::Constant),
                        out: a.state.out,
                    },
                ),
                Err(err) => stmt_err(err, a.state),
            }
        },
        Statement::Assign(id, e) => {
            let a = eval_expr(h, state, e, fuel);
            match a.result {
                Ok(v) => match a.state.env.reassign(id@, v) {
                    Ok(env) => stmt_ok(
                        ValueView::Nil,
                        ControlFlow::Normal,
                        State { env, out: a.state.out },
                    ),
                    Err(err) => stmt_err(err, a.state),
                },
                Err(err) => stmt_err(err, a.state),
            }
        },
        Statement::If(cond, then_branch, else_branch) => {
            let c = eval_expr(h, state, cond, fuel);
            match c.result {
                Ok(ValueView::Bool(b)) => if b {
                    exec_stmt(h, c.state, *then_branch, in_loop, fuel)
                } else {
                    match else_branch {
                        Some(s) => exec_stmt(h, c.state, *s, in_loop, fuel),
                        None => stmt_ok(ValueView::Nil, ControlFlow::Normal, c.state),
                    }
                },
                Ok(v) => stmt_err(RuntimeErrorView::BadCondition(v), c.state),
                Err(err) => stmt_err(err, c.state),
            }
        },
        Statement::While(cond, body) => {
            let c = eval_expr(h, state, cond, fuel);
            match c.result {
                Ok(ValueView::Bool(b)) => if b {
                    let r = exec_stmt(h, c.state, *body, true, fuel);
                    match r.result {
                        Ok((v, ControlFlow::Return)) => stmt_ok(v, ControlFlow::Return, r.state),
                        Ok((_, ControlFlow::Break)) => stmt_ok(
                            ValueView::Nil,
                            ControlFlow::Normal,
                            r.state,
                        ),
                        Ok(_) => if fuel == 0 {
                            stmt_err(RuntimeErrorView::OutOfFuel, r.state)
                        } else {
                            exec_stmt(h, r.state, stmt, in_loop, (fuel - 1) as nat)
                        },
                        Err(_) => r,
                    }
                } else {
                    stmt_ok(ValueView::Nil, ControlFlow::Normal, c.state)
                },
                Ok(v) => stmt_err(RuntimeErrorView::BadCondition(v), c.state),
                Err(err) => stmt_err(err, c.state),
            }
        },
        Statement::Return(value) => match value {
            Some(e) => {
                let a = eval_expr(h, state, e, fuel);
                match a.result {
                    Ok(v) => stmt_ok(v, ControlFlow::Return, a.state),
                    Err(err) => stmt_err(err, a.state),
                }
            },
            None => stmt_ok(ValueView::Nil, ControlFlow::Return, state),
        },
        Statement::Break => stmt_ok(ValueView::Nil, ControlFlow::Break, state),
        Statement::Continue => stmt_ok(ValueView::Nil, ControlFlow::Continue, state),
        Statement::Block(stmts) => {
            let inner = exec_sequence(h, state, stmts@, stmts@.len(), in_loop, fuel);
            let merged = State { env: state.env.merge(inner.state.env), out: inner.state.out };
            let aborted = State { env: state.env, out: inner.state.out };
            match inner.result {
                Ok((v, ControlFlow::Break)) => if in_loop {
                    stmt_ok(v, ControlFlow::Break, merged)
                } else {
                    stmt_err(RuntimeErrorView::BreakNotInLoop, aborted)
                },
                Ok((v, ControlFlow::Continue)) => if in_loop {
                    stmt_ok(v, ControlFlow::Continue, merged)
                } else {
                    stmt_err(RuntimeErrorView::ContinueNotInLoop, aborted)
                },
                Ok((v, flow)) => stmt_ok(v, flow, merged),
                Err(err) => stmt_err(err, aborted),
            }
        },
    }
}

/// What the first `n` statements of a sequence do in a scope of their own,
/// one after the other, up to the first that fails or does not end
/// normally. The value is that of the last statement that ran, `Nil` if none
/// did.
pub open spec fn exec_sequence(
    h: HostModel,
    state: State,
    stmts: Seq<Statement>,
    n: nat,
    in_loop: bool,
    fuel: nat,
) -> StmtOutcome
    decreases fuel, stmts, n,
{
    if n == 0 || n > stmts.len() {
        stmt_ok(ValueView::Nil, ControlFlow::Normal, state)
    } else {
        let before = exec_sequence(h, state, stmts, (n - 1) as nat, in_loop, fuel);
        match before.result {
            Ok((_, ControlFlow::Normal)) => exec_stmt(
                h,
                before.state,
                stmts[n - 1],
                in_loop,
                fuel,
            ),
            _ => before,
        }
    }
}

/// A list evaluation that has failed stays failed, however many more
/// expressions are asked for.
pub proof fn lemma_list_failure_is_final(
    h: HostModel,
    state: State,
    exprs: Seq<Expr>,
    i: nat,
    n: nat,
    fuel: nat,
)
    requires
        i <= n <= exprs.len(),
        eval_list(h, state, exprs, i, fuel).result is Err,
    ensures
        eval_list(h, state, exprs, n, fuel) == eval_list(h, state, exprs, i, fuel),
    decreases n,
{
    if i < n {
        lemma_list_failure_is_final(h, state, exprs, i, (n - 1) as nat, fuel);
    }
}

/// A sequence that has failed, or has left its normal course, stays as it
/// is, however many more statements are asked for.
pub proof fn lemma_sequence_end_is_final(
    h: HostModel,
    state: State,
    stmts: Seq<Statement>,
    i: nat,
    n: nat,
    in_loop: bool,
    fuel: nat,
)
    requires
        i <= n <= stmts.len(),
        !(exec_sequence(h, state, stmts, i, in_loop, fuel).result matches Ok(
            (_, ControlFlow::Normal),
        )),
    ensures
        exec_sequence(h, state, stmts, n, in_loop, fuel) == exec_sequence(
            h,
            state,
            stmts,
            i,
            in_loop,
            fuel,
        ),
    decreases n,
{
    if i < n {
        lemma_sequence_end_is_final(h, state, stmts, i, (n - 1) as nat, in_loop, fuel);
    }
}

/// What a program evaluates to and what it prints after `out`: its entry
/// statement runs outside any loop, in the environment of its procedures.
pub open spec fn run_program(h: HostModel, program: Program, out: Seq<char>, fuel: nat) -> (
    Result<ValueView, RuntimeErrorView>,
    Seq<char>,
) {
    let r = exec_stmt(
        h,
        State { env: EnvView::root(program.procedures@), out },
        program.main,
        false,
        fuel,
    );
    (
        match r.result {
            Ok((v, _)) => Ok(v),
            Err(e) => Err(e),
        },
        r.state.out,
    )
}

} // verus!
