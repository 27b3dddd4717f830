//! The evaluator: runs statements and expressions in an environment.
//!
//! Each function returns and leaves behind exactly what the functions of
//! `semantics` say. Numbers are computed and written by a [`Host`]; what a
//! program prints is appended to a text that the caller hands in; `fuel`
//! bounds the nesting of calls and the rounds of a loop, so that every
//! evaluation ends. The depth to which calls of the program nest is the depth
//! to which the evaluator's own calls nest: a caller with a small stack gives
//! little fuel.

use vstd::prelude::*;
use vstd::string::StringExecFns;
use crate::ast::{names_of, Builtin, Expr, Program, Statement};
use crate::environment::{BindingView, EnvView, Environment};
use crate::error::{RuntimeError, RuntimeErrorView};
use crate::host::Host;
use crate::number::Number;
use crate::semantics::{
    binary, callee_name, eval_expr, eval_list, exec_sequence, exec_stmt, indexed, is_arithmetic,
    is_equality, is_ordering, joined_text, lemma_list_failure_is_final,
    lemma_sequence_end_is_final, run_program, step, value_text, ExprOutcome, ListOutcome, State,
    StmtOutcome,
};
use crate::tokenizer::Operator;

verus! {

/// A value of the language. A procedure is its parameters and its body,
/// both borrowed from the program, and the environment in which it was
/// made.
#[derive(Debug)]
pub enum Value<'a> {
    Num(Number),
    Bool(bool),
    Str(String),
    Proc(&'a Vec<String>, &'a Statement, Environment<'a>),
    List(Vec<Value<'a>>),
    Nil,
}

/// What the execution of a statement asks of the statements around it.
#[derive(Clone, Copy, PartialEq, Eq, Debug, Structural)]
pub enum ControlFlow {
    Return,
    Normal,
    Break,
    Continue,
}

/// What a value is, mathematically.
pub enum ValueView {
    Num(Number),
    Bool(bool),
    Str(Seq<char>),
    Proc(Seq<Seq<char>>, Statement, EnvView),
    List(Seq<ValueView>),
    Nil,
}

/// What a value is, mathematically: strings and lists as sequences, a
/// procedure with the names of its parameters, its body and the view of the
/// environment that it holds.
pub open spec fn value_view(v: Value) -> ValueView
    decreases v,
{
    match v {
        Value::Num(n) => ValueView::Num(n),
        Value::Bool(b) => ValueView::Bool(b),
        Value::Str(s) => ValueView::Str(s@),
        Value::Proc(params, body, env) => ValueView::Proc(names_of(params@), *body, env_view(env)),
        Value::List(items) => ValueView::List(
            Seq::new(
                items.len() as nat,
                |i: int|
                    if 0 <= i < items.len() {
                        value_view(items[i])
                    } else {
                        ValueView::Nil
                    },
            ),
        ),
        Value::Nil => ValueView::Nil,
    }
}

/// What an environment is, mathematically: the procedures of the program
/// and the views of its bindings, oldest first.
pub open spec fn env_view(env: Environment) -> EnvView
    decreases env,
{
    EnvView {
        procedures: env.procedures@,
        bindings: Seq::new(
            env.bindings.len() as nat,
            |i: int|
                BindingView {
                    name: env.bindings[i].name@,
                    value: if 0 <= i < env.bindings.len() {
                        value_view(env.bindings[i].value)
                    } else {
                        ValueView::Nil
                    },
                    mutability: env.bindings[i].mutability,
                },
        ),
    }
}

impl<'a> View for Value<'a> {
    type V = ValueView;

    open spec fn view(&self) -> ValueView {
        value_view(*self)
    }
}

/// A copy of a value, independent of it.
pub fn duplicate_value<'a>(v: &Value<'a>) -> (r: Value<'a>)
    ensures
        r@ == v@,
    decreases v,
{
    match v {
        Value::Num(n) => Value::Num(*n),
        Value::Bool(b) => Value::Bool(*b),
        Value::Str(s) => Value::Str(s.clone()),
        Value::Proc(params, body, env) => Value::Proc(*params, *body, env.duplicate()),
        Value::List(items) => {
            let copies = duplicate_values(items);
            proof {
                lemma_list_view(copies@);
                lemma_list_view(items@);
            }
            Value::List(copies)
        },
        Value::Nil => Value::Nil,
    }
}

/// The view of a list is the list of the views of its items.
pub proof fn lemma_list_view(items: Seq<Value>)
    ensures
        forall|v: Vec<Value>| v@ == items ==> #[trigger] value_view(Value::List(v)) == ValueView::List(values_view(items)),
{
    assert forall|v: Vec<Value>| v@ == items implies #[trigger] value_view(Value::List(v))
        == ValueView::List(values_view(items)) by {
        assert(value_view(Value::List(v))->List_0 =~= values_view(items));
    }
}

/// The views of a list of values.
pub open spec fn values_view(items: Seq<Value>) -> Seq<ValueView> {
    Seq::new(items.len(), |i: int| value_view(items[i]))
}

/// A copy of a list of values.
pub fn duplicate_values<'a>(items: &Vec<Value<'a>>) -> (r: Vec<Value<'a>>)
    ensures
        values_view(r@) == values_view(items@),
    decreases items,
{
    let mut out: Vec<Value<'a>> = Vec::new();
    let mut i: usize = 0;
    while i < items.len()
        invariant
            i <= items.len(),
            out.len() == i,
            forall|k: int| 0 <= k < i ==> (#[trigger] out[k])@ == items[k]@,
        decreases items.len() - i,
    {
        let c = duplicate_value(&items[i]);
        out.push(c);
        i += 1;
    }
    assert(values_view(out@) =~= values_view(items@));
    out
}

impl<'a> Value<'a> {
    /// A copy of this value, independent of it.
    pub fn duplicate(&self) -> (r: Value<'a>)
        ensures
            r@ == self@,
    {
        duplicate_value(self)
    }

    /// The text of this value, as `print` writes it.
    pub fn text<A, S>(&self, host: &Host<A, S>) -> (r: String) where
        A: Fn(Operator, Number, Number) -> Number,
        S: Fn(Number) -> String,

        requires
            host.deterministic(),
        ensures
            r@ == value_text(host.model(), self@),
        decreases self,
    {
        match self {
            Value::Num(n) => host.format(*n),
            Value::Bool(b) => if *b {
                "true".to_owned()
            } else {
                "false".to_owned()
            },
            Value::Str(s) => s.clone(),
            Value::Proc(_, _, _) => "<lambda>".to_owned(),
            Value::List(items) => {
                let mut r = "[".to_owned();
                let inner = join_texts(items, ", ", host);
                r.append(inner.as_str());
                r.append("]");
                proof {
                    lemma_list_view(items@);
                }
                r
            },
            Value::Nil => "nil".to_owned(),
        }
    }
}

/// The texts of the values, with the separator between two.
pub fn join_texts<'a, A, S>(items: &Vec<Value<'a>>, sep: &str, host: &Host<A, S>) -> (r: String) where
    A: Fn(Operator, Number, Number) -> Number,
    S: Fn(Number) -> String,

    requires
        host.deterministic(),
    ensures
        r@ == joined_text(host.model(), values_view(items@), sep@),
    decreases items,
{
    let mut r = String::new();
    let mut i: usize = 0;
    let ghost all = values_view(items@);
    while i < items.len()
        invariant
            i <= items.len(),
            host.deterministic(),
            all == values_view(items@),
            r@ == joined_text(host.model(), all.take(i as int), sep@),
        decreases items.len() - i,
    {
        if i > 0 {
            r.append(sep);
        }
        let t = items[i].text(host);
        r.append(t.as_str());
        proof {
            let next = all.take(i + 1);
            assert(next.drop_last() =~= all.take(i as int));
            assert(next.last() == items[i as int]@);
            if i == 0 {
                assert(r@ =~= t@);
            }
        }
        i += 1;
    }
    assert(all.take(i as int) =~= all);
    r
}

/// `l op r` for the operators that look at both operands: the arithmetic
/// ones, the equalities and the orderings.
pub fn apply_binary<'a, A, S>(
    host: &Host<A, S>,
    op: Operator,
    l: Value<'a>,
    r: Value<'a>,
) -> (res: Result<Value<'a>, RuntimeError<'a>>) where
    A: Fn(Operator, Number, Number) -> Number,
    S: Fn(Number) -> String,

    requires
        host.deterministic(),
        is_arithmetic(op) || is_equality(op) || is_ordering(op),
    ensures
        match res {
            Ok(v) => binary(host.model(), op, l@, r@) == Ok::<ValueView, RuntimeErrorView>(v@),
            Err(e) => binary(host.model(), op, l@, r@) == Err::<ValueView, RuntimeErrorView>(e@),
        },
{
    match op {
        Operator::Plus | Operator::Minus | Operator::Times | Operator::Div | Operator::Mod => {
            match (l, r) {
                (Value::Num(a), Value::Num(b)) => Ok(Value::Num(host.compute(op, a, b))),
                (Value::Num(_), v) => Err(RuntimeError::BadArg(v)),
                (Value::Str(a), Value::Str(b)) => match op {
                    Operator::Plus => Ok(Value::Str(a.concat(b.as_str()))),
                    _ => Err(RuntimeError::BadArg(Value::Str(a))),
                },
                (Value::List(a), Value::List(b)) => match op {
                    Operator::Plus => {
                        let mut a = a;
                        let mut b = b;
                        proof {
                            lemma_list_view(a@);
                            lemma_list_view(b@);
                            lemma_list_view(a@ + b@);
                            assert(values_view(a@ + b@) =~= values_view(a@) + values_view(b@));
                        }
                        a.append(&mut b);
                        Ok(Value::List(a))
                    },
                    _ => Err(RuntimeError::BadArg(Value::List(a))),
                },
                (v, _) => Err(RuntimeError::BadArg(v)),
            }
        },
        Operator::Eq | Operator::Ne => {
            let want = match op {
                Operator::Eq => true,
                _ => false,
            };
            match (l, r) {
                (Value::Num(a), Value::Num(b)) => Ok(Value::Bool(a.num_eq(b) == want)),
                (Value::Bool(a), Value::Bool(b)) => Ok(Value::Bool((a == b) == want)),
                (l, r) => Err(bad_pair(l, r)),
            }
        },
        _ => match (l, r) {
            (Value::Num(a), Value::Num(b)) => Ok(
                Value::Bool(
                    match op {
                        Operator::LT => a.num_lt(b),
                        Operator::GT => b.num_lt(a),
                        Operator::LTE => a.num_le(b),
                        _ => b.num_le(a),
                    },
                ),
            ),
            (l, r) => Err(bad_pair(l, r)),
        },
    }
}

/// The error that reports two operands together.
fn bad_pair<'a>(l: Value<'a>, r: Value<'a>) -> (e: RuntimeError<'a>)
    ensures
        e@ == RuntimeErrorView::BadArgs(seq![l@, r@]),
{
    let mut both: Vec<Value<'a>> = Vec::new();
    both.push(l);
    both.push(r);
    let e = RuntimeError::BadArgs(both);
    assert(e@->BadArgs_0 =~= seq![l@, r@]);
    e
}

/// The item of a list at an index given as a value: a copy of it, if the
/// index is a number without fractional part from 0 to the last position.
pub fn index_list<'a, A, S>(
    host: &Host<A, S>,
    items: &Vec<Value<'a>>,
    index: &Value<'a>,
) -> (res: Result<Value<'a>, RuntimeError<'a>>) where
    A: Fn(Operator, Number, Number) -> Number,
    S: Fn(Number) -> String,

    requires
        host.deterministic(),
    ensures
        match res {
            Ok(v) => indexed(host.model(), values_view(items@), index@) == Ok::<
                ValueView,
                RuntimeErrorView,
            >(v@),
            Err(e) => indexed(host.model(), values_view(items@), index@) == Err::<
                ValueView,
                RuntimeErrorView,
            >(e@),
        },
{
    match index {
        Value::Num(n) => {
            if !n.is_integral() {
                return Err(RuntimeError::ExpectedInteger(host.format(*n)));
            }
            let i: i64 = n.to_i64();
            if i < 0 || i as u64 >= items.len() as u64 {
                return Err(RuntimeError::IndexOutOfBounds(i));
            }
            Ok(duplicate_value(&items[i as usize]))
        },
        v => Err(RuntimeError::ExpectedInteger(v.text(host))),
    }
}

/// Whether what an evaluation returned and left behind is the given
/// outcome.
pub open spec fn expr_agrees(
    r: Result<Value, RuntimeError>,
    env: EnvView,
    out: Seq<char>,
    o: ExprOutcome,
) -> bool {
    &&& o.state == State { env, out }
    &&& match r {
        Ok(v) => o.result == Ok::<ValueView, RuntimeErrorView>(v@),
        Err(e) => o.result == Err::<ValueView, RuntimeErrorView>(e@),
    }
}

/// Whether what an evaluation of a list returned and left behind is the
/// given outcome.
pub open spec fn list_agrees(
    r: Result<Vec<Value>, RuntimeError>,
    env: EnvView,
    out: Seq<char>,
    o: ListOutcome,
) -> bool {
    &&& o.state == State { env, out }
    &&& match r {
        Ok(vs) => o.result == Ok::<Seq<ValueView>, RuntimeErrorView>(values_view(vs@)),
        Err(e) => o.result == Err::<Seq<ValueView>, RuntimeErrorView>(e@),
    }
}

/// Whether what an execution returned and left behind is the given outcome.
pub open spec fn stmt_agrees(
    r: Result<(Value, ControlFlow), RuntimeError>,
    env: EnvView,
    out: Seq<char>,
    o: StmtOutcome,
) -> bool {
    &&& o.state == State { env, out }
    &&& match r {
        Ok((v, flow)) => o.result == Ok::<(ValueView, ControlFlow), RuntimeErrorView>((v@, flow)),
        Err(e) => o.result == Err::<(ValueView, ControlFlow), RuntimeErrorView>(e@),
    }
}

/// An increment or decrement of the variable `id`: the variable must hold a
/// number and be mutable; it is assigned that number plus or minus one. The
/// result is the new number for the forms written before the variable, the
/// old one for those written after it.
pub fn step_variable<'a, A, S>(
    env: &mut Environment<'a>,
    op: Operator,
    id: &String,
    host: &Host<A, S>,
) -> (r: Result<Value<'a>, RuntimeError<'a>>) where
    A: Fn(Operator, Number, Number) -> Number,
    S: Fn(Number) -> String,

    requires
        host.deterministic(),
    ensures
        forall|out: Seq<char>|
            expr_agrees(
                r,
                final(env)@,
                out,
                #[trigger] step(host.model(), State { env: old(env)@, out }, op, id@),
            ),
{
    let n = match env.get(id) {
        Ok(Value::Num(n)) => n,
        Ok(v) => {
            return Err(RuntimeError::BadArg(v));
        },
        Err(e) => {
            return Err(e);
        },
    };
    let up = match op {
        Operator::PreIncrement | Operator::PostIncrement => true,
        _ => false,
    };
    let pre = match op {
        Operator::PreIncrement | Operator::PreDecrement => true,
        _ => false,
    };
    let m = host.compute(
        if up {
            Operator::Plus
        } else {
            Operator::Minus
        },
        n,
        Number::one(),
    );
    match env.reassign(id, Value::Num(m)) {
        Ok(()) => Ok(
            Value::Num(
                if pre {
                    m
                } else {
                    n
                },
            ),
        ),
        Err(e) => Err(e),
    }
}

/// The name under which a callee is reported.
fn name_of_callee(callee: &Expr) -> (r: String)
    ensures
        r@ == callee_name(*callee),
{
    match callee {
        Expr::Var(id) => id.clone(),
        _ => "<lambda>".to_owned(),
    }
}

/// Evaluates an expression in `env`, appending to `out` what it prints.
///
/// The value or error, the environment and the output are those of
/// [`eval_expr`].
#[verifier::loop_isolation(false)]
pub fn interp_expression<'a, A, S>(
    env: &mut Environment<'a>,
    expr: &'a Expr,
    host: &Host<A, S>,
    out: &mut String,
    fuel: u64,
) -> (r: Result<Value<'a>, RuntimeError<'a>>) where
    A: Fn(Operator, Number, Number) -> Number,
    S: Fn(Number) -> String,

    requires
        host.deterministic(),
    ensures
        expr_agrees(
            r,
            final(env)@,
            final(out)@,
            eval_expr(host.model(), State { env: old(env)@, out: old(out)@ }, *expr, fuel as nat),
        ),
    decreases fuel, expr, 0nat,
{
    let ghost h = host.model();
    match expr {
        Expr::Nil => Ok(Value::Nil),
        Expr::Num(n) => Ok(Value::Num(*n)),
        Expr::Bool(b) => Ok(Value::Bool(*b)),
        Expr::Str(s) => Ok(Value::Str(s.clone())),
        Expr::Lambda(params, body) => Ok(Value::Proc(params, &**body, env.duplicate())),
        Expr::Var(id) => env.get(id),
        Expr::Binary(op, left, right) => match op {
            Operator::LogicOr | Operator::LogicAnd => {
                let decided = match op {
                    Operator::LogicOr => true,
                    _ => false,
                };
                match interp_expression(env, &**left, host, out, fuel) {
                    Ok(Value::Bool(a)) => if a == decided {
                        Ok(Value::Bool(a))
                    } else {
                        match interp_expression(env, &**right, host, out, fuel) {
                            Ok(Value::Bool(b)) => Ok(Value::Bool(b)),
                            Ok(v) => Err(RuntimeError::BadArg(v)),
                            Err(e) => Err(e),
                        }
                    },
                    Ok(v) => Err(RuntimeError::BadArg(v)),
                    Err(e) => Err(e),
                }
            },
            Operator::LogicNot
            | Operator::PreIncrement
            | Operator::PostIncrement
            | Operator::PreDecrement
            | Operator::PostDecrement => Err(RuntimeError::UnaryAsBinary(*op)),
            _ => {
                let l = match interp_expression(env, &**left, host, out, fuel) {
                    Ok(v) => v,
                    Err(e) => {
                        return Err(e);
                    },
                };
                let r = match interp_expression(env, &**right, host, out, fuel) {
                    Ok(v) => v,
                    Err(e) => {
                        return Err(e);
                    },
                };
                apply_binary(host, *op, l, r)
            },
        },
        Expr::Unary(op, operand) => match op {
            Operator::PreIncrement
            | Operator::PostIncrement
            | Operator::PreDecrement
            | Operator::PostDecrement => match &**operand {
                Expr::Var(id) => step_variable(env, *op, id, host),
                _ => Err(RuntimeError::InvalidAssignmentTarget),
            },
            Operator::Minus => match interp_expression(env, &**operand, host, out, fuel) {
                Ok(Value::Num(n)) => Ok(Value::Num(n.negate())),
                Ok(v) => Err(RuntimeError::BadArg(v)),
                Err(e) => Err(e),
            },
            Operator::LogicNot => match interp_expression(env, &**operand, host, out, fuel) {
                Ok(Value::Bool(b)) => Ok(Value::Bool(!b)),
                Ok(v) => Err(RuntimeError::BadArg(v)),
                Err(e) => Err(e),
            },
            _ => Err(RuntimeError::BinaryAsUnary(*op)),
        },
        Expr::Call(callee, args) => {
            let f = match interp_expression(env, &**callee, host, out, fuel) {
                Ok(v) => v,
                Err(e) => {
                    return Err(e);
                },
            };
            let ghost called = State { env: env@, out: out@ };
            match f {
                Value::Proc(params, body, captured) => {
                    if args.len() != params.len() {
                        return Err(
                            RuntimeError::ArgMismatch(
                                name_of_callee(&**callee),
                                params.len(),
                                args.len(),
                            ),
                        );
                    }
                    let ghost names = names_of(params@);
                    let ghost closed = captured@;
                    let mut frame = captured;
                    let mut i: usize = 0;
                    let ghost values: Seq<ValueView> = Seq::empty();
                    assert(frame@.bindings =~= closed.extend(
                        EnvView::frame(names.take(0), values),
                    ).bindings);
                    while i < args.len()
                        invariant
                            i <= args.len(),
                            args.len() == params.len(),
                            host.deterministic(),
                            h == host.model(),
                            names == names_of(params@),
                            values.len() == i,
                            eval_list(h, called, args@, i as nat, fuel as nat) == (ListOutcome {
                                result: Ok(values),
                                state: State { env: env@, out: out@ },
                            }),
                            frame@ == closed.extend(EnvView::frame(names.take(i as int), values)),
                            *expr == Expr::Call(*callee, *args),
                        decreases args.len() - i,
                    {
                        match interp_expression(env, &args[i], host, out, fuel) {
                            Ok(v) => {
                                frame.insert_new_constant_value(&params[i], v);
                                proof {
                                    let longer = values.push(v@);
                                    assert(frame@.bindings =~= closed.extend(
                                        EnvView::frame(names.take(i + 1), longer),
                                    ).bindings);
                                    values = longer;
                                }
                            },
                            Err(e) => {
                                proof {
                                    lemma_list_failure_is_final(
                                        h,
                                        called,
                                        args@,
                                        (i + 1) as nat,
                                        args@.len(),
                                        fuel as nat,
                                    );
                                }
                                return Err(e);
                            },
                        }
                        i += 1;
                    }
                    assert(names.take(i as int) =~= names);
                    if fuel == 0 {
                        return Err(RuntimeError::OutOfFuel);
                    }
                    match interp_statement(&mut frame, body, false, host, out, fuel - 1) {
                        Ok((v, _)) => Ok(v),
                        Err(e) => Err(e),
                    }
                },
                v => Err(RuntimeError::BadArg(v)),
            }
        },
        Expr::PrimitiveCall(builtin, args) => match builtin {
            Builtin::Print => match interp_list(env, args, host, out, fuel) {
                Ok(values) => {
                    let text = join_texts(&values, " ", host);
                    out.append(text.as_str());
                    Ok(Value::Nil)
                },
                Err(e) => Err(e),
            },
            Builtin::List => match interp_list(env, args, host, out, fuel) {
                Ok(values) => {
                    proof {
                        lemma_list_view(values@);
                    }
                    Ok(Value::List(values))
                },
                Err(e) => Err(e),
            },
            Builtin::IsEmpty => {
                if args.len() != 1 {
                    return Err(RuntimeError::ArgMismatch("is_empty".to_owned(), 1, args.len()));
                }
                match interp_expression(env, &args[0], host, out, fuel) {
                    Ok(Value::List(items)) => {
                        proof {
                            lemma_list_view(items@);
                        }
                        Ok(Value::Bool(items.len() == 0))
                    },
                    Ok(v) => Err(RuntimeError::ExpectedList(v.text(host))),
                    Err(e) => Err(e),
                }
            },
            Builtin::IsNil => {
                if args.len() != 1 {
                    return Err(RuntimeError::ArgMismatch("is_nil".to_owned(), 1, args.len()));
                }
                match interp_expression(env, &args[0], host, out, fuel) {
                    Ok(Value::Nil) => Ok(Value::Bool(true)),
                    Ok(_) => Ok(Value::Bool(false)),
                    Err(e) => Err(e),
                }
            },
        },
        Expr::Index(target, index) => match interp_expression(env, &**target, host, out, fuel) {
            Ok(Value::List(items)) => {
                proof {
                    lemma_list_view(items@);
                }
                match interp_expression(env, &**index, host, out, fuel) {
                    Ok(i) => index_list(host, &items, &i),
                    Err(e) => Err(e),
                }
            },
            Ok(v) => Err(RuntimeError::NotIndexable(v.text(host))),
            Err(e) => Err(e),
        },
    }
}

/// Evaluates the expressions of a list in `env`, one after the other,
/// appending to `out` what they print.
#[verifier::loop_isolation(false)]
pub fn interp_list<'a, A, S>(
    env: &mut Environment<'a>,
    exprs: &'a Vec<Expr>,
    host: &Host<A, S>,
    out: &mut String,
    fuel: u64,
) -> (r: Result<Vec<Value<'a>>, RuntimeError<'a>>) where
    A: Fn(Operator, Number, Number) -> Number,
    S: Fn(Number) -> String,

    requires
        host.deterministic(),
    ensures
        list_agrees(
            r,
            final(env)@,
            final(out)@,
            eval_list(
                host.model(),
                State { env: old(env)@, out: old(out)@ },
                exprs@,
                exprs@.len(),
                fuel as nat,
            ),
        ),
    decreases fuel, exprs@, exprs@.len(),
{
    let ghost h = host.model();
    let ghost start = State { env: old(env)@, out: old(out)@ };
    let mut values: Vec<Value<'a>> = Vec::new();
    let mut i: usize = 0;
    assert(values_view(values@) =~= Seq::empty());
    while i < exprs.len()
        invariant
            i <= exprs.len(),
            host.deterministic(),
            h == host.model(),
            eval_list(h, start, exprs@, i as nat, fuel as nat) == (ListOutcome {
                result: Ok(values_view(values@)),
                state: State { env: env@, out: out@ },
            }),
        decreases exprs.len() - i,
    {
        match interp_expression(env, &exprs[i], host, out, fuel) {
            Ok(v) => {
                let ghost before = values_view(values@);
                values.push(v);
                assert(values_view(values@) =~= before.push(v@));
            },
            Err(e) => {
                proof {
                    lemma_list_failure_is_final(
                        h,
                        start,
                        exprs@,
                        (i + 1) as nat,
                        exprs@.len(),
                        fuel as nat,
                    );
                }
                return Err(e);
            },
        }
        i += 1;
    }
    Ok(values)
}

/// Executes a statement in `env`, appending to `out` what it prints.
/// `in_loop` says whether the statement stands inside a loop.
///
/// The value and the way the statement ends, or the error, and the
/// environment and the output are those of [`exec_stmt`].
#[verifier::loop_isolation(false)]
pub fn interp_statement<'a, A, S>(
    env: &mut Environment<'a>,
    statement: &'a Statement,
    in_loop: bool,
    host: &Host<A, S>,
    out: &mut String,
    fuel: u64,
) -> (r: Result<(Value<'a>, ControlFlow), RuntimeError<'a>>) where
    A: Fn(Operator, Number, Number) -> Number,
    S: Fn(Number) -> String,

    requires
        host.deterministic(),
    ensures
        stmt_agrees(
            r,
            final(env)@,
            final(out)@,
            exec_stmt(
                host.model(),
                State { env: old(env)@, out: old(out)@ },
                *statement,
                in_loop,
                fuel as nat,
            ),
        ),
    decreases fuel, statement, 0nat,
{
    let ghost h = host.model();
    let ghost start = State { env: old(env)@, out: old(out)@ };
    match statement {
        Statement::Expr(e) => match interp_expression(env, e, host, out, fuel) {
            Ok(v) => Ok((v, ControlFlow::Normal)),
            Err(e) => Err(e),
        },
        Statement::Let(id, e) => match interp_expression(env, e, host, out, fuel) {
            Ok(v) => {
                env.insert_new_mutable_value(id, v);
                Ok((Value::Nil, ControlFlow::Normal))
            },
            Err(e) => Err(e),
        },
        Statement::Const(id, e) => match interp_expression(env, e, host, out, fuel) {
            Ok(v) => {
                env.insert_new_constant_value(id, v);
                Ok((Value::Nil, ControlFlow::Normal))
            },
            Err(e) => Err(e),
        },
        Statement::Assign(id, e) => match interp_expression(env, e, host, out, fuel) {
            Ok(v) => match env.reassign(id, v) {
                Ok(()) => Ok((Value::Nil, ControlFlow::Normal)),
                Err(e) => Err(e),
            },
            Err(e) => Err(e),
        },
        Statement::If(cond, then_branch, else_branch) => match interp_expression(
            env,
            cond,
            host,
            out,
            fuel,
        ) {
            Ok(Value::Bool(b)) => if b {
                interp_statement(env, &**then_branch, in_loop, host, out, fuel)
            } else {
                match else_branch {
                    Some(s) => interp_statement(env, &**s, in_loop, host, out, fuel),
                    None => Ok((Value::Nil, ControlFlow::Normal)),
                }
            },
            Ok(v) => Err(RuntimeError::BadCondition(v)),
            Err(e) => Err(e),
        },
        Statement::While(cond, body) => {
            let mut left: u64 = fuel;
            loop
                invariant
                    host.deterministic(),
                    h == host.model(),
                    left <= fuel,
                    *statement == Statement::While(*cond, *body),
                    exec_stmt(h, start, *statement, in_loop, fuel as nat) == exec_stmt(
                        h,
                        State { env: env@, out: out@ },
                        *statement,
                        in_loop,
                        left as nat,
                    ),
                decreases left,
            {
                match interp_expression(env, cond, host, out, left) {
                    Ok(Value::Bool(b)) => {
                        if !b {
                            return Ok((Value::Nil, ControlFlow::Normal));
                        }
                    },
                    Ok(v) => {
                        return Err(RuntimeError::BadCondition(v));
                    },
                    Err(e) => {
                        return Err(e);
                    },
                }
                match interp_statement(env, &**body, true, host, out, left) {
                    Ok((v, ControlFlow::Return)) => {
                        return Ok((v, ControlFlow::Return));
                    },
                    Ok((_, ControlFlow::Break)) => {
                        return Ok((Value::Nil, ControlFlow::Normal));
                    },
                    Ok(_) => {},
                    Err(e) => {
                        return Err(e);
                    },
                }
                if left == 0 {
                    return Err(RuntimeError::OutOfFuel);
                }
                left -= 1;
            }
        },
        Statement::Return(value) => match value {
            Some(e) => match interp_expression(env, e, host, out, fuel) {
                Ok(v) => Ok((v, ControlFlow::Return)),
                Err(e) => Err(e),
            },
            None => Ok((Value::Nil, ControlFlow::Return)),
        },
        Statement::Break => Ok((Value::Nil, ControlFlow::Break)),
        Statement::Continue => Ok((Value::Nil, ControlFlow::Continue)),
        Statement::Block(stmts) => {
            let mut scope = env.duplicate();
            let mut value = Value::Nil;
            let mut i: usize = 0;
            while i < stmts.len()
                invariant
                    i <= stmts.len(),
                    host.deterministic(),
                    h == host.model(),
                    env@ == start.env,
                    *statement == Statement::Block(*stmts),
                    exec_sequence(h, start, stmts@, i as nat, in_loop, fuel as nat) == (
                    StmtOutcome {
                        result: Ok((value@, ControlFlow::Normal)),
                        state: State { env: scope@, out: out@ },
                    }),
                decreases stmts.len() - i,
            {
                let step = interp_statement(&mut scope, &stmts[i], in_loop, host, out, fuel);
                proof {
                    match step {
                        Ok((_, ControlFlow::Normal)) => {},
                        _ => {
                            lemma_sequence_end_is_final(
                                h,
                                start,
                                stmts@,
                                (i + 1) as nat,
                                stmts@.len(),
                                in_loop,
                                fuel as nat,
                            );
                        },
                    }
                }
                match step {
                    Ok((v, ControlFlow::Normal)) => {
                        value = v;
                    },
                    Ok((v, ControlFlow::Return)) => {
                        env.update_reassigned_entries(&scope);
                        return Ok((v, ControlFlow::Return));
                    },
                    Ok((v, ControlFlow::Break)) => {
                        if in_loop {
                            env.update_reassigned_entries(&scope);
                            return Ok((v, ControlFlow::Break));
                        } else {
                            return Err(RuntimeError::BreakNotInLoop);
                        }
                    },
                    Ok((v, ControlFlow::Continue)) => {
                        if in_loop {
                            env.update_reassigned_entries(&scope);
                            return Ok((v, ControlFlow::Continue));
                        } else {
                            return Err(RuntimeError::ContinueNotInLoop);
                        }
                    },
                    Err(e) => {
                        return Err(e);
                    },
                }
                i += 1;
            }
            env.update_reassigned_entries(&scope);
            Ok((value, ControlFlow::Normal))
        },
    }
}

/// Runs a program: its entry statement, outside any loop, in the
/// environment of its procedures. What it prints is appended to `out`, also
/// where it fails. The value is that with which the entry statement ends,
/// however it ends.
///
/// With more fuel than a program needs, the result is the same
/// (`laws::law_program_fuel`): the largest `u64` is as good as no bound.
pub fn interp_program<'a, A, S>(
    p: &'a Program,
    host: &Host<A, S>,
    out: &mut String,
    fuel: u64,
) -> (r: Result<Value<'a>, RuntimeError<'a>>) where
    A: Fn(Operator, Number, Number) -> Number,
    S: Fn(Number) -> String,

    requires
        host.deterministic(),
    ensures
        final(out)@ == run_program(host.model(), *p, old(out)@, fuel as nat).1,
        match r {
            Ok(v) => run_program(host.model(), *p, old(out)@, fuel as nat).0 == Ok::<
                ValueView,
                RuntimeErrorView,
            >(v@),
            Err(e) => run_program(host.model(), *p, old(out)@, fuel as nat).0 == Err::<
                ValueView,
                RuntimeErrorView,
            >(e@),
        },
{
    let mut env = Environment::new(&p.procedures);
    match interp_statement(&mut env, &p.main, false, host, out, fuel) {
        Ok((v, _)) => Ok(v),
        Err(e) => Err(e),
    }
}

} // verus!
