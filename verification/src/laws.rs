//! What holds of every evaluation: how blocks scope declarations, what
//! closures see, when operands are skipped, how loops are left.

use vstd::prelude::*;
use crate::ast::{names_of, Expr, Program, Statement};
use crate::environment::{last_binding, BindingView, EnvView, Mutability};
use crate::error::RuntimeErrorView;
use crate::host::HostModel;
use crate::interpreter::{ControlFlow, ValueView};
use crate::semantics::{
    eval_expr, eval_list, exec_sequence, exec_stmt, is_step, joined_text,
    lemma_sequence_end_is_final, one, run_program, step, stmt_ok, value_ok, ExprOutcome, State,
};
use crate::tokenizer::Operator;

verus! {

impl EnvView {
    /// Whether a later binding of the same name hides the binding at place
    /// `i`.
    pub open spec fn hidden(self, i: int) -> bool {
        exists|j: int|
            i < j < self.bindings.len() && #[trigger] self.bindings[j].name
                == self.bindings[i].name
    }

    /// Whether the binding at place `i` has the same name and mutability in
    /// both environments.
    pub open spec fn same_name_at(self, later: EnvView, i: int) -> bool {
        later.bindings[i].name == self.bindings[i].name && later.bindings[i].mutability
            == self.bindings[i].mutability
    }

    /// Whether `later` can be this environment after some evaluation: the
    /// same procedures; every binding still at its place, under its name,
    /// with its mutability; the hidden ones also with their value.
    pub open spec fn evolves_to(self, later: EnvView) -> bool {
        &&& later.procedures == self.procedures
        &&& self.bindings.len() <= later.bindings.len()
        &&& forall|i: int| 0 <= i < self.bindings.len() ==> #[trigger] self.same_name_at(later, i)
        &&& forall|i: int|
            0 <= i < self.bindings.len() && #[trigger] self.hidden(i) ==> later.bindings[i]
                == self.bindings[i]
    }

    /// This environment without the bindings from place `n` on.
    pub open spec fn truncate(self, n: int) -> EnvView {
        EnvView { procedures: self.procedures, bindings: self.bindings.take(n) }
    }
}

/// The last binding of a name has that name, and no binding behind it has.
pub proof fn lemma_last_binding(bindings: Seq<BindingView>, name: Seq<char>)
    ensures
        match last_binding(bindings, name) {
            Some(i) => 0 <= i < bindings.len() && bindings[i].name == name && forall|j: int|
                i < j < bindings.len() ==> (#[trigger] bindings[j]).name != name,
            None => forall|j: int| 0 <= j < bindings.len() ==> (#[trigger] bindings[j]).name != name,
        },
    decreases bindings.len(),
{
    if bindings.len() > 0 && bindings.last().name != name {
        lemma_last_binding(bindings.drop_last(), name);
        let shorter = bindings.drop_last();
        match last_binding(shorter, name) {
            Some(i) => {
                assert forall|j: int| i < j < bindings.len() implies (#[trigger] bindings[j]).name
                    != name by {
                    if j < shorter.len() {
                        assert(shorter[j] == bindings[j]);
                    }
                }
            },
            None => {
                assert forall|j: int| 0 <= j < bindings.len() implies (#[trigger] bindings[j]).name
                    != name by {
                    if j < shorter.len() {
                        assert(shorter[j] == bindings[j]);
                    }
                }
            },
        }
    }
}

/// Which binding is the last of a name depends on the names alone.
pub proof fn lemma_last_binding_by_names(a: Seq<BindingView>, b: Seq<BindingView>, name: Seq<char>)
    requires
        a.len() == b.len(),
        forall|i: int| 0 <= i < a.len() ==> (#[trigger] a[i]).name == b[i].name,
    ensures
        last_binding(a, name) == last_binding(b, name),
    decreases a.len(),
{
    if a.len() > 0 {
        assert(a.last().name == b.last().name);
        assert forall|i: int| 0 <= i < a.drop_last().len() implies (#[trigger] a.drop_last()[i]).name
            == b.drop_last()[i].name by {
            assert(a[i].name == b[i].name);
        }
        lemma_last_binding_by_names(a.drop_last(), b.drop_last(), name);
    }
}

/// Every environment can be itself later.
pub proof fn lemma_evolves_refl(a: EnvView)
    ensures
        a.evolves_to(a),
{
    assert forall|i: int| 0 <= i < a.bindings.len() implies #[trigger] a.same_name_at(a, i) by {}
}

/// What can come later of what can come later can come later.
pub proof fn lemma_evolves_trans(a: EnvView, b: EnvView, c: EnvView)
    requires
        a.evolves_to(b),
        b.evolves_to(c),
    ensures
        a.evolves_to(c),
{
    assert forall|i: int| 0 <= i < a.bindings.len() implies #[trigger] a.same_name_at(c, i) by {
        assert(a.same_name_at(b, i));
        assert(b.same_name_at(c, i));
    }
    assert forall|i: int| 0 <= i < a.bindings.len() && #[trigger] a.hidden(i) implies c.bindings[i]
        == a.bindings[i] by {
        let j = choose|j: int|
            i < j < a.bindings.len() && #[trigger] a.bindings[j].name == a.bindings[i].name;
        assert(a.same_name_at(b, i));
        assert(a.same_name_at(b, j));
        assert(b.bindings[j].name == b.bindings[i].name);
        assert(b.hidden(i));
    }
}

/// A declaration leaves every binding as it is.
pub proof fn lemma_declare_evolves(
    a: EnvView,
    name: Seq<char>,
    value: ValueView,
    mutability: Mutability,
)
    ensures
        a.evolves_to(a.declare(name, value, mutability)),
{
    let b = a.declare(name, value, mutability);
    assert forall|i: int| 0 <= i < a.bindings.len() implies #[trigger] a.same_name_at(b, i) by {}
}

/// An assignment changes the value of one binding that is not hidden, and
/// nothing else.
pub proof fn lemma_reassign_evolves(a: EnvView, name: Seq<char>, value: ValueView)
    requires
        a.reassign(name, value) is Ok,
    ensures
        a.evolves_to(a.reassign(name, value)->Ok_0),
        a.reassign(name, value)->Ok_0.bindings.len() == a.bindings.len(),
{
    let b = a.reassign(name, value)->Ok_0;
    lemma_last_binding(a.bindings, name);
    let k = last_binding(a.bindings, name)->Some_0;
    assert forall|i: int| 0 <= i < a.bindings.len() implies #[trigger] a.same_name_at(b, i) by {}
    assert forall|i: int| 0 <= i < a.bindings.len() && #[trigger] a.hidden(i) implies b.bindings[i]
        == a.bindings[i] by {
        let j = choose|j: int|
            i < j < a.bindings.len() && #[trigger] a.bindings[j].name == a.bindings[i].name;
        if i == k {
            assert(a.bindings[j].name != name);
        }
    }
}

/// Where a scope has come from an environment by evaluation, ending the
/// scope gives the environment the scope's values and drops what the scope
/// added.
pub proof fn lemma_merge_is_truncation(outer: EnvView, scope: EnvView)
    requires
        outer.evolves_to(scope),
    ensures
        outer.merge(scope) == scope.truncate(outer.bindings.len() as int),
        outer.evolves_to(outer.merge(scope)),
{
    let m = outer.merge(scope);
    let t = scope.truncate(outer.bindings.len() as int);
    assert forall|i: int| 0 <= i < outer.bindings.len() implies m.bindings[i] == t.bindings[i] by {
        assert(outer.same_name_at(scope, i));
    }
    assert(m.bindings =~= t.bindings);
    assert forall|i: int| 0 <= i < outer.bindings.len() implies #[trigger] outer.same_name_at(
        m,
        i,
    ) by {
        assert(outer.same_name_at(scope, i));
    }
}

/// An increment or decrement changes the value of one binding that is not
/// hidden, and nothing else.
pub proof fn lemma_step_evolves(h: HostModel, state: State, op: Operator, id: Seq<char>)
    ensures
        state.env.evolves_to(step(h, state, op, id).state.env),
        step(h, state, op, id).state.env.bindings.len() == state.env.bindings.len(),
        step(h, state, op, id).state.out == state.out,
{
    lemma_evolves_refl(state.env);
    match state.env.lookup(id) {
        Some(ValueView::Num(n)) => {
            let up = op == Operator::PreIncrement || op == Operator::PostIncrement;
            let m = (h.arith)(
                if up {
                    Operator::Plus
                } else {
                    Operator::Minus
                },
                n,
                one(),
            );
            if state.env.reassign(id, ValueView::Num(m)) is Ok {
                lemma_reassign_evolves(state.env, id, ValueView::Num(m));
            }
        },
        _ => {},
    }
}

/// The evaluation of an expression declares nothing and leaves every hidden
/// binding as it is.
pub proof fn lemma_expr_evolves(h: HostModel, state: State, expr: Expr, fuel: nat)
    ensures
        state.env.evolves_to(eval_expr(h, state, expr, fuel).state.env),
        eval_expr(h, state, expr, fuel).state.env.bindings.len() == state.env.bindings.len(),
    decreases fuel, expr, 0nat,
{
    lemma_evolves_refl(state.env);
    match expr {
        Expr::Binary(op, left, right) => {
            let l = eval_expr(h, state, *left, fuel);
            lemma_expr_evolves(h, state, *left, fuel);
            lemma_expr_evolves(h, l.state, *right, fuel);
            let r = eval_expr(h, l.state, *right, fuel);
            lemma_evolves_trans(state.env, l.state.env, r.state.env);
        },
        Expr::Unary(op, operand) => {
            if is_step(op) {
                match *operand {
                    Expr::Var(id) => {
                        lemma_step_evolves(h, state, op, id@);
                    },
                    _ => {},
                }
            } else {
                lemma_expr_evolves(h, state, *operand, fuel);
            }
        },
        Expr::Call(callee, args) => {
            let f = eval_expr(h, state, *callee, fuel);
            lemma_expr_evolves(h, state, *callee, fuel);
            lemma_list_evolves(h, f.state, args@, args@.len(), fuel);
            let a = eval_list(h, f.state, args@, args@.len(), fuel);
            lemma_evolves_trans(state.env, f.state.env, a.state.env);
        },
        Expr::PrimitiveCall(builtin, args) => {
            lemma_list_evolves(h, state, args@, args@.len(), fuel);
            if args.len() == 1 {
                lemma_expr_evolves(h, state, args[0], fuel);
            }
        },
        Expr::Index(target, index) => {
            let t = eval_expr(h, state, *target, fuel);
            lemma_expr_evolves(h, state, *target, fuel);
            lemma_expr_evolves(h, t.state, *index, fuel);
            let i = eval_expr(h, t.state, *index, fuel);
            lemma_evolves_trans(state.env, t.state.env, i.state.env);
        },
        _ => {},
    }
}

/// The evaluation of a list of expressions declares nothing and leaves
/// every hidden binding as it is.
pub proof fn lemma_list_evolves(h: HostModel, state: State, exprs: Seq<Expr>, n: nat, fuel: nat)
    ensures
        state.env.evolves_to(eval_list(h, state, exprs, n, fuel).state.env),
        eval_list(h, state, exprs, n, fuel).state.env.bindings.len() == state.env.bindings.len(),
    decreases fuel, exprs, n,
{
    lemma_evolves_refl(state.env);
    if !(n == 0 || n > exprs.len()) {
        let before = eval_list(h, state, exprs, (n - 1) as nat, fuel);
        lemma_list_evolves(h, state, exprs, (n - 1) as nat, fuel);
        lemma_expr_evolves(h, before.state, exprs[n - 1], fuel);
        let e = eval_expr(h, before.state, exprs[n - 1], fuel);
        lemma_evolves_trans(state.env, before.state.env, e.state.env);
    }
}

/// The execution of a statement leaves every binding at its place, under
/// its name, with its mutability, and every hidden binding as it is.
pub proof fn lemma_stmt_evolves(
    h: HostModel,
    state: State,
    stmt: Statement,
    in_loop: bool,
    fuel: nat,
)
    ensures
        state.env.evolves_to(exec_stmt(h, state, stmt, in_loop, fuel).state.env),
    decreases fuel, stmt, 0nat,
{
    lemma_evolves_refl(state.env);
    match stmt {
        Statement::Expr(e) => {
            lemma_expr_evolves(h, state, e, fuel);
        },
        Statement::Let(id, e) => {
            lemma_expr_evolves(h, state, e, fuel);
            let a = eval_expr(h, state, e, fuel);
            if let Ok(v) = a.result {
                lemma_declare_evolves(a.state.env, id@, v, Mutability::Mutable);
                lemma_evolves_trans(
                    state.env,
                    a.state.env,
                    a.state.env.declare(id@, v, Mutability::Mutable),
                );
            }
        },
        Statement::Const(id, e) => {
            lemma_expr_evolves(h, state, e, fuel);
            let a = eval_expr(h, state, e, fuel);
            if let Ok(v) = a.result {
                lemma_declare_evolves(a.state.env, id@, v, Mutability::Constant);
                lemma_evolves_trans(
                    state.env,
                    a.state.env,
                    a.state.env.declare(id@, v, Mutability::Constant),
                );
            }
        },
        Statement::Assign(id, e) => {
            lemma_expr_evolves(h, state, e, fuel);
            let a = eval_expr(h, state, e, fuel);
            if let Ok(v) = a.result {
                if let Ok(env) = a.state.env.reassign(id@, v) {
                    lemma_reassign_evolves(a.state.env, id@, v);
                    lemma_evolves_trans(state.env, a.state.env, env);
                }
            }
        },
        Statement::If(cond, then_branch, else_branch) => {
            lemma_expr_evolves(h, state, cond, fuel);
            let c = eval_expr(h, state, cond, fuel);
            lemma_stmt_evolves(h, c.state, *then_branch, in_loop, fuel);
            lemma_evolves_trans(
                state.env,
                c.state.env,
                exec_stmt(h, c.state, *then_branch, in_loop, fuel).state.env,
            );
            if let Some(s) = else_branch {
                lemma_stmt_evolves(h, c.state, *s, in_loop, fuel);
                lemma_evolves_trans(
                    state.env,
                    c.state.env,
                    exec_stmt(h, c.state, *s, in_loop, fuel).state.env,
                );
            }
        },
        Statement::While(cond, body) => {
            lemma_expr_evolves(h, state, cond, fuel);
            let c = eval_expr(h, state, cond, fuel);
            lemma_stmt_evolves(h, c.state, *body, true, fuel);
            let r = exec_stmt(h, c.state, *body, true, fuel);
            lemma_evolves_trans(state.env, c.state.env, r.state.env);
            if fuel > 0 {
                lemma_stmt_evolves(h, r.state, stmt, in_loop, (fuel - 1) as nat);
                lemma_evolves_trans(
                    state.env,
                    r.state.env,
                    exec_stmt(h, r.state, stmt, in_loop, (fuel - 1) as nat).state.env,
                );
            }
        },
        Statement::Return(value) => {
            if let Some(e) = value {
                lemma_expr_evolves(h, state, e, fuel);
            }
        },
        Statement::Block(stmts) => {
            lemma_sequence_evolves(h, state, stmts@, stmts@.len(), in_loop, fuel);
            let inner = exec_sequence(h, state, stmts@, stmts@.len(), in_loop, fuel);
            lemma_merge_is_truncation(state.env, inner.state.env);
        },
        _ => {},
    }
}

/// The execution of a sequence of statements leaves every binding at its
/// place, under its name, with its mutability, and every hidden binding as
/// it is.
pub proof fn lemma_sequence_evolves(
    h: HostModel,
    state: State,
    stmts: Seq<Statement>,
    n: nat,
    in_loop: bool,
    fuel: nat,
)
    ensures
        state.env.evolves_to(exec_sequence(h, state, stmts, n, in_loop, fuel).state.env),
    decreases fuel, stmts, n,
{
    lemma_evolves_refl(state.env);
    if !(n == 0 || n > stmts.len()) {
        let before = exec_sequence(h, state, stmts, (n - 1) as nat, in_loop, fuel);
        lemma_sequence_evolves(h, state, stmts, (n - 1) as nat, in_loop, fuel);
        lemma_stmt_evolves(h, before.state, stmts[n - 1], in_loop, fuel);
        lemma_evolves_trans(
            state.env,
            before.state.env,
            exec_stmt(h, before.state, stmts[n - 1], in_loop, fuel).state.env,
        );
    }
}

/// Of two places of a sequence, the environment at the earlier one can be
/// the environment at the later one, later.
pub proof fn lemma_sequence_evolves_between(
    h: HostModel,
    state: State,
    stmts: Seq<Statement>,
    k: nat,
    n: nat,
    in_loop: bool,
    fuel: nat,
)
    requires
        k <= n <= stmts.len(),
    ensures
        exec_sequence(h, state, stmts, k, in_loop, fuel).state.env.evolves_to(
            exec_sequence(h, state, stmts, n, in_loop, fuel).state.env,
        ),
    decreases n,
{
    let at_k = exec_sequence(h, state, stmts, k, in_loop, fuel);
    if k == n {
        lemma_evolves_refl(at_k.state.env);
    } else {
        let before = exec_sequence(h, state, stmts, (n - 1) as nat, in_loop, fuel);
        lemma_sequence_evolves_between(h, state, stmts, k, (n - 1) as nat, in_loop, fuel);
        lemma_stmt_evolves(h, before.state, stmts[n - 1], in_loop, fuel);
        lemma_evolves_refl(before.state.env);
        lemma_evolves_trans(
            at_k.state.env,
            before.state.env,
            exec_sequence(h, state, stmts, n, in_loop, fuel).state.env,
        );
    }
}

/// The last binding of a name among the first `n` bindings is the last of
/// all, where that one is among them.
pub proof fn lemma_last_binding_in_prefix(bindings: Seq<BindingView>, name: Seq<char>, n: int)
    requires
        0 <= n <= bindings.len(),
        last_binding(bindings, name) is Some,
        last_binding(bindings, name)->Some_0 < n,
    ensures
        last_binding(bindings.take(n), name) == last_binding(bindings, name),
{
    let i = last_binding(bindings, name)->Some_0;
    lemma_last_binding(bindings, name);
    lemma_last_binding(bindings.take(n), name);
    assert(bindings.take(n)[i] == bindings[i]);
    match last_binding(bindings.take(n), name) {
        Some(j) => {
            assert(bindings.take(n)[j] == bindings[j]);
        },
        None => {},
    }
}

/// **Ending a scope copies values back by name.** Where a scope has come
/// from an environment by evaluation and a name stands, in the scope, for a
/// binding that the environment holds too, then after the scope has ended
/// the name stands in the environment for the value that it had in the
/// scope. A name that stands for nothing in the environment still stands for
/// nothing.
pub proof fn law_merge_by_name(outer: EnvView, scope: EnvView, name: Seq<char>)
    requires
        outer.evolves_to(scope),
    ensures
        last_binding(scope.bindings, name) matches Some(i) && i < outer.bindings.len()
            ==> outer.merge(scope).lookup(name) == scope.lookup(name),
        outer.lookup(name) is None ==> outer.merge(scope).lookup(name) is None,
{
    lemma_merge_is_truncation(outer, scope);
    let merged = outer.merge(scope);
    let n = outer.bindings.len() as int;
    if let Some(i) = last_binding(scope.bindings, name) {
        if i < n {
            lemma_last_binding(scope.bindings, name);
            lemma_last_binding_in_prefix(scope.bindings, name, n);
            assert(merged.bindings =~= scope.bindings.take(n));
            assert(merged.bindings[i] == scope.bindings[i]);
        }
    }
    assert forall|i: int| 0 <= i < n implies (#[trigger] outer.bindings[i]).name
        == merged.bindings[i].name by {
        assert(outer.same_name_at(merged, i));
    }
    lemma_last_binding_by_names(outer.bindings, merged.bindings, name);
}

/// **A block is a scope.** Whatever the statements of a block do, the block
/// leaves as many bindings as it found, under the same names and with the
/// same mutability. Where it does not fail, their values are those that its
/// statements gave them, and what its statements declared is gone; where it
/// fails, the environment is as it was before.
pub proof fn law_block_is_a_scope(
    h: HostModel,
    state: State,
    stmts: Vec<Statement>,
    in_loop: bool,
    fuel: nat,
)
    ensures
        ({
            let block = exec_stmt(h, state, Statement::Block(stmts), in_loop, fuel);
            let inner = exec_sequence(h, state, stmts@, stmts@.len(), in_loop, fuel);
            &&& block.state.out == inner.state.out
            &&& block.state.env.bindings.len() == state.env.bindings.len()
            &&& block.state.env.procedures == state.env.procedures
            &&& forall|i: int|
                0 <= i < state.env.bindings.len() ==> #[trigger] state.env.same_name_at(
                    block.state.env,
                    i,
                )
            &&& block.result is Ok ==> block.state.env == inner.state.env.truncate(
                state.env.bindings.len() as int,
            )
            &&& block.result is Err ==> block.state.env == state.env
        }),
{
    let inner = exec_sequence(h, state, stmts@, stmts@.len(), in_loop, fuel);
    lemma_sequence_evolves(h, state, stmts@, stmts@.len(), in_loop, fuel);
    lemma_merge_is_truncation(state.env, inner.state.env);
    lemma_evolves_refl(state.env);
}

/// **A declaration does not leave its block.** A name that stands for
/// nothing before a block stands for nothing after it, whatever the block
/// declared; and a name that stands for something still does.
pub proof fn law_declaration_is_local(
    h: HostModel,
    state: State,
    stmts: Vec<Statement>,
    in_loop: bool,
    fuel: nat,
    name: Seq<char>,
)
    ensures
        exec_stmt(h, state, Statement::Block(stmts), in_loop, fuel).state.env.lookup(name)
            is Some <==> state.env.lookup(name) is Some,
{
    let block = exec_stmt(h, state, Statement::Block(stmts), in_loop, fuel);
    law_block_is_a_scope(h, state, stmts, in_loop, fuel);
    assert forall|i: int| 0 <= i < state.env.bindings.len() implies (
    #[trigger] state.env.bindings[i]).name == block.state.env.bindings[i].name by {
        assert(state.env.same_name_at(block.state.env, i));
    }
    lemma_last_binding_by_names(state.env.bindings, block.state.env.bindings, name);
}

/// **An assignment leaves its block.** Where, at the end of a block that
/// does not fail, a name stands for a binding that was there before the
/// block, it stands for the same value after the block: what the block
/// assigned to it.
pub proof fn law_reassignment_escapes(
    h: HostModel,
    state: State,
    stmts: Vec<Statement>,
    in_loop: bool,
    fuel: nat,
    name: Seq<char>,
)
    requires
        exec_stmt(h, state, Statement::Block(stmts), in_loop, fuel).result is Ok,
        last_binding(
            exec_sequence(h, state, stmts@, stmts@.len(), in_loop, fuel).state.env.bindings,
            name,
        ) matches Some(i) && i < state.env.bindings.len(),
    ensures
        exec_stmt(h, state, Statement::Block(stmts), in_loop, fuel).state.env.lookup(name)
            == exec_sequence(h, state, stmts@, stmts@.len(), in_loop, fuel).state.env.lookup(
            name,
        ),
{
    let inner = exec_sequence(h, state, stmts@, stmts@.len(), in_loop, fuel);
    law_block_is_a_scope(h, state, stmts, in_loop, fuel);
    lemma_sequence_evolves(h, state, stmts@, stmts@.len(), in_loop, fuel);
    let n = state.env.bindings.len() as int;
    lemma_last_binding_in_prefix(inner.state.env.bindings, name, n);
    let i = last_binding(inner.state.env.bindings, name)->Some_0;
    lemma_last_binding(inner.state.env.bindings, name);
    let block = exec_stmt(h, state, Statement::Block(stmts), in_loop, fuel);
    assert(block.state.env.bindings =~= inner.state.env.bindings.take(n));
    assert(block.state.env.bindings[i] == inner.state.env.bindings[i]);
}

/// **Shadowing.** Where a statement of a block declares a name, with `let`
/// or `const`, then after the block the name stands for what it stood for
/// outside the block at the moment of the declaration: nothing that the
/// block does to its own variable afterwards reaches the one outside.
///
/// `k` is the place of the declaration among the statements of the block,
/// all of which before it end normally.
pub proof fn law_shadowing(
    h: HostModel,
    state: State,
    stmts: Vec<Statement>,
    k: nat,
    id: String,
    e: Expr,
    in_loop: bool,
    fuel: nat,
)
    requires
        k < stmts@.len(),
        stmts@[k as int] == Statement::Let(id, e) || stmts@[k as int] == Statement::Const(id, e),
        exec_sequence(h, state, stmts@, k, in_loop, fuel).result matches Ok(
            (_, ControlFlow::Normal),
        ),
        exec_stmt(h, state, Statement::Block(stmts), in_loop, fuel).result is Ok,
    ensures
        exec_stmt(h, state, Statement::Block(stmts), in_loop, fuel).state.env.lookup(id@)
            == eval_expr(
            h,
            exec_sequence(h, state, stmts@, k, in_loop, fuel).state,
            e,
            fuel,
        ).state.env.truncate(state.env.bindings.len() as int).lookup(id@),
{
    let block = exec_stmt(h, state, Statement::Block(stmts), in_loop, fuel);
    let n = stmts@.len();
    let inner = exec_sequence(h, state, stmts@, n, in_loop, fuel);
    let reached = exec_sequence(h, state, stmts@, k, in_loop, fuel);
    let a = eval_expr(h, reached.state, e, fuel);
    let after = exec_sequence(h, state, stmts@, k + 1, in_loop, fuel);
    assert(after == exec_stmt(h, reached.state, stmts@[k as int], in_loop, fuel));
    if a.result is Err {
        lemma_sequence_end_is_final(h, state, stmts@, k + 1, n, in_loop, fuel);
        assert(false);
    }
    let outside = a.state.env.truncate(state.env.bindings.len() as int);
    let declared = after.state.env;
    let before = state.env.bindings.len() as int;
    let top = a.state.env.bindings.len() as int;
    lemma_sequence_evolves(h, state, stmts@, k, in_loop, fuel);
    lemma_expr_evolves(h, reached.state, e, fuel);
    lemma_evolves_trans(state.env, reached.state.env, a.state.env);
    assert(declared.bindings.len() == top + 1);
    assert(declared.bindings[top].name == id@);
    law_block_is_a_scope(h, state, stmts, in_loop, fuel);
    lemma_sequence_evolves_between(h, state, stmts@, k + 1, n, in_loop, fuel);
    assert(block.state.env.bindings =~= inner.state.env.bindings.take(before));
    assert forall|i: int| 0 <= i < before implies (#[trigger] outside.bindings[i]).name
        == block.state.env.bindings[i].name by {
        assert(declared.bindings[i] == a.state.env.bindings[i]);
        assert(declared.same_name_at(inner.state.env, i));
    }
    lemma_last_binding_by_names(outside.bindings, block.state.env.bindings, id@);
    lemma_last_binding(outside.bindings, id@);
    match last_binding(outside.bindings, id@) {
        Some(i) => {
            assert(declared.bindings[i] == a.state.env.bindings[i]);
            assert(declared.bindings[top].name == declared.bindings[i].name);
            assert(declared.hidden(i));
        },
        None => {},
    }
}

/// **A closure is a snapshot.** What a call of the procedure in a variable
/// returns and prints depends on the caller's environment through that
/// variable alone: two callers that hold the same procedure in it get the
/// same from a call without arguments, whatever else has been assigned in
/// either since; and the call leaves each caller's environment as it is.
pub proof fn law_closure_snapshot(
    h: HostModel,
    one: State,
    other: State,
    f: String,
    args: Vec<Expr>,
    fuel: nat,
)
    requires
        args@.len() == 0,
        one.out == other.out,
        one.env.lookup(f@) == other.env.lookup(f@),
    ensures
        ({
            let call = Expr::Call(Box::new(Expr::Var(f)), args);
            let a = eval_expr(h, one, call, fuel);
            let b = eval_expr(h, other, call, fuel);
            &&& a.result == b.result
            &&& a.state.out == b.state.out
            &&& a.state.env == one.env
            &&& b.state.env == other.env
        }),
{
    assert(eval_expr(h, one, Expr::Var(f), fuel).state == one);
    assert(eval_expr(h, other, Expr::Var(f), fuel).state == other);
    assert(eval_list(h, one, args@, 0, fuel).state == one);
    assert(eval_list(h, other, args@, 0, fuel).state == other);
}

/// **A closure runs where it was made.** A call of a procedure without
/// parameters runs the procedure's body in the environment that the
/// procedure has held since it was made, not in the caller's; its value is
/// the value with which the body ends, however it ends.
pub proof fn law_call_runs_in_captured(
    h: HostModel,
    state: State,
    f: String,
    args: Vec<Expr>,
    body: Statement,
    captured: EnvView,
    fuel: nat,
)
    requires
        args@.len() == 0,
        fuel > 0,
        state.env.lookup(f@) == Some(ValueView::Proc(Seq::empty(), body, captured)),
    ensures
        ({
            let call = Expr::Call(Box::new(Expr::Var(f)), args);
            let ran = exec_stmt(
                h,
                State { env: captured, out: state.out },
                body,
                false,
                (fuel - 1) as nat,
            );
            eval_expr(h, state, call, fuel) == (ExprOutcome {
                result: match ran.result {
                    Ok((v, _)) => Ok(v),
                    Err(e) => Err(e),
                },
                state: State { env: state.env, out: ran.state.out },
            })
        }),
{
    assert(eval_expr(h, state, Expr::Var(f), fuel).state == state);
    assert(eval_list(h, state, args@, 0, fuel).state == state);
    let names = Seq::<Seq<char>>::empty();
    let values = Seq::<ValueView>::empty();
    assert(captured.extend(EnvView::frame(names, values)).bindings =~= captured.bindings);
}

/// **The value of a lambda.** A lambda evaluates to a procedure that holds
/// the environment of that moment.
pub proof fn law_lambda_captures(
    h: HostModel,
    state: State,
    params: Vec<String>,
    body: Statement,
    fuel: nat,
)
    ensures
        eval_expr(h, state, Expr::Lambda(params, Box::new(body)), fuel) == value_ok(
            ValueView::Proc(names_of(params@), body, state.env),
            state,
        ),
{
}

/// **Short circuit.** Where the left operand of `&&` is false, or that of
/// `||` is true, that is the result, and the state is the one that the left
/// operand left: the right operand is not evaluated, so it prints nothing,
/// assigns nothing and cannot fail.
pub proof fn law_short_circuit(h: HostModel, state: State, left: Expr, right: Expr, fuel: nat)
    ensures
        eval_expr(h, state, left, fuel).result == Ok::<ValueView, RuntimeErrorView>(
            ValueView::Bool(false),
        ) ==> eval_expr(
            h,
            state,
            Expr::Binary(Operator::LogicAnd, Box::new(left), Box::new(right)),
            fuel,
        ) == value_ok(ValueView::Bool(false), eval_expr(h, state, left, fuel).state),
        eval_expr(h, state, left, fuel).result == Ok::<ValueView, RuntimeErrorView>(
            ValueView::Bool(true),
        ) ==> eval_expr(
            h,
            state,
            Expr::Binary(Operator::LogicOr, Box::new(left), Box::new(right)),
            fuel,
        ) == value_ok(ValueView::Bool(true), eval_expr(h, state, left, fuel).state),
{
}

/// **`break` ends a loop.** Where the condition of a loop holds and its
/// body ends with `break`, the loop ends normally with `Nil`, in the state
/// in which the body ended.
pub proof fn law_while_break(
    h: HostModel,
    state: State,
    cond: Expr,
    body: Statement,
    in_loop: bool,
    fuel: nat,
)
    requires
        eval_expr(h, state, cond, fuel).result == Ok::<ValueView, RuntimeErrorView>(
            ValueView::Bool(true),
        ),
        exec_stmt(h, eval_expr(h, state, cond, fuel).state, body, true, fuel).result matches Ok(
            (_, ControlFlow::Break),
        ),
    ensures
        exec_stmt(h, state, Statement::While(cond, Box::new(body)), in_loop, fuel) == stmt_ok(
            ValueView::Nil,
            ControlFlow::Normal,
            exec_stmt(h, eval_expr(h, state, cond, fuel).state, body, true, fuel).state,
        ),
{
}

/// **`continue` begins the next round.** Where the condition of a loop
/// holds and its body ends with `continue`, or normally, the loop goes on as
/// a loop that starts in the state in which the body ended, with the
/// condition tested again.
pub proof fn law_while_continue(
    h: HostModel,
    state: State,
    cond: Expr,
    body: Statement,
    in_loop: bool,
    fuel: nat,
)
    requires
        fuel > 0,
        eval_expr(h, state, cond, fuel).result == Ok::<ValueView, RuntimeErrorView>(
            ValueView::Bool(true),
        ),
        exec_stmt(h, eval_expr(h, state, cond, fuel).state, body, true, fuel).result matches Ok(
            (_, flow),
        ) && (flow == ControlFlow::Continue || flow == ControlFlow::Normal),
    ensures
        exec_stmt(h, state, Statement::While(cond, Box::new(body)), in_loop, fuel) == exec_stmt(
            h,
            exec_stmt(h, eval_expr(h, state, cond, fuel).state, body, true, fuel).state,
            Statement::While(cond, Box::new(body)),
            in_loop,
            (fuel - 1) as nat,
        ),
{
}

/// **`return` ends a loop and goes on.** Where the condition of a loop
/// holds and its body ends with `return`, the loop ends with `return` and
/// the same value.
pub proof fn law_while_return(
    h: HostModel,
    state: State,
    cond: Expr,
    body: Statement,
    in_loop: bool,
    fuel: nat,
)
    requires
        eval_expr(h, state, cond, fuel).result == Ok::<ValueView, RuntimeErrorView>(
            ValueView::Bool(true),
        ),
        exec_stmt(h, eval_expr(h, state, cond, fuel).state, body, true, fuel).result matches Ok(
            (_, ControlFlow::Return),
        ),
    ensures
        exec_stmt(h, state, Statement::While(cond, Box::new(body)), in_loop, fuel).result
            == exec_stmt(h, eval_expr(h, state, cond, fuel).state, body, true, fuel).result,
        exec_stmt(h, state, Statement::While(cond, Box::new(body)), in_loop, fuel).state
            == exec_stmt(h, eval_expr(h, state, cond, fuel).state, body, true, fuel).state,
{
}

/// **What leaves a block skips the rest of it.** Where the statements of a
/// block before place `k` end normally and the statement at place `k` ends
/// with `return`, `break` or `continue`, or fails, the statements behind it
/// are not executed: the sequence ends as that statement does.
pub proof fn law_block_leaves_early(
    h: HostModel,
    state: State,
    stmts: Seq<Statement>,
    k: nat,
    in_loop: bool,
    fuel: nat,
)
    requires
        k < stmts.len(),
        exec_sequence(h, state, stmts, k, in_loop, fuel).result matches Ok(
            (_, ControlFlow::Normal),
        ),
        !(exec_stmt(
            h,
            exec_sequence(h, state, stmts, k, in_loop, fuel).state,
            stmts[k as int],
            in_loop,
            fuel,
        ).result matches Ok((_, ControlFlow::Normal))),
    ensures
        exec_sequence(h, state, stmts, stmts.len(), in_loop, fuel) == exec_stmt(
            h,
            exec_sequence(h, state, stmts, k, in_loop, fuel).state,
            stmts[k as int],
            in_loop,
            fuel,
        ),
{
    lemma_sequence_end_is_final(h, state, stmts, k + 1, stmts.len(), in_loop, fuel);
}

/// **A call leaves the caller's environment alone.** Whatever the body of
/// a procedure assigns or declares, the caller's environment after the call
/// is the one in which the last argument was evaluated.
pub proof fn law_call_leaves_caller(
    h: HostModel,
    state: State,
    callee: Expr,
    args: Vec<Expr>,
    fuel: nat,
)
    requires
        eval_expr(h, state, callee, fuel).result matches Ok(ValueView::Proc(params, _, _))
            && params.len() == args@.len(),
    ensures
        eval_expr(h, state, Expr::Call(Box::new(callee), args), fuel).state.env == eval_list(
            h,
            eval_expr(h, state, callee, fuel).state,
            args@,
            args@.len(),
            fuel,
        ).state.env,
{
}

/// Whether the text `before` is how the text `after` begins.
pub open spec fn begins_with(after: Seq<char>, before: Seq<char>) -> bool {
    before.len() <= after.len() && after.take(before.len() as int) == before
}

/// A text begins with itself, and what begins a beginning begins the whole.
pub proof fn lemma_begins_with(a: Seq<char>, b: Seq<char>, c: Seq<char>)
    ensures
        begins_with(a, a),
        begins_with(a + b, a),
        begins_with(b, a) && begins_with(c, b) ==> begins_with(c, a),
{
    assert(a.take(a.len() as int) =~= a);
    assert((a + b).take(a.len() as int) =~= a);
    if begins_with(b, a) && begins_with(c, b) {
        assert(c.take(a.len() as int) =~= c.take(b.len() as int).take(a.len() as int));
    }
}

/// The evaluation of an expression only adds to the output.
pub proof fn lemma_expr_output(h: HostModel, state: State, expr: Expr, fuel: nat)
    ensures
        begins_with(eval_expr(h, state, expr, fuel).state.out, state.out),
    decreases fuel, expr, 0nat,
{
    let nothing = Seq::<char>::empty();
    lemma_begins_with(state.out, nothing, nothing);
    match expr {
        Expr::Binary(op, left, right) => {
            let l = eval_expr(h, state, *left, fuel);
            lemma_expr_output(h, state, *left, fuel);
            lemma_expr_output(h, l.state, *right, fuel);
            let r = eval_expr(h, l.state, *right, fuel);
            lemma_begins_with(state.out, l.state.out, r.state.out);
        },
        Expr::Unary(op, operand) => {
            if is_step(op) {
                match *operand {
                    Expr::Var(id) => {
                        lemma_step_evolves(h, state, op, id@);
                    },
                    _ => {},
                }
            } else {
                lemma_expr_output(h, state, *operand, fuel);
            }
        },
        Expr::Call(callee, args) => {
            let f = eval_expr(h, state, *callee, fuel);
            lemma_expr_output(h, state, *callee, fuel);
            lemma_list_output(h, f.state, args@, args@.len(), fuel);
            let a = eval_list(h, f.state, args@, args@.len(), fuel);
            lemma_begins_with(state.out, f.state.out, a.state.out);
            if let Ok(ValueView::Proc(params, body, captured)) = f.result {
                if let Ok(values) = a.result {
                    if fuel > 0 {
                        let frame = State {
                            env: captured.extend(EnvView::frame(params, values)),
                            out: a.state.out,
                        };
                        lemma_stmt_output(h, frame, body, false, (fuel - 1) as nat);
                        lemma_begins_with(
                            state.out,
                            a.state.out,
                            exec_stmt(h, frame, body, false, (fuel - 1) as nat).state.out,
                        );
                    }
                }
            }
        },
        Expr::PrimitiveCall(builtin, args) => {
            lemma_list_output(h, state, args@, args@.len(), fuel);
            let a = eval_list(h, state, args@, args@.len(), fuel);
            if let Ok(values) = a.result {
                let printed = joined_text(h, values, " "@);
                lemma_begins_with(a.state.out, printed, nothing);
                lemma_begins_with(state.out, a.state.out, a.state.out + printed);
            }
            if args.len() == 1 {
                lemma_expr_output(h, state, args[0], fuel);
            }
        },
        Expr::Index(target, index) => {
            let t = eval_expr(h, state, *target, fuel);
            lemma_expr_output(h, state, *target, fuel);
            lemma_expr_output(h, t.state, *index, fuel);
            let i = eval_expr(h, t.state, *index, fuel);
            lemma_begins_with(state.out, t.state.out, i.state.out);
        },
        _ => {},
    }
}

/// The evaluation of a list of expressions only adds to the output.
pub proof fn lemma_list_output(h: HostModel, state: State, exprs: Seq<Expr>, n: nat, fuel: nat)
    ensures
        begins_with(eval_list(h, state, exprs, n, fuel).state.out, state.out),
    decreases fuel, exprs, n,
{
    let nothing = Seq::<char>::empty();
    lemma_begins_with(state.out, nothing, nothing);
    if !(n == 0 || n > exprs.len()) {
        let before = eval_list(h, state, exprs, (n - 1) as nat, fuel);
        lemma_list_output(h, state, exprs, (n - 1) as nat, fuel);
        lemma_expr_output(h, before.state, exprs[n - 1], fuel);
        let e = eval_expr(h, before.state, exprs[n - 1], fuel);
        lemma_begins_with(state.out, before.state.out, e.state.out);
    }
}

/// The execution of a statement only adds to the output.
pub proof fn lemma_stmt_output(
    h: HostModel,
    state: State,
    stmt: Statement,
    in_loop: bool,
    fuel: nat,
)
    ensures
        begins_with(exec_stmt(h, state, stmt, in_loop, fuel).state.out, state.out),
    decreases fuel, stmt, 0nat,
{
    let nothing = Seq::<char>::empty();
    lemma_begins_with(state.out, nothing, nothing);
    match stmt {
        Statement::Expr(e) => {
            lemma_expr_output(h, state, e, fuel);
        },
        Statement::Let(_, e) => {
            lemma_expr_output(h, state, e, fuel);
        },
        Statement::Const(_, e) => {
            lemma_expr_output(h, state, e, fuel);
        },
        Statement::Assign(_, e) => {
            lemma_expr_output(h, state, e, fuel);
        },
        Statement::If(cond, then_branch, else_branch) => {
            lemma_expr_output(h, state, cond, fuel);
            let c = eval_expr(h, state, cond, fuel);
            lemma_stmt_output(h, c.state, *then_branch, in_loop, fuel);
            lemma_begins_with(
                state.out,
                c.state.out,
                exec_stmt(h, c.state, *then_branch, in_loop, fuel).state.out,
            );
            if let Some(s) = else_branch {
                lemma_stmt_output(h, c.state, *s, in_loop, fuel);
                lemma_begins_with(
                    state.out,
                    c.state.out,
                    exec_stmt(h, c.state, *s, in_loop, fuel).state.out,
                );
            }
        },
        Statement::While(cond, body) => {
            lemma_expr_output(h, state, cond, fuel);
            let c = eval_expr(h, state, cond, fuel);
            lemma_stmt_output(h, c.state, *body, true, fuel);
            let r = exec_stmt(h, c.state, *body, true, fuel);
            lemma_begins_with(state.out, c.state.out, r.state.out);
            if fuel > 0 {
                lemma_stmt_output(h, r.state, stmt, in_loop, (fuel - 1) as nat);
                lemma_begins_with(
                    state.out,
                    r.state.out,
                    exec_stmt(h, r.state, stmt, in_loop, (fuel - 1) as nat).state.out,
                );
            }
        },
        Statement::Return(value) => {
            if let Some(e) = value {
                lemma_expr_output(h, state, e, fuel);
            }
        },
        Statement::Block(stmts) => {
            lemma_sequence_output(h, state, stmts@, stmts@.len(), in_loop, fuel);
        },
        _ => {},
    }
}

/// The execution of a sequence of statements only adds to the output.
pub proof fn lemma_sequence_output(
    h: HostModel,
    state: State,
    stmts: Seq<Statement>,
    n: nat,
    in_loop: bool,
    fuel: nat,
)
    ensures
        begins_with(exec_sequence(h, state, stmts, n, in_loop, fuel).state.out, state.out),
    decreases fuel, stmts, n,
{
    let nothing = Seq::<char>::empty();
    lemma_begins_with(state.out, nothing, nothing);
    if !(n == 0 || n > stmts.len()) {
        let before = exec_sequence(h, state, stmts, (n - 1) as nat, in_loop, fuel);
        lemma_sequence_output(h, state, stmts, (n - 1) as nat, in_loop, fuel);
        lemma_stmt_output(h, before.state, stmts[n - 1], in_loop, fuel);
        lemma_begins_with(
            state.out,
            before.state.out,
            exec_stmt(h, before.state, stmts[n - 1], in_loop, fuel).state.out,
        );
    }
}

/// **What was printed stays printed.** A program only adds to the output
/// that it was given, whether it ends with a value or fails: nothing that
/// was printed before a failure is taken back.
pub proof fn law_output_is_kept(h: HostModel, program: Program, out: Seq<char>, fuel: nat)
    ensures
        begins_with(run_program(h, program, out, fuel).1, out),
{
    lemma_stmt_output(
        h,
        State { env: EnvView::root(program.procedures@), out },
        program.main,
        false,
        fuel,
    );
}

/// Whether an evaluation stopped because it had used up its fuel.
pub open spec fn ran_out<T>(r: Result<T, RuntimeErrorView>) -> bool {
    r matches Err(RuntimeErrorView::OutOfFuel)
}

/// An expression that does not run out of fuel evaluates to the same with
/// one unit more.
pub proof fn lemma_expr_fuel(h: HostModel, state: State, expr: Expr, fuel: nat)
    requires
        !ran_out(eval_expr(h, state, expr, fuel).result),
    ensures
        eval_expr(h, state, expr, fuel + 1) == eval_expr(h, state, expr, fuel),
    decreases fuel, expr, 0nat,
{
    match expr {
        Expr::Binary(op, left, right) => {
            let l = eval_expr(h, state, *left, fuel);
            if !ran_out(l.result) {
                lemma_expr_fuel(h, state, *left, fuel);
                let r = eval_expr(h, l.state, *right, fuel);
                if !ran_out(r.result) {
                    lemma_expr_fuel(h, l.state, *right, fuel);
                }
            }
        },
        Expr::Unary(op, operand) => {
            if !is_step(op) {
                let a = eval_expr(h, state, *operand, fuel);
                if !ran_out(a.result) {
                    lemma_expr_fuel(h, state, *operand, fuel);
                }
            }
        },
        Expr::Call(callee, args) => {
            let f = eval_expr(h, state, *callee, fuel);
            if !ran_out(f.result) {
                lemma_expr_fuel(h, state, *callee, fuel);
                let a = eval_list(h, f.state, args@, args@.len(), fuel);
                if !ran_out(a.result) {
                    lemma_list_fuel(h, f.state, args@, args@.len(), fuel);
                    if let Ok(ValueView::Proc(params, body, captured)) = f.result {
                        if let Ok(values) = a.result {
                            if fuel > 0 && args.len() == params.len() {
                                let frame = State {
                                    env: captured.extend(EnvView::frame(params, values)),
                                    out: a.state.out,
                                };
                                lemma_stmt_fuel(h, frame, body, false, (fuel - 1) as nat);
                            }
                        }
                    }
                }
            }
        },
        Expr::PrimitiveCall(builtin, args) => {
            let a = eval_list(h, state, args@, args@.len(), fuel);
            if !ran_out(a.result) {
                lemma_list_fuel(h, state, args@, args@.len(), fuel);
            }
            if args.len() == 1 {
                let e = eval_expr(h, state, args[0], fuel);
                if !ran_out(e.result) {
                    lemma_expr_fuel(h, state, args[0], fuel);
                }
            }
        },
        Expr::Index(target, index) => {
            let t = eval_expr(h, state, *target, fuel);
            if !ran_out(t.result) {
                lemma_expr_fuel(h, state, *target, fuel);
                let i = eval_expr(h, t.state, *index, fuel);
                if !ran_out(i.result) {
                    lemma_expr_fuel(h, t.state, *index, fuel);
                }
            }
        },
        _ => {},
    }
}

/// A list of expressions that does not run out of fuel evaluates to the
/// same with one unit more.
pub proof fn lemma_list_fuel(h: HostModel, state: State, exprs: Seq<Expr>, n: nat, fuel: nat)
    requires
        !ran_out(eval_list(h, state, exprs, n, fuel).result),
    ensures
        eval_list(h, state, exprs, n, fuel + 1) == eval_list(h, state, exprs, n, fuel),
    decreases fuel, exprs, n,
{
    if !(n == 0 || n > exprs.len()) {
        let before = eval_list(h, state, exprs, (n - 1) as nat, fuel);
        if !ran_out(before.result) {
            lemma_list_fuel(h, state, exprs, (n - 1) as nat, fuel);
            let e = eval_expr(h, before.state, exprs[n - 1], fuel);
            if !ran_out(e.result) {
                lemma_expr_fuel(h, before.state, exprs[n - 1], fuel);
            }
        }
    }
}

/// A statement that does not run out of fuel does the same with one unit
/// more.
pub proof fn lemma_stmt_fuel(h: HostModel, state: State, stmt: Statement, in_loop: bool, fuel: nat)
    requires
        !ran_out(exec_stmt(h, state, stmt, in_loop, fuel).result),
    ensures
        exec_stmt(h, state, stmt, in_loop, fuel + 1) == exec_stmt(h, state, stmt, in_loop, fuel),
    decreases fuel, stmt, 0nat,
{
    match stmt {
        Statement::Expr(e) => {
            lemma_expr_fuel(h, state, e, fuel);
        },
        Statement::Let(_, e) => {
            lemma_expr_fuel(h, state, e, fuel);
        },
        Statement::Const(_, e) => {
            lemma_expr_fuel(h, state, e, fuel);
        },
        Statement::Assign(_, e) => {
            let a = eval_expr(h, state, e, fuel);
            if !ran_out(a.result) {
                lemma_expr_fuel(h, state, e, fuel);
            }
        },
        Statement::If(cond, then_branch, else_branch) => {
            let c = eval_expr(h, state, cond, fuel);
            if !ran_out(c.result) {
                lemma_expr_fuel(h, state, cond, fuel);
                if let Ok(ValueView::Bool(b)) = c.result {
                    if b {
                        lemma_stmt_fuel(h, c.state, *then_branch, in_loop, fuel);
                    } else if let Some(s) = else_branch {
                        lemma_stmt_fuel(h, c.state, *s, in_loop, fuel);
                    }
                }
            }
        },
        Statement::While(cond, body) => {
            let c = eval_expr(h, state, cond, fuel);
            if !ran_out(c.result) {
                lemma_expr_fuel(h, state, cond, fuel);
                if c.result == Ok::<ValueView, RuntimeErrorView>(ValueView::Bool(true)) {
                    let r = exec_stmt(h, c.state, *body, true, fuel);
                    if !ran_out(r.result) {
                        lemma_stmt_fuel(h, c.state, *body, true, fuel);
                        match r.result {
                            Ok((_, ControlFlow::Return)) => {},
                            Ok((_, ControlFlow::Break)) => {},
                            Ok(_) => {
                                if fuel > 0 {
                                    lemma_stmt_fuel(
                                        h,
                                        r.state,
                                        stmt,
                                        in_loop,
                                        (fuel - 1) as nat,
                                    );
                                }
                            },
                            Err(_) => {},
                        }
                    }
                }
            }
        },
        Statement::Return(value) => {
            if let Some(e) = value {
                lemma_expr_fuel(h, state, e, fuel);
            }
        },
        Statement::Block(stmts) => {
            let inner = exec_sequence(h, state, stmts@, stmts@.len(), in_loop, fuel);
            if !ran_out(inner.result) {
                lemma_sequence_fuel(h, state, stmts@, stmts@.len(), in_loop, fuel);
            }
        },
        _ => {},
    }
}

/// A sequence of statements that does not run out of fuel does the same
/// with one unit more.
pub proof fn lemma_sequence_fuel(
    h: HostModel,
    state: State,
    stmts: Seq<Statement>,
    n: nat,
    in_loop: bool,
    fuel: nat,
)
    requires
        !ran_out(exec_sequence(h, state, stmts, n, in_loop, fuel).result),
    ensures
        exec_sequence(h, state, stmts, n, in_loop, fuel + 1) == exec_sequence(
            h,
            state,
            stmts,
            n,
            in_loop,
            fuel,
        ),
    decreases fuel, stmts, n,
{
    if !(n == 0 || n > stmts.len()) {
        let before = exec_sequence(h, state, stmts, (n - 1) as nat, in_loop, fuel);
        if !ran_out(before.result) {
            lemma_sequence_fuel(h, state, stmts, (n - 1) as nat, in_loop, fuel);
            if before.result matches Ok((_, ControlFlow::Normal)) {
                lemma_stmt_fuel(h, before.state, stmts[n - 1], in_loop, fuel);
            }
        }
    }
}

/// **Fuel only bounds.** Fuel decides whether an execution is cut short,
/// and nothing else: a statement that does not run out of fuel does exactly
/// the same with any larger amount.
pub proof fn law_fuel_only_bounds(
    h: HostModel,
    state: State,
    stmt: Statement,
    in_loop: bool,
    fuel: nat,
    more: nat,
)
    requires
        fuel <= more,
        !ran_out(exec_stmt(h, state, stmt, in_loop, fuel).result),
    ensures
        exec_stmt(h, state, stmt, in_loop, more) == exec_stmt(h, state, stmt, in_loop, fuel),
    decreases more - fuel,
{
    if fuel < more {
        law_fuel_only_bounds(h, state, stmt, in_loop, fuel, (more - 1) as nat);
        lemma_stmt_fuel(h, state, stmt, in_loop, (more - 1) as nat);
    }
}

/// **Fuel only bounds, for programs.** A program that does not run out of
/// fuel returns and prints exactly the same with any larger amount.
pub proof fn law_program_fuel(h: HostModel, program: Program, out: Seq<char>, fuel: nat, more: nat)
    requires
        fuel <= more,
        !ran_out(run_program(h, program, out, fuel).0),
    ensures
        run_program(h, program, out, more) == run_program(h, program, out, fuel),
{
    law_fuel_only_bounds(
        h,
        State { env: EnvView::root(program.procedures@), out },
        program.main,
        false,
        fuel,
        more,
    );
}

} // verus!
