//! Scopes: the bindings that are visible at one point of an evaluation.

use vstd::prelude::*;
use crate::ast::{names_of, Procedure};
use crate::error::{RuntimeError, RuntimeErrorView};
use crate::interpreter::{duplicate_value, env_view, Value, ValueView};

verus! {

/// Whether a binding may be reassigned.
#[derive(Copy, Clone, Debug, PartialEq, Eq, Structural)]
pub enum Mutability {
    Mutable,
    Constant,
}

/// A name bound to a value.
#[derive(Debug)]
pub struct Binding<'a> {
    pub name: &'a String,
    pub value: Value<'a>,
    pub mutability: Mutability,
}

/// The bindings that are visible at one point of an evaluation, oldest
/// first, above the procedures of the program.
#[derive(Debug)]
pub struct Environment<'a> {
    pub procedures: &'a Vec<Procedure>,
    pub bindings: Vec<Binding<'a>>,
}

/// What a binding is, mathematically.
pub struct BindingView {
    pub name: Seq<char>,
    pub value: ValueView,
    pub mutability: Mutability,
}

/// What an environment is, mathematically.
pub struct EnvView {
    pub procedures: Seq<Procedure>,
    pub bindings: Seq<BindingView>,
}

impl<'a> View for Binding<'a> {
    type V = BindingView;

    open spec fn view(&self) -> BindingView {
        BindingView { name: self.name@, value: self.value@, mutability: self.mutability }
    }
}

impl<'a> View for Environment<'a> {
    type V = EnvView;

    open spec fn view(&self) -> EnvView {
        env_view(*self)
    }
}

/// The index of the last binding of a name, if it has one.
pub open spec fn last_binding(bindings: Seq<BindingView>, name: Seq<char>) -> Option<int>
    decreases bindings.len(),
{
    if bindings.len() == 0 {
        None
    } else if bindings.last().name == name {
        Some(bindings.len() - 1)
    } else {
        last_binding(bindings.drop_last(), name)
    }
}

/// The index of the last procedure of a name, if there is one.
pub open spec fn last_procedure(procedures: Seq<Procedure>, name: Seq<char>) -> Option<int>
    decreases procedures.len(),
{
    if procedures.len() == 0 {
        None
    } else if procedures.last().name@ == name {
        Some(procedures.len() - 1)
    } else {
        last_procedure(procedures.drop_last(), name)
    }
}

impl BindingView {
    /// This binding with another value.
    pub open spec fn with_value(self, value: ValueView) -> BindingView {
        BindingView { name: self.name, value, mutability: self.mutability }
    }
}

impl EnvView {
    /// The environment in which the procedures of a program run: the
    /// procedures themselves, and no binding.
    pub open spec fn root(procedures: Seq<Procedure>) -> EnvView {
        EnvView { procedures, bindings: Seq::empty() }
    }

    /// The value of a procedure of the program: its parameters and body,
    /// closed over the root environment.
    pub open spec fn procedure_value(self, j: int) -> ValueView {
        ValueView::Proc(
            names_of(self.procedures[j].params@),
            self.procedures[j].body,
            EnvView::root(self.procedures),
        )
    }

    /// What a name stands for: the value of its last binding, else the
    /// procedure of that name, else nothing.
    pub open spec fn lookup(self, name: Seq<char>) -> Option<ValueView> {
        match last_binding(self.bindings, name) {
            Some(i) => Some(self.bindings[i].value),
            None => match last_procedure(self.procedures, name) {
                Some(j) => Some(self.procedure_value(j)),
                None => None,
            },
        }
    }

    /// The environment with one more binding, which hides the earlier ones
    /// of its name.
    pub open spec fn declare(self, name: Seq<char>, value: ValueView, mutability: Mutability)
        -> EnvView {
        EnvView {
            procedures: self.procedures,
            bindings: self.bindings.push(BindingView { name, value, mutability }),
        }
    }

    /// The environment after an assignment to a name: its last binding gets
    /// the value, if it is mutable. A constant, and a procedure of the
    /// program, cannot be assigned to; nor can a name that stands for
    /// nothing.
    pub open spec fn reassign(self, name: Seq<char>, value: ValueView) -> Result<
        EnvView,
        RuntimeErrorView,
    > {
        match last_binding(self.bindings, name) {
            Some(i) => if self.bindings[i].mutability == Mutability::Mutable {
                Ok(
                    EnvView {
                        procedures: self.procedures,
                        bindings: self.bindings.update(i, self.bindings[i].with_value(value)),
                    },
                )
            } else {
                Err(RuntimeErrorView::ConstantReassignment(name))
            },
            None => if last_procedure(self.procedures, name) is Some {
                Err(RuntimeErrorView::ConstantReassignment(name))
            } else {
                Err(RuntimeErrorView::UnknownVariable(name))
            },
        }
    }

    /// The environment with more bindings on top, in their order.
    pub open spec fn extend(self, bindings: Seq<BindingView>) -> EnvView {
        EnvView { procedures: self.procedures, bindings: self.bindings + bindings }
    }

    /// The environment after a scope that was opened from it has ended:
    /// each binding takes the value that it has in the scope, and what the
    /// scope added is dropped. A binding that the scope does not hold at the
    /// same place under the same name keeps its value.
    pub open spec fn merge(self, scope: EnvView) -> EnvView {
        EnvView {
            procedures: self.procedures,
            bindings: Seq::new(
                self.bindings.len(),
                |i: int|
                    if i < scope.bindings.len() && scope.bindings[i].name == self.bindings[i].name {
                        self.bindings[i].with_value(scope.bindings[i].value)
                    } else {
                        self.bindings[i]
                    },
            ),
        }
    }

    /// The bindings that call arguments make: each parameter, constant, with
    /// the argument at its place.
    pub open spec fn frame(params: Seq<Seq<char>>, args: Seq<ValueView>) -> Seq<BindingView> {
        Seq::new(
            params.len(),
            |i: int|
                BindingView { name: params[i], value: args[i], mutability: Mutability::Constant },
        )
    }
}

/// The views of a list of bindings.
pub open spec fn bindings_view(bindings: Seq<Binding>) -> Seq<BindingView> {
    Seq::new(bindings.len(), |i: int| bindings[i]@)
}

impl<'a> Binding<'a> {
    /// A copy of this binding.
    pub fn duplicate(&self) -> (r: Binding<'a>)
        ensures
            r@ == self@,
        decreases self,
    {
        Binding {
            name: self.name,
            value: duplicate_value(&self.value),
            mutability: self.mutability,
        }
    }
}

impl<'a> Environment<'a> {
    /// The environment of a program's procedures, with no binding yet.
    pub fn new(procedures: &'a Vec<Procedure>) -> (r: Environment<'a>)
        ensures
            r@ == EnvView::root(procedures@),
    {
        let r = Environment { procedures, bindings: Vec::new() };
        assert(r@.bindings =~= Seq::empty());
        r
    }

    /// The index of the last binding of a name.
    fn find(&self, id: &String) -> (r: Option<usize>)
        ensures
            match r {
                Some(i) => last_binding(self@.bindings, id@) == Some(i as int) && i
                    < self.bindings.len(),
                None => last_binding(self@.bindings, id@) is None,
            },
    {
        let mut i: usize = self.bindings.len();
        assert(self@.bindings.take(i as int) =~= self@.bindings);
        while i > 0
            invariant
                i <= self.bindings.len(),
                last_binding(self@.bindings, id@) == last_binding(
                    self@.bindings.take(i as int),
                    id@,
                ),
            decreases i,
        {
            let ghost prefix = self@.bindings.take(i as int);
            assert(prefix.last() == self@.bindings[i - 1]);
            assert(prefix.drop_last() =~= self@.bindings.take(i - 1));
            if *self.bindings[i - 1].name == *id {
                return Some(i - 1);
            }
            i -= 1;
        }
        assert(self@.bindings.take(0).len() == 0);
        None
    }

    /// The index of the last procedure of a name.
    fn find_procedure(&self, id: &String) -> (r: Option<usize>)
        ensures
            match r {
                Some(j) => last_procedure(self@.procedures, id@) == Some(j as int) && j
                    < self.procedures.len(),
                None => last_procedure(self@.procedures, id@) is None,
            },
    {
        let mut i: usize = self.procedures.len();
        assert(self@.procedures.take(i as int) =~= self@.procedures);
        while i > 0
            invariant
                i <= self.procedures.len(),
                last_procedure(self@.procedures, id@) == last_procedure(
                    self@.procedures.take(i as int),
                    id@,
                ),
            decreases i,
        {
            let ghost prefix = self@.procedures.take(i as int);
            assert(prefix.last() == self@.procedures[i - 1]);
            assert(prefix.drop_last() =~= self@.procedures.take(i - 1));
            if self.procedures[i - 1].name == *id {
                return Some(i - 1);
            }
            i -= 1;
        }
        assert(self@.procedures.take(0).len() == 0);
        None
    }

    /// A copy of what the name stands for; `UnknownVariable` if it stands
    /// for nothing.
    pub fn get(&self, id: &String) -> (r: Result<Value<'a>, RuntimeError<'a>>)
        ensures
            match self@.lookup(id@) {
                Some(v) => r is Ok && r->Ok_0@ == v,
                None => r is Err && r->Err_0@ == RuntimeErrorView::UnknownVariable(id@),
            },
    {
        match self.find(id) {
            Some(i) => Ok(duplicate_value(&self.bindings[i].value)),
            None => match self.find_procedure(id) {
                Some(j) => {
                    let p = &self.procedures[j];
                    Ok(Value::Proc(&p.params, &p.body, Environment::new(self.procedures)))
                },
                None => Err(RuntimeError::UnknownVariable(id.clone())),
            },
        }
    }

    /// Binds the name to the value, as a variable that can be assigned to.
    /// The binding hides the earlier ones of the name.
    pub fn insert_new_mutable_value(&mut self, id: &'a String, value: Value<'a>)
        ensures
            final(self)@ == old(self)@.declare(id@, value@, Mutability::Mutable),
    {
        self.bindings.push(Binding { name: id, value, mutability: Mutability::Mutable });
        assert(self@.bindings =~= old(self)@.declare(
            id@,
            value@,
            Mutability::Mutable,
        ).bindings);
    }

    /// Binds the name to the value, as a constant. The binding hides the
    /// earlier ones of the name.
    pub fn insert_new_constant_value(&mut self, id: &'a String, value: Value<'a>)
        ensures
            final(self)@ == old(self)@.declare(id@, value@, Mutability::Constant),
    {
        self.bindings.push(Binding { name: id, value, mutability: Mutability::Constant });
        assert(self@.bindings =~= old(self)@.declare(
            id@,
            value@,
            Mutability::Constant,
        ).bindings);
    }

    /// Assigns the value to the name: to its last binding, if that is
    /// mutable. Fails with `ConstantReassignment` on a constant or a
    /// procedure of the program, with `UnknownVariable` on a name that stands
    /// for nothing; the environment is then unchanged.
    pub fn reassign(&mut self, id: &String, value: Value<'a>) -> (r: Result<(), RuntimeError<'a>>)
        ensures
            match old(self)@.reassign(id@, value@) {
                Ok(env) => r is Ok && final(self)@ == env,
                Err(e) => r is Err && r->Err_0@ == e && final(self)@ == old(self)@,
            },
    {
        match self.find(id) {
            Some(i) => {
                let name = self.bindings[i].name;
                match self.bindings[i].mutability {
                    Mutability::Mutable => {
                        self.bindings.set(
                            i,
                            Binding { name, value, mutability: Mutability::Mutable },
                        );
                        assert(self@.bindings =~= old(self)@.reassign(
                            id@,
                            value@,
                        )->Ok_0.bindings);
                        Ok(())
                    },
                    Mutability::Constant => Err(RuntimeError::ConstantReassignment(id.clone())),
                }
            },
            None => match self.find_procedure(id) {
                Some(_) => Err(RuntimeError::ConstantReassignment(id.clone())),
                None => Err(RuntimeError::UnknownVariable(id.clone())),
            },
        }
    }

    /// A copy of this environment with the given bindings on top.
    pub fn extend(&self, bindings: Vec<Binding<'a>>) -> (r: Environment<'a>)
        ensures
            r@ == self@.extend(bindings_view(bindings@)),
    {
        let mut r = self.duplicate();
        let mut bindings = bindings;
        let ghost added = bindings_view(bindings@);
        r.bindings.append(&mut bindings);
        assert(r@.bindings =~= self@.bindings + added);
        r
    }

    /// Ends a scope that was opened from this environment: each binding
    /// takes a copy of the value that it has in the scope, and what the
    /// scope added is left behind.
    pub fn update_reassigned_entries(&mut self, scope: &Environment<'a>)
        ensures
            final(self)@ == old(self)@.merge(scope@),
    {
        let mut i: usize = 0;
        while i < self.bindings.len()
            invariant
                i <= self.bindings.len(),
                self.bindings.len() == old(self).bindings.len(),
                self.procedures == old(self).procedures,
                forall|k: int|
                    0 <= k < i ==> (#[trigger] self.bindings[k])@ == old(self)@.merge(
                        scope@,
                    ).bindings[k],
                forall|k: int|
                    i <= k < self.bindings.len() ==> (#[trigger] self.bindings[k]) == old(
                        self,
                    ).bindings[k],
            decreases self.bindings.len() - i,
        {
            if i < scope.bindings.len() && *scope.bindings[i].name == *self.bindings[i].name {
                let name = self.bindings[i].name;
                let mutability = self.bindings[i].mutability;
                let value = duplicate_value(&scope.bindings[i].value);
                self.bindings.set(i, Binding { name, value, mutability });
            }
            i += 1;
        }
        assert(self@.bindings =~= old(self)@.merge(scope@).bindings);
    }

    /// A copy of this environment, independent of it.
    pub fn duplicate(&self) -> (r: Environment<'a>)
        ensures
            r@ == self@,
        decreases self,
    {
        let mut bindings: Vec<Binding<'a>> = Vec::new();
        let mut i: usize = 0;
        while i < self.bindings.len()
            invariant
                i <= self.bindings.len(),
                bindings.len() == i,
                forall|k: int| 0 <= k < i ==> (#[trigger] bindings[k])@ == self.bindings[k]@,
            decreases self.bindings.len() - i,
        {
            let b = self.bindings[i].duplicate();
            bindings.push(b);
            i += 1;
        }
        let r = Environment { procedures: self.procedures, bindings };
        assert(r@.bindings =~= self@.bindings);
        r
    }
}

} // verus!
