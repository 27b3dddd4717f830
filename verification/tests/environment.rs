use linger::ast::{Procedure, Statement};
use linger::environment::{Binding, Environment, Mutability};
use linger::error::RuntimeError;
use linger::interpreter::Value;
use linger::number::Number;

fn num(x: f64) -> Value<'static> {
    Value::Num(Number::from_bits(x.to_bits()))
}

fn number(v: Result<Value<'_>, RuntimeError<'_>>) -> f64 {
    match v {
        Ok(Value::Num(n)) => f64::from_bits(n.bits),
        other => panic!("unexpected {:?}", other),
    }
}

#[test]
fn lookup_of_unknown_name_fails() {
    let procedures = vec![];
    let env = Environment::new(&procedures);
    let name = "x".to_string();
    match env.get(&name) {
        Err(RuntimeError::UnknownVariable(n)) => assert_eq!(n, "x"),
        other => panic!("unexpected {:?}", other),
    }
}

#[test]
fn declaration_shadows() {
    let procedures = vec![];
    let mut env = Environment::new(&procedures);
    let name = "x".to_string();
    env.insert_new_mutable_value(&name, num(1.0));
    assert_eq!(number(env.get(&name)), 1.0);
    env.insert_new_constant_value(&name, num(2.0));
    assert_eq!(number(env.get(&name)), 2.0);
    assert_eq!(env.bindings.len(), 2);
    assert_eq!(env.bindings[0].mutability, Mutability::Mutable);
    assert_eq!(env.bindings[1].mutability, Mutability::Constant);
}

#[test]
fn reassignment_overwrites_mutable_binding() {
    let procedures = vec![];
    let mut env = Environment::new(&procedures);
    let x = "x".to_string();
    let y = "y".to_string();
    env.insert_new_mutable_value(&x, num(1.0));
    env.insert_new_mutable_value(&y, num(2.0));
    assert!(env.reassign(&x, num(3.0)).is_ok());
    assert_eq!(number(env.get(&x)), 3.0);
    assert_eq!(number(env.get(&y)), 2.0);
    assert_eq!(env.bindings.len(), 2);
}

#[test]
fn reassignment_of_constant_fails() {
    let procedures = vec![];
    let mut env = Environment::new(&procedures);
    let x = "x".to_string();
    env.insert_new_constant_value(&x, num(1.0));
    match env.reassign(&x, num(3.0)) {
        Err(RuntimeError::ConstantReassignment(n)) => assert_eq!(n, "x"),
        other => panic!("unexpected {:?}", other),
    }
    assert_eq!(number(env.get(&x)), 1.0);
}

#[test]
fn reassignment_of_unknown_name_fails() {
    let procedures = vec![];
    let mut env = Environment::new(&procedures);
    let x = "x".to_string();
    match env.reassign(&x, num(3.0)) {
        Err(RuntimeError::UnknownVariable(n)) => assert_eq!(n, "x"),
        other => panic!("unexpected {:?}", other),
    }
    assert_eq!(env.bindings.len(), 0);
}

#[test]
fn reassignment_goes_to_the_last_binding_of_the_name() {
    let procedures = vec![];
    let mut env = Environment::new(&procedures);
    let x = "x".to_string();
    env.insert_new_mutable_value(&x, num(1.0));
    env.insert_new_mutable_value(&x, num(2.0));
    assert!(env.reassign(&x, num(3.0)).is_ok());
    assert!(matches!(&env.bindings[0].value, Value::Num(n) if f64::from_bits(n.bits) == 1.0));
    assert!(matches!(&env.bindings[1].value, Value::Num(n) if f64::from_bits(n.bits) == 3.0));
}

#[test]
fn procedures_are_found_below_bindings() {
    let procedures = vec![
        Procedure { name: "f".to_string(), params: vec!["a".to_string()], body: Statement::Break },
        Procedure { name: "g".to_string(), params: vec![], body: Statement::Continue },
        Procedure { name: "f".to_string(), params: vec![], body: Statement::Return(None) },
    ];
    let mut env = Environment::new(&procedures);
    let f = "f".to_string();
    let g = "g".to_string();
    match env.get(&f) {
        Ok(Value::Proc(params, body, captured)) => {
            assert_eq!(params.len(), 0);
            assert!(matches!(body, Statement::Return(None)));
            assert_eq!(captured.bindings.len(), 0);
            assert_eq!(captured.procedures.len(), 3);
        }
        other => panic!("unexpected {:?}", other),
    }
    assert!(matches!(env.get(&g), Ok(Value::Proc(_, Statement::Continue, _))));
    assert!(matches!(env.reassign(&g, num(1.0)), Err(RuntimeError::ConstantReassignment(_))));
    env.insert_new_mutable_value(&g, num(1.0));
    assert_eq!(number(env.get(&g)), 1.0);
}

#[test]
fn extend_copies_and_adds() {
    let procedures = vec![];
    let mut env = Environment::new(&procedures);
    let x = "x".to_string();
    let p = "p".to_string();
    env.insert_new_mutable_value(&x, num(1.0));
    let mut frame = env.extend(vec![
        Binding { name: &p, value: num(5.0), mutability: Mutability::Constant },
        Binding { name: &x, value: num(6.0), mutability: Mutability::Constant },
    ]);
    assert_eq!(frame.bindings.len(), 3);
    assert_eq!(number(frame.get(&p)), 5.0);
    assert_eq!(number(frame.get(&x)), 6.0);
    assert!(frame.reassign(&p, num(0.0)).is_err());
    assert_eq!(env.bindings.len(), 1);
    assert_eq!(number(env.get(&x)), 1.0);
}

#[test]
fn copy_is_independent() {
    let procedures = vec![];
    let mut env = Environment::new(&procedures);
    let x = "x".to_string();
    env.insert_new_mutable_value(&x, Value::List(vec![num(1.0)]));
    let mut copy = env.duplicate();
    assert!(copy.reassign(&x, num(2.0)).is_ok());
    assert!(matches!(env.get(&x), Ok(Value::List(items)) if items.len() == 1));
    assert_eq!(number(copy.get(&x)), 2.0);
}

#[test]
fn merge_takes_values_and_drops_additions() {
    let procedures = vec![];
    let mut env = Environment::new(&procedures);
    let x = "x".to_string();
    let y = "y".to_string();
    let z = "z".to_string();
    env.insert_new_mutable_value(&x, num(1.0));
    env.insert_new_mutable_value(&y, num(2.0));
    let mut scope = env.duplicate();
    assert!(scope.reassign(&x, num(10.0)).is_ok());
    scope.insert_new_mutable_value(&y, num(20.0));
    scope.insert_new_mutable_value(&z, num(30.0));
    assert!(scope.reassign(&y, num(21.0)).is_ok());
    env.update_reassigned_entries(&scope);
    assert_eq!(env.bindings.len(), 2);
    assert_eq!(number(env.get(&x)), 10.0);
    assert_eq!(number(env.get(&y)), 2.0);
    assert!(matches!(env.get(&z), Err(RuntimeError::UnknownVariable(_))));
}

#[test]
fn merge_with_unrelated_scope_keeps_values() {
    let procedures = vec![];
    let mut env = Environment::new(&procedures);
    let x = "x".to_string();
    let y = "y".to_string();
    env.insert_new_mutable_value(&x, num(1.0));
    env.insert_new_mutable_value(&y, num(2.0));
    let mut other = Environment::new(&procedures);
    other.insert_new_mutable_value(&y, num(7.0));
    env.update_reassigned_entries(&other);
    assert_eq!(number(env.get(&x)), 1.0);
    assert_eq!(number(env.get(&y)), 2.0);
    let empty = Environment::new(&procedures);
    env.update_reassigned_entries(&empty);
    assert_eq!(number(env.get(&x)), 1.0);
}
