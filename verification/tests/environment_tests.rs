use funk::visitors::environment::{Environment, EnvironmentError};
use funk::visitors::type_checker::types::Type;

fn name(text: &str) -> String {
    text.to_string()
}

#[test]
fn a_new_store_has_one_empty_scope() {
    let environment: Environment<Type> = Environment::new();
    assert_eq!(environment.len(), 1);
    assert_eq!(environment.get(0, &name("x")), Err(EnvironmentError::UndefinedVariable));
    assert_eq!(environment.get_enclosing(0), Err(EnvironmentError::NoEnclosingScope));
}

#[test]
fn get_searches_the_chain_outwards() {
    let mut environment: Environment<Type> = Environment::new();
    environment.declare(0, name("x"), Type::Number);
    let inner = environment.enclose(0);
    let innermost = environment.enclose(inner);
    assert_eq!((inner, innermost), (1, 2));
    assert_eq!(environment.get(innermost, &name("x")), Ok(Type::Number));
    environment.declare(inner, name("x"), Type::String);
    assert_eq!(environment.get(innermost, &name("x")), Ok(Type::String));
    assert_eq!(environment.get(inner, &name("x")), Ok(Type::String));
    assert_eq!(environment.get(0, &name("x")), Ok(Type::Number));
}

#[test]
fn declare_changes_the_scope_given_and_no_other() {
    let mut environment: Environment<Type> = Environment::new();
    let inner = environment.enclose(0);
    environment.declare(inner, name("x"), Type::Boolean);
    assert_eq!(environment.get(inner, &name("x")), Ok(Type::Boolean));
    assert_eq!(environment.get(0, &name("x")), Err(EnvironmentError::UndefinedVariable));
    environment.declare(inner, name("x"), Type::Nil);
    assert_eq!(environment.get(inner, &name("x")), Ok(Type::Nil));
}

#[test]
fn declare_global_reaches_every_enclosing_scope() {
    let mut environment: Environment<Type> = Environment::new();
    let inner = environment.enclose(0);
    let innermost = environment.enclose(inner);
    let beside = environment.enclose(0);
    environment.declare_global(innermost, name("f"), Type::Function);
    assert_eq!(environment.get(innermost, &name("f")), Ok(Type::Function));
    assert_eq!(environment.get(inner, &name("f")), Ok(Type::Function));
    assert_eq!(environment.get(0, &name("f")), Ok(Type::Function));
    assert_eq!(environment.get(beside, &name("f")), Ok(Type::Function));
    environment.declare(0, name("f"), Type::Nil);
    assert_eq!(environment.get(inner, &name("f")), Ok(Type::Function));
}

#[test]
fn assign_overwrites_the_nearest_binding() {
    let mut environment: Environment<Type> = Environment::new();
    environment.declare(0, name("x"), Type::Number);
    let inner = environment.enclose(0);
    assert_eq!(environment.assign(inner, &name("x"), Type::String), Ok(()));
    assert_eq!(environment.get(0, &name("x")), Ok(Type::String));
    environment.declare(inner, name("x"), Type::Nil);
    assert_eq!(environment.assign(inner, &name("x"), Type::Boolean), Ok(()));
    assert_eq!(environment.get(inner, &name("x")), Ok(Type::Boolean));
    assert_eq!(environment.get(0, &name("x")), Ok(Type::String));
}

#[test]
fn assign_makes_no_binding() {
    let mut environment: Environment<Type> = Environment::new();
    let inner = environment.enclose(0);
    assert_eq!(environment.assign(inner, &name("x"), Type::Number), Err(EnvironmentError::UndefinedVariable));
    assert_eq!(environment.get(inner, &name("x")), Err(EnvironmentError::UndefinedVariable));
    assert_eq!(environment.get(0, &name("x")), Err(EnvironmentError::UndefinedVariable));
}

#[test]
fn get_enclosing_gives_the_parent() {
    let mut environment: Environment<Type> = Environment::new();
    let inner = environment.enclose(0);
    let innermost = environment.enclose(inner);
    assert_eq!(environment.get_enclosing(innermost), Ok(inner));
    assert_eq!(environment.get_enclosing(inner), Ok(0));
    assert_eq!(environment.get_enclosing(0), Err(EnvironmentError::NoEnclosingScope));
    assert_eq!(environment.get_enclosing(7), Err(EnvironmentError::NoEnclosingScope));
}

#[test]
fn a_scope_that_is_not_there_binds_nothing() {
    let mut environment: Environment<Type> = Environment::new();
    environment.declare(5, name("x"), Type::Number);
    environment.declare_global(5, name("x"), Type::Number);
    assert_eq!(environment.len(), 1);
    assert_eq!(environment.get(5, &name("x")), Err(EnvironmentError::UndefinedVariable));
    assert_eq!(environment.get(0, &name("x")), Err(EnvironmentError::UndefinedVariable));
    assert_eq!(environment.assign(5, &name("x"), Type::Number), Err(EnvironmentError::UndefinedVariable));
}
