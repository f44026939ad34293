use mscript::environment::Environment;

#[test]
fn env_define_and_get() {
    let mut env: Environment<i64> = Environment::new();
    assert_eq!(env.get("x"), None);
    env.define("x".to_string(), 1);
    env.define("x".to_string(), 2);
    assert_eq!(env.get("x"), Some(&2));
    assert_eq!(env.values.len(), 1);
}

#[test]
fn env_lookup_walks_outward() {
    let mut outer: Environment<i64> = Environment::new();
    outer.define("a".to_string(), 1);
    outer.define("b".to_string(), 2);
    let mut inner = Environment::new_with_enclosing(Some(Box::new(outer)));
    inner.define("b".to_string(), 20);
    assert_eq!(inner.get("a"), Some(&1));
    assert_eq!(inner.get("b"), Some(&20));
    assert_eq!(inner.get("c"), None);
}

#[test]
fn env_assign_updates_nearest_binding() {
    let mut outer: Environment<i64> = Environment::new();
    outer.define("a".to_string(), 1);
    let mut inner = Environment::new_with_enclosing(Some(Box::new(outer)));
    assert_eq!(inner.assign("a", 5), Ok(()));
    assert!(inner.values.is_empty());
    let outer = inner.enclosing.take().unwrap();
    assert_eq!(outer.get("a"), Some(&5));
}

#[test]
fn env_assign_undefined() {
    let mut env: Environment<i64> = Environment::new();
    assert_eq!(env.assign("zz", 1), Err("Undefined variable 'zz'".to_string()));
    assert_eq!(env.get("zz"), None);
}

#[test]
fn env_define_in_child_leaves_parent() {
    let mut outer: Environment<i64> = Environment::new();
    outer.define("v".to_string(), 1);
    let mut inner = Environment::new_with_enclosing(Some(Box::new(outer)));
    inner.define("v".to_string(), 2);
    inner.define("w".to_string(), 3);
    let outer = inner.enclosing.take().unwrap();
    assert_eq!(outer.get("v"), Some(&1));
    assert_eq!(outer.get("w"), None);
}

#[test]
fn env_snapshot_is_independent() {
    let mut outer: Environment<i64> = Environment::new();
    outer.define("a".to_string(), 1);
    let mut env = Environment::new_with_enclosing(Some(Box::new(outer)));
    env.define("b".to_string(), 2);
    let copy = env.snapshot();
    env.assign("a", 10).unwrap();
    env.define("b".to_string(), 20);
    assert_eq!(copy.get("a"), Some(&1));
    assert_eq!(copy.get("b"), Some(&2));
    assert_eq!(env.get("a"), Some(&10));
}

#[test]
fn env_assign_or_define() {
    let mut outer: Environment<i64> = Environment::new();
    outer.define("a".to_string(), 1);
    let mut env = Environment::new_with_enclosing(Some(Box::new(outer)));
    env.assign_or_define("a".to_string(), 7);
    env.assign_or_define("fresh".to_string(), 8);
    assert!(env.values.iter().all(|(n, _)| n != "a"));
    assert_eq!(env.get("fresh"), Some(&8));
    let outer = env.enclosing.take().unwrap();
    assert_eq!(outer.get("a"), Some(&7));
    assert_eq!(outer.get("fresh"), None);
}

#[test]
fn env_scope_push_and_pop() {
    let mut env: Environment<i64> = Environment::new();
    env.define("s".to_string(), 0);
    env.push_scope();
    env.define("i".to_string(), 3);
    env.assign_or_define("s".to_string(), 3);
    assert_eq!(env.get("i"), Some(&3));
    env.pop_scope();
    assert_eq!(env.get("i"), None);
    assert_eq!(env.get("s"), Some(&3));
    env.pop_scope();
    assert_eq!(env.get("s"), None);
    assert!(env.enclosing.is_none());
}
