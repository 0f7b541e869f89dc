use knightrs::environment::builder::DEFAULT_CAPACITY;
use knightrs::Builder;
use knightrs::Environment;
use knightrs::Function;
use knightrs::Ids;
use knightrs::Value;

#[test]
fn new_environment_is_empty() {
    let mut ids = Ids::new();
    let env = Environment::new(&mut ids);
    assert_eq!(env.len(), 0);
    assert_eq!(env.id() + 1, ids.next_id());
    assert_eq!(Environment::with_capacity(16, &mut ids).len(), 0);
    assert_eq!(DEFAULT_CAPACITY, 2048);
}

#[test]
fn every_environment_of_a_source_has_its_own_id() {
    let mut ids = Ids::new();
    assert!(!ids.is_spent());
    let first = Environment::new(&mut ids);
    let second = Environment::with_capacity(3, &mut ids);
    let third = Environment::builder().build(&mut ids);
    let fourth = Builder::default().capacity(1).build(&mut ids);
    assert_eq!(second.id(), first.id() + 1);
    assert_eq!(third.id(), first.id() + 2);
    assert_eq!(fourth.id(), first.id() + 3);
    assert_eq!(ids.next_id(), first.id() + 4);
    assert!(!ids.is_spent());
    assert!(first.id() <= i64::MAX as u64);
    assert!(Ids::default().next_id() <= i64::MAX as u64);
}

#[test]
fn environment_remembers_the_capacity_it_was_made_with() {
    let mut ids = Ids::new();
    assert_eq!(Environment::new(&mut ids).capacity(), DEFAULT_CAPACITY);
    assert_eq!(Environment::with_capacity(16, &mut ids).capacity(), 16);
    assert_eq!(Environment::with_capacity(0, &mut ids).capacity(), 0);
    assert_eq!(Builder::new().capacity(5).build(&mut ids).capacity(), 5);
    assert_eq!(Builder::new().build(&mut ids).capacity(), DEFAULT_CAPACITY);
    let mut env = Environment::with_capacity(1, &mut ids);
    let x = env.get("x");
    env.get("y");
    assert!(env.assign(&x, Value::Null));
    assert_eq!(env.capacity(), 1);
    assert_eq!(env.len(), 2);
}

#[test]
fn get_interns_names() {
    let mut env = Environment::new(&mut Ids::new());
    let plato = env.get("plato");
    assert_eq!(plato.name(), "plato");
    assert_eq!(plato.slot(), 0);
    assert_eq!(plato.owner(), env.id());
    assert_eq!(env.len(), 1);
    assert_eq!(env.get("plato"), plato);
    assert!(env.get("plato").same(&plato));
    assert_eq!(env.len(), 1);
    let other = env.get("aristotle");
    assert_ne!(other, plato);
    assert_eq!(other.slot(), 1);
    assert_eq!(env.len(), 2);
    assert_eq!(env.get("plato"), plato);
    assert_eq!(env.get(""), env.get(""));
    assert_eq!(env.len(), 3);
}

#[test]
fn variables_start_unassigned() {
    let mut env = Environment::new(&mut Ids::new());
    let var = env.get("plato");
    assert!(!var.is_assigned(&env));
    assert_eq!(var.fetch(&env), None);
    assert_eq!(env.fetch(&var), None);
}

#[test]
fn assign_then_fetch_through_any_handle() {
    let mut env = Environment::new(&mut Ids::new());
    let var = env.get("plato");
    let var2 = env.get("plato");
    assert!(var.assign(&mut env, Value::Null));
    assert!(var.is_assigned(&env));
    assert!(var2.is_assigned(&env));
    assert_eq!(var.fetch(&env), Some(Value::Null));
    assert_eq!(var2.fetch(&env), Some(Value::Null));
    assert!(var2.assign(&mut env, Value::Number(10)));
    assert_eq!(var.fetch(&env), Some(Value::Number(10)));
    let var3 = env.get("plato");
    assert_eq!(var3.fetch(&env), Some(Value::Number(10)));
}

#[test]
fn assigning_one_variable_leaves_the_others() {
    let mut env = Environment::new(&mut Ids::new());
    let x = env.get("x");
    let y = env.get("y");
    assert!(env.assign(&x, Value::Number(1)));
    assert!(env.assign(&y, Value::Boolean(true)));
    assert!(env.assign(&x, Value::Number(2)));
    assert_eq!(env.fetch(&x), Some(Value::Number(2)));
    assert_eq!(env.fetch(&y), Some(Value::Boolean(true)));
    assert_eq!(env.len(), 2);
}

#[test]
fn variables_can_hold_unevaluated_calls() {
    let mut env = Environment::new(&mut Ids::new());
    let f = env.get("f");
    let block = Value::new_function(
        Function::fetch('+').unwrap(),
        vec![Value::Number(1), Value::Number(2)],
    );
    assert!(env.assign(&f, block.clone()));
    assert_eq!(env.fetch(&f), Some(block));
}

#[test]
fn environments_do_not_share_variables() {
    let mut ids = Ids::new();
    let mut first = Environment::new(&mut ids);
    let mut second = Environment::new(&mut ids);
    let mine = first.get("x");
    let theirs = second.get("x");
    assert_ne!(mine, theirs);
    assert!(!mine.same(&theirs));
    assert!(first.owns(&mine));
    assert!(!first.owns(&theirs));
    assert!(!second.owns(&mine));
    assert!(mine.assign(&mut first, Value::Number(1)));
    assert!(!mine.assign(&mut second, Value::Number(2)));
    assert_eq!(theirs.fetch(&second), None);
    assert_eq!(mine.fetch(&second), None);
    assert_eq!(mine.fetch(&first), Some(Value::Number(1)));
}

#[test]
fn handles_of_a_smaller_environment_are_not_owned() {
    let mut ids = Ids::new();
    let mut big = Environment::new(&mut ids);
    big.get("a");
    let b = big.get("b");
    let mut small = Environment::new(&mut ids);
    small.get("b");
    assert!(!small.owns(&b));
    assert_eq!(small.fetch(&b), None);
    assert!(!small.assign(&b, Value::Null));
    small.get("c");
    assert!(!small.owns(&b));
}

#[test]
fn environments_of_two_sources_are_apart() {
    let mut first = Environment::new(&mut Ids::new());
    let mut second = Environment::new(&mut Ids::new());
    let mine = first.get("x");
    let theirs = second.get("x");
    assert_ne!(first.id(), second.id());
    assert!(!mine.same(&theirs));
    assert!(!second.owns(&mine));
    assert!(!mine.assign(&mut second, Value::Number(5)));
    assert_eq!(theirs.fetch(&second), None);
}
