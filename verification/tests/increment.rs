use rwa_contracts::Counter;
use rwa_contracts::IncrementContract;

#[test]
fn test() {
    let mut env = Counter::default();

    assert_eq!(IncrementContract::increment(&mut env), 1);
    assert_eq!(IncrementContract::increment(&mut env), 2);
    assert_eq!(IncrementContract::increment(&mut env), 3);
}

#[test]
fn test_increment() {
    let mut env = Counter::default();

    assert_eq!(IncrementContract::increment(&mut env), 1);
    assert_eq!(IncrementContract::increment(&mut env), 2);
    assert_eq!(IncrementContract::increment(&mut env), 3);
}

#[test]
fn test_get_current_value() {
    let mut env = Counter::default();

    assert_eq!(IncrementContract::get_current_value(&env), 0);
    IncrementContract::increment(&mut env);
    assert_eq!(IncrementContract::get_current_value(&env), 1);
    IncrementContract::increment(&mut env);
    assert_eq!(IncrementContract::get_current_value(&env), 2);
}

#[test]
fn test_decrement() {
    let mut env = Counter::default();

    assert_eq!(IncrementContract::decrement(&mut env), 0); // initial value is 0
    IncrementContract::increment(&mut env);
    IncrementContract::increment(&mut env);
    assert_eq!(IncrementContract::decrement(&mut env), 1);
    assert_eq!(IncrementContract::decrement(&mut env), 0);
    assert_eq!(IncrementContract::decrement(&mut env), 0); // should not go below 0
}

#[test]
fn test_reset() {
    let mut env = Counter::default();

    IncrementContract::increment(&mut env);
    IncrementContract::increment(&mut env);
    assert_eq!(IncrementContract::get_current_value(&env), 2);
    assert_eq!(IncrementContract::reset(&mut env), 0);
    assert_eq!(IncrementContract::get_current_value(&env), 0);
}

#[test]
fn increments_then_read() {
    let mut env = Counter::default();
    let results = [
        IncrementContract::increment(&mut env),
        IncrementContract::increment(&mut env),
        IncrementContract::increment(&mut env),
    ];
    assert_eq!(results, [1, 2, 3]);
    assert_eq!(IncrementContract::get_current_value(&env), 3);
}

#[test]
fn up_twice_down_thrice() {
    let mut env = Counter::default();
    assert_eq!(IncrementContract::decrement(&mut env), 0);
    let results = [
        IncrementContract::increment(&mut env),
        IncrementContract::increment(&mut env),
        IncrementContract::decrement(&mut env),
        IncrementContract::decrement(&mut env),
        IncrementContract::decrement(&mut env),
    ];
    assert_eq!(results, [1, 2, 1, 0, 0]);
}

#[test]
fn each_increment_is_one_more() {
    let mut env = Counter::default();
    let mut previous = 0;
    for _ in 0..1000 {
        let next = IncrementContract::increment(&mut env);
        assert_eq!(next, previous + 1);
        previous = next;
    }
    assert_eq!(IncrementContract::get_current_value(&env), 1000);
}

#[test]
fn a_fresh_cell_holds_nothing_and_reads_zero() {
    let env = Counter::new();
    assert_eq!(env, Counter::default());
    assert_eq!(env.stored, None);
    assert_eq!(IncrementContract::get_current_value(&env), 0);
}

#[test]
fn decrement_at_zero_writes_zero() {
    let mut env = Counter::default();
    assert_eq!(IncrementContract::decrement(&mut env), 0);
    assert_eq!(env.stored, Some(0));
    assert_eq!(IncrementContract::decrement(&mut env), 0);
    assert_eq!(env.stored, Some(0));
}

#[test]
fn reset_forgets_the_history() {
    let mut env = Counter { stored: Some(4_000_000_000) };
    assert_eq!(IncrementContract::reset(&mut env), 0);
    assert_eq!(env.stored, Some(0));
    assert_eq!(IncrementContract::get_current_value(&env), 0);

    let mut fresh = Counter::new();
    assert_eq!(IncrementContract::reset(&mut fresh), 0);
    assert_eq!(fresh, env);
}

#[test]
fn increment_reaches_the_last_value() {
    let mut env = Counter { stored: Some(u32::MAX - 1) };
    assert_eq!(IncrementContract::increment(&mut env), u32::MAX);
    assert_eq!(IncrementContract::decrement(&mut env), u32::MAX - 1);
}
