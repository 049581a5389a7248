use vstd::prelude::*;

verus! {

/// The counter's durable cell: the stored scalar, or nothing while the key
/// has never been written.
#[derive(Clone, Copy, Debug, PartialEq, Eq)]
pub struct Counter {
    pub stored: Option<u32>,
}

impl Counter {
    /// The counter's value: the stored scalar, 0 while nothing is stored.
    pub open spec fn value(self) -> nat {
        match self.stored {
            Some(v) => v as nat,
            None => 0,
        }
    }

    /// The cell after `increment`.
    pub open spec fn after_increment(self) -> Counter {
        Counter { stored: Some((self.value() + 1) as u32) }
    }

    /// The cell after `decrement`: one less, and 0 stays 0.
    pub open spec fn after_decrement(self) -> Counter {
        Counter {
            stored: Some(
                if self.value() == 0 {
                    0
                } else {
                    (self.value() - 1) as u32
                },
            ),
        }
    }

    /// The cell after `reset`.
    pub open spec fn after_reset(self) -> Counter {
        Counter { stored: Some(0) }
    }

    /// The cell after `n` calls of `increment` in a row.
    pub open spec fn after_increments(self, n: nat) -> Counter
        decreases n,
    {
        if n == 0 {
            self
        } else {
            self.after_increments((n - 1) as nat).after_increment()
        }
    }

    /// A cell that has never been written.
    pub fn new() -> (env: Counter)
        ensures
            env.stored == None::<u32>,
            env.value() == 0,
    {
        Counter { stored: None }
    }
}

impl Default for Counter {
    /// A cell that has never been written.
    fn default() -> (env: Counter)
        ensures
            env.stored == None::<u32>,
            env.value() == 0,
    {
        Counter::new()
    }
}

/// The counter state machine.
pub struct IncrementContract;

impl IncrementContract {
    /// Adds one to the value, stores it and returns it.
    ///
    /// The value must leave room for one more.
    pub fn increment(env: &mut Counter) -> (v: u32)
        requires
            old(env).value() < u32::MAX,
        ensures
            *final(env) == old(env).after_increment(),
            v == old(env).value() + 1,
            v == final(env).value(),
    {
        let next: u32 = Self::get_current_value(env) + 1;
        env.stored = Some(next);
        next
    }

    /// Takes one from the value, stores it and returns it; at 0 it stores
    /// and returns 0.
    pub fn decrement(env: &mut Counter) -> (v: u32)
        ensures
            *final(env) == old(env).after_decrement(),
            v == final(env).value(),
            old(env).value() == 0 ==> v == 0,
            old(env).value() > 0 ==> v == old(env).value() - 1,
    {
        let current: u32 = Self::get_current_value(env);
        let next: u32 = if current == 0 {
            0
        } else {
            current - 1
        };
        env.stored = Some(next);
        next
    }

    /// Reads the value without writing.
    pub fn get_current_value(env: &Counter) -> (v: u32)
        ensures
            v == env.value(),
    {
        match env.stored {
            Some(v) => v,
            None => 0,
        }
    }

    /// Stores 0 and returns it.
    pub fn reset(env: &mut Counter) -> (v: u32)
        ensures
            *final(env) == old(env).after_reset(),
            v == 0,
            final(env).value() == 0,
    {
        env.stored = Some(0);
        0
    }
}

/// After `n` increments in a row the value is `n` more than before, as long
/// as it fits the counter's width.
pub proof fn lemma_increments_add_up(start: Counter, n: nat)
    requires
        start.value() + n <= u32::MAX,
    ensures
        start.after_increments(n).value() == start.value() + n,
    decreases n,
{
    if n > 0 {
        lemma_increments_add_up(start, (n - 1) as nat);
    }
}

/// From a cell that reads 0, the `k`-th increment in a row returns `k`: the
/// results start at 1 and each is one more than the one before.
pub proof fn lemma_increments_count_from_one(start: Counter, k: nat)
    requires
        start.value() == 0,
        1 <= k <= u32::MAX,
    ensures
        start.after_increments(k).value() == k,
        start.after_increments(k).value() == start.after_increments((k - 1) as nat).value() + 1,
{
    lemma_increments_add_up(start, k);
    lemma_increments_add_up(start, (k - 1) as nat);
}

/// Whatever came before, after a reset the value reads 0, and it stays 0
/// under a decrement.
pub proof fn lemma_reset_forgets(before: Counter)
    ensures
        before.after_reset().value() == 0,
        before.after_reset() == (Counter { stored: None }).after_reset(),
        before.after_reset().after_decrement().value() == 0,
{
}

} // verus!
