//! The bounded history of values that a spline room evaluates.

use vstd::prelude::*;

verus! {

/// How many values a history keeps.
pub const MAX_HISTORY: usize = 100;

/// The last `n` elements of `s`, or all of `s` when it has no more than `n`.
pub open spec fn keep_last(s: Seq<i32>, n: nat) -> Seq<i32> {
    if s.len() <= n {
        s
    } else {
        s.skip(s.len() - n)
    }
}

/// The values pushed into a spline room, oldest first; once the history is
/// full, each new value pushes out the oldest one.
#[derive(Debug)]
pub struct ValueHistory {
    values: Vec<i32>,
}

impl View for ValueHistory {
    type V = Seq<i32>;

    closed spec fn view(&self) -> Seq<i32> {
        self.values@
    }
}

impl ValueHistory {
    /// A history never holds more than `MAX_HISTORY` values.
    #[verifier::type_invariant]
    spec fn bounded(self) -> bool {
        self.values@.len() <= MAX_HISTORY
    }

    /// An empty history.
    pub fn new() -> (r: Self)
        ensures
            r@ == Seq::<i32>::empty(),
    {
        ValueHistory { values: Vec::new() }
    }

    /// The number of values held.
    pub fn len(&self) -> (r: usize)
        ensures
            r == self@.len(),
            r <= MAX_HISTORY,
    {
        proof {
            use_type_invariant(self);
        }
        self.values.len()
    }

    /// The most recent value, if any.
    pub fn latest(&self) -> (r: Option<i32>)
        ensures
            r == (if self@.len() == 0 { None } else { Some(self@.last()) }),
    {
        if self.values.len() == 0 {
            None
        } else {
            Some(self.values[self.values.len() - 1])
        }
    }

    /// Record a value; when the history is full the oldest value is dropped.
    pub fn push_value(&mut self, value: i32)
        ensures
            final(self)@ == keep_last(old(self)@.push(value), MAX_HISTORY as nat),
            final(self)@.len() <= MAX_HISTORY,
    {
        proof {
            use_type_invariant(&*self);
        }
        let mut values: Vec<i32> = Vec::new();
        std::mem::swap(&mut values, &mut self.values);
        let ghost before = values@;
        if values.len() >= MAX_HISTORY {
            values.remove(0);
        }
        values.push(value);
        assert(values@ =~= keep_last(before.push(value), MAX_HISTORY as nat));
        self.values = values;
    }

    /// Record values in order; the history then holds the most recent
    /// `MAX_HISTORY` of everything pushed so far.
    pub fn push_values(&mut self, values: &[i32])
        ensures
            final(self)@ == keep_last(old(self)@ + values@, MAX_HISTORY as nat),
            final(self)@.len() <= MAX_HISTORY,
    {
        proof {
            use_type_invariant(&*self);
        }
        let ghost start = self@;
        let mut k: usize = 0;
        while k < values.len()
            invariant
                k <= values.len(),
                start.len() <= MAX_HISTORY,
                self@.len() <= MAX_HISTORY,
                self@ == keep_last(start + values@.take(k as int), MAX_HISTORY as nat),
            decreases values.len() - k,
        {
            let ghost s = start + values@.take(k as int);
            self.push_value(values[k]);
            assert(s.push(values@[k as int]) =~= start + values@.take(k + 1));
            proof {
                lemma_keep_last_push(s, values@[k as int], MAX_HISTORY as nat);
            }
            k += 1;
        }
        assert(values@.take(values.len() as int) =~= values@);
    }
}

impl Clone for ValueHistory {
    /// A copy holding the same values.
    fn clone(&self) -> (r: Self)
        ensures
            r@ == self@,
    {
        proof {
            use_type_invariant(self);
        }
        let mut values: Vec<i32> = Vec::new();
        let mut k: usize = 0;
        while k < self.values.len()
            invariant
                k <= self.values@.len() <= MAX_HISTORY,
                values@ == self.values@.take(k as int),
            decreases self.values@.len() - k,
        {
            values.push(self.values[k]);
            assert(values@ =~= self.values@.take(k + 1));
            k += 1;
        }
        assert(values@ =~= self.values@);
        ValueHistory { values }
    }
}

proof fn lemma_keep_last_push(s: Seq<i32>, v: i32, n: nat)
    requires
        n > 0,
    ensures
        keep_last(keep_last(s, n).push(v), n) == keep_last(s.push(v), n),
{
    if s.len() <= n {
    } else {
        assert(keep_last(s, n).push(v).skip(1) =~= s.push(v).skip(s.push(v).len() - n));
    }
}

} // verus!
