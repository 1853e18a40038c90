//! The waiters for outstanding pings: each `PING` sent adds one, each
//! `PONG` received signals the one that has waited longest.

use crate::channel::offer;
use crossbeam_channel::Sender;
use std::collections::VecDeque;
use vstd::prelude::*;

verus! {

/// What one `PONG` does to the waiters `q`: the first waiter is signaled
/// and leaves; where nobody waits, nothing happens.
pub open spec fn after_pong<W>(q: Seq<W>) -> (Option<W>, Seq<W>) {
    if q.len() > 0 {
        (Some(q[0]), q.skip(1))
    } else {
        (None, q)
    }
}

/// The waiters that `k` successive `PONG`s signal, in the order in which
/// they are signaled.
pub open spec fn signaled<W>(q: Seq<W>, k: nat) -> Seq<W>
    decreases k,
{
    if k == 0 {
        Seq::empty()
    } else {
        match after_pong(q).0 {
            Some(w) => seq![w] + signaled(after_pong(q).1, (k - 1) as nat),
            None => Seq::empty(),
        }
    }
}

/// The waiters left after `k` successive `PONG`s.
pub open spec fn left_after<W>(q: Seq<W>, k: nat) -> Seq<W>
    decreases k,
{
    if k == 0 {
        q
    } else {
        left_after(after_pong(q).1, (k - 1) as nat)
    }
}

/// The waiters after each of `added` was enqueued in turn.
pub open spec fn enqueued<W>(q: Seq<W>, added: Seq<W>) -> Seq<W>
    decreases added.len(),
{
    if added.len() == 0 {
        q
    } else {
        enqueued(q.push(added[0]), added.drop_first())
    }
}

/// Enqueuing puts the new waiters behind those that wait already, in the
/// order in which they came.
pub proof fn lemma_enqueued<W>(q: Seq<W>, added: Seq<W>)
    ensures
        enqueued(q, added) == q + added,
    decreases added.len(),
{
    if added.len() == 0 {
        assert(q + added =~= q);
    } else {
        lemma_enqueued(q.push(added[0]), added.drop_first());
        assert(q.push(added[0]) + added.drop_first() =~= q + added);
    }
}

/// `k` successive `PONG`s, with at least `k` waiters, signal the first `k`
/// waiters in their order and leave the others.
pub proof fn lemma_signaled_in_order<W>(q: Seq<W>, k: nat)
    requires
        k <= q.len(),
    ensures
        signaled(q, k) == q.take(k as int),
        left_after(q, k) == q.skip(k as int),
    decreases k,
{
    if k == 0 {
        assert(q.take(0) =~= Seq::<W>::empty());
        assert(q.skip(0) =~= q);
    } else {
        let rest = q.skip(1);
        lemma_signaled_in_order(rest, (k - 1) as nat);
        assert(seq![q[0]] + rest.take(k - 1) =~= q.take(k as int));
        assert(rest.skip(k - 1) =~= q.skip(k as int));
    }
}

/// With `k` pings outstanding, `k` pongs signal the waiters in the order
/// in which the pings were sent, and nobody is left waiting.
pub proof fn lemma_pongs_answer_pings_in_order<W>(waiters: Seq<W>)
    ensures
        signaled(enqueued(Seq::<W>::empty(), waiters), waiters.len()) == waiters,
        left_after(enqueued(Seq::<W>::empty(), waiters), waiters.len()) == Seq::<W>::empty(),
{
    lemma_enqueued(Seq::<W>::empty(), waiters);
    let q = Seq::<W>::empty() + waiters;
    assert(q =~= waiters);
    lemma_signaled_in_order(waiters, waiters.len());
    assert(waiters.take(waiters.len() as int) =~= waiters);
    assert(waiters.skip(waiters.len() as int) =~= Seq::<W>::empty());
}

/// The waiters for outstanding pings, oldest first.
pub struct PongQueue {
    pub waiters: VecDeque<Sender<bool>>,
}

impl View for PongQueue {
    type V = Seq<Sender<bool>>;

    open spec fn view(&self) -> Seq<Sender<bool>> {
        self.waiters@
    }
}

impl PongQueue {
    /// A queue with nobody waiting.
    pub fn new() -> (q: PongQueue)
        ensures
            q@ == Seq::<Sender<bool>>::empty(),
    {
        PongQueue { waiters: VecDeque::new() }
    }

    /// Number of pings that wait for their answer.
    pub fn outstanding(&self) -> (n: usize)
        ensures
            n == self@.len(),
    {
        self.waiters.len()
    }

    /// Records that a `PING` was sent for `waiter`, and tells whether the
    /// link still counts as alive: it does unless more than `max` pings
    /// now wait for their answer.
    pub fn ping_sent(&mut self, waiter: Sender<bool>, max: usize) -> (alive: bool)
        ensures
            final(self)@ == old(self)@.push(waiter),
            alive == (final(self)@.len() <= max),
    {
        self.waiters.push_back(waiter);
        self.waiters.len() <= max
    }

    /// Takes the waiter that has waited longest out of the queue.
    pub fn pop(&mut self) -> (w: Option<Sender<bool>>)
        ensures
            (w, final(self)@) == after_pong(old(self)@),
    {
        let w = self.waiters.pop_front();
        proof {
            if old(self)@.len() > 0 {
                assert(self@ =~= old(self)@.skip(1));
            }
        }
        w
    }

    /// Handles one `PONG`: signals `true` to the waiter that has waited
    /// longest and takes it out of the queue. Returns whether there was a
    /// waiter; a `PONG` that nobody waits for is dropped.
    pub fn pong_received(&mut self) -> (answered: bool)
        ensures
            final(self)@ == after_pong(old(self)@).1,
            answered == after_pong(old(self)@).0 is Some,
    {
        match self.pop() {
            Some(w) => {
                let _ = offer(&w, true);
                true
            },
            None => false,
        }
    }

    /// Signals `false` to every waiter, oldest first, and empties the
    /// queue: the connection is closed and no `PONG` will come. Returns
    /// how many waiters there were.
    pub fn fail_all(&mut self) -> (count: usize)
        ensures
            final(self)@ == Seq::<Sender<bool>>::empty(),
            count == old(self)@.len(),
    {
        let mut count: usize = 0;
        let total = self.waiters.len();
        while self.waiters.len() > 0
            invariant
                total == old(self)@.len(),
                count + self@.len() == total,
                self@ == left_after(old(self)@, count as nat),
            decreases self@.len(),
        {
            proof {
                lemma_signaled_in_order(old(self)@, count as nat);
                lemma_signaled_in_order(old(self)@, (count + 1) as nat);
                assert(old(self)@.skip(count as int).skip(1) =~= old(self)@.skip(count + 1));
            }
            match self.pop() {
                Some(w) => {
                    let _ = offer(&w, false);
                },
                None => {},
            }
            count += 1;
        }
        assert(self@ =~= Seq::<Sender<bool>>::empty());
        count
    }
}

} // verus!
