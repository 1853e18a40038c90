//! The subscription table: which subscription ids are live, what each one
//! listens to, and where its messages go.

use crate::channel::offer;
use crate::text::text_of;
use crate::encoder::{encode, wire_form, ClientOp, ClientOpView};
use crossbeam_channel::Sender;
use vstd::prelude::*;

verus! {

/// A message as it is delivered to a subscription.
#[derive(Debug)]
pub struct Message {
    pub subject: String,
    pub sid: u64,
    pub reply_to: Option<String>,
    pub payload: Vec<u8>,
}

/// One live subscription.
pub struct SubscriptionState {
    pub subject: String,
    /// The queue group, if the subscription belongs to one.
    pub queue: Option<String>,
    /// Where the subscription's messages are handed over.
    pub sender: Sender<Message>,
}

/// A subscription with the id that names it.
pub struct Subscription {
    pub sid: u64,
    pub state: SubscriptionState,
}

/// The live subscriptions, in the order of their ids, and the id that the
/// next subscription gets. The ids grow strictly along the entries, so none
/// occurs twice, and each is below the next id to be given.
pub struct Subscriptions {
    entries: Vec<Subscription>,
    next_sid: u64,
}

impl View for Subscriptions {
    type V = Seq<Subscription>;

    closed spec fn view(&self) -> Seq<Subscription> {
        self.entries@
    }
}

/// The `SUB` operation that announces the subscription `s` to a broker.
pub open spec fn sub_op(s: Subscription) -> ClientOpView {
    ClientOpView::Sub { subject: s.state.subject@, queue_group: text_of(s.state.queue), sid: s.sid }
}

/// The bytes that announce all of `entries` to a broker: one `SUB` frame
/// each, in the order of the entries.
pub open spec fn replay_of(entries: Seq<Subscription>) -> Seq<u8>
    decreases entries.len(),
{
    if entries.len() == 0 {
        Seq::empty()
    } else {
        replay_of(entries.drop_last()) + wire_form(sub_op(entries.last())).unwrap()
    }
}

/// The ids in `entries` grow strictly from each entry to the next.
pub open spec fn ascending(entries: Seq<Subscription>) -> bool {
    forall|i: int, j: int|
        0 <= i < j < entries.len() ==> (#[trigger] entries[i]).sid < (#[trigger] entries[j]).sid
}

impl Subscriptions {
    #[verifier::type_invariant]
    spec fn inv(self) -> bool {
        &&& ascending(self.entries@)
        &&& forall|i: int|
            0 <= i < self.entries@.len() ==> (#[trigger] self.entries@[i]).sid < self.next_sid
    }

    /// The id that the next subscription gets.
    pub closed spec fn upcoming(&self) -> u64 {
        self.next_sid
    }

    /// The table holds a subscription with the id `sid`.
    pub open spec fn has(&self, sid: u64) -> bool {
        exists|i: int| 0 <= i < self@.len() && (#[trigger] self@[i]).sid == sid
    }

    /// An empty table. The first subscription gets the id 1.
    pub fn new() -> (t: Subscriptions)
        ensures
            t@.len() == 0,
            t.upcoming() == 1,
    {
        Subscriptions { entries: Vec::new(), next_sid: 1 }
    }

    /// An empty table whose first subscription gets the id `first`.
    pub fn starting_at(first: u64) -> (t: Subscriptions)
        ensures
            t@.len() == 0,
            t.upcoming() == first,
    {
        Subscriptions { entries: Vec::new(), next_sid: first }
    }

    /// Number of live subscriptions.
    pub fn len(&self) -> (n: usize)
        ensures
            n == self@.len(),
    {
        self.entries.len()
    }

    /// The id that the next subscription gets.
    pub fn next_sid(&self) -> (sid: u64)
        ensures
            sid == self.upcoming(),
    {
        self.next_sid
    }

    /// The entry at the position `i`.
    pub fn get(&self, i: usize) -> (entry: &Subscription)
        requires
            i < self@.len(),
        ensures
            *entry == self@[i as int],
    {
        &self.entries[i]
    }

    /// Where the subscription with the id `sid` stands in the table.
    pub fn find(&self, sid: u64) -> (r: Option<usize>)
        ensures
            match r {
                Some(i) => i < self@.len() && self@[i as int].sid == sid,
                None => !self.has(sid),
            },
    {
        proof {
            use_type_invariant(self);
        }
        let mut low: usize = 0;
        let mut high: usize = self.entries.len();
        while low < high
            invariant
                low <= high <= self.entries@.len(),
                ascending(self.entries@),
                forall|i: int| 0 <= i < low ==> (#[trigger] self.entries@[i]).sid < sid,
                forall|i: int|
                    high <= i < self.entries@.len() ==> (#[trigger] self.entries@[i]).sid > sid,
            decreases high - low,
        {
            let mid = low + (high - low) / 2;
            let at = self.entries[mid].sid;
            if at == sid {
                return Some(mid);
            } else if at < sid {
                low = mid + 1;
            } else {
                high = mid;
            }
        }
        None
    }

    /// Adds a subscription and returns the id given to it, which is larger
    /// than every id given before. `None`, with the table as it was, once
    /// the ids are used up.
    pub fn insert(&mut self, state: SubscriptionState) -> (r: Option<u64>)
        ensures
            match r {
                Some(sid) => sid == old(self).upcoming() && final(self).upcoming() == sid + 1
                    && final(self)@ == old(self)@.push(Subscription { sid, state }),
                None => old(self).upcoming() == u64::MAX && final(self).upcoming() == u64::MAX
                    && final(self)@ == old(self)@,
            },
    {
        proof {
            use_type_invariant(&*self);
        }
        if self.next_sid == u64::MAX {
            return None;
        }
        let sid = self.next_sid;
        let mut entries: Vec<Subscription> = Vec::new();
        core::mem::swap(&mut entries, &mut self.entries);
        entries.push(Subscription { sid, state });
        self.next_sid = sid + 1;
        self.entries = entries;
        Some(sid)
    }

    /// Takes the subscription with the id `sid` out of the table and
    /// returns it; `None`, with the table as it was, where there is none.
    pub fn remove(&mut self, sid: u64) -> (r: Option<SubscriptionState>)
        ensures
            final(self).upcoming() == old(self).upcoming(),
            !final(self).has(sid),
            match r {
                Some(state) => exists|i: int|
                    0 <= i < old(self)@.len() && #[trigger] old(self)@[i] == (Subscription {
                        sid,
                        state,
                    }) && final(self)@ == old(self)@.remove(i),
                None => !old(self).has(sid) && final(self)@ == old(self)@,
            },
    {
        proof {
            use_type_invariant(&*self);
        }
        match self.find(sid) {
            Some(i) => {
                proof {
                    let before = self.entries@;
                    let after = before.remove(i as int);
                    assert forall|a: int, b: int| 0 <= a < b < after.len() implies (
                    #[trigger] after[a]).sid < (#[trigger] after[b]).sid by {
                        let x = if a < i { a } else { a + 1 };
                        let y = if b < i { b } else { b + 1 };
                        assert(after[a] == before[x]);
                        assert(after[b] == before[y]);
                    }
                    assert forall|a: int| 0 <= a < after.len() implies (#[trigger] after[a]).sid
                        < self.next_sid && after[a].sid != sid by {
                        let x = if a < i { a } else { a + 1 };
                        assert(after[a] == before[x]);
                    }
                }
                let mut entries: Vec<Subscription> = Vec::new();
                core::mem::swap(&mut entries, &mut self.entries);
                let entry = entries.remove(i);
                self.entries = entries;
                assert(old(self)@[i as int] == (Subscription { sid, state: entry.state }));
                Some(entry.state)
            },
            None => None,
        }
    }

    /// Offers `message`, without waiting, to the sink of the subscription
    /// that its id names, and tells what became of it. Where no live
    /// subscription has that id, nothing is offered to any sink.
    pub fn deliver(&self, message: Message) -> (outcome: Delivery)
        ensures
            outcome == Delivery::NoSubscription <==> !self.has(message.sid),
            self.has(message.sid) ==> outcome == Delivery::Delivered || outcome
                == Delivery::Refused,
    {
        match self.sink_of(message.sid) {
            Some(sink) => Delivery::of_offer(offer(sink, message)),
            None => Delivery::NoSubscription,
        }
    }

    /// The sink of the subscription with the id `sid`; `None` where no live
    /// subscription has that id.
    pub fn sink_of(&self, sid: u64) -> (r: Option<&Sender<Message>>)
        ensures
            match r {
                Some(sink) => exists|i: int|
                    0 <= i < self@.len() && (#[trigger] self@[i]).sid == sid && *sink
                        == self@[i].state.sender,
                None => !self.has(sid),
            },
    {
        match self.find(sid) {
            Some(i) => Some(&self.entries[i].state.sender),
            None => None,
        }
    }

    /// Appends to `out` the `SUB` frames that announce every live
    /// subscription to a broker, in the order of the ids.
    pub fn replay(&self, out: &mut Vec<u8>)
        ensures
            final(out)@ == old(out)@ + replay_of(self@),
            ascending(self@),
    {
        proof {
            use_type_invariant(self);
        }
        let mut i: usize = 0;
        assert(self.entries@.take(0) =~= Seq::<Subscription>::empty());
        assert(out@ =~= old(out)@ + replay_of(self.entries@.take(0)));
        while i < self.entries.len()
            invariant
                i <= self.entries@.len(),
                out@ == old(out)@ + replay_of(self.entries@.take(i as int)),
            decreases self.entries@.len() - i,
        {
            let entry = &self.entries[i];
            let queue_group = match &entry.state.queue {
                Some(q) => Some(q.as_str()),
                None => None,
            };
            let sent = encode(
                out,
                ClientOp::Sub {
                    subject: entry.state.subject.as_str(),
                    queue_group,
                    sid: entry.sid,
                },
            );
            proof {
                let seen = self.entries@.take(i + 1);
                assert(seen.drop_last() =~= self.entries@.take(i as int));
                assert(seen.last() == self.entries@[i as int]);
                assert(out@ =~= old(out)@ + replay_of(seen));
            }
            i += 1;
        }
        assert(self.entries@.take(self.entries@.len() as int) =~= self.entries@);
    }
}

/// What became of a message that was handed to the subscription table.
#[derive(Clone, Copy, Debug, PartialEq, Eq, Structural)]
pub enum Delivery {
    /// The sink of the message's subscription took the message.
    Delivered,
    /// The message's subscription is live, but its sink did not take the
    /// message: it is full, or its receiver is gone.
    Refused,
    /// No live subscription has the message's id.
    NoSubscription,
}

impl Delivery {
    /// What became of a message that was offered to the sink of its
    /// subscription, given whether the sink took it.
    pub fn of_offer(taken: bool) -> (outcome: Delivery)
        ensures
            outcome == if taken {
                Delivery::Delivered
            } else {
                Delivery::Refused
            },
    {
        if taken {
            Delivery::Delivered
        } else {
            Delivery::Refused
        }
    }
}

} // verus!
