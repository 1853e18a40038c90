//! The state that the callers and the two workers of one client share, and
//! what each event does to it.

use crate::connect::FinalizedOptions;
use crate::decoder::{ServerOp, ServerOpView};
use crate::encoder::{wire_form, ClientOp, ClientOpView};
use crate::error::{Error, ErrorKind, ErrorView};
use crate::lifecycle::{
    shutdown_action, shutdown_duty, status_after, ConnectionEvent, ConnectionStatus,
    ShutdownAction,
};
use crate::outbound::Outbound;
use crate::pongs::{after_pong, PongQueue};
use crate::server::{address_ok, server_of, server_views, Server, ServerView};
use crate::text::texts;
use crate::subs::{
    replay_of, sub_op, Delivery, Message, Subscription, SubscriptionState, Subscriptions,
};
use crossbeam_channel::Sender;
use vstd::prelude::*;

verus! {

/// One of `known` has the address `url`.
pub open spec fn knows(known: Seq<ServerView>, url: Seq<char>) -> bool {
    exists|i: int| 0 <= i < known.len() && (#[trigger] known[i]).url == url
}

/// The servers known once the addresses `urls` were learned: each address
/// that is accepted and names a server not yet known adds that server at
/// the end, in the order of the addresses.
pub open spec fn merged(known: Seq<ServerView>, urls: Seq<Seq<char>>) -> Seq<ServerView>
    decreases urls.len(),
{
    if urls.len() == 0 {
        known
    } else {
        let before = merged(known, urls.drop_last());
        let url = urls.last();
        if address_ok(url) && !knows(before, server_of(url).url) {
            before.push(server_of(url))
        } else {
            before
        }
    }
}

fn is_known(known: &Vec<Server>, url: &String) -> (b: bool)
    ensures
        b == knows(server_views(known@), url@),
{
    let mut i: usize = 0;
    while i < known.len()
        invariant
            i <= known.len(),
            forall|j: int| 0 <= j < i ==> (#[trigger] server_views(known@)[j]).url != url@,
        decreases known.len() - i,
    {
        if known[i].url == *url {
            assert(server_views(known@)[i as int].url == url@);
            return true;
        }
        i += 1;
    }
    false
}

/// Adds to `known` the servers that the addresses `urls` name and that are
/// not known yet, and returns how many were added.
pub fn learn_servers(known: &mut Vec<Server>, urls: &Vec<String>) -> (added: usize)
    ensures
        server_views(final(known)@) == merged(server_views(old(known)@), texts(urls@)),
        final(known)@.len() == old(known)@.len() + added,
{
    let mut added: usize = 0;
    let mut i: usize = 0;
    assert(texts(urls@).take(0) =~= Seq::<Seq<char>>::empty());
    while i < urls.len()
        invariant
            i <= urls.len(),
            added <= i,
            known@.len() == old(known)@.len() + added,
            server_views(known@) == merged(server_views(old(known)@), texts(urls@).take(i as int)),
        decreases urls.len() - i,
    {
        proof {
            let seen = texts(urls@).take(i + 1);
            assert(seen.drop_last() =~= texts(urls@).take(i as int));
            assert(seen.last() == urls@[i as int]@);
        }
        match Server::new(urls[i].as_str()) {
            Ok(server) => {
                if !is_known(known, &server.url) {
                    let ghost before = known@;
                    known.push(server);
                    assert(server_views(known@) =~= server_views(before).push(server@));
                    added += 1;
                }
            },
            Err(_) => {},
        }
        i += 1;
    }
    assert(texts(urls@).take(urls.len() as int) =~= texts(urls@));
    added
}

/// Makes a new client id.
///
/// Calls `nuid::next`, which returns an id of 22 characters drawn at
/// random; nothing else is promised of it.
#[verifier::external_body]
fn fresh_id() -> (id: String)
    ensures
        id@.len() == 22,
{
    nuid::next().to_string()
}

/// What the inbound worker did with one operation of the broker.
#[derive(Clone, Copy, Debug, PartialEq, Eq, Structural)]
pub enum Reaction {
    /// A message was handed to its subscription.
    Delivered,
    /// A message was dropped: its subscription is gone or did not take it.
    Dropped,
    /// A `PONG` was put into the outbound buffer in answer to a `PING`.
    PongQueued,
    /// A `PONG` of the broker was signaled to the waiter of the oldest
    /// outstanding ping.
    Answered,
    /// A `PONG` came that no ping waited for.
    Unmatched,
    /// An `INFO` came; so many servers were new.
    Learned(usize),
    /// The broker's error was stored as the last error.
    ErrorStored,
    /// The operation is unknown and was passed over.
    Ignored,
}

impl Reaction {
    /// How the inbound worker reports what became of a message: it was
    /// delivered, or else it was dropped, whatever the reason.
    pub fn for_delivery(outcome: Delivery) -> (reaction: Reaction)
        ensures
            reaction == if outcome == Delivery::Delivered {
                Reaction::Delivered
            } else {
                Reaction::Dropped
            },
    {
        match outcome {
            Delivery::Delivered => Reaction::Delivered,
            Delivery::Refused => Reaction::Dropped,
            Delivery::NoSubscription => Reaction::Dropped,
        }
    }
}

/// The state of one client.
pub struct SharedState {
    pub options: FinalizedOptions,
    /// Identifies this client; drawn at random.
    pub id: String,
    /// Set by the first call of `shut_down`, never cleared.
    pub shutting_down: bool,
    /// The latest error that was fatal to the connection; cleared when a
    /// reconnection succeeds.
    pub last_error: Option<Error>,
    pub subs: Subscriptions,
    pub pongs: PongQueue,
    pub outbound: Outbound,
    pub status: ConnectionStatus,
    /// The servers of the cluster: those configured, then those learned.
    pub servers: Vec<Server>,
}

/// The error that the broker's `-ERR` with the text `text` is stored as.
pub open spec fn broker_error(text: Seq<char>) -> ErrorView {
    ErrorView { kind: ErrorKind::ConnectionRefused, message: text }
}

/// The error stored when the connection drops.
pub open spec fn connection_dropped() -> ErrorView {
    ErrorView { kind: ErrorKind::Disconnected, message: "the connection was lost"@ }
}

/// The error that every operation gets once the client shuts down.
pub open spec fn is_shutdown_error(e: Error) -> bool {
    e.kind == ErrorKind::Shutdown
}

fn shutdown_error() -> (e: Error)
    ensures
        is_shutdown_error(e),
{
    Error::new(ErrorKind::Shutdown, "the client is shut down")
}

impl SharedState {
    /// The state of a client whose first handshake has just succeeded:
    /// connected, not shutting down, without error, subscription or
    /// outstanding ping, and with nothing to write.
    pub fn new(options: FinalizedOptions, servers: Vec<Server>) -> (state: SharedState)
        ensures
            state.options == options,
            state.servers == servers,
            state.id@.len() == 22,
            !state.shutting_down,
            state.last_error is None,
            state.subs@.len() == 0,
            state.subs.upcoming() == 1,
            state.pongs@.len() == 0,
            state.outbound@.len() == 0,
            state.status == ConnectionStatus::Connected,
    {
        SharedState {
            options,
            id: fresh_id(),
            shutting_down: false,
            last_error: None,
            subs: Subscriptions::new(),
            pongs: PongQueue::new(),
            outbound: Outbound::new(),
            status: ConnectionStatus::Connected,
            servers,
        }
    }

    /// Starts the shutdown. The first call sets the flag and tells its
    /// caller to stop the workers; every later call finds the flag set and
    /// has nothing to do. Nothing else changes.
    pub fn shut_down(&mut self) -> (action: ShutdownAction)
        ensures
            final(self).shutting_down,
            action == shutdown_duty(old(self).shutting_down),
            *final(self) == (SharedState { shutting_down: true, ..*old(self) }),
    {
        let was = self.shutting_down;
        self.shutting_down = true;
        shutdown_action(was)
    }

    /// Puts the frame of `op` into the outbound buffer, unless the client
    /// shuts down.
    pub fn enqueue(&mut self, op: ClientOp<'_>) -> (r: Result<(), Error>)
        ensures
            final(self).subs == old(self).subs,
            final(self).pongs == old(self).pongs,
            final(self).shutting_down == old(self).shutting_down,
            final(self).status == old(self).status,
            if old(self).shutting_down {
                &&& r matches Err(e) && is_shutdown_error(e)
                &&& final(self).outbound@ == old(self).outbound@
            } else {
                match wire_form(op@) {
                    Some(frame) => r is Ok && final(self).outbound@ == old(self).outbound@ + frame,
                    None => r matches Err(e) && e.kind == ErrorKind::InvalidInput
                        && final(self).outbound@ == old(self).outbound@,
                }
            },
    {
        if self.shutting_down {
            return Err(shutdown_error());
        }
        self.outbound.enqueue(op)
    }

    /// Adds a subscription: its `SUB` frame goes into the outbound buffer
    /// and the subscription into the table, under a new id, which is
    /// returned. Fails, and changes nothing, where the client shuts down or
    /// the ids are used up.
    pub fn subscribe(
        &mut self,
        subject: String,
        queue: Option<String>,
        sender: Sender<Message>,
    ) -> (r: Result<u64, Error>)
        ensures
            final(self).pongs == old(self).pongs,
            final(self).shutting_down == old(self).shutting_down,
            match r {
                Ok(sid) => {
                    let added = Subscription {
                        sid,
                        state: SubscriptionState { subject, queue, sender },
                    };
                    &&& !old(self).shutting_down
                    &&& sid == old(self).subs.upcoming()
                    &&& final(self).subs.upcoming() == sid + 1
                    &&& final(self).subs@ == old(self).subs@.push(added)
                    &&& final(self).outbound@ == old(self).outbound@ + wire_form(
                        sub_op(added),
                    ).unwrap()
                },
                Err(e) => {
                    &&& final(self).subs == old(self).subs
                    &&& final(self).outbound@ == old(self).outbound@
                    &&& if old(self).shutting_down {
                        is_shutdown_error(e)
                    } else {
                        old(self).subs.upcoming() == u64::MAX && e.kind == ErrorKind::InvalidInput
                    }
                },
            },
    {
        if self.shutting_down {
            return Err(shutdown_error());
        }
        if self.subs.next_sid() == u64::MAX {
            return Err(Error::new(ErrorKind::InvalidInput, "the subscription ids are used up"));
        }
        let sid = self.subs.next_sid();
        let queue_group = match &queue {
            Some(q) => Some(q.as_str()),
            None => None,
        };
        let sent = self.outbound.enqueue(
            ClientOp::Sub { subject: subject.as_str(), queue_group, sid },
        );
        let given = self.subs.insert(SubscriptionState { subject, queue, sender });
        Ok(sid)
    }

    /// Cancels the subscription `sid`: takes it out of the table and puts
    /// its `UNSUB` frame into the outbound buffer. Returns whether there
    /// was such a subscription; where there was none, nothing changes.
    pub fn unsubscribe(&mut self, sid: u64) -> (r: Result<bool, Error>)
        ensures
            final(self).pongs == old(self).pongs,
            final(self).shutting_down == old(self).shutting_down,
            final(self).subs.upcoming() == old(self).subs.upcoming(),
            match r {
                Ok(found) => {
                    &&& !old(self).shutting_down
                    &&& found == old(self).subs.has(sid)
                    &&& !final(self).subs.has(sid)
                    &&& final(self).outbound@ == old(self).outbound@ + if found {
                        wire_form(ClientOpView::Unsub { sid, max_msgs: None }).unwrap()
                    } else {
                        Seq::empty()
                    }
                },
                Err(e) => {
                    &&& old(self).shutting_down
                    &&& is_shutdown_error(e)
                    &&& final(self).subs == old(self).subs
                    &&& final(self).outbound@ == old(self).outbound@
                },
            },
    {
        if self.shutting_down {
            return Err(shutdown_error());
        }
        match self.subs.remove(sid) {
            Some(_) => {
                let sent = self.outbound.enqueue(ClientOp::Unsub { sid, max_msgs: None });
                Ok(true)
            },
            None => {
                assert(self.outbound@ + Seq::<u8>::empty() =~= self.outbound@);
                Ok(false)
            },
        }
    }

    /// Sends a `PING` for `waiter`: the frame goes into the outbound buffer
    /// and the waiter to the end of the queue. Returns whether the link
    /// still counts as alive, which it does unless more pings than the
    /// options allow now wait for their answer.
    pub fn ping(&mut self, waiter: Sender<bool>) -> (r: Result<bool, Error>)
        ensures
            final(self).subs == old(self).subs,
            final(self).shutting_down == old(self).shutting_down,
            match r {
                Ok(alive) => {
                    &&& !old(self).shutting_down
                    &&& final(self).outbound@ == old(self).outbound@ + wire_form(
                        ClientOpView::Ping,
                    ).unwrap()
                    &&& final(self).pongs@ == old(self).pongs@.push(waiter)
                    &&& alive == (final(self).pongs@.len()
                        <= old(self).options.max_outstanding_pings)
                },
                Err(e) => {
                    &&& old(self).shutting_down
                    &&& is_shutdown_error(e)
                    &&& final(self).outbound@ == old(self).outbound@
                    &&& final(self).pongs == old(self).pongs
                },
            },
    {
        if self.shutting_down {
            return Err(shutdown_error());
        }
        let sent = self.outbound.enqueue(ClientOp::Ping);
        Ok(self.pongs.ping_sent(waiter, self.options.max_outstanding_pings))
    }

    /// Handles one operation that the broker sent.
    ///
    /// A message goes to its subscription, or is dropped where that is
    /// gone. A `PING` is answered with a `PONG` in the outbound buffer. A
    /// `PONG` is signaled to the oldest waiter. The addresses of an `INFO`
    /// are added to the known servers. An error is stored as the last
    /// error. Anything unknown is passed over.
    pub fn on_server_op(&mut self, op: ServerOp) -> (reaction: Reaction)
        ensures
            final(self).subs == old(self).subs,
            final(self).shutting_down == old(self).shutting_down,
            final(self).status == old(self).status,
            match op@ {
                ServerOpView::Msg { subject, sid, reply_to, payload } => {
                    &&& *final(self) == *old(self)
                    &&& reaction == Reaction::Delivered || reaction == Reaction::Dropped
                    &&& !old(self).subs.has(sid) ==> reaction == Reaction::Dropped
                },
                ServerOpView::Ping => {
                    &&& reaction == Reaction::PongQueued
                    &&& final(self).outbound@ == old(self).outbound@ + wire_form(
                        ClientOpView::Pong,
                    ).unwrap()
                    &&& final(self).pongs == old(self).pongs
                    &&& final(self).servers == old(self).servers
                    &&& final(self).last_error == old(self).last_error
                },
                ServerOpView::Pong => {
                    &&& reaction == if old(self).pongs@.len() > 0 {
                        Reaction::Answered
                    } else {
                        Reaction::Unmatched
                    }
                    &&& final(self).pongs@ == after_pong(old(self).pongs@).1
                    &&& final(self).outbound == old(self).outbound
                    &&& final(self).servers == old(self).servers
                    &&& final(self).last_error == old(self).last_error
                },
                ServerOpView::Info(info) => {
                    &&& server_views(final(self).servers@) == merged(
                        server_views(old(self).servers@),
                        info.connect_urls,
                    )
                    &&& reaction == Reaction::Learned(
                        (final(self).servers@.len() - old(self).servers@.len()) as usize,
                    )
                    &&& final(self).outbound == old(self).outbound
                    &&& final(self).pongs == old(self).pongs
                    &&& final(self).last_error == old(self).last_error
                },
                ServerOpView::Error(text) => {
                    &&& reaction == Reaction::ErrorStored
                    &&& final(self).last_error matches Some(e) && e@ == broker_error(text)
                    &&& final(self).outbound == old(self).outbound
                    &&& final(self).pongs == old(self).pongs
                    &&& final(self).servers == old(self).servers
                },
                ServerOpView::Unknown(_) => {
                    &&& *final(self) == *old(self)
                    &&& reaction == Reaction::Ignored
                },
            },
    {
        match op {
            ServerOp::Msg { subject, sid, reply_to, payload } => {
                Reaction::for_delivery(
                    self.subs.deliver(Message { subject, sid, reply_to, payload }),
                )
            },
            ServerOp::Ping => {
                let sent = self.outbound.enqueue(ClientOp::Pong);
                Reaction::PongQueued
            },
            ServerOp::Pong => {
                if self.pongs.pong_received() {
                    Reaction::Answered
                } else {
                    Reaction::Unmatched
                }
            },
            ServerOp::Info(info) => {
                let added = learn_servers(&mut self.servers, &info.connect_urls);
                Reaction::Learned(added)
            },
            ServerOp::Error(text) => {
                self.last_error = Some(Error { kind: ErrorKind::ConnectionRefused, message: text });
                Reaction::ErrorStored
            },
            ServerOp::Unknown(_) => Reaction::Ignored,
        }
    }

    /// Tells whether callers should hold back: the client is reconnecting
    /// and more bytes wait than the options allow for that time.
    pub fn must_wait(&self) -> (b: bool)
        ensures
            b == (self.status == ConnectionStatus::Reconnecting && self.outbound@.len()
                > self.options.reconnect_buffer_size),
    {
        self.status == ConnectionStatus::Reconnecting && self.outbound.over(
            self.options.reconnect_buffer_size,
        )
    }

    /// Records that the stream ended or failed: the client is now
    /// reconnecting, the loss becomes the last error, and every waiter for
    /// a `PONG` is signaled `false`, since no answer can come any more.
    /// Returns how many waiters there were. Does nothing once the
    /// connection is closed.
    pub fn connection_lost(&mut self) -> (waiters: usize)
        ensures
            final(self).subs == old(self).subs,
            final(self).outbound == old(self).outbound,
            final(self).shutting_down == old(self).shutting_down,
            final(self).servers == old(self).servers,
            final(self).status == status_after(old(self).status, ConnectionEvent::Lost),
            if old(self).status == ConnectionStatus::Closed {
                *final(self) == *old(self) && waiters == 0
            } else {
                &&& final(self).last_error matches Some(e) && e@ == connection_dropped()
                &&& final(self).pongs@.len() == 0
                &&& waiters == old(self).pongs@.len()
            },
    {
        if self.status == ConnectionStatus::Closed {
            return 0;
        }
        self.status = self.status.after(ConnectionEvent::Lost);
        self.last_error = Some(Error::new(ErrorKind::Disconnected, "the connection was lost"));
        self.pongs.fail_all()
    }

    /// Records that a new connection stands: the client is connected, the
    /// last error is cleared, and the `SUB` frames of all subscriptions, in
    /// the order of their ids, go to the front of the outbound buffer,
    /// before every frame that waits there. Does nothing once the
    /// connection is closed.
    pub fn reconnected(&mut self)
        ensures
            final(self).subs == old(self).subs,
            final(self).pongs == old(self).pongs,
            final(self).shutting_down == old(self).shutting_down,
            final(self).servers == old(self).servers,
            final(self).status == status_after(old(self).status, ConnectionEvent::Established),
            if old(self).status == ConnectionStatus::Closed {
                *final(self) == *old(self)
            } else {
                &&& final(self).last_error is None
                &&& final(self).outbound@ == replay_of(old(self).subs@) + old(self).outbound@
            },
    {
        if self.status == ConnectionStatus::Closed {
            return ;
        }
        self.status = self.status.after(ConnectionEvent::Established);
        self.last_error = None;
        let waiting = self.outbound.take();
        self.subs.replay(&mut self.outbound.buffer);
        assert(self.outbound@ =~= replay_of(self.subs@));
        let replayed = self.outbound.take();
        self.outbound.restore(waiting, 0);
        self.outbound.restore(replayed, 0);
        assert(self.outbound@ =~= replay_of(old(self).subs@) + old(self).outbound@);
    }

    /// Records that connecting failed for good: the connection is closed,
    /// `error` becomes the last error, and every waiter for a `PONG` is
    /// signaled `false`. Returns how many waiters there were.
    pub fn gave_up(&mut self, error: Error) -> (waiters: usize)
        ensures
            final(self).status == ConnectionStatus::Closed,
            final(self).last_error matches Some(e) && e@ == error@,
            final(self).pongs@.len() == 0,
            waiters == old(self).pongs@.len(),
            final(self).subs == old(self).subs,
            final(self).outbound == old(self).outbound,
            final(self).shutting_down == old(self).shutting_down,
            final(self).servers == old(self).servers,
    {
        self.status = self.status.after(ConnectionEvent::GaveUp);
        self.last_error = Some(error);
        self.pongs.fail_all()
    }
}

} // verus!
