//! The order in which the servers are tried while connecting, and what is
//! reported when none of them answers.

use crate::error::{Error, ErrorKind, ErrorView};
use crate::handshake::{connected, DEFAULT_MAX_RECONNECTS};
use crate::server::{failed_once, server_views, Server, ServerView};
use vstd::prelude::*;

verus! {

/// The connection attempts still to be made: the servers are tried in
/// their order, and the whole list is gone through a number of times.
#[derive(Debug)]
pub struct ConnectPlan {
    servers: Vec<Server>,
    rounds: usize,
    round: usize,
    next: usize,
    last_error: Option<Error>,
}

/// A `ConnectPlan` as a value of specifications.
pub struct ConnectPlanView {
    pub servers: Seq<ServerView>,
    /// Passes through the list that are allowed.
    pub rounds: nat,
    /// Passes that are over.
    pub round: nat,
    /// Index of the server to try next.
    pub next: nat,
    /// The error of the latest failed attempt.
    pub last_error: Option<ErrorView>,
}

/// The error reported where no attempt was made at all.
pub open spec fn nothing_tried() -> ErrorView {
    ErrorView { kind: ErrorKind::Unreachable, message: "no reachable server"@ }
}

/// The server to try next, `None` once every allowed attempt is made.
pub open spec fn pending(plan: ConnectPlanView) -> Option<nat> {
    if plan.servers.len() > 0 && plan.round < plan.rounds {
        Some(plan.next)
    } else {
        None
    }
}

/// Number of attempts that the plan still allows.
pub open spec fn attempts_left(plan: ConnectPlanView) -> int {
    if plan.servers.len() == 0 {
        0
    } else {
        (plan.rounds - plan.round) * plan.servers.len() - plan.next
    }
}

/// The plan after the attempt on its pending server failed with `error`:
/// the server counts one more failure, the error becomes the latest, and
/// the plan moves on to the next server, or to the first one of the next
/// pass.
pub open spec fn after_failure(plan: ConnectPlanView, error: ErrorView) -> ConnectPlanView {
    let i = plan.next as int;
    let last = i + 1 == plan.servers.len();
    ConnectPlanView {
        servers: plan.servers.update(i, failed_once(plan.servers[i])),
        rounds: plan.rounds,
        round: if last {
            plan.round + 1
        } else {
            plan.round
        },
        next: if last {
            0
        } else {
            plan.next + 1
        },
        last_error: Some(error),
    }
}

/// The plan after the attempt on its pending server succeeded: the server
/// counts no failure any more.
pub open spec fn after_success(plan: ConnectPlanView) -> ConnectPlanView {
    let i = plan.next as int;
    ConnectPlanView { servers: plan.servers.update(i, connected(plan.servers[i])), ..plan }
}

/// The plan is consistent: the next index lies in the list, and no more
/// passes are over than are allowed.
pub open spec fn consistent(plan: ConnectPlanView) -> bool {
    &&& plan.round <= plan.rounds
    &&& if plan.servers.len() == 0 {
        plan.next == 0
    } else {
        plan.next < plan.servers.len()
    }
}

/// Each failed attempt uses up one of the attempts that the plan allows,
/// and an attempt is pending as long as one is left.
pub proof fn lemma_attempts(plan: ConnectPlanView, error: ErrorView)
    requires
        consistent(plan),
    ensures
        pending(plan) is Some <==> attempts_left(plan) > 0,
        pending(plan) is Some ==> consistent(after_failure(plan, error)) && attempts_left(
            after_failure(plan, error),
        ) == attempts_left(plan) - 1,
{
    let k = plan.rounds - plan.round;
    let n = plan.servers.len() as int;
    if n > 0 && k >= 1 {
        assert(k * n >= n) by (nonlinear_arith)
            requires
                k >= 1,
                n > 0,
        ;
        assert((k - 1) * n == k * n - n) by (nonlinear_arith);
    }
    if k == 0 {
        assert(k * n == 0) by (nonlinear_arith)
            requires
                k == 0,
        ;
    }
}

impl View for ConnectPlan {
    type V = ConnectPlanView;

    closed spec fn view(&self) -> ConnectPlanView {
        ConnectPlanView {
            servers: server_views(self.servers@),
            rounds: self.rounds as nat,
            round: self.round as nat,
            next: self.next as nat,
            last_error: match self.last_error {
                Some(e) => Some(e@),
                None => None,
            },
        }
    }
}

impl ConnectPlan {
    #[verifier::type_invariant]
    spec fn inv(self) -> bool {
        &&& self.round <= self.rounds
        &&& if self.servers.len() == 0 {
            self.next == 0
        } else {
            self.next < self.servers.len()
        }
    }

    /// A plan that tries each of `servers` in turn, `max_reconnects` times
    /// over, or five times where no number is given.
    pub fn new(servers: Vec<Server>, max_reconnects: Option<usize>) -> (plan: ConnectPlan)
        ensures
            consistent(plan@),
            plan@ == (ConnectPlanView {
                servers: server_views(servers@),
                rounds: (match max_reconnects {
                    Some(n) => n,
                    None => DEFAULT_MAX_RECONNECTS,
                }) as nat,
                round: 0,
                next: 0,
                last_error: None,
            }),
            attempts_left(plan@) == plan@.rounds * servers.len(),
    {
        let rounds = match max_reconnects {
            Some(n) => n,
            None => DEFAULT_MAX_RECONNECTS,
        };
        proof {
            let n = servers.len() as int;
            if n == 0 {
                assert(rounds * n == 0) by (nonlinear_arith)
                    requires
                        n == 0,
                ;
            }
        }
        ConnectPlan { servers, rounds, round: 0, next: 0, last_error: None }
    }

    /// The index of the server to try next, `None` once every allowed
    /// attempt is made.
    pub fn next_server(&self) -> (r: Option<usize>)
        ensures
            consistent(self@),
            match r {
                Some(i) => pending(self@) == Some(i as nat) && i < self@.servers.len(),
                None => pending(self@) is None,
            },
    {
        proof {
            use_type_invariant(self);
        }
        if self.servers.len() > 0 && self.round < self.rounds {
            Some(self.next)
        } else {
            None
        }
    }

    /// The servers of the plan, with their counts of failures.
    pub fn servers(&self) -> (servers: &Vec<Server>)
        ensures
            server_views(servers@) == self@.servers,
    {
        &self.servers
    }

    /// Records that the attempt on the pending server failed with `error`.
    /// Returns `false`, and changes nothing, where no attempt is pending.
    pub fn attempt_failed(&mut self, error: Error) -> (recorded: bool)
        requires
            pending(old(self)@) matches Some(i) ==> old(self)@.servers[i as int].reconnects
                < u32::MAX,
        ensures
            recorded == pending(old(self)@) is Some,
            final(self)@ == if recorded {
                after_failure(old(self)@, error@)
            } else {
                old(self)@
            },
    {
        proof {
            use_type_invariant(&*self);
        }
        if !(self.servers.len() > 0 && self.round < self.rounds) {
            return false;
        }
        let i = self.next;
        let mut servers: Vec<Server> = Vec::new();
        self.next = 0;
        core::mem::swap(&mut servers, &mut self.servers);
        let mut server = servers.remove(i);
        server.record_failure();
        servers.insert(i, server);
        proof {
            assert(server_views(servers@) =~= old(self)@.servers.update(
                i as int,
                failed_once(old(self)@.servers[i as int]),
            ));
        }
        let last = i + 1 == servers.len();
        self.servers = servers;
        self.last_error = Some(error);
        if last {
            self.round = self.round + 1;
        } else {
            self.next = i + 1;
        }
        true
    }

    /// Records that the attempt on the pending server succeeded. Returns
    /// `false`, and changes nothing, where no attempt is pending.
    pub fn attempt_succeeded(&mut self) -> (recorded: bool)
        ensures
            recorded == pending(old(self)@) is Some,
            final(self)@ == if recorded {
                after_success(old(self)@)
            } else {
                old(self)@
            },
    {
        proof {
            use_type_invariant(&*self);
        }
        if !(self.servers.len() > 0 && self.round < self.rounds) {
            return false;
        }
        let i = self.next;
        let mut servers: Vec<Server> = Vec::new();
        self.next = 0;
        core::mem::swap(&mut servers, &mut self.servers);
        let mut server = servers.remove(i);
        server.reconnects = 0;
        servers.insert(i, server);
        proof {
            assert(server_views(servers@) =~= old(self)@.servers.update(
                i as int,
                connected(old(self)@.servers[i as int]),
            ));
        }
        self.servers = servers;
        self.next = i;
        true
    }

    /// Ends the plan and hands its servers back.
    pub fn into_servers(self) -> (servers: Vec<Server>)
        ensures
            server_views(servers@) == self@.servers,
    {
        self.servers
    }

    /// The error to report once the plan is exhausted: that of the latest
    /// failed attempt, or unreachable where no attempt was made.
    pub fn give_up(self) -> (e: Error)
        ensures
            e@ == (match self@.last_error {
                Some(last) => last,
                None => nothing_tried(),
            }),
    {
        match self.last_error {
            Some(last) => last,
            None => Error::new(ErrorKind::Unreachable, "no reachable server"),
        }
    }
}

} // verus!
