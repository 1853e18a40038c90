//! Broker endpoints: parsing `[scheme://]host[:port]`, and the record kept
//! for each endpoint while connecting.

use crate::decimal::{decimal_int, parse_i32, signed_value};
use crate::error::{Error, ErrorKind};
use crate::text::{chars_of, find_char, texts, until};
use vstd::arithmetic::power2::{lemma2_to64, lemma_pow2_strictly_increases, lemma_pow2_unfold, pow2};
use vstd::prelude::*;
use vstd::string::*;

verus! {

/// The port used where an address names none.
pub const DEFAULT_PORT: i32 = 4222;

/// One broker endpoint.
#[derive(Clone, Debug)]
pub struct Server {
    /// `host:port`.
    pub url: String,
    /// The address asked for TLS.
    pub tls_required: bool,
    /// Failed connection passes since the last successful handshake.
    pub reconnects: u32,
}

/// A `Server` as a value of specifications.
pub struct ServerView {
    pub url: Seq<char>,
    pub tls_required: bool,
    pub reconnects: nat,
}

impl View for Server {
    type V = ServerView;

    open spec fn view(&self) -> ServerView {
        ServerView {
            url: self.url@,
            tls_required: self.tls_required,
            reconnects: self.reconnects as nat,
        }
    }
}

/// `s` holds `://` at index `i`.
pub open spec fn scheme_mark_at(s: Seq<char>, i: int) -> bool {
    0 <= i && i + 3 <= s.len() && s[i] == ':' && s[i + 1] == '/' && s[i + 2] == '/'
}

/// Where the first `://` of `s` starts, if it holds one.
pub open spec fn scheme_mark(s: Seq<char>) -> Option<int>
    decreases s.len(),
{
    if s.len() < 3 {
        None
    } else if scheme_mark_at(s, 0) {
        Some(0)
    } else {
        match scheme_mark(s.drop_first()) {
            Some(i) => Some(i + 1),
            None => None,
        }
    }
}

/// A position that holds `://` and that no other such position precedes is
/// the scheme mark.
pub proof fn lemma_scheme_mark_found(s: Seq<char>, i: int)
    requires
        scheme_mark_at(s, i),
        forall|k: int| 0 <= k < i ==> !scheme_mark_at(s, k),
    ensures
        scheme_mark(s) == Some(i),
    decreases i,
{
    if i > 0 {
        let t = s.drop_first();
        assert(!scheme_mark_at(s, 0));
        assert(scheme_mark_at(t, i - 1));
        assert forall|k: int| 0 <= k < i - 1 implies !scheme_mark_at(t, k) by {
            assert(!scheme_mark_at(s, k + 1));
        }
        lemma_scheme_mark_found(t, i - 1);
    }
}

/// A text without any `://` has no scheme mark.
pub proof fn lemma_scheme_mark_absent(s: Seq<char>)
    requires
        forall|k: int| 0 <= k ==> !scheme_mark_at(s, k),
    ensures
        scheme_mark(s) is None,
    decreases s.len(),
{
    if s.len() >= 3 {
        let t = s.drop_first();
        assert(!scheme_mark_at(s, 0));
        assert forall|k: int| 0 <= k implies !scheme_mark_at(t, k) by {
            assert(!scheme_mark_at(s, k + 1));
        }
        lemma_scheme_mark_absent(t);
    }
}

/// The scheme `tls`.
pub open spec fn tls_scheme() -> Seq<char> {
    seq!['t', 'l', 's']
}

/// The part of the address `input` that follows its scheme.
pub open spec fn host_port_of(input: Seq<char>) -> Seq<char> {
    match scheme_mark(input) {
        Some(i) => input.skip(i + 3),
        None => input,
    }
}

/// The address `input` names the scheme `tls`.
pub open spec fn asks_tls(input: Seq<char>) -> bool {
    scheme_mark(input) matches Some(i) && input.take(i) == tls_scheme()
}

/// The host that the address `input` names: what stands before the first
/// `:` once the scheme is stripped.
pub open spec fn host_of(input: Seq<char>) -> Seq<char> {
    let hp = host_port_of(input);
    hp.take(until(hp, ':') as int)
}

/// The port that the address `input` names: the default where no `:`
/// follows the host, else what follows the first `:` read as a number, and
/// `None` where that is no number.
pub open spec fn port_of(input: Seq<char>) -> Option<int> {
    let hp = host_port_of(input);
    let h = until(hp, ':') as int;
    if h < hp.len() {
        signed_value(hp.skip(h + 1), i32::MIN as int, i32::MAX as int)
    } else {
        Some(DEFAULT_PORT as int)
    }
}

/// The address `input` is accepted: it holds no comma, names a host, and
/// its port, if it has one, is a number.
pub open spec fn address_ok(input: Seq<char>) -> bool {
    !input.contains(',') && host_of(input).len() > 0 && port_of(input) is Some
}

/// The endpoint that the accepted address `input` names.
pub open spec fn server_of(input: Seq<char>) -> ServerView {
    ServerView {
        url: host_of(input) + seq![':'] + decimal_int(port_of(input).unwrap()),
        tls_required: asks_tls(input),
        reconnects: 0,
    }
}

/// Joins a host and a port number into `host:port`.
///
/// Calls `format!`, which writes the host as it is and the number in
/// decimal, with `-` in front of a negative one.
#[verifier::external_body]
fn join_host_port(host: &str, port: i32) -> (url: String)
    ensures
        url@ == host@ + seq![':'] + decimal_int(port as int),
{
    format!("{}:{}", host, port)
}

fn find_scheme_mark(v: &[char]) -> (r: Option<usize>)
    ensures
        match r {
            Some(i) => scheme_mark(v@) == Some(i as int) && i + 3 <= v.len(),
            None => scheme_mark(v@) is None,
        },
{
    let n = v.len();
    let mut i: usize = 0;
    while n >= 3 && i <= n - 3
        invariant
            n == v.len(),
            forall|k: int| 0 <= k < i ==> !scheme_mark_at(v@, k),
        decreases n - i,
    {
        if v[i] == ':' && v[i + 1] == '/' && v[i + 2] == '/' {
            proof {
                lemma_scheme_mark_found(v@, i as int);
            }
            return Some(i);
        }
        i += 1;
    }
    proof {
        lemma_scheme_mark_absent(v@);
    }
    None
}

impl Server {
    /// Parses one address of the form `[scheme://]host[:port]`.
    ///
    /// The scheme `tls` asks for TLS; any other scheme, or none, does not.
    /// The port defaults to 4222. An address with a comma, without a host,
    /// or with a port that is no number is refused as invalid input.
    pub fn new(input: &str) -> (r: Result<Server, Error>)
        ensures
            address_ok(input@) ==> r is Ok && r.unwrap()@ == server_of(input@),
            !address_ok(input@) ==> r is Err && r.unwrap_err().kind == ErrorKind::InvalidInput,
    {
        let v = chars_of(input);
        let n = v.len();
        let comma = find_char(v.as_slice(), 0, n, ',');
        assert(v@.subrange(0, n as int) =~= v@);
        if comma < n {
            return Err(
                Error::new(
                    ErrorKind::InvalidInput,
                    "only one server URL should be passed to Server::new",
                ),
            );
        }
        assert(!input@.contains(','));
        let mark = find_scheme_mark(v.as_slice());
        let (tls_required, start) = match mark {
            Some(i) => (i == 3 && v[0] == 't' && v[1] == 'l' && v[2] == 's', i + 3),
            None => (false, 0),
        };
        proof {
            assert(host_port_of(input@) =~= v@.subrange(start as int, n as int));
            if mark is Some {
                let i = mark.unwrap() as int;
                if tls_required {
                    assert(input@.take(i) =~= tls_scheme());
                } else if i == 3 {
                    assert(input@.take(i)[0] == v@[0]);
                    assert(input@.take(i)[1] == v@[1]);
                    assert(input@.take(i)[2] == v@[2]);
                }
            }
        }
        let colon = find_char(v.as_slice(), start, n, ':');
        let ghost hp = v@.subrange(start as int, n as int);
        assert(hp.take(colon - start) =~= v@.subrange(start as int, colon as int));
        let port = if colon < n {
            assert(hp.skip(colon - start + 1) =~= v@.subrange(colon + 1, n as int));
            parse_i32(v.as_slice(), colon + 1, n)
        } else {
            Some(DEFAULT_PORT)
        };
        if colon == start || port.is_none() {
            let mut message = String::from_str("invalid URL provided: ");
            message.append(input);
            return Err(Error { kind: ErrorKind::InvalidInput, message });
        }
        let host = input.substring_char(start, colon);
        let url = join_host_port(host, port.unwrap());
        proof {
            assert(host@ =~= host_of(input@));
            assert(port_of(input@) == Some(port.unwrap() as int));
            assert(tls_required == asks_tls(input@)) by {
                if mark is Some && !tls_required {
                    assert(tls_scheme().len() == 3);
                    assert(input@.take(mark.unwrap() as int).len() == mark.unwrap());
                }
            }
        }
        Ok(Server { url, tls_required, reconnects: 0 })
    }
}

/// The views of the servers in `v`, in order.
pub open spec fn server_views(v: Seq<Server>) -> Seq<ServerView> {
    Seq::new(v.len(), |k: int| v[k]@)
}

/// The pieces of `s` between its commas, in order; a text without comma is
/// one piece.
pub open spec fn comma_pieces(s: Seq<char>) -> Seq<Seq<char>>
    decreases s.len(),
{
    let i = until(s, ',') as int;
    if 0 <= i < s.len() {
        seq![s.take(i)] + comma_pieces(s.skip(i + 1))
    } else {
        seq![s]
    }
}

/// The endpoints that the accepted addresses among `inputs` name, in the
/// order of the addresses; refused addresses are passed over.
pub open spec fn accepted(inputs: Seq<Seq<char>>) -> Seq<ServerView>
    decreases inputs.len(),
{
    if inputs.len() == 0 {
        Seq::empty()
    } else if address_ok(inputs.last()) {
        accepted(inputs.drop_last()).push(server_of(inputs.last()))
    } else {
        accepted(inputs.drop_last())
    }
}

/// Splits a list of addresses at its commas.
pub fn split_urls(list: &str) -> (pieces: Vec<String>)
    ensures
        texts(pieces@) == comma_pieces(list@),
{
    let chars = chars_of(list);
    let v = chars.as_slice();
    let n = v.len();
    let mut pieces: Vec<String> = Vec::new();
    let mut start: usize = 0;
    proof {
        assert(v@.subrange(0, n as int) =~= list@);
        assert(texts(pieces@) + comma_pieces(list@) =~= comma_pieces(list@));
    }
    loop
        invariant_except_break
            comma_pieces(list@) == texts(pieces@) + comma_pieces(
                v@.subrange(start as int, n as int),
            ),
        invariant
            start <= n,
            n == v.len(),
            v@ == list@,
        ensures
            texts(pieces@) == comma_pieces(list@),
        decreases n - start,
    {
        let ghost rest = v@.subrange(start as int, n as int);
        let ghost before = pieces@;
        let at = find_char(v, start, n, ',');
        let piece = list.substring_char(start, at).to_owned();
        pieces.push(piece);
        proof {
            assert(rest.take(at - start) =~= v@.subrange(start as int, at as int));
            assert(texts(pieces@) =~= texts(before) + seq![rest.take(at - start)]);
        }
        if at == n {
            assert(comma_pieces(rest) =~= seq![rest]);
            assert(rest.take(at - start) =~= rest);
            break ;
        }
        proof {
            assert(rest.skip(at - start + 1) =~= v@.subrange(at + 1, n as int));
            assert(comma_pieces(list@) =~= texts(pieces@) + comma_pieces(
                v@.subrange(at + 1, n as int),
            ));
        }
        start = at + 1;
    }
    pieces
}

/// Puts the servers into a random order.
///
/// Calls `SliceRandom::shuffle` with `rand::thread_rng()`, which only swaps
/// elements of the slice: whatever order comes out, the same servers are in
/// it, each as often as before.
#[verifier::external_body]
fn shuffle_servers(servers: &mut Vec<Server>)
    ensures
        server_views(final(servers)@).to_multiset() == server_views(old(servers)@).to_multiset(),
{
    rand::seq::SliceRandom::shuffle(servers.as_mut_slice(), &mut rand::thread_rng());
}

/// Parses each address of `input`, passes over those that are refused, and
/// returns the endpoints in a random order.
pub fn parse_server_addresses(input: &[String]) -> (servers: Vec<Server>)
    ensures
        server_views(servers@).to_multiset() == accepted(texts(input@)).to_multiset(),
{
    let mut servers: Vec<Server> = Vec::new();
    let mut i: usize = 0;
    while i < input.len()
        invariant
            i <= input.len(),
            server_views(servers@) == accepted(texts(input@).take(i as int)),
        decreases input.len() - i,
    {
        let ghost before = servers@;
        let parsed = Server::new(input[i].as_str());
        proof {
            let seen = texts(input@).take(i + 1);
            assert(seen.drop_last() =~= texts(input@).take(i as int));
            assert(seen.last() == input@[i as int]@);
        }
        match parsed {
            Ok(server) => {
                servers.push(server);
                assert(server_views(servers@) =~= server_views(before).push(server@));
            },
            Err(_) => {},
        }
        i += 1;
    }
    assert(texts(input@).take(input.len() as int) =~= texts(input@));
    shuffle_servers(&mut servers);
    servers
}

/// Parsing the same list of addresses twice gives the same endpoints, each
/// as often, whatever the two orders are.
pub proof fn lemma_same_list_same_servers(
    inputs: Seq<Seq<char>>,
    first: Seq<ServerView>,
    second: Seq<ServerView>,
)
    requires
        first.to_multiset() == accepted(inputs).to_multiset(),
        second.to_multiset() == accepted(inputs).to_multiset(),
    ensures
        first.to_multiset() == second.to_multiset(),
        first.len() == second.len(),
        forall|s: ServerView| first.contains(s) <==> second.contains(s),
{
    vstd::seq_lib::to_multiset_len(first);
    vstd::seq_lib::to_multiset_len(second);
    assert forall|s: ServerView| first.contains(s) <==> second.contains(s) by {
        vstd::seq_lib::to_multiset_contains(first, s);
        vstd::seq_lib::to_multiset_contains(second, s);
    }
}

/// The longest wait before a connection attempt, in milliseconds.
pub const MAX_BACKOFF_MS: u64 = 4096;

/// Milliseconds to wait before connecting to a server that has failed
/// `reconnects` times in a row: nothing before the first failure, then
/// two to the power of the failures, with the exponent capped at twelve.
pub open spec fn backoff_millis(reconnects: nat) -> nat {
    if reconnects == 0 {
        0
    } else if reconnects >= 12 {
        pow2(12)
    } else {
        pow2(reconnects)
    }
}

/// `s` after one more failed connection pass.
pub open spec fn failed_once(s: ServerView) -> ServerView {
    ServerView { reconnects: s.reconnects + 1, ..s }
}

/// `s` after `n` failed connection passes in a row.
pub open spec fn failed_times(s: ServerView, n: nat) -> ServerView
    decreases n,
{
    if n == 0 {
        s
    } else {
        failed_once(failed_times(s, (n - 1) as nat))
    }
}

/// After `n` failed passes in a row, with `n` at least one, the wait before
/// the next attempt is two to the power of `n`, or of twelve where `n` is
/// larger, and never more than 4096 milliseconds.
pub proof fn lemma_backoff_after_failures(s: ServerView, n: nat)
    requires
        s.reconnects == 0,
        n >= 1,
    ensures
        failed_times(s, n).reconnects == n,
        backoff_millis(failed_times(s, n).reconnects) == pow2(if n <= 12 { n } else { 12 }),
        backoff_millis(failed_times(s, n).reconnects) <= MAX_BACKOFF_MS,
{
    lemma_failed_times(s, n);
    lemma2_to64();
    if n < 12 {
        lemma_pow2_strictly_increases(n, 12);
    }
}

/// Failures add up.
pub proof fn lemma_failed_times(s: ServerView, n: nat)
    ensures
        failed_times(s, n).reconnects == s.reconnects + n,
        failed_times(s, n).url == s.url,
        failed_times(s, n).tls_required == s.tls_required,
    decreases n,
{
    if n > 0 {
        lemma_failed_times(s, (n - 1) as nat);
    }
}

impl Server {
    /// Milliseconds to wait before the next connection attempt to this
    /// server.
    pub fn backoff_ms(&self) -> (ms: u64)
        ensures
            ms == backoff_millis(self@.reconnects),
            ms <= MAX_BACKOFF_MS,
    {
        if self.reconnects == 0 {
            return 0;
        }
        let exponent: u32 = if self.reconnects >= 12 {
            12
        } else {
            self.reconnects
        };
        let mut ms: u64 = 1;
        let mut i: u32 = 0;
        proof {
            lemma2_to64();
        }
        while i < exponent
            invariant
                i <= exponent <= 12,
                ms == pow2(i as nat),
                pow2(12) == 4096,
            decreases exponent - i,
        {
            proof {
                lemma_pow2_unfold((i + 1) as nat);
                if i + 1 < 12 {
                    lemma_pow2_strictly_increases((i + 1) as nat, 12);
                }
            }
            ms = ms * 2;
            i += 1;
        }
        ms
    }

    /// Records that a connection pass to this server failed.
    pub fn record_failure(&mut self)
        requires
            old(self).reconnects < u32::MAX,
        ensures
            final(self)@ == failed_once(old(self)@),
    {
        self.reconnects = self.reconnects + 1;
    }
}

} // verus!
