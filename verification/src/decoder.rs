//! Decoding of the frames that the broker sends.
//!
//! A frame is a control line that ends with a line feed; a `MSG` line is
//! followed by its payload and two more bytes.

use crate::decimal::{parse_unsigned, unsigned_value};
use crate::error::{Error, ErrorKind};
use crate::info::{info_of, ServerInfo, ServerInfoView};
use crate::json::parse_json;
use crate::text::{
    chars_of, cut, matches_ignoring_case, run_len, same_ignoring_case, scan_run, split_tokens,
    text_of, tokens, trim, trim_range, trim_start,
};
use vstd::prelude::*;
use vstd::slice::{slice_subrange, slice_to_vec};
use vstd::string::*;
use vstd::utf8::{decode_utf8, valid_utf8};

verus! {

/// A protocol operation sent by the broker.
#[derive(Debug)]
pub enum ServerOp {
    /// `INFO {"option": value, ...}`
    Info(ServerInfo),
    /// `MSG <subject> <sid> [reply-to] <#bytes>`, then the payload.
    Msg { subject: String, sid: u64, reply_to: Option<String>, payload: Vec<u8> },
    /// `PING`
    Ping,
    /// `PONG`
    Pong,
    /// `-ERR <message>`
    Error(String),
    /// Any other line, kept as it came.
    Unknown(String),
}

/// A `ServerOp` as a value of specifications.
pub enum ServerOpView {
    Info(ServerInfoView),
    Msg { subject: Seq<char>, sid: u64, reply_to: Option<Seq<char>>, payload: Seq<u8> },
    Ping,
    Pong,
    Error(Seq<char>),
    Unknown(Seq<char>),
}

impl View for ServerOp {
    type V = ServerOpView;

    open spec fn view(&self) -> ServerOpView {
        match *self {
            ServerOp::Info(info) => ServerOpView::Info(info@),
            ServerOp::Msg { subject, sid, reply_to, payload } => ServerOpView::Msg {
                subject: subject@,
                sid,
                reply_to: text_of(reply_to),
                payload: payload@,
            },
            ServerOp::Ping => ServerOpView::Ping,
            ServerOp::Pong => ServerOpView::Pong,
            ServerOp::Error(message) => ServerOpView::Error(message@),
            ServerOp::Unknown(line) => ServerOpView::Unknown(line@),
        }
    }
}

/// The control line of a `MSG` frame: everything but the payload.
#[derive(Debug)]
pub struct MsgHeader {
    pub subject: String,
    pub sid: u64,
    pub reply_to: Option<String>,
    /// Number of payload bytes that follow the line.
    pub len: u32,
}

/// What a control line announces.
#[derive(Debug)]
pub enum Head {
    /// The line is a whole operation.
    Complete(ServerOp),
    /// The line opens a message, whose payload follows.
    Message(MsgHeader),
}

/// A `Head` as a value of specifications.
pub enum HeadView {
    Complete(ServerOpView),
    Message { subject: Seq<char>, sid: u64, reply_to: Option<Seq<char>>, len: u32 },
}

impl View for Head {
    type V = HeadView;

    open spec fn view(&self) -> HeadView {
        match *self {
            Head::Complete(op) => HeadView::Complete(op@),
            Head::Message(h) => HeadView::Message {
                subject: h.subject@,
                sid: h.sid,
                reply_to: text_of(h.reply_to),
                len: h.len,
            },
        }
    }
}

/// The first whitespace-separated token of `line`; empty where the line
/// holds nothing but whitespace.
pub open spec fn verb_of(line: Seq<char>) -> Seq<char> {
    let t = trim_start(line);
    t.take(run_len(t, false) as int)
}

/// What follows the first token of `line`.
pub open spec fn after_verb(line: Seq<char>) -> Seq<char> {
    let t = trim_start(line);
    t.skip(run_len(t, false) as int)
}

/// `s` without one apostrophe at its start and one at its end, where it has
/// them.
pub open spec fn unquote(s: Seq<char>) -> Seq<char> {
    let t = if s.len() > 0 && s[0] == '\'' {
        s.drop_first()
    } else {
        s
    };
    if t.len() > 0 && t.last() == '\'' {
        t.drop_last()
    } else {
        t
    }
}

/// The message that the arguments of a `MSG` line announce: subject, sid,
/// an optional reply subject, and the payload's length. `None` where there
/// are not three or four arguments, the sid is no 64-bit number, or the
/// length is no 32-bit number.
pub open spec fn message_head(args: Seq<Seq<char>>) -> Option<HeadView> {
    if args.len() == 3 || args.len() == 4 {
        let sid = unsigned_value(args[1], u64::MAX as nat);
        let len = unsigned_value(args.last(), u32::MAX as nat);
        if sid is Some && len is Some {
            Some(
                HeadView::Message {
                    subject: args[0],
                    sid: sid.unwrap() as u64,
                    reply_to: if args.len() == 4 {
                        Some(args[2])
                    } else {
                        None
                    },
                    len: len.unwrap() as u32,
                },
            )
        } else {
            None
        }
    } else {
        None
    }
}

/// What the control line `line` announces, by its first token compared
/// without regard to case; `None` where the line is malformed.
pub open spec fn head_of(line: Seq<char>) -> Option<HeadView> {
    let verb = verb_of(line);
    let rest = after_verb(line);
    if same_ignoring_case(verb, "PING"@) {
        Some(HeadView::Complete(ServerOpView::Ping))
    } else if same_ignoring_case(verb, "PONG"@) {
        Some(HeadView::Complete(ServerOpView::Pong))
    } else if same_ignoring_case(verb, "INFO"@) {
        match info_of(rest) {
            Some(info) => Some(HeadView::Complete(ServerOpView::Info(info))),
            None => None,
        }
    } else if same_ignoring_case(verb, "MSG"@) {
        message_head(tokens(rest))
    } else if same_ignoring_case(verb, "-ERR"@) {
        Some(HeadView::Complete(ServerOpView::Error(unquote(trim(rest)))))
    } else {
        Some(HeadView::Complete(ServerOpView::Unknown(line)))
    }
}

/// What the bytes of one control line announce: they must be UTF-8 and a
/// well-formed line.
pub open spec fn line_head(line: Seq<u8>) -> Option<HeadView> {
    if valid_utf8(line) {
        head_of(decode_utf8(line))
    } else {
        None
    }
}

/// Reads `bytes` as UTF-8 text.
///
/// Calls `core::str::from_utf8`, which accepts exactly the well-formed
/// UTF-8 sequences and returns the same bytes as a `str`.
#[verifier::external_body]
fn utf8_text(bytes: &[u8]) -> (r: Option<&str>)
    ensures
        r is Some <==> valid_utf8(bytes@),
        r is Some ==> r.unwrap()@ == decode_utf8(bytes@),
{
    core::str::from_utf8(bytes).ok()
}

fn invalid(message: &str) -> (e: Error)
    ensures
        e.kind == ErrorKind::InvalidInput,
        e.message@ == message@,
{
    Error::new(ErrorKind::InvalidInput, message)
}

/// Strips one apostrophe from each end of `v[from..to]`.
fn unquote_range(v: &[char], from: usize, to: usize) -> (r: (usize, usize))
    requires
        from <= to <= v.len(),
    ensures
        from <= r.0 <= r.1 <= to,
        v@.subrange(r.0 as int, r.1 as int) == unquote(v@.subrange(from as int, to as int)),
{
    let ghost s = v@.subrange(from as int, to as int);
    let a = if from < to && v[from] == '\'' {
        from + 1
    } else {
        from
    };
    proof {
        if from < to {
            assert(s[0] == v@[from as int]);
        }
    }
    let ghost t = v@.subrange(a as int, to as int);
    assert(t =~= if s.len() > 0 && s[0] == '\'' {
        s.drop_first()
    } else {
        s
    });
    let b = if a < to && v[to - 1] == '\'' {
        to - 1
    } else {
        to
    };
    proof {
        if a < to {
            assert(t.last() == v@[to - 1]);
        }
        assert(v@.subrange(a as int, b as int) =~= unquote(s));
    }
    (a, b)
}

/// Reads the arguments of a `MSG` line, which are `v[from..to]`; `text`
/// holds the same characters as `v`.
fn decode_message_head(text: &str, v: &[char], from: usize, to: usize) -> (r: Result<Head, Error>)
    requires
        from <= to <= v.len(),
        text@ == v@,
    ensures
        match r {
            Ok(h) => message_head(tokens(v@.subrange(from as int, to as int))) == Some(h@),
            Err(e) => e.kind == ErrorKind::InvalidInput && message_head(
                tokens(v@.subrange(from as int, to as int)),
            ) is None,
        },
{
    let spans = split_tokens(v, from, to);
    let ghost args = tokens(v@.subrange(from as int, to as int));
    let count = spans.len();
    assert(args.len() == count) by {
        assert(cut(v@, spans@).len() == spans@.len());
    }
    if count != 3 && count != 4 {
        return Err(invalid("invalid number of arguments after MSG"));
    }
    proof {
        assert(cut(v@, spans@)[0] == args[0]);
        assert(cut(v@, spans@)[1] == args[1]);
        assert(cut(v@, spans@)[2] == args[2]);
        assert(cut(v@, spans@)[count - 1] == args[count - 1]);
    }
    let subject_span = spans[0];
    let sid_span = spans[1];
    let len_span = spans[count - 1];
    let sid = match parse_unsigned(v, sid_span.0, sid_span.1, u64::MAX) {
        Some(sid) => sid,
        None => {
            return Err(invalid("cannot parse sid argument after MSG"));
        },
    };
    let len = match parse_unsigned(v, len_span.0, len_span.1, 0xffff_ffff) {
        Some(len) => len as u32,
        None => {
            return Err(invalid("cannot parse the number of bytes argument after MSG"));
        },
    };
    let subject = text.substring_char(subject_span.0, subject_span.1).to_owned();
    let reply_to = if count == 4 {
        let reply_span = spans[2];
        Some(text.substring_char(reply_span.0, reply_span.1).to_owned())
    } else {
        None
    };
    Ok(Head::Message(MsgHeader { subject, sid, reply_to, len }))
}

/// Decodes one control line, given with the line feed that ends it.
///
/// The line must be UTF-8. Its first token, compared without regard to
/// case, selects the operation; a line with any other first token comes
/// back as `Unknown`. A `MSG` line comes back as the header of a message
/// whose payload is still to be read.
pub fn decode_line(line: &[u8]) -> (r: Result<Head, Error>)
    ensures
        match r {
            Ok(h) => line_head(line@) == Some(h@),
            Err(e) => e.kind == ErrorKind::InvalidInput && line_head(line@) is None,
        },
{
    let text = match utf8_text(line) {
        Some(text) => text,
        None => {
            return Err(invalid("the line is not valid UTF-8"));
        },
    };
    let chars = chars_of(text);
    let v = chars.as_slice();
    let n = v.len();
    let a = scan_run(v, 0, n, true);
    let b = scan_run(v, a, n, false);
    proof {
        assert(v@.subrange(0, n as int) =~= v@);
        assert(trim_start(v@) =~= v@.subrange(a as int, n as int));
        assert(verb_of(v@) =~= v@.subrange(a as int, b as int));
        assert(after_verb(v@) =~= v@.subrange(b as int, n as int));
    }
    if matches_ignoring_case(v, a, b, "PING") {
        Ok(Head::Complete(ServerOp::Ping))
    } else if matches_ignoring_case(v, a, b, "PONG") {
        Ok(Head::Complete(ServerOp::Pong))
    } else if matches_ignoring_case(v, a, b, "INFO") {
        let rest = text.substring_char(b, n);
        let kept = trim_range(v, b, n);
        let json = text.substring_char(kept.0, kept.1).to_owned();
        let doc = match parse_json(rest.as_bytes()) {
            Some(doc) => doc,
            None => {
                return Err(invalid("the INFO record is not JSON"));
            },
        };
        match ServerInfo::from_json(&doc, json) {
            Some(info) => Ok(Head::Complete(ServerOp::Info(info))),
            None => Err(invalid("the INFO record lacks a required field")),
        }
    } else if matches_ignoring_case(v, a, b, "MSG") {
        decode_message_head(text, v, b, n)
    } else if matches_ignoring_case(v, a, b, "-ERR") {
        let kept = trim_range(v, b, n);
        let bare = unquote_range(v, kept.0, kept.1);
        Ok(Head::Complete(ServerOp::Error(text.substring_char(bare.0, bare.1).to_owned())))
    } else {
        Ok(Head::Complete(ServerOp::Unknown(text.to_owned())))
    }
}

impl MsgHeader {
    /// The message that this header and its payload make.
    pub fn into_op(self, payload: Vec<u8>) -> (op: ServerOp)
        ensures
            op@ == (ServerOpView::Msg {
                subject: self.subject@,
                sid: self.sid,
                reply_to: text_of(self.reply_to),
                payload: payload@,
            }),
    {
        ServerOp::Msg {
            subject: self.subject,
            sid: self.sid,
            reply_to: self.reply_to,
            payload,
        }
    }
}

/// Length of the first line of `input`, its line feed included; the whole
/// of `input` where it holds no line feed.
pub open spec fn line_len(input: Seq<u8>) -> nat
    decreases input.len(),
{
    if input.len() == 0 {
        0
    } else if input[0] == 10u8 {
        1
    } else {
        1 + line_len(input.drop_first())
    }
}

/// `n` is the length of the first line where no byte before `n - 1` is a
/// line feed and the line ends with one or with the input.
pub proof fn lemma_line_len_is(input: Seq<u8>, n: int)
    requires
        0 <= n <= input.len(),
        n == 0 ==> input.len() == 0,
        forall|k: int| 0 <= k < n - 1 ==> #[trigger] input[k] != 10u8,
        n < input.len() ==> input[n - 1] == 10u8,
    ensures
        line_len(input) == n,
    decreases n,
{
    if n > 1 {
        let t = input.drop_first();
        assert(input[0] != 10u8);
        assert forall|k: int| 0 <= k < n - 2 implies #[trigger] t[k] != 10u8 by {
            assert(t[k] == input[k + 1]);
        }
        if n - 1 < t.len() {
            assert(t[n - 2] == input[n - 1]);
        }
        lemma_line_len_is(t, n - 1);
    } else if n == 1 {
        if input[0] != 10u8 {
            assert(input.drop_first().len() == 0);
            assert(line_len(input.drop_first()) == 0);
        }
    }
}

/// The first line is a prefix of the input, not empty unless the input is,
/// and only its last byte can be a line feed.
pub proof fn lemma_line_len_props(input: Seq<u8>)
    ensures
        line_len(input) <= input.len(),
        input.len() > 0 ==> line_len(input) > 0,
        forall|k: int| 0 <= k < line_len(input) - 1 ==> #[trigger] input[k] != 10u8,
        line_len(input) < input.len() ==> input[line_len(input) - 1] == 10u8,
    decreases input.len(),
{
    if input.len() > 0 && input[0] != 10u8 {
        let t = input.drop_first();
        lemma_line_len_props(t);
        assert forall|k: int| 0 <= k < line_len(input) - 1 implies #[trigger] input[k]
            != 10u8 by {
            if k > 0 {
                assert(input[k] == t[k - 1]);
            }
        }
        if line_len(input) < input.len() {
            assert(input[line_len(input) - 1] == t[line_len(t) - 1]);
        }
    }
}

/// How the decoding of a byte stream ends.
pub enum Outcome {
    /// The stream holds no more bytes: it is closed.
    Closed,
    /// One operation was decoded.
    Op(ServerOpView),
    /// The bytes are no well-formed frame.
    Invalid,
}

/// What decoding the stream `input` gives, and how many bytes it takes
/// from the stream.
///
/// The first line is read up to and including its line feed. After a `MSG`
/// line the payload and two more bytes are read; where the stream ends
/// before them, all of it is taken and the frame is invalid.
pub open spec fn decoded(input: Seq<u8>) -> (Outcome, nat) {
    if input.len() == 0 {
        (Outcome::Closed, 0)
    } else {
        let n = line_len(input);
        match line_head(input.take(n as int)) {
            None => (Outcome::Invalid, n),
            Some(HeadView::Complete(op)) => (Outcome::Op(op), n),
            Some(HeadView::Message { subject, sid, reply_to, len }) => {
                if n + len + 2 <= input.len() {
                    (
                        Outcome::Op(
                            ServerOpView::Msg {
                                subject,
                                sid,
                                reply_to,
                                payload: input.subrange(n as int, n + len),
                            },
                        ),
                        (n + len + 2) as nat,
                    )
                } else {
                    (Outcome::Invalid, input.len())
                }
            },
        }
    }
}

/// The outcome that a decoder's result stands for.
pub open spec fn outcome_of(result: Result<Option<ServerOp>, Error>) -> Outcome {
    match result {
        Ok(None) => Outcome::Closed,
        Ok(Some(op)) => Outcome::Op(op@),
        Err(_) => Outcome::Invalid,
    }
}

/// What `decode` returns: the operation, the end of the stream or an
/// error, and the number of bytes taken from the stream.
#[derive(Debug)]
pub struct Decoded {
    pub result: Result<Option<ServerOp>, Error>,
    pub consumed: usize,
}

fn find_line_end(input: &[u8]) -> (n: usize)
    ensures
        n == line_len(input@),
        n <= input.len(),
{
    let mut i: usize = 0;
    while i < input.len() && input[i] != 10u8
        invariant
            i <= input.len(),
            forall|k: int| 0 <= k < i ==> #[trigger] input@[k] != 10u8,
        decreases input.len() - i,
    {
        i += 1;
    }
    let n = if i < input.len() {
        i + 1
    } else {
        i
    };
    proof {
        lemma_line_len_is(input@, n as int);
    }
    n
}

/// Decodes the first operation of the byte stream `input`, which holds
/// everything that is left of the stream.
///
/// An empty stream is closed: `Ok(None)`, nothing taken. Otherwise one
/// frame is taken from the front. Every failure is invalid input.
pub fn decode(input: &[u8]) -> (d: Decoded)
    ensures
        outcome_of(d.result) == decoded(input@).0,
        d.consumed == decoded(input@).1,
        d.consumed <= input.len(),
        d.result matches Err(e) ==> e.kind == ErrorKind::InvalidInput,
{
    if input.len() == 0 {
        return Decoded { result: Ok(None), consumed: 0 };
    }
    let n = find_line_end(input);
    let line = slice_subrange(input, 0, n);
    assert(line@ =~= input@.take(n as int));
    match decode_line(line) {
        Err(e) => Decoded { result: Err(e), consumed: n },
        Ok(Head::Complete(op)) => Decoded { result: Ok(Some(op)), consumed: n },
        Ok(Head::Message(header)) => {
            let left = input.len() - n;
            if left >= 2 && left - 2 >= header.len as usize {
                let end = n + header.len as usize;
                let payload = slice_to_vec(slice_subrange(input, n, end));
                Decoded { result: Ok(Some(header.into_op(payload))), consumed: end + 2 }
            } else {
                Decoded {
                    result: Err(invalid("the stream ended inside a message")),
                    consumed: input.len(),
                }
            }
        },
    }
}

/// Decoding any non-empty prefix of a frame takes the whole prefix, and
/// gives an operation or an invalid-input failure, never the end of the
/// stream: cutting a frame short cannot make the decoder read past the cut,
/// nor leave bytes of the cut frame behind.
pub proof fn lemma_truncated_frame(frame: Seq<u8>, k: int)
    requires
        decoded(frame).0 is Op,
        decoded(frame).1 == frame.len(),
        0 < k <= frame.len(),
    ensures
        decoded(frame.take(k)).1 == k,
        decoded(frame.take(k)).0 is Op || decoded(frame.take(k)).0 is Invalid,
{
    let p = frame.take(k);
    let n = line_len(frame) as int;
    lemma_line_len_props(frame);
    if k == frame.len() {
        assert(p =~= frame);
    } else if k < n {
        assert forall|j: int| 0 <= j < k - 1 implies #[trigger] p[j] != 10u8 by {
            assert(p[j] == frame[j]);
        }
        lemma_line_len_is(p, k);
        assert(p.take(k) =~= p);
    } else {
        assert forall|j: int| 0 <= j < n - 1 implies #[trigger] p[j] != 10u8 by {
            assert(p[j] == frame[j]);
        }
        if n < k {
            assert(p[n - 1] == frame[n - 1]);
        }
        lemma_line_len_is(p, n);
        assert(p.take(n) =~= frame.take(n));
    }
}

} // verus!
