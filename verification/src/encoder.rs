//! Encoding of the operations that the client sends.

use crate::connect::{connect_json, ConnectInfo, ConnectInfoView};
use crate::decimal::{decimal, format_u64};
use crate::error::{Error, ErrorKind};
use vstd::prelude::*;
use vstd::string::*;
use vstd::utf8::encode_utf8;

verus! {

/// A protocol operation sent by the client.
#[derive(Debug)]
pub enum ClientOp<'a> {
    /// `CONNECT {"option": value, ...}`
    Connect(ConnectInfo),
    /// `PUB <subject> [reply-to] <#bytes>`, then the payload.
    Pub { subject: &'a str, reply_to: Option<&'a str>, payload: &'a [u8] },
    /// `SUB <subject> [queue group] <sid>`
    Sub { subject: &'a str, queue_group: Option<&'a str>, sid: u64 },
    /// `UNSUB <sid> [max_msgs]`
    Unsub { sid: u64, max_msgs: Option<u64> },
    /// `PING`
    Ping,
    /// `PONG`
    Pong,
}

/// A `ClientOp` as a value of specifications.
pub enum ClientOpView {
    Connect(ConnectInfoView),
    Pub { subject: Seq<char>, reply_to: Option<Seq<char>>, payload: Seq<u8> },
    Sub { subject: Seq<char>, queue_group: Option<Seq<char>>, sid: u64 },
    Unsub { sid: u64, max_msgs: Option<u64> },
    Ping,
    Pong,
}

/// The text that an optional string slice holds.
pub open spec fn word_of(w: Option<&str>) -> Option<Seq<char>> {
    match w {
        Some(t) => Some(t@),
        None => None,
    }
}

impl<'a> View for ClientOp<'a> {
    type V = ClientOpView;

    open spec fn view(&self) -> ClientOpView {
        match *self {
            ClientOp::Connect(info) => ClientOpView::Connect(info@),
            ClientOp::Pub { subject, reply_to, payload } => ClientOpView::Pub {
                subject: subject@,
                reply_to: word_of(reply_to),
                payload: payload@,
            },
            ClientOp::Sub { subject, queue_group, sid } => ClientOpView::Sub {
                subject: subject@,
                queue_group: word_of(queue_group),
                sid,
            },
            ClientOp::Unsub { sid, max_msgs } => ClientOpView::Unsub { sid, max_msgs },
            ClientOp::Ping => ClientOpView::Ping,
            ClientOp::Pong => ClientOpView::Pong,
        }
    }
}

/// Carriage return, line feed: the end of a control line.
pub open spec fn crlf() -> Seq<char> {
    seq!['\r', '\n']
}

/// An optional argument with the space that follows it; nothing where it
/// is absent.
pub open spec fn optional_word(w: Option<Seq<char>>) -> Seq<char> {
    match w {
        Some(t) => t + seq![' '],
        None => Seq::empty(),
    }
}

/// An optional number with the space that precedes it; nothing where it is
/// absent.
pub open spec fn optional_count(n: Option<u64>) -> Seq<char> {
    match n {
        Some(m) => seq![' '] + decimal(m as nat),
        None => Seq::empty(),
    }
}

/// The control line of the operation `op`, its line end included. `None`
/// where a `CONNECT` operation has no JSON text.
pub open spec fn control_line(op: ClientOpView) -> Option<Seq<char>> {
    match op {
        ClientOpView::Connect(info) => match connect_json(info) {
            Some(json) => Some("CONNECT "@ + json + crlf()),
            None => None,
        },
        ClientOpView::Pub { subject, reply_to, payload } => Some(
            "PUB "@ + subject + seq![' '] + optional_word(reply_to) + decimal(payload.len())
                + crlf(),
        ),
        ClientOpView::Sub { subject, queue_group, sid } => Some(
            "SUB "@ + subject + seq![' '] + optional_word(queue_group) + decimal(sid as nat)
                + crlf(),
        ),
        ClientOpView::Unsub { sid, max_msgs } => Some(
            "UNSUB "@ + decimal(sid as nat) + optional_count(max_msgs) + crlf(),
        ),
        ClientOpView::Ping => Some("PING"@ + crlf()),
        ClientOpView::Pong => Some("PONG"@ + crlf()),
    }
}

/// What follows the control line of `op`: for `PUB` the payload and a line
/// end, for every other operation nothing.
pub open spec fn body_of(op: ClientOpView) -> Seq<u8> {
    match op {
        ClientOpView::Pub { subject, reply_to, payload } => payload + seq![13u8, 10u8],
        _ => Seq::empty(),
    }
}

/// The bytes that the operation `op` is sent as: its control line in
/// UTF-8, then its body.
pub open spec fn wire_form(op: ClientOpView) -> Option<Seq<u8>> {
    match control_line(op) {
        Some(line) => Some(encode_utf8(line) + body_of(op)),
        None => None,
    }
}

/// Appends `bytes` to `stream`.
fn write_all(stream: &mut Vec<u8>, bytes: &[u8])
    ensures
        final(stream)@ == old(stream)@ + bytes@,
{
    let mut i: usize = 0;
    while i < bytes.len()
        invariant
            i <= bytes.len(),
            stream@ == old(stream)@ + bytes@.take(i as int),
        decreases bytes.len() - i,
    {
        stream.push(bytes[i]);
        i += 1;
        assert(stream@ =~= old(stream)@ + bytes@.take(i as int));
    }
    assert(bytes@.take(bytes.len() as int) =~= bytes@);
}

fn append_optional_word(line: &mut String, w: Option<&str>)
    ensures
        final(line)@ == old(line)@ + optional_word(word_of(w)),
{
    match w {
        Some(t) => {
            line.append(t);
            line.append(" ");
            proof {
                reveal_strlit(" ");
                assert(" "@ =~= seq![' ']);
                assert(line@ =~= old(line)@ + (t@ + seq![' ']));
            }
        },
        None => {
            assert(line@ =~= line@ + Seq::<char>::empty());
        },
    }
}

fn append_crlf(line: &mut String)
    ensures
        final(line)@ == old(line)@ + crlf(),
{
    line.append("\r\n");
    proof {
        reveal_strlit("\r\n");
        assert("\r\n"@ =~= crlf());
    }
}

fn append_space(line: &mut String)
    ensures
        final(line)@ == old(line)@ + seq![' '],
{
    line.append(" ");
    proof {
        reveal_strlit(" ");
        assert(" "@ =~= seq![' ']);
    }
}

/// The control line of `op` as a string.
fn control_line_text(op: &ClientOp<'_>) -> (r: Option<String>)
    ensures
        r is Some <==> control_line(op@) is Some,
        r is Some ==> r.unwrap()@ == control_line(op@).unwrap(),
{
    match op {
        ClientOp::Connect(info) => {
            let json = match info.to_json() {
                Some(json) => json,
                None => {
                    return None;
                },
            };
            let mut line = String::from_str("CONNECT ");
            line.append(json.as_str());
            append_crlf(&mut line);
            Some(line)
        },
        ClientOp::Pub { subject, reply_to, payload } => {
            let mut line = String::from_str("PUB ");
            line.append(subject);
            append_space(&mut line);
            append_optional_word(&mut line, *reply_to);
            line.append(format_u64(payload.len() as u64).as_str());
            append_crlf(&mut line);
            Some(line)
        },
        ClientOp::Sub { subject, queue_group, sid } => {
            let mut line = String::from_str("SUB ");
            line.append(subject);
            append_space(&mut line);
            append_optional_word(&mut line, *queue_group);
            line.append(format_u64(*sid).as_str());
            append_crlf(&mut line);
            Some(line)
        },
        ClientOp::Unsub { sid, max_msgs } => {
            let mut line = String::from_str("UNSUB ");
            line.append(format_u64(*sid).as_str());
            match max_msgs {
                Some(m) => {
                    append_space(&mut line);
                    line.append(format_u64(*m).as_str());
                    assert(line@ =~= "UNSUB "@ + decimal(*sid as nat) + (seq![' '] + decimal(
                        *m as nat,
                    )));
                },
                None => {
                    assert(line@ =~= line@ + Seq::<char>::empty());
                },
            }
            append_crlf(&mut line);
            Some(line)
        },
        ClientOp::Ping => {
            let mut line = String::from_str("PING");
            append_crlf(&mut line);
            Some(line)
        },
        ClientOp::Pong => {
            let mut line = String::from_str("PONG");
            append_crlf(&mut line);
            Some(line)
        },
    }
}

/// Appends the bytes of one operation to `stream`.
///
/// Nothing but the operation's own bytes is written, so the operations of
/// successive calls follow one another without any separator. Where a
/// `CONNECT` operation cannot be written as JSON, the call fails with
/// invalid input and `stream` stays as it was.
pub fn encode(stream: &mut Vec<u8>, op: ClientOp<'_>) -> (r: Result<(), Error>)
    ensures
        match wire_form(op@) {
            Some(bytes) => r is Ok && final(stream)@ == old(stream)@ + bytes,
            None => r is Err && r.unwrap_err().kind == ErrorKind::InvalidInput && final(stream)@
                == old(stream)@,
        },
{
    let line = match control_line_text(&op) {
        Some(line) => line,
        None => {
            return Err(
                Error::new(
                    ErrorKind::InvalidInput,
                    "the CONNECT options cannot be written as JSON",
                ),
            );
        },
    };
    write_all(stream, line.as_str().as_bytes());
    match op {
        ClientOp::Pub { subject, reply_to, payload } => {
            write_all(stream, payload);
            stream.push(13u8);
            stream.push(10u8);
            assert(stream@ =~= old(stream)@ + (encode_utf8(line@) + (payload@ + seq![13u8, 10u8])));
        },
        _ => {
            assert(stream@ =~= old(stream)@ + (encode_utf8(line@) + Seq::<u8>::empty()));
        },
    }
    Ok(())
}

} // verus!
