//! The broker's side of the codec: how a frame that the client sent is read
//! back, with the proof that reading what `encode` wrote gives the
//! operation's own values, and how a message is framed for the client, with
//! the proof that `decode` reads it back.

use crate::connect::{connect_json, json_credentials, json_opening, quoted_fields};
use crate::decimal::{decimal, is_digit, lemma_decimal_value, unsigned_value};
use crate::decoder::{
    after_verb, decoded, head_of, lemma_line_len_is, lemma_line_len_props, line_head, line_len,
    verb_of, HeadView, Outcome, ServerOpView,
};
use crate::encoder::{crlf, optional_count, optional_word, wire_form, ClientOpView};
use crate::text::{
    is_space, lemma_run_len_is, lemma_trailing_len_is, one_line, same_ignoring_case, tokens, trim,
    trim_start,
};
use vstd::prelude::*;
use vstd::utf8::{
    decode_utf8, encode_scalar, encode_utf8, encode_utf8_decode_utf8, encode_utf8_valid_utf8,
    is_scalar, valid_utf8,
};

verus! {

/// The encoding of a character holds the byte 10 only where the character
/// is the line feed, whose encoding is that one byte.
pub proof fn lemma_scalar_line_feed(c: char)
    ensures
        c == '\n' ==> encode_scalar(c as u32) == seq![10u8],
        c != '\n' ==> forall|j: int|
            0 <= j < encode_scalar(c as u32).len() ==> #[trigger] encode_scalar(c as u32)[j]
                != 10u8,
{
    let v = c as u32;
    assert(is_scalar(v));
    assert(v <= 0x7F ==> ((v & 0x7F) as u8 == 10u8 <==> v == 10)) by (bit_vector);
    assert(forall|b: u8| (0x80u8 | b) != 10u8) by (bit_vector);
    assert(forall|b: u8| (0xC0u8 | b) != 10u8) by (bit_vector);
    assert(forall|b: u8| (0xE0u8 | b) != 10u8) by (bit_vector);
    assert(forall|b: u8| (0xF0u8 | b) != 10u8) by (bit_vector);
    if c == '\n' {
        assert(encode_scalar(v) =~= seq![10u8]);
    }
}

/// Encoding a text piece by piece gives the encoding of the whole.
pub proof fn lemma_encode_concat(a: Seq<char>, b: Seq<char>)
    ensures
        encode_utf8(a + b) == encode_utf8(a) + encode_utf8(b),
    decreases a.len(),
{
    if a.len() == 0 {
        assert(a + b =~= b);
        assert(encode_utf8(a) + encode_utf8(b) =~= encode_utf8(b));
    } else {
        lemma_encode_concat(a.drop_first(), b);
        assert((a + b).drop_first() =~= a.drop_first() + b);
        assert(encode_utf8(a + b) =~= encode_utf8(a) + encode_utf8(b));
    }
}

/// A text without line feed has no byte 10 in its encoding.
pub proof fn lemma_no_line_feed_byte(s: Seq<char>)
    requires
        forall|k: int| 0 <= k < s.len() ==> #[trigger] s[k] != '\n',
    ensures
        forall|j: int| 0 <= j < encode_utf8(s).len() ==> #[trigger] encode_utf8(s)[j] != 10u8,
    decreases s.len(),
{
    if s.len() > 0 {
        let t = s.drop_first();
        assert forall|k: int| 0 <= k < t.len() implies #[trigger] t[k] != '\n' by {
            assert(t[k] == s[k + 1]);
        }
        lemma_no_line_feed_byte(t);
        lemma_scalar_line_feed(s[0]);
        let head = encode_scalar(s[0] as u32);
        assert forall|j: int| 0 <= j < encode_utf8(s).len() implies #[trigger] encode_utf8(s)[j]
            != 10u8 by {
            if j < head.len() {
                assert(encode_utf8(s)[j] == head[j]);
            } else {
                assert(encode_utf8(s)[j] == encode_utf8(t)[j - head.len()]);
            }
        }
    }
}

/// A line of text that ends with its only line feed is, once encoded and
/// followed by any bytes, the first line of the byte stream.
pub proof fn lemma_encoded_line(line: Seq<char>, body: Seq<u8>)
    requires
        line.len() > 0,
        line.last() == '\n',
        forall|k: int| 0 <= k < line.len() - 1 ==> #[trigger] line[k] != '\n',
    ensures
        line_len(encode_utf8(line) + body) == encode_utf8(line).len(),
        (encode_utf8(line) + body).take(encode_utf8(line).len() as int) == encode_utf8(line),
        (encode_utf8(line) + body).skip(encode_utf8(line).len() as int) == body,
{
    let s = line.drop_last();
    let last = seq!['\n'];
    assert(line =~= s + last);
    lemma_encode_concat(s, last);
    lemma_scalar_line_feed('\n');
    assert(last.drop_first() =~= Seq::<char>::empty());
    assert(encode_utf8(last) =~= seq![10u8]) by {
        reveal_with_fuel(encode_utf8, 2);
    }
    assert forall|k: int| 0 <= k < s.len() implies #[trigger] s[k] != '\n' by {
        assert(s[k] == line[k]);
    }
    lemma_no_line_feed_byte(s);
    let bytes = encode_utf8(line);
    let input = bytes + body;
    let n = bytes.len() as int;
    assert(n == encode_utf8(s).len() + 1);
    assert forall|k: int| 0 <= k < n - 1 implies #[trigger] input[k] != 10u8 by {
        assert(input[k] == encode_utf8(s)[k]);
    }
    assert(input[n - 1] == 10u8);
    lemma_line_len_is(input, n);
    assert(input.take(n) =~= bytes);
    assert(input.skip(n) =~= body);
}

/// A non-empty text without whitespace: what can stand as one argument of
/// a control line.
pub open spec fn is_word(s: Seq<char>) -> bool {
    s.len() > 0 && forall|k: int| 0 <= k < s.len() ==> !is_space(#[trigger] s[k])
}

/// A word in front of a text that is empty or starts with whitespace is the
/// text's first token, and the rest follows it.
pub proof fn lemma_word_then(w: Seq<char>, rest: Seq<char>)
    requires
        is_word(w),
        rest.len() == 0 || is_space(rest[0]),
    ensures
        verb_of(w + rest) == w,
        after_verb(w + rest) == rest,
        tokens(w + rest) == seq![w] + tokens(rest),
{
    let s = w + rest;
    assert(s[0] == w[0]);
    lemma_run_len_is(s, true, 0);
    assert forall|k: int| 0 <= k < w.len() implies is_space(#[trigger] s[k]) == false by {
        assert(s[k] == w[k]);
    }
    if w.len() < s.len() {
        assert(s[w.len() as int] == rest[0]);
    }
    lemma_run_len_is(s, false, w.len() as int);
    assert(trim_start(s) =~= s);
    assert(s.take(w.len() as int) =~= w);
    assert(s.skip(w.len() as int) =~= rest);
}

/// Whitespace in front of a text adds no token.
pub proof fn lemma_space_then(c: char, rest: Seq<char>)
    requires
        is_space(c),
    ensures
        tokens(seq![c] + rest) == tokens(rest),
{
    assert((seq![c] + rest).drop_first() =~= rest);
}

/// The end of a control line holds no token.
pub proof fn lemma_tokens_crlf()
    ensures
        tokens(crlf()) == Seq::<Seq<char>>::empty(),
{
    let lf = seq!['\n'];
    assert(crlf() =~= seq!['\r'] + lf);
    lemma_space_then('\r', lf);
    assert(lf =~= seq!['\n'] + Seq::<char>::empty());
    lemma_space_then('\n', Seq::<char>::empty());
}

/// A space, a word, and then a text that is empty or starts with
/// whitespace: the word is the first token.
pub proof fn lemma_spaced_word(w: Seq<char>, rest: Seq<char>)
    requires
        is_word(w),
        rest.len() == 0 || is_space(rest[0]),
    ensures
        tokens(seq![' '] + w + rest) == seq![w] + tokens(rest),
{
    assert(seq![' '] + w + rest =~= seq![' '] + (w + rest));
    lemma_space_then(' ', w + rest);
    lemma_word_then(w, rest);
}

/// A number written in decimal is a word of digits, worth the number.
pub proof fn lemma_decimal_word(n: nat, max: nat)
    requires
        n <= max,
    ensures
        is_word(decimal(n)),
        one_line(decimal(n)),
        unsigned_value(decimal(n), max) == Some(n),
{
    lemma_decimal_value(n);
    let d = decimal(n);
    assert forall|k: int| 0 <= k < d.len() implies !is_space(#[trigger] d[k]) && d[k] != '\n' by {
        assert(is_digit(d[k]));
    }
    assert(is_digit(d[0]));
}

/// A word holds no line feed.
pub proof fn lemma_word_one_line(w: Seq<char>)
    requires
        is_word(w),
    ensures
        one_line(w),
{
    assert forall|k: int| 0 <= k < w.len() implies #[trigger] w[k] != '\n' by {
        assert(!is_space(w[k]));
    }
}

/// A text made of a single line and the line end is, once encoded and
/// followed by any bytes, the first line of the byte stream, and decodes to
/// itself.
pub proof fn lemma_frame_line(text: Seq<char>, body: Seq<u8>)
    requires
        one_line(text),
    ensures
        ({
            let frame = encode_utf8(text + crlf()) + body;
            let n = line_len(frame) as int;
            &&& valid_utf8(frame.take(n))
            &&& decode_utf8(frame.take(n)) == text + crlf()
            &&& frame.skip(n) == body
        }),
{
    let line = text + crlf();
    assert(line.last() == '\n');
    assert forall|k: int| 0 <= k < line.len() - 1 implies #[trigger] line[k] != '\n' by {
        if k < text.len() {
            assert(line[k] == text[k]);
        }
    }
    lemma_encoded_line(line, body);
    encode_utf8_valid_utf8(line);
    encode_utf8_decode_utf8(line);
}

/// What the broker takes from a frame.
pub enum ClientFrame {
    Connect { json: Seq<char> },
    Pub { subject: Seq<char>, reply_to: Option<Seq<char>>, payload: Seq<u8> },
    Sub { subject: Seq<char>, queue_group: Option<Seq<char>>, sid: u64 },
    Unsub { sid: u64, max_msgs: Option<u64> },
    Ping,
    Pong,
}

/// The values that the operation `op` carries: for `CONNECT` its JSON text,
/// for every other operation its fields.
pub open spec fn values_of(op: ClientOpView) -> Option<ClientFrame> {
    match op {
        ClientOpView::Connect(info) => match connect_json(info) {
            Some(json) => Some(ClientFrame::Connect { json }),
            None => None,
        },
        ClientOpView::Pub { subject, reply_to, payload } => Some(
            ClientFrame::Pub { subject, reply_to, payload },
        ),
        ClientOpView::Sub { subject, queue_group, sid } => Some(
            ClientFrame::Sub { subject, queue_group, sid },
        ),
        ClientOpView::Unsub { sid, max_msgs } => Some(ClientFrame::Unsub { sid, max_msgs }),
        ClientOpView::Ping => Some(ClientFrame::Ping),
        ClientOpView::Pong => Some(ClientFrame::Pong),
    }
}

/// A `PUB` frame: subject, an optional reply subject and the payload's
/// length, then the payload and a line end.
pub open spec fn pub_frame(args: Seq<Seq<char>>, body: Seq<u8>) -> Option<ClientFrame> {
    if args.len() == 2 || args.len() == 3 {
        match unsigned_value(args.last(), u64::MAX as nat) {
            Some(len) => {
                if body.len() == len + 2 && body[len as int] == 13u8 && body[len as int + 1]
                    == 10u8 {
                    Some(
                        ClientFrame::Pub {
                            subject: args[0],
                            reply_to: if args.len() == 3 {
                                Some(args[1])
                            } else {
                                None
                            },
                            payload: body.take(len as int),
                        },
                    )
                } else {
                    None
                }
            },
            None => None,
        }
    } else {
        None
    }
}

/// A `SUB` frame: subject, an optional queue group and the sid.
pub open spec fn sub_frame(args: Seq<Seq<char>>) -> Option<ClientFrame> {
    if args.len() == 2 || args.len() == 3 {
        match unsigned_value(args.last(), u64::MAX as nat) {
            Some(sid) => Some(
                ClientFrame::Sub {
                    subject: args[0],
                    queue_group: if args.len() == 3 {
                        Some(args[1])
                    } else {
                        None
                    },
                    sid: sid as u64,
                },
            ),
            None => None,
        }
    } else {
        None
    }
}

/// An `UNSUB` frame: the sid and an optional number of messages.
pub open spec fn unsub_frame(args: Seq<Seq<char>>) -> Option<ClientFrame> {
    if args.len() == 1 {
        match unsigned_value(args[0], u64::MAX as nat) {
            Some(sid) => Some(ClientFrame::Unsub { sid: sid as u64, max_msgs: None }),
            None => None,
        }
    } else if args.len() == 2 {
        match (unsigned_value(args[0], u64::MAX as nat), unsigned_value(args[1], u64::MAX as nat)) {
            (Some(sid), Some(max)) => Some(
                ClientFrame::Unsub { sid: sid as u64, max_msgs: Some(max as u64) },
            ),
            _ => None,
        }
    } else {
        None
    }
}

/// What the broker reads from the bytes of one frame: a control line in
/// UTF-8 whose first token, compared without regard to case, names the
/// operation, with whitespace between its arguments; after a `PUB` line the
/// payload; after any other line nothing.
pub open spec fn reads_as(frame: Seq<u8>) -> Option<ClientFrame> {
    let n = line_len(frame) as int;
    let body = frame.skip(n);
    if !valid_utf8(frame.take(n)) {
        None
    } else {
        let line = decode_utf8(frame.take(n));
        let verb = verb_of(line);
        let rest = after_verb(line);
        if same_ignoring_case(verb, "PUB"@) {
            pub_frame(tokens(rest), body)
        } else if body.len() > 0 {
            None
        } else if same_ignoring_case(verb, "CONNECT"@) {
            Some(ClientFrame::Connect { json: trim(rest) })
        } else if same_ignoring_case(verb, "SUB"@) {
            sub_frame(tokens(rest))
        } else if same_ignoring_case(verb, "UNSUB"@) {
            unsub_frame(tokens(rest))
        } else if same_ignoring_case(verb, "PING"@) && tokens(rest).len() == 0 {
            Some(ClientFrame::Ping)
        } else if same_ignoring_case(verb, "PONG"@) && tokens(rest).len() == 0 {
            Some(ClientFrame::Pong)
        } else {
            None
        }
    }
}

/// The operations that can be sent: subjects, reply subjects and queue
/// groups are words, a payload's length fits in 64 bits, and a `CONNECT`
/// has a JSON text.
pub open spec fn legal(op: ClientOpView) -> bool {
    match op {
        ClientOpView::Connect(info) => connect_json(info) is Some,
        ClientOpView::Pub { subject, reply_to, payload } => is_word(subject) && (reply_to matches Some(
            r,
        ) ==> is_word(r)) && payload.len() <= u64::MAX,
        ClientOpView::Sub { subject, queue_group, sid } => is_word(subject) && (
        queue_group matches Some(q) ==> is_word(q)),
        _ => true,
    }
}

proof fn lemma_literals()
    ensures
        "PUB"@ == seq!['P', 'U', 'B'],
        "PUB "@ == seq!['P', 'U', 'B', ' '],
        "SUB"@ == seq!['S', 'U', 'B'],
        "SUB "@ == seq!['S', 'U', 'B', ' '],
        "UNSUB"@ == seq!['U', 'N', 'S', 'U', 'B'],
        "UNSUB "@ == seq!['U', 'N', 'S', 'U', 'B', ' '],
        "CONNECT"@ == seq!['C', 'O', 'N', 'N', 'E', 'C', 'T'],
        "CONNECT "@ == seq!['C', 'O', 'N', 'N', 'E', 'C', 'T', ' '],
        "PING"@ == seq!['P', 'I', 'N', 'G'],
        "PONG"@ == seq!['P', 'O', 'N', 'G'],
{
    reveal_strlit("PUB");
    reveal_strlit("PUB ");
    reveal_strlit("SUB");
    reveal_strlit("SUB ");
    reveal_strlit("UNSUB");
    reveal_strlit("UNSUB ");
    reveal_strlit("CONNECT");
    reveal_strlit("CONNECT ");
    reveal_strlit("PING");
    reveal_strlit("PONG");
    assert("PUB"@ =~= seq!['P', 'U', 'B']);
    assert("PUB "@ =~= seq!['P', 'U', 'B', ' ']);
    assert("SUB"@ =~= seq!['S', 'U', 'B']);
    assert("SUB "@ =~= seq!['S', 'U', 'B', ' ']);
    assert("UNSUB"@ =~= seq!['U', 'N', 'S', 'U', 'B']);
    assert("UNSUB "@ =~= seq!['U', 'N', 'S', 'U', 'B', ' ']);
    assert("CONNECT"@ =~= seq!['C', 'O', 'N', 'N', 'E', 'C', 'T']);
    assert("CONNECT "@ =~= seq!['C', 'O', 'N', 'N', 'E', 'C', 'T', ' ']);
    assert("PING"@ =~= seq!['P', 'I', 'N', 'G']);
    assert("PONG"@ =~= seq!['P', 'O', 'N', 'G']);
}

/// Two texts of which one holds no line feed each make one such text.
proof fn lemma_one_line_concat(a: Seq<char>, b: Seq<char>)
    requires
        one_line(a),
        one_line(b),
    ensures
        one_line(a + b),
{
    assert forall|k: int| 0 <= k < (a + b).len() implies #[trigger] (a + b)[k] != '\n' by {
        if k < a.len() {
            assert((a + b)[k] == a[k]);
        } else {
            assert((a + b)[k] == b[k - a.len()]);
        }
    }
}

proof fn lemma_optional_word(w: Option<Seq<char>>)
    requires
        w matches Some(t) ==> is_word(t),
    ensures
        one_line(optional_word(w)),
{
    if let Some(t) = w {
        lemma_word_one_line(t);
        lemma_one_line_concat(t, seq![' ']);
    }
}

/// The tokens of what follows the verb of a `PUB` or `SUB` line.
proof fn lemma_subject_tokens(subject: Seq<char>, second: Option<Seq<char>>, number: Seq<char>)
    requires
        is_word(subject),
        second matches Some(t) ==> is_word(t),
        is_word(number),
    ensures
        tokens(seq![' '] + subject + seq![' '] + optional_word(second) + number + crlf()) == (
        match second {
            Some(t) => seq![subject, t, number],
            None => seq![subject, number],
        }),
{
    let rest = seq![' '] + subject + seq![' '] + optional_word(second) + number + crlf();
    let last = seq![' '] + number + crlf();
    lemma_spaced_word(number, crlf());
    lemma_tokens_crlf();
    assert(tokens(last) =~= seq![number]);
    match second {
        Some(t) => {
            let middle = seq![' '] + t + last;
            assert(rest =~= seq![' '] + subject + middle);
            lemma_spaced_word(subject, middle);
            lemma_spaced_word(t, last);
            assert(tokens(rest) =~= seq![subject, t, number]);
        },
        None => {
            assert(rest =~= seq![' '] + subject + last);
            lemma_spaced_word(subject, last);
            assert(tokens(rest) =~= seq![subject, number]);
        },
    }
}

proof fn lemma_read_pub(subject: Seq<char>, reply_to: Option<Seq<char>>, payload: Seq<u8>)
    requires
        legal(ClientOpView::Pub { subject, reply_to, payload }),
    ensures
        wire_form(ClientOpView::Pub { subject, reply_to, payload }) matches Some(frame)
            && reads_as(frame) == values_of(ClientOpView::Pub { subject, reply_to, payload }),
{
    lemma_literals();
    let op = ClientOpView::Pub { subject, reply_to, payload };
    let number = decimal(payload.len());
    lemma_decimal_word(payload.len(), u64::MAX as nat);
    let text = "PUB "@ + subject + seq![' '] + optional_word(reply_to) + number;
    let body = payload + seq![13u8, 10u8];
    assert(one_line(text)) by {
        lemma_word_one_line(subject);
        lemma_optional_word(reply_to);
        lemma_one_line_concat("PUB "@, subject);
        lemma_one_line_concat("PUB "@ + subject, seq![' ']);
        lemma_one_line_concat("PUB "@ + subject + seq![' '], optional_word(reply_to));
        lemma_one_line_concat(
            "PUB "@ + subject + seq![' '] + optional_word(reply_to),
            number,
        );
    }
    lemma_frame_line(text, body);
    let verb = seq!['P', 'U', 'B'];
    let rest = seq![' '] + subject + seq![' '] + optional_word(reply_to) + number + crlf();
    assert(text + crlf() =~= verb + rest);
    lemma_word_then(verb, rest);
    lemma_subject_tokens(subject, reply_to, number);
    assert(body.take(payload.len() as int) =~= payload);
}

proof fn lemma_read_sub(subject: Seq<char>, queue_group: Option<Seq<char>>, sid: u64)
    requires
        legal(ClientOpView::Sub { subject, queue_group, sid }),
    ensures
        wire_form(ClientOpView::Sub { subject, queue_group, sid }) matches Some(frame)
            && reads_as(frame) == values_of(ClientOpView::Sub { subject, queue_group, sid }),
{
    lemma_literals();
    let number = decimal(sid as nat);
    lemma_decimal_word(sid as nat, u64::MAX as nat);
    let text = "SUB "@ + subject + seq![' '] + optional_word(queue_group) + number;
    assert(one_line(text)) by {
        lemma_word_one_line(subject);
        lemma_optional_word(queue_group);
        lemma_one_line_concat("SUB "@, subject);
        lemma_one_line_concat("SUB "@ + subject, seq![' ']);
        lemma_one_line_concat("SUB "@ + subject + seq![' '], optional_word(queue_group));
        lemma_one_line_concat(
            "SUB "@ + subject + seq![' '] + optional_word(queue_group),
            number,
        );
    }
    lemma_frame_line(text, Seq::<u8>::empty());
    let verb = seq!['S', 'U', 'B'];
    let rest = seq![' '] + subject + seq![' '] + optional_word(queue_group) + number + crlf();
    assert(text + crlf() =~= verb + rest);
    lemma_word_then(verb, rest);
    lemma_subject_tokens(subject, queue_group, number);
    assert(verb[0] == 'S');
    assert(!same_ignoring_case(verb, "PUB"@));
}

proof fn lemma_read_unsub(sid: u64, max_msgs: Option<u64>)
    ensures
        wire_form(ClientOpView::Unsub { sid, max_msgs }) matches Some(frame) && reads_as(frame)
            == values_of(ClientOpView::Unsub { sid, max_msgs }),
{
    lemma_literals();
    let number = decimal(sid as nat);
    lemma_decimal_word(sid as nat, u64::MAX as nat);
    let text = "UNSUB "@ + number + optional_count(max_msgs);
    let verb = seq!['U', 'N', 'S', 'U', 'B'];
    let rest = seq![' '] + number + optional_count(max_msgs) + crlf();
    lemma_tokens_crlf();
    match max_msgs {
        Some(m) => {
            let limit = decimal(m as nat);
            lemma_decimal_word(m as nat, u64::MAX as nat);
            lemma_one_line_concat(seq![' '], limit);
            let last = seq![' '] + limit + crlf();
            assert(rest =~= seq![' '] + number + last);
            lemma_spaced_word(number, last);
            lemma_spaced_word(limit, crlf());
            assert(tokens(rest) =~= seq![number, limit]);
        },
        None => {
            assert(rest =~= seq![' '] + number + crlf());
            lemma_spaced_word(number, crlf());
            assert(tokens(rest) =~= seq![number]);
        },
    }
    assert(one_line(text)) by {
        lemma_one_line_concat("UNSUB "@, number);
        lemma_one_line_concat("UNSUB "@ + number, optional_count(max_msgs));
    }
    lemma_frame_line(text, Seq::<u8>::empty());
    assert(text + crlf() =~= verb + rest);
    lemma_word_then(verb, rest);
    assert(verb[0] == 'U');
}

proof fn lemma_read_ping_pong(ping: bool)
    ensures
        ping ==> (wire_form(ClientOpView::Ping) matches Some(frame) && reads_as(frame) == Some(
            ClientFrame::Ping,
        )),
        !ping ==> (wire_form(ClientOpView::Pong) matches Some(frame) && reads_as(frame) == Some(
            ClientFrame::Pong,
        )),
{
    lemma_literals();
    let verb = if ping {
        "PING"@
    } else {
        "PONG"@
    };
    lemma_frame_line(verb, Seq::<u8>::empty());
    lemma_word_then(verb, crlf());
    lemma_tokens_crlf();
    assert(verb[1] == if ping {
        'I'
    } else {
        'O'
    });
}

proof fn lemma_read_connect(json: Seq<char>)
    requires
        one_line(json),
        json.len() >= 2,
        json[0] == '{',
        json.last() == '}',
    ensures
        reads_as(encode_utf8("CONNECT "@ + json + crlf()) + Seq::<u8>::empty()) == Some(
            ClientFrame::Connect { json },
        ),
{
    lemma_literals();
    let text = "CONNECT "@ + json;
    lemma_one_line_concat("CONNECT "@, json);
    lemma_frame_line(text, Seq::<u8>::empty());
    let verb = seq!['C', 'O', 'N', 'N', 'E', 'C', 'T'];
    let rest = seq![' '] + json + crlf();
    assert(text + crlf() =~= verb + rest);
    lemma_word_then(verb, rest);
    lemma_run_len_is(rest, true, 1);
    let kept = json + crlf();
    assert(trim_start(rest) =~= kept);
    assert(kept[kept.len() - 3] == json.last());
    lemma_trailing_len_is(kept, 2);
    assert(trim(rest) =~= json);
}

/// Encoding then reading: what the broker reads from the bytes that
/// `encode` writes for a legal operation are the operation's own values.
pub proof fn lemma_encode_then_read(op: ClientOpView)
    requires
        legal(op),
    ensures
        wire_form(op) matches Some(frame) && reads_as(frame) == values_of(op),
{
    match op {
        ClientOpView::Connect(info) => {
            let json = connect_json(info).unwrap();
            reveal_strlit("{");
            reveal_strlit("}");
            let q = quoted_fields(info).unwrap();
            let start = json_opening(info, q);
            let end = json_credentials(q);
            assert(start[0] == '{');
            assert(end.last() == '}');
            assert(json[0] == start[0]);
            assert(json.last() == end.last());
            lemma_read_connect(json);
        },
        ClientOpView::Pub { subject, reply_to, payload } => {
            lemma_read_pub(subject, reply_to, payload);
        },
        ClientOpView::Sub { subject, queue_group, sid } => {
            lemma_read_sub(subject, queue_group, sid);
        },
        ClientOpView::Unsub { sid, max_msgs } => {
            lemma_read_unsub(sid, max_msgs);
        },
        ClientOpView::Ping => {
            lemma_read_ping_pong(true);
        },
        ClientOpView::Pong => {
            lemma_read_ping_pong(false);
        },
    }
}

/// What the client writes for `PING` and for `PONG` is what the decoder
/// reads as `Ping` and as `Pong`, taking the whole frame.
pub proof fn lemma_ping_pong_decode(ping: bool)
    ensures
        ping ==> (wire_form(ClientOpView::Ping) matches Some(frame) && decoded(frame) == (
            Outcome::Op(ServerOpView::Ping),
            frame.len(),
        )),
        !ping ==> (wire_form(ClientOpView::Pong) matches Some(frame) && decoded(frame) == (
            Outcome::Op(ServerOpView::Pong),
            frame.len(),
        )),
{
    lemma_literals();
    let verb = if ping {
        "PING"@
    } else {
        "PONG"@
    };
    lemma_frame_line(verb, Seq::<u8>::empty());
    lemma_word_then(verb, crlf());
    assert(verb[1] == if ping {
        'I'
    } else {
        'O'
    });
    let frame = encode_utf8(verb + crlf()) + Seq::<u8>::empty();
    let n = line_len(frame) as int;
    lemma_line_len_props(frame);
    assert(n == frame.len()) by {
        assert(frame.skip(n).len() == frame.len() - n);
    }
    assert(head_of(verb + crlf()) == Some(
        HeadView::Complete(
            if ping {
                ServerOpView::Ping
            } else {
                ServerOpView::Pong
            },
        ),
    ));
    assert(line_head(frame.take(n)) == head_of(verb + crlf()));
    assert(wire_form(if ping {
        ClientOpView::Ping
    } else {
        ClientOpView::Pong
    }).unwrap() == frame);
}

/// The frame in which a broker sends a message: the `MSG` line with
/// subject, sid, an optional reply subject and the payload's length, then
/// the payload and a line end.
pub open spec fn msg_frame(
    subject: Seq<char>,
    sid: u64,
    reply_to: Option<Seq<char>>,
    payload: Seq<u8>,
) -> Seq<u8> {
    encode_utf8(
        "MSG "@ + subject + seq![' '] + decimal(sid as nat) + seq![' '] + optional_word(reply_to)
            + decimal(payload.len()) + crlf(),
    ) + payload + seq![13u8, 10u8]
}

/// Decoding the frame of a message gives the message, with its payload
/// byte for byte, and takes the whole frame.
pub proof fn lemma_decode_msg(
    subject: Seq<char>,
    sid: u64,
    reply_to: Option<Seq<char>>,
    payload: Seq<u8>,
)
    requires
        is_word(subject),
        reply_to matches Some(r) ==> is_word(r),
        payload.len() <= u32::MAX,
    ensures
        decoded(msg_frame(subject, sid, reply_to, payload)) == (
            Outcome::Op(ServerOpView::Msg { subject, sid, reply_to, payload }),
            msg_frame(subject, sid, reply_to, payload).len(),
        ),
{
    reveal_strlit("MSG ");
    reveal_strlit("MSG");
    reveal_strlit("PING");
    reveal_strlit("PONG");
    reveal_strlit("INFO");
    let verb = seq!['M', 'S', 'G'];
    assert("MSG"@ =~= verb);
    assert("MSG "@ =~= verb + seq![' ']);
    let id = decimal(sid as nat);
    let count = decimal(payload.len());
    lemma_decimal_word(sid as nat, u64::MAX as nat);
    lemma_decimal_word(payload.len(), u32::MAX as nat);
    let start = "MSG "@ + subject + seq![' '] + id + seq![' '];
    let text = start + optional_word(reply_to) + count;
    let body = payload + seq![13u8, 10u8];
    assert(one_line(text)) by {
        lemma_word_one_line(subject);
        lemma_optional_word(reply_to);
        lemma_one_line_concat("MSG "@, subject);
        lemma_one_line_concat("MSG "@ + subject, seq![' ']);
        lemma_one_line_concat("MSG "@ + subject + seq![' '], id);
        lemma_one_line_concat("MSG "@ + subject + seq![' '] + id, seq![' ']);
        lemma_one_line_concat(start, optional_word(reply_to));
        lemma_one_line_concat(start + optional_word(reply_to), count);
    }
    lemma_frame_line(text, body);
    let last = seq![' '] + count + crlf();
    lemma_spaced_word(count, crlf());
    lemma_tokens_crlf();
    assert(tokens(last) =~= seq![count]);
    let after_id = match reply_to {
        Some(r) => seq![' '] + r + last,
        None => last,
    };
    if let Some(r) = reply_to {
        lemma_spaced_word(r, last);
        assert(tokens(after_id) =~= seq![r, count]);
    }
    let after_subject = seq![' '] + id + after_id;
    lemma_spaced_word(id, after_id);
    let rest = seq![' '] + subject + after_subject;
    lemma_spaced_word(subject, after_subject);
    assert(text + crlf() =~= verb + rest);
    lemma_word_then(verb, rest);
    let args = tokens(rest);
    assert(args =~= match reply_to {
        Some(r) => seq![subject, id, r, count],
        None => seq![subject, id, count],
    });
    let frame = msg_frame(subject, sid, reply_to, payload);
    assert(frame =~= encode_utf8(text + crlf()) + body);
    let n = line_len(frame) as int;
    lemma_line_len_props(frame);
    assert(frame.skip(n).len() == frame.len() - n);
    assert(frame.subrange(n, n + payload.len()) =~= payload) by {
        assert(frame.skip(n).take(payload.len() as int) =~= frame.subrange(n, n + payload.len()));
    }
}

} // verus!
