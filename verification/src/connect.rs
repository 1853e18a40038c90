//! The `CONNECT` operation that opens a session: the options it is made
//! from, its fields, and its JSON text.

use crate::json::{json_quoted, quote_json};
use crate::text::{chars_of, find_char, one_line, text_of};
use vstd::prelude::*;
use vstd::string::*;

verus! {

/// How the client proves who it is.
#[derive(Clone, Debug)]
pub enum AuthStyle {
    /// No credentials.
    NoAuth,
    /// A user name and a password.
    UserPass(String, String),
    /// A token.
    Token(String),
}

/// The options that the core reads.
#[derive(Clone, Debug)]
pub struct FinalizedOptions {
    /// Name that identifies the client to the broker.
    pub name: Option<String>,
    /// The broker shall not send the client's own messages back to it.
    pub no_echo: bool,
    pub auth: AuthStyle,
    /// Passes through the server list before connecting gives up; five
    /// where absent.
    pub max_reconnects: Option<usize>,
    /// Milliseconds between keep-alive pings.
    pub ping_interval_ms: u64,
    /// Pings that may wait for their answer before the link counts as dead.
    pub max_outstanding_pings: usize,
    /// Soft cap, in bytes, on what is buffered while reconnecting.
    pub reconnect_buffer_size: usize,
}

/// The fields of a `CONNECT` operation.
#[derive(Clone, Debug)]
pub struct ConnectInfo {
    pub name: Option<String>,
    pub verbose: bool,
    pub pedantic: bool,
    pub echo: bool,
    pub lang: String,
    pub version: String,
    pub tls_required: bool,
    pub user: Option<String>,
    pub pass: Option<String>,
    pub auth_token: Option<String>,
}

/// A `ConnectInfo` as a value of specifications.
pub struct ConnectInfoView {
    pub name: Option<Seq<char>>,
    pub verbose: bool,
    pub pedantic: bool,
    pub echo: bool,
    pub lang: Seq<char>,
    pub version: Seq<char>,
    pub tls_required: bool,
    pub user: Option<Seq<char>>,
    pub pass: Option<Seq<char>>,
    pub auth_token: Option<Seq<char>>,
}

impl View for ConnectInfo {
    type V = ConnectInfoView;

    open spec fn view(&self) -> ConnectInfoView {
        ConnectInfoView {
            name: text_of(self.name),
            verbose: self.verbose,
            pedantic: self.pedantic,
            echo: self.echo,
            lang: self.lang@,
            version: self.version@,
            tls_required: self.tls_required,
            user: text_of(self.user),
            pass: text_of(self.pass),
            auth_token: text_of(self.auth_token),
        }
    }
}

/// Tells whether a boolean field holds `true`, in which case the `CONNECT`
/// text leaves it out.
pub fn if_true(field: &bool) -> (b: bool)
    ensures
        b == *field,
{
    *field
}

/// Tells whether a text field is absent or empty, in which case the
/// `CONNECT` text leaves it out.
pub fn empty_or_none(field: &Option<&String>) -> (b: bool)
    ensures
        b == (match *field {
            Some(inner) => inner@.len() == 0,
            None => true,
        }),
{
    match field {
        Some(inner) => inner.as_str().is_empty(),
        None => true,
    }
}

/// The field is there and not empty, so the `CONNECT` text holds it.
pub open spec fn is_set(field: Option<Seq<char>>) -> bool {
    field matches Some(t) && t.len() > 0
}

/// The text members of a `CONNECT` operation, each written as a JSON
/// string; `None` for a member that the text leaves out.
#[derive(Debug)]
pub struct Quoted {
    pub name: Option<String>,
    pub lang: String,
    pub version: String,
    pub user: Option<String>,
    pub pass: Option<String>,
    pub auth_token: Option<String>,
}

/// A `Quoted` as a value of specifications.
pub struct QuotedView {
    pub name: Option<Seq<char>>,
    pub lang: Seq<char>,
    pub version: Seq<char>,
    pub user: Option<Seq<char>>,
    pub pass: Option<Seq<char>>,
    pub auth_token: Option<Seq<char>>,
}

impl View for Quoted {
    type V = QuotedView;

    open spec fn view(&self) -> QuotedView {
        QuotedView {
            name: text_of(self.name),
            lang: self.lang@,
            version: self.version@,
            user: text_of(self.user),
            pass: text_of(self.pass),
            auth_token: text_of(self.auth_token),
        }
    }
}

/// The field, where the text holds it, can be written as a JSON string.
pub open spec fn quotable(field: Option<Seq<char>>) -> bool {
    is_set(field) ==> json_quoted(field.unwrap()) is Some
}

/// The field as a JSON string; `None` where the text leaves it out.
pub open spec fn quoted_member(field: Option<Seq<char>>) -> Option<Seq<char>> {
    if is_set(field) {
        json_quoted(field.unwrap())
    } else {
        None
    }
}

/// The text members of `c` as JSON strings; `None` where one of them
/// cannot be written as a JSON string.
pub open spec fn quoted_fields(c: ConnectInfoView) -> Option<QuotedView> {
    if quotable(c.name) && json_quoted(c.lang) is Some && json_quoted(c.version) is Some
        && quotable(c.user) && quotable(c.pass) && quotable(c.auth_token) {
        Some(
            QuotedView {
                name: quoted_member(c.name),
                lang: json_quoted(c.lang).unwrap(),
                version: json_quoted(c.version).unwrap(),
                user: quoted_member(c.user),
                pass: quoted_member(c.pass),
                auth_token: quoted_member(c.auth_token),
            },
        )
    } else {
        None
    }
}

/// `intro`, then the member; nothing where the member is left out.
pub open spec fn member(intro: Seq<char>, quoted: Option<Seq<char>>) -> Seq<char> {
    match quoted {
        Some(q) => intro + q,
        None => Seq::empty(),
    }
}

/// `true` or `false`.
pub open spec fn bool_text(b: bool) -> Seq<char> {
    if b {
        "true"@
    } else {
        "false"@
    }
}

/// How the JSON text opens: the brace, then `name`, `verbose`, `pedantic`
/// and `echo`.
pub open spec fn json_opening(c: ConnectInfoView, q: QuotedView) -> Seq<char> {
    "{"@ + (match q.name {
        Some(name) => "\"name\":"@ + name + ","@,
        None => Seq::empty(),
    }) + "\"verbose\":"@ + bool_text(c.verbose) + ",\"pedantic\":"@ + bool_text(c.pedantic)
        + (if c.echo {
        Seq::empty()
    } else {
        ",\"echo\":false"@
    })
}

/// The middle of the JSON text: `lang`, `version` and `tls_required`.
pub open spec fn json_identity(c: ConnectInfoView, q: QuotedView) -> Seq<char> {
    ",\"lang\":"@ + q.lang + ",\"version\":"@ + q.version + ",\"tls_required\":"@ + bool_text(
        c.tls_required,
    )
}

/// How the JSON text ends: `user`, `pass` and `auth_token`, then the brace.
pub open spec fn json_credentials(q: QuotedView) -> Seq<char> {
    member(",\"user\":"@, q.user) + member(",\"pass\":"@, q.pass) + member(
        ",\"auth_token\":"@,
        q.auth_token,
    ) + "}"@
}

/// The JSON text made of the flags of `c` and the quoted text members `q`:
/// one object with the members `name`, `verbose`, `pedantic`, `echo`,
/// `lang`, `version`, `tls_required`, `user`, `pass` and `auth_token`, in
/// this order. A text member that `q` leaves out is not written, and
/// neither is `echo` where it is true.
pub open spec fn assembled(c: ConnectInfoView, q: QuotedView) -> Seq<char> {
    json_opening(c, q) + json_identity(c, q) + json_credentials(q)
}

/// The JSON text of a `CONNECT` operation: its members assembled, with each
/// text member that is absent or empty left out. `None` where a member
/// cannot be written as a JSON string, or where the text would hold a line
/// feed, which would end the control line before its time.
pub open spec fn connect_json(c: ConnectInfoView) -> Option<Seq<char>> {
    match quoted_fields(c) {
        Some(q) => if one_line(assembled(c, q)) {
            Some(assembled(c, q))
        } else {
            None
        },
        None => None,
    }
}

/// Writes a text member as a JSON string, unless it is left out. The outer
/// `None` tells that the member cannot be written.
fn quote_member(field: &Option<String>) -> (r: Option<Option<String>>)
    ensures
        r is Some <==> quotable(text_of(*field)),
        r is Some ==> text_of(r.unwrap()) == quoted_member(text_of(*field)),
{
    let present = field.as_ref();
    if empty_or_none(&present) {
        Some(None)
    } else {
        match quote_json(present.unwrap().as_str()) {
            Some(q) => Some(Some(q)),
            None => None,
        }
    }
}

fn append_member(out: &mut String, intro: &str, quoted: &Option<String>)
    ensures
        final(out)@ == old(out)@ + member(intro@, text_of(*quoted)),
{
    match quoted {
        Some(q) => {
            out.append(intro);
            out.append(q.as_str());
            assert(out@ =~= old(out)@ + (intro@ + q@));
        },
        None => {
            assert(out@ + Seq::<char>::empty() =~= out@);
        },
    }
}

fn append_bool(out: &mut String, b: bool)
    ensures
        final(out)@ == old(out)@ + bool_text(b),
{
    if b {
        out.append("true");
    } else {
        out.append("false");
    }
}

impl ConnectInfo {
    /// Writes each text member that the JSON text holds as a JSON string.
    pub fn quoted(&self) -> (r: Option<Quoted>)
        ensures
            r is Some <==> quoted_fields(self@) is Some,
            r is Some ==> r.unwrap()@ == quoted_fields(self@).unwrap(),
    {
        let name = match quote_member(&self.name) {
            Some(q) => q,
            None => {
                return None;
            },
        };
        let lang = match quote_json(self.lang.as_str()) {
            Some(q) => q,
            None => {
                return None;
            },
        };
        let version = match quote_json(self.version.as_str()) {
            Some(q) => q,
            None => {
                return None;
            },
        };
        let user = match quote_member(&self.user) {
            Some(q) => q,
            None => {
                return None;
            },
        };
        let pass = match quote_member(&self.pass) {
            Some(q) => q,
            None => {
                return None;
            },
        };
        let auth_token = match quote_member(&self.auth_token) {
            Some(q) => q,
            None => {
                return None;
            },
        };
        Some(Quoted { name, lang, version, user, pass, auth_token })
    }

    fn opening_text(&self, q: &Quoted) -> (out: String)
        ensures
            out@ == json_opening(self@, q@),
    {
        let mut out = String::from_str("{");
        match &q.name {
            Some(name) => {
                out.append("\"name\":");
                out.append(name.as_str());
                out.append(",");
                assert(out@ =~= "{"@ + ("\"name\":"@ + name@ + ","@));
            },
            None => {
                assert(out@ =~= "{"@ + Seq::<char>::empty());
            },
        }
        out.append("\"verbose\":");
        append_bool(&mut out, self.verbose);
        out.append(",\"pedantic\":");
        append_bool(&mut out, self.pedantic);
        if !if_true(&self.echo) {
            out.append(",\"echo\":false");
        } else {
            assert(out@ =~= out@ + Seq::<char>::empty());
        }
        out
    }

    fn identity_text(&self, q: &Quoted) -> (out: String)
        ensures
            out@ == json_identity(self@, q@),
    {
        let mut out = String::from_str(",\"lang\":");
        out.append(q.lang.as_str());
        out.append(",\"version\":");
        out.append(q.version.as_str());
        out.append(",\"tls_required\":");
        append_bool(&mut out, self.tls_required);
        out
    }

    /// Assembles the JSON text from the operation's flags and the quoted
    /// text members `q`.
    pub fn assemble(&self, q: &Quoted) -> (out: String)
        ensures
            out@ == assembled(self@, q@),
    {
        let mut out = self.opening_text(q);
        out.append(self.identity_text(q).as_str());
        let mut end = String::new();
        append_member(&mut end, ",\"user\":", &q.user);
        append_member(&mut end, ",\"pass\":", &q.pass);
        append_member(&mut end, ",\"auth_token\":", &q.auth_token);
        end.append("}");
        assert(end@ =~= json_credentials(q@));
        out.append(end.as_str());
        out
    }

    /// Writes the operation's fields as JSON text.
    pub fn to_json(&self) -> (r: Option<String>)
        ensures
            r is Some <==> connect_json(self@) is Some,
            r is Some ==> r.unwrap()@ == connect_json(self@).unwrap(),
    {
        let q = match self.quoted() {
            Some(q) => q,
            None => {
                return None;
            },
        };
        let out = self.assemble(&q);
        let chars = chars_of(out.as_str());
        let n = chars.len();
        if find_char(chars.as_slice(), 0, n, '\n') < n {
            None
        } else {
            Some(out)
        }
    }
}

} // verus!
