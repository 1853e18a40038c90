//! Opening a session: what the client sends first, how the broker's answer
//! is judged, and in which order the servers are tried.

use crate::connect::{AuthStyle, ConnectInfo, ConnectInfoView, FinalizedOptions};
use crate::decoder::{ServerOp, ServerOpView};
use crate::encoder::{encode, wire_form, ClientOp, ClientOpView};
use crate::error::{Error, ErrorKind, ErrorView};
use crate::info::{ServerInfo, ServerInfoView};
use crate::server::{Server, ServerView};
use crate::text::text_of;
use vstd::prelude::*;
use vstd::string::*;

verus! {

/// The language that the client names in `CONNECT`.
pub const LANG: &'static str = "rust";

/// The version that the client names in `CONNECT`.
pub const VERSION: &'static str = "0.1.0";

/// Passes through the server list where the options name no number.
pub const DEFAULT_MAX_RECONNECTS: usize = 5;

/// The user name that the credentials hold.
pub open spec fn user_of(auth: AuthStyle) -> Option<Seq<char>> {
    match auth {
        AuthStyle::UserPass(user, _) => Some(user@),
        _ => None,
    }
}

/// The password that the credentials hold.
pub open spec fn pass_of(auth: AuthStyle) -> Option<Seq<char>> {
    match auth {
        AuthStyle::UserPass(_, pass) => Some(pass@),
        _ => None,
    }
}

/// The token that the credentials hold.
pub open spec fn token_of(auth: AuthStyle) -> Option<Seq<char>> {
    match auth {
        AuthStyle::Token(token) => Some(token@),
        _ => None,
    }
}

/// The fields of the `CONNECT` operation for a server that asks for TLS or
/// not, under the options `options`: never verbose nor pedantic, echo
/// unless the options switch it off, and the credentials of the one style
/// that the options name.
pub open spec fn connect_fields(tls_required: bool, options: FinalizedOptions) -> ConnectInfoView {
    ConnectInfoView {
        name: text_of(options.name),
        verbose: false,
        pedantic: false,
        echo: !options.no_echo,
        lang: LANG@,
        version: VERSION@,
        tls_required,
        user: user_of(options.auth),
        pass: pass_of(options.auth),
        auth_token: token_of(options.auth),
    }
}

/// The bytes that open a session: `CONNECT` and `PING`, to be sent in one
/// piece. `None` where the `CONNECT` operation has no JSON text.
pub open spec fn greeting(tls_required: bool, options: FinalizedOptions) -> Option<Seq<u8>> {
    match wire_form(ClientOpView::Connect(connect_fields(tls_required, options))) {
        Some(connect) => Some(connect + wire_form(ClientOpView::Ping).unwrap()),
        None => None,
    }
}

fn copy_of(field: &Option<String>) -> (r: Option<String>)
    ensures
        text_of(r) == text_of(*field),
{
    match field {
        Some(text) => Some(text.clone()),
        None => None,
    }
}

impl Server {
    /// The fields of the `CONNECT` operation for this server.
    pub fn connect_info(&self, options: &FinalizedOptions) -> (info: ConnectInfo)
        ensures
            info@ == connect_fields(self.tls_required, *options),
    {
        let mut info = ConnectInfo {
            name: copy_of(&options.name),
            verbose: false,
            pedantic: false,
            echo: !options.no_echo,
            lang: LANG.to_owned(),
            version: VERSION.to_owned(),
            tls_required: self.tls_required,
            user: None,
            pass: None,
            auth_token: None,
        };
        match &options.auth {
            AuthStyle::UserPass(user, pass) => {
                info.user = Some(user.clone());
                info.pass = Some(pass.clone());
            },
            AuthStyle::Token(token) => {
                info.auth_token = Some(token.clone());
            },
            AuthStyle::NoAuth => {},
        }
        info
    }

    /// The bytes to send as soon as the connection to this server stands.
    pub fn greeting(&self, options: &FinalizedOptions) -> (r: Result<Vec<u8>, Error>)
        ensures
            match greeting(self.tls_required, *options) {
                Some(bytes) => r is Ok && r.unwrap()@ == bytes,
                None => r is Err && r.unwrap_err().kind == ErrorKind::InvalidInput,
            },
    {
        let mut out: Vec<u8> = Vec::new();
        match encode(&mut out, ClientOp::Connect(self.connect_info(options))) {
            Ok(()) => {},
            Err(e) => {
                return Err(e);
            },
        }
        assert(out@ =~= wire_form(
            ClientOpView::Connect(connect_fields(self.tls_required, *options)),
        ).unwrap());
        match encode(&mut out, ClientOp::Ping) {
            Ok(()) => Ok(out),
            Err(e) => Err(e),
        }
    }
}

/// How far the handshake with one server has come.
#[derive(Debug)]
pub enum Handshake {
    /// The greeting is sent; the broker's `INFO` is awaited.
    AwaitInfo,
    /// `INFO` came and TLS is asked for: the connection must be upgraded
    /// before the next frame is read.
    AwaitTls(ServerInfo),
    /// The answer to the greeting's `PING` is awaited.
    AwaitPong(ServerInfo),
    /// The broker answered `PONG`: the session stands.
    Connected(ServerInfo),
    /// The handshake failed.
    Refused(Error),
}

/// A `Handshake` as a value of specifications.
pub enum HandshakeView {
    AwaitInfo,
    AwaitTls(ServerInfoView),
    AwaitPong(ServerInfoView),
    Connected(ServerInfoView),
    Refused(ErrorView),
}

impl View for Handshake {
    type V = HandshakeView;

    open spec fn view(&self) -> HandshakeView {
        match *self {
            Handshake::AwaitInfo => HandshakeView::AwaitInfo,
            Handshake::AwaitTls(info) => HandshakeView::AwaitTls(info@),
            Handshake::AwaitPong(info) => HandshakeView::AwaitPong(info@),
            Handshake::Connected(info) => HandshakeView::Connected(info@),
            Handshake::Refused(e) => HandshakeView::Refused(e@),
        }
    }
}

/// The handshake refused, with `message`.
pub open spec fn refused(message: Seq<char>) -> HandshakeView {
    HandshakeView::Refused(ErrorView { kind: ErrorKind::ConnectionRefused, message })
}

/// The state after the frame `frame` came in the state `state`, with a
/// server whose address asks for TLS or not.
///
/// The first frame must be `INFO`. The next must be `PONG`; `-ERR` refuses
/// the connection with the broker's text, and any other frame is a protocol
/// error. A finished handshake stays as it is.
pub open spec fn after_frame(
    tls: bool,
    state: HandshakeView,
    frame: ServerOpView,
) -> HandshakeView {
    match state {
        HandshakeView::AwaitInfo => match frame {
            ServerOpView::Info(info) => if tls || info.tls_required {
                HandshakeView::AwaitTls(info)
            } else {
                HandshakeView::AwaitPong(info)
            },
            _ => refused("Protocol Error"@),
        },
        HandshakeView::AwaitTls(_) => refused("Protocol Error"@),
        HandshakeView::AwaitPong(info) => match frame {
            ServerOpView::Pong => HandshakeView::Connected(info),
            ServerOpView::Error(text) => refused(text),
            _ => refused("Protocol Error"@),
        },
        _ => state,
    }
}

/// The state after the attempt to upgrade the connection to TLS: on with
/// the handshake where it succeeded, refused where TLS cannot be had.
pub open spec fn after_tls(state: HandshakeView, upgraded: bool) -> HandshakeView {
    match state {
        HandshakeView::AwaitTls(info) => if upgraded {
            HandshakeView::AwaitPong(info)
        } else {
            refused("TLS currently not supported"@)
        },
        _ => state,
    }
}

/// `s` after a successful handshake.
pub open spec fn connected(s: ServerView) -> ServerView {
    ServerView { reconnects: 0, ..s }
}

fn refuse(message: &str) -> (h: Handshake)
    ensures
        h@ == refused(message@),
{
    Handshake::Refused(Error::new(ErrorKind::ConnectionRefused, message))
}

impl Server {
    /// Takes the handshake one frame further. A `PONG` that completes the
    /// handshake resets the server's count of failures.
    pub fn handshake_frame(&mut self, state: Handshake, frame: ServerOp) -> (next: Handshake)
        ensures
            next@ == after_frame(old(self).tls_required, state@, frame@),
            final(self)@ == if state@ is AwaitPong && frame@ is Pong {
                connected(old(self)@)
            } else {
                old(self)@
            },
    {
        match state {
            Handshake::AwaitInfo => match frame {
                ServerOp::Info(info) => {
                    if self.tls_required || info.tls_required {
                        Handshake::AwaitTls(info)
                    } else {
                        Handshake::AwaitPong(info)
                    }
                },
                _ => refuse("Protocol Error"),
            },
            Handshake::AwaitTls(_) => refuse("Protocol Error"),
            Handshake::AwaitPong(info) => match frame {
                ServerOp::Pong => {
                    self.reconnects = 0;
                    Handshake::Connected(info)
                },
                ServerOp::Error(text) => Handshake::Refused(
                    Error { kind: ErrorKind::ConnectionRefused, message: text },
                ),
                _ => refuse("Protocol Error"),
            },
            Handshake::Connected(info) => Handshake::Connected(info),
            Handshake::Refused(e) => Handshake::Refused(e),
        }
    }
}

impl Handshake {
    /// Where every handshake starts.
    pub fn start() -> (h: Handshake)
        ensures
            h@ == HandshakeView::AwaitInfo,
    {
        Handshake::AwaitInfo
    }

    /// Takes the handshake on after the attempt to upgrade to TLS.
    pub fn tls_done(self, upgraded: bool) -> (next: Handshake)
        ensures
            next@ == after_tls(self@, upgraded),
    {
        match self {
            Handshake::AwaitTls(info) => {
                if upgraded {
                    Handshake::AwaitPong(info)
                } else {
                    refuse("TLS currently not supported")
                }
            },
            other => other,
        }
    }
}

/// Without TLS, `INFO` and then `PONG` complete the handshake with the
/// record that the `INFO` brought.
pub proof fn lemma_info_then_pong(info: ServerInfoView)
    requires
        !info.tls_required,
    ensures
        after_frame(
            false,
            after_frame(false, HandshakeView::AwaitInfo, ServerOpView::Info(info)),
            ServerOpView::Pong,
        ) == HandshakeView::Connected(info),
{
}

} // verus!
