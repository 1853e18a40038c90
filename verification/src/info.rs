//! The record that the broker sends in an `INFO` frame.

use crate::json::{json_array, json_bool, json_member, json_of, json_parsed, json_text, Json};
use crate::text::{texts, trim};
use vstd::prelude::*;
use vstd::utf8::encode_utf8;

verus! {

/// What the broker tells of itself when a connection opens.
#[derive(Clone, Debug)]
pub struct ServerInfo {
    /// The broker asks for TLS.
    pub tls_required: bool,
    /// Addresses of other brokers of the cluster.
    pub connect_urls: Vec<String>,
    /// The whole record as the broker sent it, with every other field.
    pub json: String,
}

/// A `ServerInfo` as a value of specifications.
pub struct ServerInfoView {
    pub tls_required: bool,
    pub connect_urls: Seq<Seq<char>>,
    pub json: Seq<char>,
}

impl View for ServerInfo {
    type V = ServerInfoView;

    open spec fn view(&self) -> ServerInfoView {
        ServerInfoView {
            tls_required: self.tls_required,
            connect_urls: texts(self.connect_urls@),
            json: self.json@,
        }
    }
}

/// Every element of `items` is a string.
pub open spec fn all_text(items: Seq<Json>) -> bool {
    forall|k: int| 0 <= k < items.len() ==> (#[trigger] items[k]) is Text
}

/// The texts of the strings in `items`.
pub open spec fn texts_of(items: Seq<Json>) -> Seq<Seq<char>> {
    Seq::new(
        items.len(),
        |k: int|
            match items[k] {
                Json::Text(t) => t,
                _ => Seq::empty(),
            },
    )
}

/// The two fields that an `INFO` record must hold, as the document `doc` has
/// them: the boolean `tls_required` and the array of strings
/// `connect_urls`. `None` where `doc` is no object, lacks one of them, or has
/// one of another type.
pub open spec fn info_fields(doc: Json) -> Option<(bool, Seq<Seq<char>>)> {
    match doc {
        Json::Object(m) => {
            if m.contains_key("tls_required"@) && m.contains_key("connect_urls"@) {
                match (m["tls_required"@], m["connect_urls"@]) {
                    (Json::Bool(b), Json::Array(items)) => {
                        if all_text(items) {
                            Some((b, texts_of(items)))
                        } else {
                            None
                        }
                    },
                    _ => None,
                }
            } else {
                None
            }
        },
        _ => None,
    }
}

/// The record that the text `json` describes, `None` where it is no JSON
/// text or lacks a required field.
pub open spec fn info_of(json: Seq<char>) -> Option<ServerInfoView> {
    match json_parsed(encode_utf8(json)) {
        Some(doc) => match info_fields(doc) {
            Some((tls_required, connect_urls)) => Some(
                ServerInfoView { tls_required, connect_urls, json: trim(json) },
            ),
            None => None,
        },
        None => None,
    }
}

impl ServerInfo {
    /// Reads the required fields out of the parsed document `doc`, and keeps
    /// `json` as the record's text.
    #[verifier::loop_isolation(false)]
    pub fn from_json(doc: &serde_json::Value, json: String) -> (r: Option<ServerInfo>)
        ensures
            match r {
                Some(info) => info_fields(json_of(*doc)) == Some(
                    (info@.tls_required, info@.connect_urls),
                ) && info@.json == json@,
                None => info_fields(json_of(*doc)) is None,
            },
    {
        let tls_required = match json_member(doc, "tls_required") {
            Some(member) => match json_bool(member) {
                Some(b) => b,
                None => {
                    return None;
                },
            },
            None => {
                return None;
            },
        };
        let items = match json_member(doc, "connect_urls") {
            Some(member) => match json_array(member) {
                Some(items) => items,
                None => {
                    return None;
                },
            },
            None => {
                return None;
            },
        };
        let ghost listed = match json_of(*doc) {
            Json::Object(m) => match m["connect_urls"@] {
                Json::Array(a) => a,
                _ => Seq::empty(),
            },
            _ => Seq::empty(),
        };
        let mut connect_urls: Vec<String> = Vec::new();
        let mut k: usize = 0;
        while k < items.len()
            invariant
                k <= items.len(),
                connect_urls.len() == k,
                listed.len() == items@.len(),
                forall|j: int| 0 <= j < listed.len() ==> json_of(#[trigger] items@[j]) == listed[j],
                forall|j: int|
                    0 <= j < k ==> (#[trigger] listed[j]) == Json::Text(connect_urls@[j]@),
            decreases items.len() - k,
        {
            match json_text(&items[k]) {
                Some(t) => {
                    connect_urls.push(t.to_owned());
                },
                None => {
                    assert(!(listed[k as int] is Text));
                    return None;
                },
            }
            k += 1;
        }
        let info = ServerInfo { tls_required, connect_urls, json };
        proof {
            assert(all_text(listed));
            assert(info@.connect_urls =~= texts_of(listed));
        }
        Some(info)
    }
}

} // verus!
