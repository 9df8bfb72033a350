//! A request to the Injection API: the credentials and the messages to send,
//! serialized into the API's JSON envelope and posted in one HTTP exchange.

use vstd::prelude::*;

use crate::error::ClientError;
use crate::message::Message;
use crate::message::MessageView;
use crate::parse::parse_response;
use crate::response::Response;
use crate::transport::http_post;
use crate::wire::messages_array;
use crate::wire::quoted;
use crate::wire::dec_nat;
use crate::wire::push_dec;
use crate::wire::push_lit;
use crate::wire::push_messages_array;
use crate::wire::push_quoted;

verus! {

/// The fixed endpoint of the Injection API.
pub fn api_url() -> (s: &'static str)
    ensures
        s@ == "https://inject.socketlabs.com/api/v1/email"@,
{
    "https://inject.socketlabs.com/api/v1/email"
}

/// The literal `Content-Type` header value the API is sent. The original
/// wire behavior uses the bare word rather than the standard MIME type, and
/// that exact value is preserved for compatibility.
pub fn content_type() -> (s: &'static str)
    ensures
        s@ == "json"@,
{
    "json"
}

/// Credentials and an ordered sequence of messages, immutable once
/// constructed; `send` never mutates it and may be called any number of
/// times, each call one independent HTTP exchange.
pub struct Request {
    server_id: u16,
    api_key: String,
    messages: Vec<Message>,
}

/// The mathematical value of a `Request`.
pub struct RequestView {
    pub server_id: u16,
    pub api_key: Seq<char>,
    pub messages: Seq<MessageView>,
}

impl View for Request {
    type V = RequestView;

    closed spec fn view(&self) -> RequestView {
        RequestView {
            server_id: self.server_id,
            api_key: self.api_key@,
            messages: self.messages@.map_values(|m: Message| m@),
        }
    }
}

/// The whole request envelope on the wire: exactly three keys, `ServerId`,
/// `ApiKey` and `Messages`, in that order and casing.
pub open spec fn request_json(r: RequestView) -> Seq<char> {
    "{\"ServerId\":"@ + dec_nat(r.server_id as nat) + ",\"ApiKey\":"@ + quoted(r.api_key)
        + ",\"Messages\":"@ + messages_array(r.messages) + "}"@
}

impl Request {
    /// Creates a request from the given credentials and messages. The
    /// signature is fallible for forward compatibility; construction always
    /// succeeds, and the fields are exactly the arguments.
    pub fn new(server_id: u16, api_key: String, messages: Vec<Message>) -> (r: Result<
        Request,
        ClientError,
    >)
        ensures
            r is Ok,
            r->Ok_0@.server_id == server_id,
            r->Ok_0@.api_key == api_key@,
            r->Ok_0@.messages == messages@.map_values(|m: Message| m@),
    {
        Ok(Request { server_id, api_key, messages })
    }

    /// The serialized JSON envelope of this request: exactly the characters
    /// of `request_json`, so the same request always serializes to the same
    /// bytes.
    pub fn to_json(&self) -> (v: Vec<char>)
        ensures
            v@ == request_json(self@),
    {
        let mut out: Vec<char> = Vec::new();
        push_lit(&mut out, "{\"ServerId\":");
        push_dec(&mut out, self.server_id);
        push_lit(&mut out, ",\"ApiKey\":");
        push_quoted(&mut out, self.api_key.as_str());
        push_lit(&mut out, ",\"Messages\":");
        push_messages_array(&mut out, &self.messages);
        push_lit(&mut out, "}");
        proof {
            assert(out@ =~= request_json(self@));
        }
        out
    }

    /// Maps a reply body to the result of a `send`: the typed `Response` when
    /// the body parses as the reply envelope, and a deserialization error
    /// exactly when it does not. Taking the body as an argument, this is the
    /// whole behavior of `send` after the HTTP exchange, for every body the
    /// transport could hand back.
    pub fn handle_reply(text: &str) -> (r: Result<Response, ClientError>)
        ensures
            match r {
                Ok(resp) => parse_response(text@) == Some(resp@),
                Err(e) => e == ClientError::Deserialization && parse_response(text@) is None,
            },
    {
        match crate::parse::parse_response_text(text) {
            Some(resp) => Ok(resp),
            None => Err(ClientError::Deserialization),
        }
    }

    /// Serializes this request, posts it once to the fixed endpoint, and
    /// parses the reply. Every transport failure is returned as
    /// `ClientError::Transport`, an unparsable reply as `ClientError::Deserialization`,
    /// and any successful result is the parse of some reply body; nothing is
    /// retried or cached, and the request itself is never changed.
    pub fn send(&self) -> (r: Result<Response, ClientError>)
        ensures
            match r {
                Ok(resp) => exists|body: Seq<char>| parse_response(body) == Some(resp@),
                Err(e) => e == ClientError::Transport || e == ClientError::Deserialization,
            },
    {
        let body = self.to_json();
        match http_post(api_url(), content_type(), &body) {
            Ok(text) => {
                let r = Self::handle_reply(text.as_str());
                proof {
                    if r is Ok {
                        let resp = r->Ok_0;
                        assert(parse_response(text@) == Some(resp@));
                    }
                }
                r
            },
            Err(_) => Err(ClientError::Transport),
        }
    }
}

} // verus!
