//! The decisions of a chat session: how it answers what arrives on its
//! websocket, and what it keeps of the server's replies.

use crate::chat_server::{GetMap, Unregister};
use vstd::prelude::*;

verus! {

/// A map request as a client writes it: `{"user_id": .., "friend_id": ..}`.
#[derive(Debug, Clone, Copy, PartialEq, Eq, Structural)]
pub struct WsRequest {
    pub user_id: u64,
    pub friend_id: u64,
}

/// What arrives on a session's websocket.
pub enum WsEvent {
    /// The stream reported a protocol error.
    ProtocolError,
    /// A text frame, with the outcome of reading it as a `WsRequest`
    /// (on failure, a description of the error).
    Text(Result<WsRequest, String>),
    /// A close frame.
    Close,
    /// Any other frame (binary, ping, pong, continuation, no-op).
    Other,
}

/// What a session does in answer.
pub enum SessionAction {
    /// Stop the session.
    Stop,
    /// Send this text to the client.
    Reply(String),
    /// Ask the server for the map, then tell the client whether it answered.
    RequestMap(GetMap),
    /// Close the websocket with the client's reason, then stop.
    CloseAndStop,
    /// Do nothing.
    Ignore,
}

/// The prefix of the reply to a text that is not a valid request.
pub open spec fn invalid_request_prefix() -> Seq<char> {
    seq!['I', 'n', 'v', 'a', 'l', 'i', 'd', ' ', 'R', 'e', 'q', 'u', 'e', 's', 't', ':', ' ']
}

/// The reply to a text that is not a valid request: the prefix, then the error.
pub fn invalid_request_reply(error: &str) -> (reply: String)
    ensures
        reply@ == invalid_request_prefix() + error@,
{
    let mut reply = String::from_str("Invalid Request: ");
    proof {
        reveal_strlit("Invalid Request: ");
    }
    reply.append(error);
    reply
}

/// The text a session sends once its map request has been answered (`true`)
/// or has failed (`false`).
pub fn map_reply_text(delivered: bool) -> (text: &'static str)
    ensures
        delivered ==> text@ == seq!['O', 'K'],
        !delivered ==> text@ == seq!['N', 'O', 'K'],
{
    proof {
        reveal_strlit("OK");
        reveal_strlit("NOK");
    }
    if delivered {
        "OK"
    } else {
        "NOK"
    }
}

/// A chat session: the id under which the server registered it (0 until then).
#[derive(Debug, Clone, Copy, PartialEq, Eq, Structural)]
pub struct WsChatSession {
    pub id: u64,
}

impl WsChatSession {
    /// A session not yet registered.
    pub fn new() -> (s: Self)
        ensures
            s.id == 0,
    {
        WsChatSession { id: 0 }
    }

    /// Keeps the id of the server's answer to the registration; an absent
    /// answer leaves the session as it was.
    pub fn on_register_reply(&mut self, reply: Option<u64>)
        ensures
            reply matches Some(id) ==> final(self).id == id,
            reply is None ==> final(self).id == old(self).id,
    {
        if let Some(id) = reply {
            self.id = id;
        }
    }

    /// The message that takes this session off the server.
    pub fn unregister_message(&self) -> (msg: Unregister)
        ensures
            msg.0 == self.id,
    {
        Unregister(self.id)
    }

    /// Decides what the session does with what arrived on its websocket.
    pub fn handle_event(&self, event: WsEvent) -> (action: SessionAction)
        ensures
            event is ProtocolError ==> action is Stop,
            event is Close ==> action is CloseAndStop,
            event is Other ==> action is Ignore,
            event matches WsEvent::Text(Ok(req)) ==> action == SessionAction::RequestMap(
                GetMap(req.user_id, req.friend_id),
            ),
            event matches WsEvent::Text(Err(e)) ==> action matches SessionAction::Reply(text)
                && text@ == invalid_request_prefix() + e@,
    {
        match event {
            WsEvent::ProtocolError => SessionAction::Stop,
            WsEvent::Text(Ok(req)) => SessionAction::RequestMap(GetMap(req.user_id, req.friend_id)),
            WsEvent::Text(Err(e)) => SessionAction::Reply(invalid_request_reply(e.as_str())),
            WsEvent::Close => SessionAction::CloseAndStop,
            WsEvent::Other => SessionAction::Ignore,
        }
    }
}

impl Default for WsChatSession {
    fn default() -> (s: Self)
        ensures
            s.id == 0,
    {
        WsChatSession { id: 0 }
    }
}

} // verus!
