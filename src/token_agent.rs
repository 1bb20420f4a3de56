//! The client's keeper of the current access token: it hands the token to
//! whoever asks and tells every subscriber when it changes.
use vstd::prelude::*;

verus! {

/// A message to the token keeper.
pub enum TokenRequest {
    /// A new access token: it replaces the old one and goes to every subscriber.
    UpdateToken(String),
    /// A request for the current access token, answered only when there is one.
    GetToken,
}

/// What the token keeper sends in answer to a message.
pub enum TokenReply {
    /// Send the token to every subscriber.
    Broadcast(String),
    /// Send the token to the one who asked.
    Respond(String),
    /// Send nothing.
    Silent,
}

/// The current access token, if one was received.
pub struct TokenState {
    pub token: Option<String>,
}

impl TokenState {
    /// A keeper without a token.
    pub fn new() -> (r: TokenState)
        ensures
            r.token is None,
    {
        TokenState { token: None }
    }

    /// Handles one message: an update is kept and broadcast; a request is
    /// answered with the kept token, or not at all before the first update.
    pub fn handle_input(&mut self, msg: TokenRequest) -> (r: TokenReply)
        ensures
            msg is UpdateToken ==> final(self).token == Some(msg->UpdateToken_0),
            msg is UpdateToken ==> r == TokenReply::Broadcast(msg->UpdateToken_0),
            msg is GetToken ==> final(self).token == old(self).token,
            msg is GetToken && old(self).token is None ==> r is Silent,
            msg is GetToken && old(self).token is Some ==> r == TokenReply::Respond(
                old(self).token->Some_0,
            ),
    {
        match msg {
            TokenRequest::UpdateToken(t) => {
                let b = t.clone();
                self.token = Some(t);
                TokenReply::Broadcast(b)
            },
            TokenRequest::GetToken => match &self.token {
                Some(t) => TokenReply::Respond(t.clone()),
                None => TokenReply::Silent,
            },
        }
    }
}

} // verus!
