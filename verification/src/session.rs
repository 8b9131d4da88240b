//! The per-connection session state machine. A session starts
//! unauthenticated, may authenticate once with a non-empty bearer token, and
//! from then on routes text messages through the shared directory until it
//! terminates; termination deregisters its identity. The transport itself
//! (the duplex channel and its run loop) lives outside the library and only
//! performs what these functions decide.

use vstd::prelude::*;
use crate::codec::{
    auth_ok_frame, encode_auth_ok, encode_error, encode_offline_error, encode_text, error_frame,
    offline_frame, parse_client_message, spec_client_frame,
};
use crate::directory::{clone_sender, make_channel, send_message, Directory, MessageReceiver,
    MessageSender};
use crate::messages::{AppMessage, ClientFrame, ClientMessage, Outbound};

verus! {

/// One connection's state: its identity, once authenticated, and the sending
/// half of its own delivery queue.
pub struct Session {
    pub user_id: Option<String>,
    pub sender: MessageSender,
}

/// The reply is a text frame whose characters are exactly `f`.
pub open spec fn frame_out(o: Option<Outbound>, f: Seq<char>) -> bool {
    o matches Some(Outbound::Frame(s)) && s@ == f
}

/// An accepted authentication: the session's identity becomes the token, its
/// delivery handle is registered in the directory under that token
/// (shadowing any earlier entry), the client is told `auth_ok`, and the
/// connection stays open.
pub open spec fn auth_accepted(
    pre: Session,
    post: Session,
    dpre: Map<Seq<char>, MessageSender>,
    dpost: Map<Seq<char>, MessageSender>,
    token: Seq<char>,
    out: Option<Outbound>,
    cont: bool,
) -> bool {
    &&& post.user_id matches Some(u) && u@ == token
    &&& post.sender == pre.sender
    &&& dpost == dpre.insert(token, pre.sender)
    &&& frame_out(out, auth_ok_frame())
    &&& cont
}

/// A rejected authentication (empty token): nothing is registered, the
/// session stays unauthenticated, the client is sent the invalid-parameter
/// close, and the connection ends.
pub open spec fn auth_rejected(
    pre: Session,
    post: Session,
    dpre: Map<Seq<char>, MessageSender>,
    dpost: Map<Seq<char>, MessageSender>,
    out: Option<Outbound>,
    cont: bool,
) -> bool {
    &&& post.user_id is None
    &&& post.sender == pre.sender
    &&& dpost == dpre
    &&& out == Some(Outbound::CloseInvalid)
    &&& !cont
}

/// Any frame other than a valid authentication, received before
/// authentication: the state and the directory are unchanged, the client is
/// told that authentication is required, and the connection stays open for
/// another try.
pub open spec fn auth_required_reply(
    pre: Session,
    post: Session,
    dpre: Map<Seq<char>, MessageSender>,
    dpost: Map<Seq<char>, MessageSender>,
    out: Option<Outbound>,
    cont: bool,
) -> bool {
    &&& post == pre
    &&& dpost == dpre
    &&& frame_out(out, error_frame("auth_required"@))
    &&& cont
}

impl Session {
    /// Creates a fresh, unauthenticated session together with the receiving
    /// half of its delivery queue.
    pub fn new() -> (r: (Session, MessageReceiver))
        ensures
            r.0.user_id is None,
    {
        let (tx, rx) = make_channel();
        (Session { user_id: None, sender: tx }, rx)
    }

    /// Handles one text frame received before authentication. A valid
    /// `auth` frame with a non-empty token authenticates the session; one
    /// with an empty token ends the connection; anything else is answered
    /// with an `auth_required` error and the connection stays open.
    pub fn handle_auth_message(&mut self, dir: &mut Directory, text: &str) -> (r: (
        bool,
        Option<Outbound>,
    ))
        requires
            old(self).user_id is None,
        ensures
            match spec_client_frame(text@) {
                Some(ClientFrame::Auth { token }) => if token.len() > 0 {
                    auth_accepted(
                        *old(self),
                        *final(self),
                        old(dir).entries(),
                        final(dir).entries(),
                        token,
                        r.1,
                        r.0,
                    )
                } else {
                    auth_rejected(
                        *old(self),
                        *final(self),
                        old(dir).entries(),
                        final(dir).entries(),
                        r.1,
                        r.0,
                    )
                },
                _ => auth_required_reply(
                    *old(self),
                    *final(self),
                    old(dir).entries(),
                    final(dir).entries(),
                    r.1,
                    r.0,
                ),
            },
    {
        match parse_client_message(text) {
            Some(ClientMessage::Auth { token }) => {
                if token.as_str().unicode_len() > 0 {
                    self.user_id = Some(token.clone());
                    let h = clone_sender(&self.sender);
                    dir.insert(token, h);
                    (true, Some(Outbound::Frame(encode_auth_ok())))
                } else {
                    (false, Some(Outbound::CloseInvalid))
                }
            },
            _ => (true, Some(Outbound::Frame(encode_error("auth_required")))),
        }
    }

    /// Routes one message from this (authenticated) session to `to`. When
    /// `to` has a directory entry, the delivery is pushed onto that entry's
    /// queue and nothing is reported back, even if the recipient has
    /// meanwhile gone: delivery is fire-and-forget. When `to` has no entry,
    /// the sender alone is told `user_offline`. The directory and the
    /// session are left unchanged either way.
    pub fn handle_text_message(&mut self, dir: &mut Directory, to: &str, text: &str) -> (r: (
        bool,
        Option<Outbound>,
    ))
        requires
            old(self).user_id is Some,
        ensures
            *final(self) == *old(self),
            final(dir).entries() == old(dir).entries(),
            old(dir).entries().contains_key(to@) ==> r == (true, None::<Outbound>),
            !old(dir).entries().contains_key(to@) ==> r.0 && frame_out(r.1, offline_frame(to@)),
    {
        match dir.lookup(to) {
            Some(h) => {
                let from = self.user_id.as_ref().unwrap();
                let msg = encode_text(from.as_str(), text);
                let _delivered = send_message(&h, AppMessage::Text(msg));
                (true, None)
            },
            None => (true, Some(Outbound::Frame(encode_offline_error(to)))),
        }
    }

    /// Handles one text frame from the client, in either state. Before
    /// authentication this defers to `handle_auth_message`. Afterwards, a
    /// valid `text` frame is routed; a second `auth`, or anything that does
    /// not parse, is dropped with no reply and no state change.
    pub fn handle_incoming_text(&mut self, dir: &mut Directory, text: &str) -> (r: (
        bool,
        Option<Outbound>,
    ))
        ensures
            old(self).user_id is None ==> match spec_client_frame(text@) {
                Some(ClientFrame::Auth { token }) => if token.len() > 0 {
                    auth_accepted(
                        *old(self),
                        *final(self),
                        old(dir).entries(),
                        final(dir).entries(),
                        token,
                        r.1,
                        r.0,
                    )
                } else {
                    auth_rejected(
                        *old(self),
                        *final(self),
                        old(dir).entries(),
                        final(dir).entries(),
                        r.1,
                        r.0,
                    )
                },
                _ => auth_required_reply(
                    *old(self),
                    *final(self),
                    old(dir).entries(),
                    final(dir).entries(),
                    r.1,
                    r.0,
                ),
            },
            old(self).user_id is Some ==> *final(self) == *old(self) && final(dir).entries()
                == old(dir).entries() && match spec_client_frame(text@) {
                Some(ClientFrame::Text { to, text: body }) => {
                    &&& old(dir).entries().contains_key(to) ==> r == (true, None::<Outbound>)
                    &&& !old(dir).entries().contains_key(to) ==> r.0 && frame_out(
                        r.1,
                        offline_frame(to),
                    )
                },
                _ => r == (true, None::<Outbound>),
            },
    {
        if self.user_id.is_none() {
            return self.handle_auth_message(dir, text);
        }
        match parse_client_message(text) {
            Some(ClientMessage::Text { to, text: body }) => self.handle_text_message(
                dir,
                to.as_str(),
                body.as_str(),
            ),
            _ => (true, None),
        }
    }

    /// The session's termination cleanup, run exactly once on every exit
    /// path of a connection's loop: if the session ever authenticated, its
    /// identity is deregistered, so no entry of a terminated session
    /// lingers in the directory.
    pub fn finish(&mut self, dir: &mut Directory)
        ensures
            final(self).user_id is None,
            final(self).sender == old(self).sender,
            match old(self).user_id {
                Some(u) => final(dir).entries() == old(dir).entries().remove(u@)
                    && !final(dir).entries().contains_key(u@),
                None => final(dir).entries() == old(dir).entries(),
            },
    {
        if self.user_id.is_some() {
            let u = self.user_id.as_ref().unwrap();
            dir.remove(u.as_str());
        }
        self.user_id = None;
    }
}

/// Single registration: when a session's authentication with token `t` is
/// accepted, the directory afterwards maps `t` to the delivery handle of
/// exactly that session, so a lookup of `t` reaches its queue.
pub proof fn lemma_single_registration(
    pre: Session,
    post: Session,
    dpre: Map<Seq<char>, MessageSender>,
    dpost: Map<Seq<char>, MessageSender>,
    token: Seq<char>,
    out: Option<Outbound>,
    cont: bool,
)
    requires
        auth_accepted(pre, post, dpre, dpost, token, out, cont),
    ensures
        dpost.contains_key(token),
        dpost[token] == pre.sender,
        post.user_id matches Some(u) && u@ == token,
{
}

/// Cleanup on disconnect: whatever the directory held, once the entry for
/// `t` has been removed a lookup of `t` finds nothing.
pub proof fn lemma_cleanup_on_disconnect(m: Map<Seq<char>, MessageSender>, t: Seq<char>)
    ensures
        !m.remove(t).contains_key(t),
{
}

} // verus!
