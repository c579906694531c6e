use vstd::prelude::*;
use vstd::string::StrSliceExecFns;
use vstd::utf8::{decode_utf8, encode_scalar, encode_utf8, valid_utf8};

use crate::address::PeerAddress;
use crate::registry::{lemma_broadcast_reaches_registered, with_peer};
use crate::relay::{annotation, header, InboundMessage};
use crate::text::{local_address, loopback_host, remote_address, trimmed, utf8_text};
use crate::transport::ReceiveError;

verus! {

broadcast use vstd::utf8::group_utf8_lib;

/// What the client's shared state holds.
pub struct ChatView {
    /// Whether a session with the server is open.
    pub logged_in: bool,
    /// The texts received from the server, oldest first.
    pub history: Seq<Seq<char>>,
    /// Whether a message arrived since the foreground last polled.
    pub new_message: bool,
}

/// The state after a datagram with `bytes` arrived: well-formed text is
/// appended to the history and raises the flag; other bytes are dropped.
pub open spec fn after_datagram(v: ChatView, bytes: Seq<u8>) -> ChatView {
    if valid_utf8(bytes) {
        ChatView { logged_in: v.logged_in, history: v.history.push(decode_utf8(bytes)), new_message: true }
    } else {
        v
    }
}

/// The state after the foreground polled: the flag is cleared.
pub open spec fn after_poll(v: ChatView) -> ChatView {
    ChatView { logged_in: v.logged_in, history: v.history, new_message: false }
}

/// What one receive did to the client's state.
#[derive(Clone, Copy, Debug, PartialEq, Eq, Structural)]
pub enum Reception {
    /// A message was appended to the history.
    Appended,
    /// A datagram arrived whose bytes are not UTF-8; it was dropped.
    Dropped,
    /// Nothing arrived; the state is unchanged.
    Idle(ReceiveError),
}

/// The addresses a login binds to and talks to.
pub struct LoginRequest {
    /// The local address to bind.
    pub local: String,
    /// The server address to send to and receive from.
    pub remote: String,
}

/// The state that the client's receive loop and its foreground share.
pub struct ChatState {
    logged_in: bool,
    messages: Vec<String>,
    has_new_message: bool,
}

impl View for ChatState {
    type V = ChatView;

    closed spec fn view(&self) -> ChatView {
        ChatView {
            logged_in: self.logged_in,
            history: self.messages@.map_values(|m: String| m@),
            new_message: self.has_new_message,
        }
    }
}

impl ChatState {
    /// The state before login: no session, no messages, no redraw pending.
    pub fn new() -> (r: ChatState)
        ensures
            r@ == (ChatView { logged_in: false, history: Seq::empty(), new_message: false }),
    {
        let r = ChatState { logged_in: false, messages: Vec::new(), has_new_message: false };
        assert(r@.history =~= Seq::<Seq<char>>::empty());
        r
    }

    pub fn logged_in(&self) -> (r: bool)
        ensures
            r == self@.logged_in,
    {
        self.logged_in
    }

    pub fn has_new_message(&self) -> (r: bool)
        ensures
            r == self@.new_message,
    {
        self.has_new_message
    }

    /// The received messages, oldest first.
    pub fn messages(&self) -> (r: &Vec<String>)
        ensures
            r@.map_values(|m: String| m@) == self@.history,
    {
        &self.messages
    }

    /// The addresses to open a session with, from the port and server
    /// address the user typed; `None` when a session is already open.
    pub fn login_request(&self, port_text: &str, address_text: &str) -> (r: Option<LoginRequest>)
        ensures
            r is None <==> self@.logged_in,
            r matches Some(req) ==> req.local@ == loopback_host() + trimmed(port_text@)
                && req.remote@ == trimmed(address_text@),
    {
        if self.logged_in {
            None
        } else {
            Some(LoginRequest { local: local_address(port_text), remote: remote_address(address_text) })
        }
    }

    /// Records that the session's endpoint is open.
    pub fn open_session(&mut self)
        ensures
            final(self)@ == (ChatView { logged_in: true, ..old(self)@ }),
    {
        self.logged_in = true;
    }

    /// The send action: takes the composed text and clears it. Returns the
    /// datagram to send when a session is open; without one the text is
    /// dropped.
    pub fn send_pressed(&self, compose: &mut String) -> (r: Option<Vec<u8>>)
        ensures
            final(compose)@ == Seq::<char>::empty(),
            r is Some <==> self@.logged_in,
            r matches Some(bytes) ==> bytes@ == encode_utf8(old(compose)@),
    {
        let text = compose.clone();
        *compose = String::new();
        if self.logged_in {
            Some(text.as_str().as_bytes_vec())
        } else {
            None
        }
    }

    /// Handles what one receive handed back: the first `count` bytes of the
    /// buffer, or an error. Well-formed text is appended to the history and
    /// raises the new-message flag; other bytes are dropped; an error
    /// changes nothing.
    pub fn receive(&mut self, buffer: &[u8], received: Result<usize, ReceiveError>) -> (r: Reception)
        requires
            received matches Ok(count) ==> count <= buffer@.len(),
        ensures
            match received {
                Ok(count) => {
                    &&& final(self)@ == after_datagram(old(self)@, buffer@.subrange(0, count as int))
                    &&& r == (if valid_utf8(buffer@.subrange(0, count as int)) {
                        Reception::Appended
                    } else {
                        Reception::Dropped
                    })
                },
                Err(e) => final(self)@ == old(self)@ && r == Reception::Idle(e),
            },
    {
        match received {
            Err(e) => Reception::Idle(e),
            Ok(count) => {
                let bytes = vstd::slice::slice_subrange(buffer, 0, count);
                match utf8_text(bytes) {
                    None => Reception::Dropped,
                    Some(text) => {
                        let ghost before = self@;
                        self.messages.push(String::from_str(text));
                        self.has_new_message = true;
                        assert(self@.history =~= before.history.push(decode_utf8(bytes@)));
                        Reception::Appended
                    },
                }
            },
        }
    }

    /// The foreground's poll: tells whether a message arrived since the
    /// last poll, and clears the flag.
    pub fn poll_redraw(&mut self) -> (r: bool)
        ensures
            r == old(self)@.new_message,
            final(self)@ == after_poll(old(self)@),
    {
        let r = self.has_new_message;
        self.has_new_message = false;
        r
    }
}

/// After a message is appended, the next poll asks for a redraw; the polls
/// after it do not, until another message arrives.
pub proof fn lemma_redraw_once_per_message(v: ChatView, bytes: Seq<u8>)
    requires
        valid_utf8(bytes),
    ensures
        after_datagram(v, bytes).new_message,
        !after_poll(after_datagram(v, bytes)).new_message,
        after_poll(after_poll(after_datagram(v, bytes))) == after_poll(after_datagram(v, bytes)),
{
}

/// Only an appended message raises the flag: a datagram that is dropped
/// leaves the state, and so a cleared flag, as it was.
pub proof fn lemma_dropped_datagram_keeps_flag(v: ChatView, bytes: Seq<u8>)
    requires
        !valid_utf8(bytes),
    ensures
        after_datagram(v, bytes) == v,
{
}

/// The UTF-8 encoding of two texts one after the other is the encoding of
/// the first followed by that of the second.
pub proof fn lemma_encode_utf8_concat(a: Seq<char>, b: Seq<char>)
    ensures
        encode_utf8(a + b) == encode_utf8(a) + encode_utf8(b),
    decreases a.len(),
{
    if a.len() > 0 {
        lemma_encode_utf8_concat(a.drop_first(), b);
        assert((a + b).drop_first() =~= a.drop_first() + b);
        assert(encode_utf8(a) + encode_utf8(b) =~= encode_scalar(a[0] as u32) + (encode_utf8(
            a.drop_first(),
        ) + encode_utf8(b)));
    } else {
        assert(a + b =~= b);
        assert(encode_utf8(a) + encode_utf8(b) =~= encode_utf8(b));
    }
}

/// Text that a logged-in client sends is relayed to it, once it is
/// registered, as a message that the client appends to its history: the
/// sender's header followed by that text, character for character and so
/// byte for byte.
pub proof fn lemma_round_trip(
    v: ChatView,
    peers: Seq<PeerAddress>,
    sent: InboundMessage,
    text: Seq<char>,
)
    requires
        sent.payload@ == encode_utf8(text),
    ensures
        valid_utf8(sent.payload@),
        with_peer(peers, sent.source).contains(sent.source),
        after_datagram(v, encode_utf8(annotation(sent.source, decode_utf8(sent.payload@)))).history
            == v.history.push(annotation(sent.source, text)),
        annotation(sent.source, text).subrange(
            header(sent.source).len() as int,
            annotation(sent.source, text).len() as int,
        ) == text,
        encode_utf8(annotation(sent.source, text)) == encode_utf8(header(sent.source))
            + encode_utf8(text),
{
    lemma_broadcast_reaches_registered(peers, sent.source);
    lemma_encode_utf8_concat(header(sent.source), text);
    assert(annotation(sent.source, text).subrange(
        header(sent.source).len() as int,
        annotation(sent.source, text).len() as int,
    ) =~= text);
}

} // verus!
