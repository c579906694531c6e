use vstd::prelude::*;
use vstd::string::StrSliceExecFns;
use vstd::utf8::{decode_utf8, encode_utf8, valid_utf8};

use crate::address::PeerAddress;
use crate::registry::{lemma_with_peer_idempotent, with_peer, PeerRegistry};
use crate::text::utf8_text;
use crate::transport::ReceiveError;

verus! {

/// A datagram as received: its bytes and the peer that sent it.
pub struct InboundMessage {
    pub payload: Vec<u8>,
    pub source: PeerAddress,
}

/// The payload of a datagram was not well-formed UTF-8.
#[derive(Clone, Copy, Debug, PartialEq, Eq, Structural)]
pub struct DecodeError;

/// What the relay sends for one message: the same datagram to each
/// destination, in order.
pub struct Broadcast {
    pub datagram: Vec<u8>,
    pub destinations: Vec<PeerAddress>,
}

/// The text put before a relayed message: `FROM: <source> MESSAGE: `.
pub open spec fn header(source: PeerAddress) -> Seq<char> {
    "FROM: "@ + source.text() + " MESSAGE: "@
}

/// A relayed message: the header naming its sender, then its text.
pub open spec fn annotation(source: PeerAddress, text: Seq<char>) -> Seq<char> {
    header(source) + text
}

/// Whether `r` is what dispatching `m` yields when the registry held
/// `peers` before it: a broadcast of the annotated text to the registry
/// with the sender added, or a decode error.
pub open spec fn dispatch_result(
    peers: Seq<PeerAddress>,
    m: InboundMessage,
    r: Result<Broadcast, DecodeError>,
) -> bool {
    match r {
        Ok(b) => {
            &&& valid_utf8(m.payload@)
            &&& b.datagram@ == encode_utf8(annotation(m.source, decode_utf8(m.payload@)))
            &&& b.destinations@ == with_peer(peers, m.source)
        },
        Err(_) => !valid_utf8(m.payload@),
    }
}

/// The registry after the relay has dispatched `m` with `peers` registered:
/// a well-formed message registers its sender, another changes nothing.
pub open spec fn after_message(peers: Seq<PeerAddress>, m: InboundMessage) -> Seq<PeerAddress> {
    if valid_utf8(m.payload@) {
        with_peer(peers, m.source)
    } else {
        peers
    }
}

/// The registry after the relay has dispatched `messages` in order,
/// starting from `peers`.
pub open spec fn dispatched(peers: Seq<PeerAddress>, messages: Seq<InboundMessage>) -> Seq<
    PeerAddress,
>
    decreases messages.len(),
{
    if messages.len() == 0 {
        peers
    } else {
        after_message(dispatched(peers, messages.drop_last()), messages.last())
    }
}

/// The senders of `messages`, in order.
pub open spec fn senders(messages: Seq<InboundMessage>) -> Seq<PeerAddress> {
    messages.map_values(|m: InboundMessage| m.source)
}

/// Peers that each send one well-formed message, no two of them the same,
/// are registered exactly once each, in the order in which they sent.
pub proof fn lemma_distinct_senders_registered_in_order(messages: Seq<InboundMessage>)
    requires
        forall|i: int| 0 <= i < messages.len() ==> valid_utf8(#[trigger] messages[i].payload@),
        senders(messages).no_duplicates(),
    ensures
        dispatched(Seq::empty(), messages) == senders(messages),
    decreases messages.len(),
{
    if messages.len() > 0 {
        let rest = messages.drop_last();
        let n = messages.len() - 1;
        assert(senders(rest) =~= senders(messages).drop_last());
        assert forall|i: int, j: int|
            0 <= i < senders(rest).len() && 0 <= j < senders(rest).len() && i != j implies
                senders(rest)[i] != senders(rest)[j] by {
            assert(senders(rest)[i] == senders(messages)[i]);
            assert(senders(rest)[j] == senders(messages)[j]);
        }
        assert forall|i: int| 0 <= i < rest.len() implies valid_utf8(#[trigger] rest[i].payload@) by {
            assert(rest[i] == messages[i]);
        }
        lemma_distinct_senders_registered_in_order(rest);
        assert(valid_utf8(messages[n].payload@));
        if senders(rest).contains(messages.last().source) {
            let j = choose|j: int| 0 <= j < senders(rest).len() && senders(rest)[j]
                == messages.last().source;
            assert(senders(messages)[j] == senders(messages)[n]);
        }
        assert(senders(rest).push(messages.last().source) =~= senders(messages));
    }
}

/// However often a peer sends, the registry never holds an address twice.
pub proof fn lemma_dispatched_no_duplicates(peers: Seq<PeerAddress>, messages: Seq<InboundMessage>)
    requires
        peers.no_duplicates(),
    ensures
        dispatched(peers, messages).no_duplicates(),
    decreases messages.len(),
{
    if messages.len() > 0 {
        lemma_dispatched_no_duplicates(peers, messages.drop_last());
        lemma_with_peer_idempotent(dispatched(peers, messages.drop_last()), messages.last().source);
    }
}

/// A further message from a peer already registered leaves the registry
/// as it is.
pub proof fn lemma_repeat_sender_keeps_registry(
    peers: Seq<PeerAddress>,
    messages: Seq<InboundMessage>,
    m: InboundMessage,
)
    requires
        dispatched(peers, messages).contains(m.source),
    ensures
        dispatched(peers, messages.push(m)) == dispatched(peers, messages),
{
    assert(messages.push(m).drop_last() =~= messages);
}

/// Packages what a receive handed back: the first `count` bytes of the
/// buffer and their sender, or nothing when the receive failed and must be
/// tried again.
pub fn ingest(buffer: &[u8], received: Result<(usize, PeerAddress), ReceiveError>) -> (r: Option<
    InboundMessage,
>)
    requires
        received matches Ok((count, _)) ==> count <= buffer@.len(),
    ensures
        match received {
            Ok((count, source)) => r matches Some(m) && m.payload@ == buffer@.subrange(
                0,
                count as int,
            ) && m.source == source,
            Err(_) => r is None,
        },
{
    match received {
        Ok((count, source)) => {
            let payload = vstd::slice::slice_to_vec(vstd::slice::slice_subrange(buffer, 0, count));
            Some(InboundMessage { payload, source })
        },
        Err(_) => None,
    }
}

/// The annotated text of a message from `source`.
pub fn annotate(source: &PeerAddress, text: &str) -> (r: String)
    ensures
        r@ == annotation(*source, text@),
{
    let mut r = String::from_str("FROM: ");
    source.write_to(&mut r);
    r.append(" MESSAGE: ");
    r.append(text);
    assert(r@ =~= annotation(*source, text@));
    r
}

/// The server's dispatch state: the registry of peers to broadcast to.
pub struct Relay {
    registry: PeerRegistry,
}

impl View for Relay {
    type V = Seq<PeerAddress>;

    closed spec fn view(&self) -> Seq<PeerAddress> {
        self.registry@
    }
}

impl Relay {
    pub open spec fn wf(&self) -> bool {
        self@.no_duplicates()
    }

    pub fn new() -> (r: Relay)
        ensures
            r@ == Seq::<PeerAddress>::empty(),
            r.wf(),
    {
        Relay { registry: PeerRegistry::new() }
    }

    /// The peers registered so far.
    pub fn registry(&self) -> (r: &PeerRegistry)
        ensures
            r@ == self@,
    {
        &self.registry
    }

    /// Handles one received message: decodes its text, registers its
    /// sender, and returns the annotated datagram with every registered
    /// peer, the sender included, in registration order. A payload that is
    /// not UTF-8 changes nothing and yields a decode error.
    pub fn dispatch(&mut self, message: &InboundMessage) -> (r: Result<Broadcast, DecodeError>)
        requires
            old(self).wf(),
        ensures
            final(self).wf(),
            dispatch_result(old(self)@, *message, r),
            final(self)@ == after_message(old(self)@, *message),
            r matches Ok(b) ==> b.destinations@ == final(self)@,
    {
        match utf8_text(message.payload.as_slice()) {
            None => Err(DecodeError),
            Some(text) => {
                self.registry.add(message.source);
                let line = annotate(&message.source, text);
                let datagram = line.as_str().as_bytes_vec();
                Ok(Broadcast { datagram, destinations: self.registry.to_vec() })
            },
        }
    }
}

/// Runs the dispatch loop over a batch of handed-off messages, in the order
/// they were received: one result per message, each against the registry
/// that the messages before it left.
pub fn run(relay: &mut Relay, batch: &Vec<InboundMessage>) -> (r: Vec<Result<Broadcast, DecodeError>>)
    requires
        old(relay).wf(),
    ensures
        final(relay).wf(),
        final(relay)@ == dispatched(old(relay)@, batch@),
        r@.len() == batch@.len(),
        forall|i: int|
            0 <= i < batch@.len() ==> dispatch_result(
                #[trigger] dispatched(old(relay)@, batch@.subrange(0, i)),
                batch@[i],
                r@[i],
            ),
{
    let ghost start = relay@;
    let mut results: Vec<Result<Broadcast, DecodeError>> = Vec::new();
    let mut i: usize = 0;
    assert(batch@.subrange(0, 0) =~= Seq::<InboundMessage>::empty());
    while i < batch.len()
        invariant
            i <= batch@.len(),
            relay.wf(),
            relay@ == dispatched(start, batch@.subrange(0, i as int)),
            results@.len() == i,
            forall|j: int|
                0 <= j < i ==> dispatch_result(
                    #[trigger] dispatched(start, batch@.subrange(0, j)),
                    batch@[j],
                    results@[j],
                ),
        decreases batch@.len() - i,
    {
        let r = relay.dispatch(&batch[i]);
        assert(batch@.subrange(0, i + 1).drop_last() =~= batch@.subrange(0, i as int));
        results.push(r);
        i += 1;
    }
    assert(batch@.subrange(0, batch@.len() as int) =~= batch@);
    results
}

} // verus!
