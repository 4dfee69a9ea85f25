use base64::Engine;
use vstd::prelude::*;
use vstd::utf8::encode_utf8;

verus! {

/// Where an outbound queue delivers to.
#[derive(Clone, Debug, PartialEq, Eq, Hash)]
pub enum OutgoingKind {
    /// A bridge, by its registration id.
    Appservice(String),
    /// A push gateway: the user and the pushkey.
    Push(String, String),
    /// A federation server, by its server name.
    Normal(String),
}

/// One durably queued item.
#[derive(Clone, Debug, PartialEq, Eq, Hash)]
pub enum SendingEventType {
    /// A persisted event, by its storage id.
    Pdu(Vec<u8>),
    /// A serialized ephemeral update.
    Edu(Vec<u8>),
}

/// The byte that ends each part of a queue key prefix.
pub const PREFIX_SEPARATOR: u8 = 0xff;

/// The storage key prefix under which a destination's queue lives.
pub open spec fn prefix_of(kind: OutgoingKind) -> Seq<u8> {
    match kind {
        OutgoingKind::Appservice(id) => seq![43u8] + encode_utf8(id@) + seq![0xffu8],
        OutgoingKind::Push(user, pushkey) => seq![36u8] + encode_utf8(user@) + seq![0xffu8]
            + encode_utf8(pushkey@) + seq![0xffu8],
        OutgoingKind::Normal(server) => encode_utf8(server@) + seq![0xffu8],
    }
}

fn append_bytes(out: &mut Vec<u8>, bytes: &[u8])
    ensures
        final(out)@ == old(out)@ + bytes@,
{
    let mut i: usize = 0;
    while i < bytes.len()
        invariant
            0 <= i <= bytes@.len(),
            out@ == old(out)@ + bytes@.subrange(0, i as int),
        decreases bytes@.len() - i,
    {
        out.push(bytes[i]);
        i = i + 1;
        assert(bytes@.subrange(0, i as int) == bytes@.subrange(0, i - 1) + seq![bytes@[i - 1]]);
    }
    assert(bytes@.subrange(0, i as int) == bytes@);
}

impl OutgoingKind {
    /// The storage key prefix of this destination's queue.
    pub fn get_prefix(&self) -> (r: Vec<u8>)
        ensures
            r@ == prefix_of(*self),
    {
        let mut prefix: Vec<u8> = Vec::new();
        match self {
            OutgoingKind::Appservice(id) => {
                prefix.push(43u8);
                append_bytes(&mut prefix, id.as_str().as_bytes());
                prefix.push(PREFIX_SEPARATOR);
                assert(prefix@ =~= prefix_of(*self));
            },
            OutgoingKind::Push(user, pushkey) => {
                prefix.push(36u8);
                append_bytes(&mut prefix, user.as_str().as_bytes());
                prefix.push(PREFIX_SEPARATOR);
                append_bytes(&mut prefix, pushkey.as_str().as_bytes());
                prefix.push(PREFIX_SEPARATOR);
                assert(prefix@ =~= prefix_of(*self));
            },
            OutgoingKind::Normal(server) => {
                append_bytes(&mut prefix, server.as_str().as_bytes());
                prefix.push(PREFIX_SEPARATOR);
                assert(prefix@ =~= prefix_of(*self));
            },
        }
        prefix
    }
}

/// The storage ids of the persisted events among `events`, in order.
pub open spec fn pdu_ids(events: Seq<SendingEventType>) -> Seq<Seq<u8>>
    decreases events.len(),
{
    if events.len() == 0 {
        seq![]
    } else {
        let rest = pdu_ids(events.drop_last());
        match events.last() {
            SendingEventType::Pdu(id) => rest.push(id@),
            SendingEventType::Edu(_) => rest,
        }
    }
}

/// The serialized ephemeral updates among `events`, in order.
pub open spec fn edu_payloads(events: Seq<SendingEventType>) -> Seq<Seq<u8>>
    decreases events.len(),
{
    if events.len() == 0 {
        seq![]
    } else {
        let rest = edu_payloads(events.drop_last());
        match events.last() {
            SendingEventType::Pdu(_) => rest,
            SendingEventType::Edu(edu) => rest.push(edu@),
        }
    }
}

/// Whether a destination of this kind receives ephemeral updates: push gateways and
/// bridges take persisted events only.
pub open spec fn takes_edus(kind: OutgoingKind) -> bool {
    kind is Normal
}

/// The text form of a transaction id: base64 of the batch digest, URL-safe alphabet,
/// without padding.
pub uninterp spec fn url_safe_unpadded(digest: Seq<u8>) -> Seq<char>;

/// Length of the unpadded base64 text of `n` bytes.
pub open spec fn unpadded_len(n: nat) -> nat {
    4 * (n / 3) + if n % 3 == 0 {
        0
    } else {
        n % 3 + 1
    }
}

/// Relies on base64's `URL_SAFE_NO_PAD` engine and `Engine::encode`: the text depends on the
/// bytes alone, four characters per three bytes and two or three for a trailing part.
/// `encode` panics when the length computation overflows, which the bound excludes.
#[verifier::external_body]
fn encode_url_safe_unpadded(digest: &[u8]) -> (r: String)
    requires
        digest@.len() <= usize::MAX / 2,
    ensures
        r@ == url_safe_unpadded(digest@),
        r@.len() == unpadded_len(digest@.len()),
{
    base64::engine::general_purpose::URL_SAFE_NO_PAD.encode(digest)
}

/// One outbound transaction: its id and the two payload lists.
pub struct Transaction {
    pub transaction_id: String,
    pub pdus: Vec<Vec<u8>>,
    pub edus: Vec<Vec<u8>>,
}

fn copy_bytes(b: &Vec<u8>) -> (r: Vec<u8>)
    ensures
        r@ == b@,
{
    let mut r: Vec<u8> = Vec::new();
    append_bytes(&mut r, b.as_slice());
    r
}

/// Builds the transaction that carries `events` to a destination of `kind`: the persisted
/// events by storage id, the ephemeral updates only where the kind takes them, and the id
/// derived from `digest`, the digest of the batch.
pub fn build_transaction(kind: &OutgoingKind, events: &Vec<SendingEventType>, digest: &Vec<u8>) -> (r:
    Transaction)
    requires
        digest@.len() <= usize::MAX / 2,
    ensures
        r.transaction_id@ == url_safe_unpadded(digest@),
        r.pdus@.map_values(|p: Vec<u8>| p@) == pdu_ids(events@),
        r.edus@.map_values(|e: Vec<u8>| e@) == if takes_edus(*kind) {
            edu_payloads(events@)
        } else {
            seq![]
        },
{
    let with_edus = match kind {
        OutgoingKind::Normal(_) => true,
        _ => false,
    };
    let mut pdus: Vec<Vec<u8>> = Vec::new();
    let mut edus: Vec<Vec<u8>> = Vec::new();
    let mut i: usize = 0;
    while i < events.len()
        invariant
            0 <= i <= events@.len(),
            with_edus == takes_edus(*kind),
            pdus@.map_values(|p: Vec<u8>| p@) == pdu_ids(events@.take(i as int)),
            edus@.map_values(|e: Vec<u8>| e@) == if with_edus {
                edu_payloads(events@.take(i as int))
            } else {
                seq![]
            },
        decreases events@.len() - i,
    {
        assert(events@.take(i + 1).drop_last() == events@.take(i as int));
        match &events[i] {
            SendingEventType::Pdu(id) => {
                pdus.push(copy_bytes(id));
                assert(pdus@.map_values(|p: Vec<u8>| p@) =~= pdu_ids(events@.take(i + 1)));
                assert(edus@.map_values(|e: Vec<u8>| e@) =~= if with_edus {
                    edu_payloads(events@.take(i + 1))
                } else {
                    seq![]
                });
            },
            SendingEventType::Edu(edu) => {
                if with_edus {
                    edus.push(copy_bytes(edu));
                }
                assert(pdus@.map_values(|p: Vec<u8>| p@) =~= pdu_ids(events@.take(i + 1)));
                assert(edus@.map_values(|e: Vec<u8>| e@) =~= if with_edus {
                    edu_payloads(events@.take(i + 1))
                } else {
                    seq![]
                });
            },
        }
        i = i + 1;
    }
    assert(events@.take(events@.len() as int) == events@);
    let transaction_id = encode_url_safe_unpadded(digest.as_slice());
    Transaction { transaction_id, pdus, edus }
}

} // verus!
