use vstd::prelude::*;

use crate::pipeline::RejectReason;

verus! {

/// Outcome of verifying an event's signatures and content hash against the origin's keys.
#[derive(Clone, Copy, Debug, PartialEq, Eq, Structural)]
pub enum SignatureCheck {
    /// A signature does not verify.
    Invalid,
    /// The signatures verify but the content hash does not match.
    SignaturesOnly,
    /// Signatures and content hash verify.
    All,
}

/// What the `origin_server_ts` field of an event holds.
#[derive(Clone, Copy, Debug, PartialEq, Eq, Structural)]
pub enum TimestampField {
    Missing,
    NotInteger,
    Integer(i64),
}

/// What local storage already holds under an event's id.
#[derive(Clone, Copy, Debug, PartialEq, Eq, Structural)]
pub enum KnownAs {
    Unknown,
    /// Stored in its redacted form.
    Redacted,
    /// Stored with its full content.
    Intact,
}

/// A verification key of the origin server: its interned key id and the last moment, in
/// milliseconds since the unix epoch, at which it may sign.
#[derive(Clone, Copy, Debug, PartialEq, Eq, Structural)]
pub struct VerifyKey {
    pub key_id: u64,
    pub valid_until_ts: u64,
}

/// The keys of `keys` that were valid at `ts`, in order.
pub open spec fn valid_at_spec(keys: Seq<VerifyKey>, ts: u64) -> Seq<VerifyKey>
    decreases keys.len(),
{
    if keys.len() == 0 {
        seq![]
    } else {
        let rest = valid_at_spec(keys.drop_last(), ts);
        if ts <= keys.last().valid_until_ts {
            rest.push(keys.last())
        } else {
            rest
        }
    }
}

/// The keys that may have signed an event stamped `origin_server_ts`. Applied to the
/// origin's current keys it gives the keys checked first; applied to its expired keys,
/// those that serve only as the weaker fallback.
pub fn keys_valid_at(keys: &Vec<VerifyKey>, origin_server_ts: u64) -> (r: Vec<VerifyKey>)
    ensures
        r@ == valid_at_spec(keys@, origin_server_ts),
{
    let mut r: Vec<VerifyKey> = Vec::new();
    let mut i: usize = 0;
    while i < keys.len()
        invariant
            0 <= i <= keys@.len(),
            r@ == valid_at_spec(keys@.take(i as int), origin_server_ts),
        decreases keys@.len() - i,
    {
        assert(keys@.take(i + 1).drop_last() == keys@.take(i as int));
        let k = keys[i];
        if origin_server_ts <= k.valid_until_ts {
            r.push(k);
        }
        i = i + 1;
    }
    assert(keys@.take(keys@.len() as int) == keys@);
    r
}

/// An event that passed validation, in the canonical form that is kept.
pub struct Validated {
    /// Canonical JSON of the event: as received, or its redacted form.
    pub json: Vec<u8>,
    /// Whether `json` is the redacted form.
    pub redacted: bool,
    /// Milliseconds since the unix epoch, as the origin stamped it.
    pub origin_server_ts: u64,
}

/// Validation of one event, given the outcome of each outside check.
///
/// `json` is the event without its `unsigned` field; `redacted_json` is its redacted form,
/// `None` where redaction failed; `known` is what storage holds under its id.
pub open spec fn validation_spec(
    format_ok: bool,
    ts: TimestampField,
    signature: SignatureCheck,
    json: Seq<u8>,
    redacted_json: Option<Seq<u8>>,
    known: KnownAs,
) -> Result<(Seq<u8>, bool, u64), RejectReason> {
    if !format_ok {
        Err(RejectReason::InvalidFormat)
    } else {
        match ts {
            TimestampField::Missing => Err(RejectReason::MissingTimestamp),
            TimestampField::NotInteger => Err(RejectReason::TimestampNotInteger),
            TimestampField::Integer(t) => if t < 0 {
                Err(RejectReason::TimestampBeforeEpoch)
            } else {
                match signature {
                    SignatureCheck::Invalid => Err(RejectReason::BadSignature),
                    SignatureCheck::All => Ok((json, false, t as u64)),
                    SignatureCheck::SignaturesOnly => match redacted_json {
                        None => Err(RejectReason::RedactionFailed),
                        Some(r) => if known is Intact {
                            Err(RejectReason::RedactedAfterKnown)
                        } else {
                            Ok((r, true, t as u64))
                        },
                    },
                }
            },
        }
    }
}

/// The view of a validation result.
pub open spec fn validated_view(r: Result<Validated, RejectReason>) -> Result<
    (Seq<u8>, bool, u64),
    RejectReason,
> {
    match r {
        Ok(v) => Ok((v.json@, v.redacted, v.origin_server_ts)),
        Err(e) => Err(e),
    }
}

/// What storage holds under the id after an event of that id was accepted in form
/// `redacted` (an intact copy is never downgraded).
pub open spec fn known_after(known: KnownAs, redacted: bool) -> KnownAs {
    match known {
        KnownAs::Unknown => if redacted {
            KnownAs::Redacted
        } else {
            KnownAs::Intact
        },
        KnownAs::Redacted => if redacted {
            KnownAs::Redacted
        } else {
            KnownAs::Intact
        },
        KnownAs::Intact => KnownAs::Intact,
    }
}

/// Validates an incoming event: its format, its timestamp, and its signatures and hash.
/// A failed hash under good signatures keeps only the redacted form, and never over an
/// intact copy already accepted under the same id.
pub fn validate_pdu(
    format_ok: bool,
    ts: TimestampField,
    signature: SignatureCheck,
    json: Vec<u8>,
    redacted_json: Option<Vec<u8>>,
    known: KnownAs,
) -> (r: Result<Validated, RejectReason>)
    ensures
        validated_view(r) == validation_spec(
            format_ok,
            ts,
            signature,
            json@,
            match redacted_json {
                Some(v) => Some(v@),
                None => None,
            },
            known,
        ),
{
    if !format_ok {
        return Err(RejectReason::InvalidFormat);
    }
    let origin_server_ts: u64 = match ts {
        TimestampField::Missing => {
            return Err(RejectReason::MissingTimestamp);
        },
        TimestampField::NotInteger => {
            return Err(RejectReason::TimestampNotInteger);
        },
        TimestampField::Integer(t) => {
            if t < 0 {
                return Err(RejectReason::TimestampBeforeEpoch);
            }
            t as u64
        },
    };
    match signature {
        SignatureCheck::Invalid => Err(RejectReason::BadSignature),
        SignatureCheck::All => Ok(Validated { json, redacted: false, origin_server_ts }),
        SignatureCheck::SignaturesOnly => match redacted_json {
            None => Err(RejectReason::RedactionFailed),
            Some(r) => match known {
                KnownAs::Intact => Err(RejectReason::RedactedAfterKnown),
                _ => Ok(Validated { json: r, redacted: true, origin_server_ts }),
            },
        },
    }
}

/// Where storage records an accepted event: what it holds under the id afterwards.
pub fn record_accepted(known: KnownAs, redacted: bool) -> (r: KnownAs)
    ensures
        r == known_after(known, redacted),
{
    match known {
        KnownAs::Intact => KnownAs::Intact,
        _ => if redacted {
            KnownAs::Redacted
        } else {
            KnownAs::Intact
        },
    }
}

/// Validating the same bytes again, after the first acceptance was recorded, gives the
/// same canonical form, and recording it again leaves storage as it was.
pub proof fn revalidation_is_idempotent(
    format_ok: bool,
    ts: TimestampField,
    signature: SignatureCheck,
    json: Seq<u8>,
    redacted_json: Option<Seq<u8>>,
    known: KnownAs,
)
    requires
        validation_spec(format_ok, ts, signature, json, redacted_json, known) is Ok,
    ensures
        ({
            let first = validation_spec(format_ok, ts, signature, json, redacted_json, known);
            let stored = known_after(known, first->Ok_0.1);
            &&& validation_spec(format_ok, ts, signature, json, redacted_json, stored) == first
            &&& known_after(stored, first->Ok_0.1) == stored
        }),
{
}

/// A failed hash under good signatures is accepted only in redacted form, and never
/// where the id is already held intact.
pub proof fn redaction_is_safe(
    format_ok: bool,
    ts: TimestampField,
    json: Seq<u8>,
    redacted_json: Option<Seq<u8>>,
    known: KnownAs,
)
    ensures
        ({
            let r = validation_spec(
                format_ok,
                ts,
                SignatureCheck::SignaturesOnly,
                json,
                redacted_json,
                known,
            );
            &&& r is Ok ==> redacted_json is Some && r->Ok_0.0 == redacted_json->Some_0
                && r->Ok_0.1
            &&& known is Intact ==> r is Err
        }),
        known_after(KnownAs::Intact, true) is Intact,
{
}

} // verus!
