use std::collections::{HashMap, HashSet};

use conduit::pipeline::auth::{assemble_auth_events, authorize_pdu, AuthEvent};
use conduit::pipeline::fetcher::{
    inbound_outcome, missing_dependencies, placement_after_fetch, Placement,
};
use conduit::pipeline::stateres::{
    apply_state_event, choose_strategy, remote_state, state_from_pairs, RemoteStateEvent,
    StateError, StateStrategy,
};
use conduit::pipeline::validation::{
    record_accepted, validate_pdu, KnownAs, SignatureCheck, TimestampField,
};
use conduit::pipeline::RejectReason;

const CREATE_SLOT: u64 = 1;
const NAME_SLOT: u64 = 7;

fn validate(ts: TimestampField, sig: SignatureCheck, known: KnownAs) -> Result<(Vec<u8>, bool, u64), RejectReason> {
    validate_pdu(true, ts, sig, b"full".to_vec(), Some(b"red".to_vec()), known)
        .map(|v| (v.json, v.redacted, v.origin_server_ts))
}

#[test]
fn valid_event_is_kept_as_is() {
    let r = validate(TimestampField::Integer(1_700), SignatureCheck::All, KnownAs::Unknown);
    assert_eq!(r, Ok((b"full".to_vec(), false, 1_700)));
}

#[test]
fn each_validation_error() {
    assert_eq!(
        validate_pdu(false, TimestampField::Integer(1), SignatureCheck::All, vec![], None, KnownAs::Unknown).err(),
        Some(RejectReason::InvalidFormat)
    );
    assert_eq!(validate(TimestampField::Missing, SignatureCheck::All, KnownAs::Unknown), Err(RejectReason::MissingTimestamp));
    assert_eq!(validate(TimestampField::NotInteger, SignatureCheck::All, KnownAs::Unknown), Err(RejectReason::TimestampNotInteger));
    assert_eq!(validate(TimestampField::Integer(-1), SignatureCheck::All, KnownAs::Unknown), Err(RejectReason::TimestampBeforeEpoch));
    assert_eq!(validate(TimestampField::Integer(5), SignatureCheck::Invalid, KnownAs::Unknown), Err(RejectReason::BadSignature));
    assert_eq!(
        validate_pdu(true, TimestampField::Integer(5), SignatureCheck::SignaturesOnly, b"x".to_vec(), None, KnownAs::Unknown).err(),
        Some(RejectReason::RedactionFailed)
    );
}

#[test]
fn hash_mismatch_keeps_only_redacted_form() {
    let r = validate(TimestampField::Integer(9), SignatureCheck::SignaturesOnly, KnownAs::Unknown);
    assert_eq!(r, Ok((b"red".to_vec(), true, 9)));
    let r = validate(TimestampField::Integer(9), SignatureCheck::SignaturesOnly, KnownAs::Redacted);
    assert_eq!(r, Ok((b"red".to_vec(), true, 9)));
}

#[test]
fn intact_event_cannot_be_relabeled_redacted() {
    let r = validate(TimestampField::Integer(9), SignatureCheck::SignaturesOnly, KnownAs::Intact);
    assert_eq!(r, Err(RejectReason::RedactedAfterKnown));
    assert_eq!(record_accepted(KnownAs::Intact, true), KnownAs::Intact);
}

#[test]
fn revalidation_gives_same_form_and_store() {
    for sig in [SignatureCheck::All, SignatureCheck::SignaturesOnly] {
        let first = validate(TimestampField::Integer(3), sig, KnownAs::Unknown).unwrap();
        let stored = record_accepted(KnownAs::Unknown, first.1);
        let again = validate(TimestampField::Integer(3), sig, stored).unwrap();
        assert_eq!(first, again);
        assert_eq!(record_accepted(stored, again.1), stored);
    }
}

#[test]
fn single_parent_state_event_fills_its_slot() {
    let cached = state_from_pairs(&vec![(CREATE_SLOT, 100), (NAME_SLOT, 201)]);
    // the state before E: the parent A (a non-state event) leaves the cached state as it is
    let mut before_e = cached.clone();
    apply_state_event(&mut before_e, 300, None);
    assert_eq!(before_e.get(&NAME_SLOT), Some(&201));
    // E is itself a name event: after E the name slot holds E
    let mut after_e = before_e.clone();
    apply_state_event(&mut after_e, 301, Some(NAME_SLOT));
    assert_eq!(after_e.get(&NAME_SLOT), Some(&301));
    assert_eq!(after_e.get(&CREATE_SLOT), Some(&100));
    assert_eq!(after_e.len(), 2);
}

#[test]
fn strategy_choice() {
    assert_eq!(choose_strategy(1, true, false), StateStrategy::SingleParent);
    assert_eq!(choose_strategy(1, false, true), StateStrategy::Remote);
    assert_eq!(choose_strategy(2, false, true), StateStrategy::Resolve);
    assert_eq!(choose_strategy(3, true, false), StateStrategy::Remote);
    assert_eq!(choose_strategy(0, false, true), StateStrategy::Resolve);
}

#[test]
fn resolved_pairs_in_any_order_give_same_state() {
    let a = state_from_pairs(&vec![(1, 10), (2, 20), (3, 30)]);
    let b = state_from_pairs(&vec![(3, 30), (1, 10), (2, 20)]);
    assert_eq!(a, b);
    let c = state_from_pairs(&vec![(1, 10), (1, 11)]);
    assert_eq!(c.get(&1), Some(&11));
}

fn remote(events: &[(u64, Option<u64>)]) -> Result<HashMap<u64, u64>, StateError> {
    let v = events.iter().map(|&(event_id, slot)| RemoteStateEvent { event_id, slot }).collect();
    remote_state(&v, CREATE_SLOT, 100)
}

#[test]
fn remote_state_is_adopted_when_consistent() {
    let m = remote(&[(100, Some(CREATE_SLOT)), (5, Some(NAME_SLOT))]).unwrap();
    assert_eq!(m, HashMap::from([(CREATE_SLOT, 100), (NAME_SLOT, 5)]));
}

#[test]
fn remote_state_errors() {
    assert_eq!(remote(&[(100, Some(CREATE_SLOT)), (5, None)]), Err(StateError::NonStateEvent));
    assert_eq!(
        remote(&[(100, Some(CREATE_SLOT)), (5, Some(NAME_SLOT)), (6, Some(NAME_SLOT))]),
        Err(StateError::DuplicateSlot)
    );
    assert_eq!(remote(&[(99, Some(CREATE_SLOT))]), Err(StateError::WrongCreateEvent));
    assert_eq!(remote(&[]), Err(StateError::WrongCreateEvent));
}

#[test]
fn auth_map_skips_missing_and_keeps_last() {
    let found = vec![
        Some(AuthEvent { event_id: 100, slot: CREATE_SLOT }),
        None,
        Some(AuthEvent { event_id: 4, slot: 2 }),
        Some(AuthEvent { event_id: 5, slot: 2 }),
    ];
    let m = assemble_auth_events(&found);
    assert_eq!(m, HashMap::from([(CREATE_SLOT, 100), (2, 5)]));
}

#[test]
fn authorization_verdicts() {
    let with_create = HashMap::from([(CREATE_SLOT, 100)]);
    let wrong_create = HashMap::from([(CREATE_SLOT, 99)]);
    assert_eq!(authorize_pdu(&with_create, CREATE_SLOT, 100, false, true, true), Ok(()));
    assert_eq!(
        authorize_pdu(&wrong_create, CREATE_SLOT, 100, false, true, true),
        Err(RejectReason::MissingCreateEvent)
    );
    assert_eq!(
        authorize_pdu(&HashMap::new(), CREATE_SLOT, 100, false, true, true),
        Err(RejectReason::MissingCreateEvent)
    );
    assert_eq!(authorize_pdu(&HashMap::new(), CREATE_SLOT, 100, true, true, true), Ok(()));
    assert_eq!(
        authorize_pdu(&with_create, CREATE_SLOT, 100, false, false, true),
        Err(RejectReason::AuthCheckFailed)
    );
    assert_eq!(
        authorize_pdu(&with_create, CREATE_SLOT, 100, false, true, false),
        Err(RejectReason::AuthCheckFailed)
    );
}

#[test]
fn missing_dependencies_in_order() {
    let known = HashSet::from([1, 3]);
    assert_eq!(missing_dependencies(&vec![1, 2, 3, 4], &known), vec![2, 4]);
    assert!(missing_dependencies(&vec![], &known).is_empty());
}

#[test]
fn unreachable_auth_event_makes_an_outlier() {
    // auth event 9 is unknown locally and its origin did not answer: it never became available
    let available = HashSet::from([1, 2]);
    let placement = placement_after_fetch(&vec![1, 9], &available);
    assert_eq!(placement, Placement::Outlier);
    assert_eq!(inbound_outcome(Ok(()), placement, true, Ok(())), Ok(Placement::Outlier));
    assert_eq!(placement_after_fetch(&vec![1, 2], &available), Placement::Timeline);
}

#[test]
fn inbound_outcomes() {
    assert_eq!(
        inbound_outcome(Err(RejectReason::BadSignature), Placement::Timeline, true, Ok(())),
        Err(RejectReason::BadSignature)
    );
    assert_eq!(inbound_outcome(Ok(()), Placement::Timeline, false, Ok(())), Ok(Placement::Outlier));
    assert_eq!(
        inbound_outcome(Ok(()), Placement::Timeline, true, Err(RejectReason::AuthCheckFailed)),
        Err(RejectReason::AuthCheckFailed)
    );
    assert_eq!(inbound_outcome(Ok(()), Placement::Timeline, true, Ok(())), Ok(Placement::Timeline));
}

use conduit::pipeline::fetcher::DependencyFetch;

#[test]
fn fetch_requests_each_missing_ancestor_once() {
    // 100 is the room's create event, already stored
    let known = HashSet::from([100]);
    let mut f = DependencyFetch::new(&vec![100, 5, 6, 5], known);
    assert_eq!(f.pending, vec![5, 6]);
    let mut requested = Vec::new();
    while let Some(id) = f.next_request() {
        requested.push(id);
        match id {
            6 => f.record_fetched(6, &vec![100, 7, 5]),
            7 => f.record_fetched(7, &vec![100, 6]),
            5 => f.record_fetched(5, &vec![100]),
            _ => unreachable!(),
        }
    }
    assert!(f.is_done());
    assert_eq!(requested, vec![6, 7, 5]);
    assert_eq!(f.obtained, vec![6, 7, 5]);
    assert!(f.unavailable.is_empty());
}

#[test]
fn unreachable_origin_ends_fetch_with_outlier() {
    let known = HashSet::from([100, 1]);
    let mut f = DependencyFetch::new(&vec![100, 1, 9], known);
    let id = f.next_request().unwrap();
    assert_eq!(id, 9);
    f.record_unavailable(id);
    assert_eq!(f.next_request(), None);
    assert_eq!(f.unavailable, vec![9]);
    let mut available: HashSet<u64> = f.seen.clone();
    available.retain(|x| !f.unavailable.contains(x));
    let placement = placement_after_fetch(&vec![100, 1, 9], &available);
    assert_eq!(placement, Placement::Outlier);
    assert_eq!(inbound_outcome(Ok(()), placement, false, Ok(())), Ok(Placement::Outlier));
}

use conduit::pipeline::validation::{keys_valid_at, VerifyKey};

#[test]
fn only_keys_valid_at_event_time_are_used() {
    let keys = vec![
        VerifyKey { key_id: 1, valid_until_ts: 999 },
        VerifyKey { key_id: 2, valid_until_ts: 1_000 },
        VerifyKey { key_id: 3, valid_until_ts: 5_000 },
    ];
    let ids: Vec<u64> = keys_valid_at(&keys, 1_000).iter().map(|k| k.key_id).collect();
    assert_eq!(ids, vec![2, 3]);
    assert!(keys_valid_at(&keys, 5_001).is_empty());
    assert_eq!(keys_valid_at(&keys, 0).len(), 3);
}
