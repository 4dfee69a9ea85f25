use std::collections::HashMap;
use vstd::prelude::*;

use crate::pipeline::RejectReason;
use crate::pipeline::stateres::StateMap;

verus! {

broadcast use vstd::std_specs::hash::group_hash_axioms;

/// An auth event found in local storage: its short event id and the slot it fills.
pub struct AuthEvent {
    pub event_id: u64,
    pub slot: u64,
}

/// The auth-event map built from the lookups of an event's auth events, in order: an event
/// that storage lacks is left out, and a later event overwrites an earlier one's slot.
pub open spec fn auth_map(found: Seq<Option<AuthEvent>>) -> Map<u64, u64>
    decreases found.len(),
{
    if found.len() == 0 {
        Map::empty()
    } else {
        match found.last() {
            Some(a) => auth_map(found.drop_last()).insert(a.slot, a.event_id),
            None => auth_map(found.drop_last()),
        }
    }
}

/// Builds the slot-to-event map of an event's auth events from their storage lookups.
pub fn assemble_auth_events(found: &Vec<Option<AuthEvent>>) -> (r: StateMap)
    ensures
        r@ == auth_map(found@),
{
    let mut m: StateMap = HashMap::new();
    let mut i: usize = 0;
    while i < found.len()
        invariant
            0 <= i <= found@.len(),
            m@ == auth_map(found@.take(i as int)),
        decreases found@.len() - i,
    {
        assert(found@.take(i + 1).drop_last() == found@.take(i as int));
        if let Some(a) = &found[i] {
            m.insert(a.slot, a.event_id);
        }
        i = i + 1;
    }
    assert(found@.take(found@.len() as int) == found@);
    m
}

/// Whether the auth-event map holds the room's create event in the create slot.
pub open spec fn has_create_event(auth: Map<u64, u64>, create_slot: u64, create_event_id: u64) -> bool {
    auth.contains_key(create_slot) && auth[create_slot] == create_event_id
}

/// The authorization verdict. Every event but the create event itself needs the room's
/// create event among its auth events; then the state-independent and the state-dependent
/// rule checks must both pass.
pub open spec fn authorization_spec(
    auth: Map<u64, u64>,
    create_slot: u64,
    create_event_id: u64,
    is_create_event: bool,
    independent_ok: bool,
    dependent_ok: bool,
) -> Result<(), RejectReason> {
    if !is_create_event && !has_create_event(auth, create_slot, create_event_id) {
        Err(RejectReason::MissingCreateEvent)
    } else if !independent_ok || !dependent_ok {
        Err(RejectReason::AuthCheckFailed)
    } else {
        Ok(())
    }
}

/// Decides whether an event may be accepted, from its auth-event map and the outcomes of
/// the room version's two rule checks run over that map.
pub fn authorize_pdu(
    auth_events: &StateMap,
    create_slot: u64,
    create_event_id: u64,
    is_create_event: bool,
    independent_ok: bool,
    dependent_ok: bool,
) -> (r: Result<(), RejectReason>)
    ensures
        r == authorization_spec(
            auth_events@,
            create_slot,
            create_event_id,
            is_create_event,
            independent_ok,
            dependent_ok,
        ),
{
    if !is_create_event {
        let holds_create = match auth_events.get(&create_slot) {
            Some(id) => *id == create_event_id,
            None => false,
        };
        if !holds_create {
            return Err(RejectReason::MissingCreateEvent);
        }
    }
    if !independent_ok || !dependent_ok {
        return Err(RejectReason::AuthCheckFailed);
    }
    Ok(())
}

} // verus!
