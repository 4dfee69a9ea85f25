use std::collections::HashMap;
use vstd::prelude::*;

verus! {

broadcast use vstd::std_specs::hash::group_hash_axioms;

/// A room state snapshot: short state key (the interned `(event_type, state_key)` slot) to
/// short event id of the event holding that slot.
pub type StateMap = HashMap<u64, u64>;

/// How the state before an incoming event is found.
#[derive(Clone, Copy, Debug, PartialEq, Eq, Structural)]
pub enum StateStrategy {
    /// One parent whose state is cached: reuse it, with the parent's own slot overlaid.
    SingleParent,
    /// A merge point whose parents are all known locally: state resolution over the forks.
    Resolve,
    /// Ask the origin server for the state at the event.
    Remote,
}

/// Picks the strategy for an event with `prev_count` parents. `parent_state_cached` tells
/// whether the single parent's state snapshot is cached; `parents_known` whether every
/// parent is stored together with its state snapshot.
pub open spec fn strategy_spec(
    prev_count: nat,
    parent_state_cached: bool,
    parents_known: bool,
) -> StateStrategy {
    if prev_count == 1 {
        if parent_state_cached {
            StateStrategy::SingleParent
        } else {
            StateStrategy::Remote
        }
    } else if parents_known {
        StateStrategy::Resolve
    } else {
        StateStrategy::Remote
    }
}

/// Picks how to find the state before an event (see `strategy_spec`).
pub fn choose_strategy(prev_count: usize, parent_state_cached: bool, parents_known: bool) -> (r:
    StateStrategy)
    ensures
        r == strategy_spec(prev_count as nat, parent_state_cached, parents_known),
{
    if prev_count == 1 {
        if parent_state_cached {
            StateStrategy::SingleParent
        } else {
            StateStrategy::Remote
        }
    } else if parents_known {
        StateStrategy::Resolve
    } else {
        StateStrategy::Remote
    }
}

/// The state after an event, from the state before it: a state event fills its own slot.
pub open spec fn state_after_spec(before: Map<u64, u64>, event_id: u64, slot: Option<u64>) -> Map<
    u64,
    u64,
> {
    match slot {
        Some(k) => before.insert(k, event_id),
        None => before,
    }
}

/// Turns the state before event `event_id` into the state after it; `slot` is the event's
/// short state key if it is a state event.
pub fn apply_state_event(state: &mut StateMap, event_id: u64, slot: Option<u64>)
    ensures
        final(state)@ == state_after_spec(old(state)@, event_id, slot),
{
    if let Some(k) = slot {
        state.insert(k, event_id);
    }
}

/// The map built by inserting `pairs` in order: a later pair overwrites an earlier one.
pub open spec fn map_of(pairs: Seq<(u64, u64)>) -> Map<u64, u64>
    decreases pairs.len(),
{
    if pairs.len() == 0 {
        Map::empty()
    } else {
        map_of(pairs.drop_last()).insert(pairs.last().0, pairs.last().1)
    }
}

/// Builds a state snapshot from `(slot, event)` pairs, as state resolution hands them back.
pub fn state_from_pairs(pairs: &Vec<(u64, u64)>) -> (r: StateMap)
    ensures
        r@ == map_of(pairs@),
{
    let mut m: StateMap = HashMap::new();
    let mut i: usize = 0;
    while i < pairs.len()
        invariant
            0 <= i <= pairs@.len(),
            m@ == map_of(pairs@.take(i as int)),
        decreases pairs@.len() - i,
    {
        assert(pairs@.take(i + 1).drop_last() == pairs@.take(i as int));
        let (k, v) = pairs[i];
        m.insert(k, v);
        i = i + 1;
    }
    assert(pairs@.take(pairs@.len() as int) == pairs@);
    m
}

/// Whether no two pairs of `pairs` name the same slot.
pub open spec fn distinct_slots(pairs: Seq<(u64, u64)>) -> bool {
    forall|i: int, j: int|
        0 <= i < j < pairs.len() ==> #[trigger] pairs[i].0 != #[trigger] pairs[j].0
}

proof fn lemma_map_of_contents(pairs: Seq<(u64, u64)>)
    ensures
        forall|k: u64|
            #[trigger] map_of(pairs).contains_key(k) <==> exists|i: int|
                0 <= i < pairs.len() && #[trigger] pairs[i].0 == k,
        distinct_slots(pairs) ==> forall|i: int|
            0 <= i < pairs.len() ==> #[trigger] map_of(pairs)[pairs[i].0] == pairs[i].1,
    decreases pairs.len(),
{
    if pairs.len() > 0 {
        let init = pairs.drop_last();
        lemma_map_of_contents(init);
        assert(map_of(pairs) == map_of(init).insert(pairs.last().0, pairs.last().1));
        assert forall|k: u64| #[trigger] map_of(pairs).contains_key(k) <==> exists|i: int|
            0 <= i < pairs.len() && #[trigger] pairs[i].0 == k by {
            if map_of(pairs).contains_key(k) && k == pairs.last().0 {
                assert(pairs[pairs.len() - 1].0 == k);
            }
            if map_of(pairs).contains_key(k) && k != pairs.last().0 {
                assert(map_of(init).contains_key(k));
                let i = choose|i: int| 0 <= i < init.len() && #[trigger] init[i].0 == k;
                assert(pairs[i].0 == k);
            }
            if exists|i: int| 0 <= i < pairs.len() && #[trigger] pairs[i].0 == k {
                let i = choose|i: int| 0 <= i < pairs.len() && #[trigger] pairs[i].0 == k;
                if i < pairs.len() - 1 {
                    assert(init[i].0 == k);
                    assert(map_of(init).contains_key(k));
                }
            }
        }
        if distinct_slots(pairs) {
            assert(distinct_slots(init)) by {
                assert forall|i: int, j: int| 0 <= i < j < init.len() implies #[trigger] init[i].0
                    != #[trigger] init[j].0 by {
                    assert(pairs[i].0 != pairs[j].0);
                }
            }
            assert forall|i: int| 0 <= i < pairs.len() implies #[trigger] map_of(pairs)[pairs[i].0]
                == pairs[i].1 by {
                if i < pairs.len() - 1 {
                    assert(pairs[i].0 != pairs[pairs.len() - 1].0);
                    assert(init[i] == pairs[i]);
                }
            }
        }
    }
}

/// State resolution hands back its result as a map, walked in no fixed order: as long as
/// no slot appears twice, any order of the same entries yields the same state snapshot.
pub proof fn resolved_state_is_order_independent(a: Seq<(u64, u64)>, b: Seq<(u64, u64)>)
    requires
        distinct_slots(a),
        distinct_slots(b),
        forall|x: (u64, u64)| a.contains(x) <==> b.contains(x),
    ensures
        map_of(a) == map_of(b),
{
    lemma_map_of_contents(a);
    lemma_map_of_contents(b);
    assert forall|k: u64| #[trigger] map_of(a).contains_key(k) == map_of(b).contains_key(k)
        && (map_of(a).contains_key(k) ==> map_of(a)[k] == map_of(b)[k]) by {
        if map_of(a).contains_key(k) {
            let i = choose|i: int| 0 <= i < a.len() && #[trigger] a[i].0 == k;
            assert(a.contains(a[i]));
            assert(b.contains(a[i]));
            let j = choose|j: int| 0 <= j < b.len() && b[j] == a[i];
            assert(b[j].0 == k);
            assert(map_of(b).contains_key(k));
        }
        if map_of(b).contains_key(k) {
            let j = choose|j: int| 0 <= j < b.len() && #[trigger] b[j].0 == k;
            assert(b.contains(b[j]));
            assert(a.contains(b[j]));
            let i = choose|i: int| 0 <= i < a.len() && a[i] == b[j];
            assert(a[i].0 == k);
            assert(map_of(a).contains_key(k));
        }
    }
    assert(map_of(a).dom() =~= map_of(b).dom());
    assert(map_of(a) =~= map_of(b));
}

/// A storage inconsistency met while assembling state: a bug-class error, not a peer's fault.
#[derive(Clone, Copy, Debug, PartialEq, Eq, Structural)]
pub enum StateError {
    /// A listed state event has no state key.
    NonStateEvent,
    /// Two listed state events fill the same slot.
    DuplicateSlot,
    /// The snapshot's create slot is empty or holds another create event.
    WrongCreateEvent,
}

/// One event of a remote state snapshot, after it was fetched and validated.
pub struct RemoteStateEvent {
    pub event_id: u64,
    /// The event's short state key; `None` for an event that is not a state event.
    pub slot: Option<u64>,
}

/// The snapshot listed by `events`, read in order: the first event without a slot, or that
/// refills a slot, is an error.
pub open spec fn remote_snapshot(events: Seq<RemoteStateEvent>) -> Result<Map<u64, u64>, StateError>
    decreases events.len(),
{
    if events.len() == 0 {
        Ok(Map::empty())
    } else {
        match remote_snapshot(events.drop_last()) {
            Err(e) => Err(e),
            Ok(m) => match events.last().slot {
                None => Err(StateError::NonStateEvent),
                Some(k) => if m.contains_key(k) {
                    Err(StateError::DuplicateSlot)
                } else {
                    Ok(m.insert(k, events.last().event_id))
                },
            },
        }
    }
}

/// The state adopted from the origin's answer: the listed snapshot, provided its create slot
/// holds the room's known create event.
pub open spec fn remote_state_spec(
    events: Seq<RemoteStateEvent>,
    create_slot: u64,
    create_event_id: u64,
) -> Result<Map<u64, u64>, StateError> {
    match remote_snapshot(events) {
        Err(e) => Err(e),
        Ok(m) => if m.contains_key(create_slot) && m[create_slot] == create_event_id {
            Ok(m)
        } else {
            Err(StateError::WrongCreateEvent)
        },
    }
}

/// Assembles the state that the origin reported at an event, refusing a snapshot that lists
/// a slot twice, lists a non-state event, or names another room's create event.
pub fn remote_state(events: &Vec<RemoteStateEvent>, create_slot: u64, create_event_id: u64) -> (r:
    Result<StateMap, StateError>)
    ensures
        match (r, remote_state_spec(events@, create_slot, create_event_id)) {
            (Ok(m), Ok(s)) => m@ == s,
            (Err(e), Err(f)) => e == f,
            _ => false,
        },
{
    let mut m: StateMap = HashMap::new();
    let mut i: usize = 0;
    while i < events.len()
        invariant
            0 <= i <= events@.len(),
            remote_snapshot(events@.take(i as int)) == Ok::<Map<u64, u64>, StateError>(m@),
        decreases events@.len() - i,
    {
        assert(events@.take(i + 1).drop_last() == events@.take(i as int));
        let event_id = events[i].event_id;
        match events[i].slot {
            None => {
                proof {
                    lemma_snapshot_error_persists(events@, i as int + 1);
                }
                return Err(StateError::NonStateEvent);
            },
            Some(k) => {
                if m.contains_key(&k) {
                    proof {
                        lemma_snapshot_error_persists(events@, i as int + 1);
                    }
                    return Err(StateError::DuplicateSlot);
                }
                m.insert(k, event_id);
            },
        }
        i = i + 1;
    }
    assert(events@.take(events@.len() as int) == events@);
    match m.get(&create_slot) {
        Some(id) => {
            if *id == create_event_id {
                Ok(m)
            } else {
                Err(StateError::WrongCreateEvent)
            }
        },
        None => Err(StateError::WrongCreateEvent),
    }
}

/// An error met in a prefix of the listed events is the error of the whole list.
proof fn lemma_snapshot_error_persists(events: Seq<RemoteStateEvent>, n: int)
    requires
        0 <= n <= events.len(),
        remote_snapshot(events.take(n)) is Err,
    ensures
        remote_snapshot(events) == remote_snapshot(events.take(n)),
    decreases events.len() - n,
{
    if n < events.len() {
        assert(events.take(n + 1).drop_last() == events.take(n));
        lemma_snapshot_error_persists(events, n + 1);
    } else {
        assert(events.take(n) == events);
    }
}

} // verus!
