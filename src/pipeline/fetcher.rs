use std::collections::HashSet;
use vstd::prelude::*;

use crate::pipeline::RejectReason;

verus! {

broadcast use vstd::std_specs::hash::group_hash_axioms;

/// Where an inbound event ends up when it is not rejected.
#[derive(Clone, Copy, Debug, PartialEq, Eq, Structural)]
pub enum Placement {
    /// Part of the room's timeline and state.
    Timeline,
    /// Stored for inspection but kept out of the room's state.
    Outlier,
}

/// The references among `refs` that are not in `known`, in order.
pub open spec fn missing_spec(refs: Seq<u64>, known: Set<u64>) -> Seq<u64>
    decreases refs.len(),
{
    if refs.len() == 0 {
        seq![]
    } else {
        let rest = missing_spec(refs.drop_last(), known);
        if known.contains(refs.last()) {
            rest
        } else {
            rest.push(refs.last())
        }
    }
}

/// The references of an event that local storage lacks and that must be fetched.
pub fn missing_dependencies(refs: &Vec<u64>, known: &HashSet<u64>) -> (r: Vec<u64>)
    ensures
        r@ == missing_spec(refs@, known@),
{
    let mut missing: Vec<u64> = Vec::new();
    let mut i: usize = 0;
    while i < refs.len()
        invariant
            0 <= i <= refs@.len(),
            missing@ == missing_spec(refs@.take(i as int), known@),
        decreases refs@.len() - i,
    {
        assert(refs@.take(i + 1).drop_last() == refs@.take(i as int));
        let id = refs[i];
        if !known.contains(&id) {
            missing.push(id);
        }
        i = i + 1;
    }
    assert(refs@.take(refs@.len() as int) == refs@);
    missing
}

/// The ids of `refs` that are not in `seen`, in order and each once.
pub open spec fn fresh_spec(refs: Seq<u64>, seen: Set<u64>) -> Seq<u64>
    decreases refs.len(),
{
    if refs.len() == 0 {
        seq![]
    } else {
        let rest = fresh_spec(refs.drop_last(), seen);
        let r = refs.last();
        if seen.contains(r) || rest.contains(r) {
            rest
        } else {
            rest.push(r)
        }
    }
}

proof fn lemma_push_contains(s: Seq<u64>, r: u64)
    ensures
        forall|x: u64| #[trigger] s.push(r).contains(x) <==> s.contains(x) || x == r,
{
    assert forall|x: u64| #[trigger] s.push(r).contains(x) <==> s.contains(x) || x == r by {
        if s.push(r).contains(x) && x != r {
            let k = choose|k: int| 0 <= k < s.len() + 1 && s.push(r)[k] == x;
            assert(s[k] == x);
        }
        if s.contains(x) {
            let k = choose|k: int| 0 <= k < s.len() && s[k] == x;
            assert(s.push(r)[k] == x);
        }
        assert(s.push(r)[s.len() as int] == r);
    }
}

proof fn lemma_fresh_contents(refs: Seq<u64>, seen: Set<u64>)
    ensures
        fresh_spec(refs, seen).no_duplicates(),
        forall|x: u64| #[trigger]
            fresh_spec(refs, seen).contains(x) <==> refs.contains(x) && !seen.contains(x),
    decreases refs.len(),
{
    if refs.len() > 0 {
        let init = refs.drop_last();
        let r = refs.last();
        let rest = fresh_spec(init, seen);
        lemma_fresh_contents(init, seen);
        assert(refs == init.push(r));
        lemma_push_contains(init, r);
        lemma_push_contains(rest, r);
        if !(seen.contains(r) || rest.contains(r)) {
            assert forall|a: int, b: int|
                0 <= a < rest.push(r).len() && 0 <= b < rest.push(r).len() && a != b implies
                rest.push(r)[a] != rest.push(r)[b] by {
                if a < rest.len() && b < rest.len() {
                } else if a < rest.len() {
                    assert(rest.contains(rest[a]));
                } else if b < rest.len() {
                    assert(rest.contains(rest[b]));
                }
            }
        }
    }
}

/// The recursive retrieval of an event's missing ancestors, one request at a time.
///
/// `seen` holds every id that storage had or that was ever queued; an id enters `pending`
/// only when it enters `seen`, so none is requested twice, and ids that storage already
/// holds (the room's create event among them) are never requested.
pub struct DependencyFetch {
    pub pending: Vec<u64>,
    pub seen: HashSet<u64>,
    pub obtained: Vec<u64>,
    pub unavailable: Vec<u64>,
}

impl DependencyFetch {
    pub open spec fn wf(&self) -> bool {
        &&& self.pending@.no_duplicates()
        &&& forall|i: int|
            0 <= i < self.pending@.len() ==> self.seen@.contains(#[trigger] self.pending@[i])
    }

    /// Starts fetching the references `refs` that `known` (the ids in storage) lacks.
    pub fn new(refs: &Vec<u64>, known: HashSet<u64>) -> (r: Self)
        ensures
            r.wf(),
            r.pending@ == fresh_spec(refs@, known@),
            r.seen@ == known@ + refs@.to_set(),
            r.obtained@.len() == 0,
            r.unavailable@.len() == 0,
    {
        let ghost k = known@;
        let mut f = DependencyFetch {
            pending: Vec::new(),
            seen: known,
            obtained: Vec::new(),
            unavailable: Vec::new(),
        };
        proof {
            assert(f.pending@ == fresh_spec(refs@.take(0), k));
        }
        f.queue_fresh(refs, Ghost(k));
        proof {
            assert(refs@.take(refs@.len() as int) == refs@);
        }
        f
    }

    fn queue_fresh(&mut self, refs: &Vec<u64>, Ghost(base): Ghost<Set<u64>>)
        requires
            old(self).wf(),
            old(self).seen@ == base,
        ensures
            final(self).wf(),
            final(self).pending@ == old(self).pending@ + fresh_spec(refs@, base),
            final(self).seen@ == base + refs@.to_set(),
            final(self).obtained@ == old(self).obtained@,
            final(self).unavailable@ == old(self).unavailable@,
    {
        let ghost p0 = self.pending@;
        let mut i: usize = 0;
        while i < refs.len()
            invariant
                0 <= i <= refs@.len(),
                self.wf(),
                self.pending@ == p0 + fresh_spec(refs@.take(i as int), base),
                self.seen@ == base + refs@.take(i as int).to_set(),
                forall|j: int| 0 <= j < p0.len() ==> base.contains(#[trigger] p0[j]),
                p0.no_duplicates(),
                self.obtained@ == old(self).obtained@,
                self.unavailable@ == old(self).unavailable@,
            decreases refs@.len() - i,
        {
            let id = refs[i];
            let ghost prefix = refs@.take(i as int);
            assert(refs@.take(i + 1).drop_last() == prefix);
            assert(refs@.take(i + 1) == prefix.push(id));
            proof {
                lemma_fresh_contents(prefix, base);
                assert(refs@.take(i + 1).to_set() == prefix.to_set().insert(id)) by {
                    assert forall|x: u64| refs@.take(i + 1).to_set().contains(x)
                        <==> prefix.to_set().insert(id).contains(x) by {
                        if prefix.push(id).contains(x) && x != id {
                            let k = choose|k: int| 0 <= k < prefix.len() + 1 && prefix.push(id)[k] == x;
                            assert(prefix[k] == x);
                        }
                        if prefix.contains(x) {
                            let k = choose|k: int| 0 <= k < prefix.len() && prefix[k] == x;
                            assert(prefix.push(id)[k] == x);
                        }
                        assert(prefix.push(id)[prefix.len() as int] == id);
                    }
                    assert(refs@.take(i + 1).to_set() =~= prefix.to_set().insert(id));
                }
            }
            if !self.seen.contains(&id) {
                proof {
                    assert(!base.contains(id));
                    assert(!prefix.contains(id)) by {
                        if prefix.contains(id) {
                            let k = choose|k: int| 0 <= k < prefix.len() && prefix[k] == id;
                            assert(prefix.to_set().contains(id));
                        }
                    }
                    assert(!fresh_spec(prefix, base).contains(id));
                    assert(!self.pending@.contains(id)) by {
                        if self.pending@.contains(id) {
                            let k = choose|k: int| 0 <= k < self.pending@.len() && self.pending@[k] == id;
                            assert(self.seen@.contains(self.pending@[k]));
                        }
                    }
                }
                self.seen.insert(id);
                self.pending.push(id);
                proof {
                    assert(fresh_spec(prefix.push(id), base) == fresh_spec(prefix, base).push(id));
                    assert(self.pending@ =~= p0 + fresh_spec(refs@.take(i + 1), base));
                }
            } else {
                proof {
                    if !base.contains(id) {
                        assert(prefix.to_set().contains(id));
                        let k = choose|k: int| 0 <= k < prefix.len() && prefix[k] == id;
                        assert(prefix.contains(id));
                        assert(fresh_spec(prefix, base).contains(id));
                    }
                    assert(fresh_spec(prefix.push(id), base) == fresh_spec(prefix, base));
                }
            }
            assert(self.seen@ =~= base + refs@.take(i + 1).to_set());
            i = i + 1;
        }
        assert(refs@.take(refs@.len() as int) == refs@);
    }

    /// The next id to request, if any remains; it leaves `pending` and stays in `seen`.
    pub fn next_request(&mut self) -> (r: Option<u64>)
        requires
            old(self).wf(),
        ensures
            final(self).wf(),
            final(self).seen@ == old(self).seen@,
            final(self).obtained@ == old(self).obtained@,
            final(self).unavailable@ == old(self).unavailable@,
            match r {
                None => old(self).pending@.len() == 0 && final(self).pending@.len() == 0,
                Some(id) => old(self).pending@.len() > 0 && id == old(self).pending@.last()
                    && final(self).pending@ == old(self).pending@.drop_last()
                    && final(self).seen@.contains(id) && !final(self).pending@.contains(id),
            },
    {
        let r = self.pending.pop();
        proof {
            if r is Some {
                let p = old(self).pending@;
                assert(p[p.len() - 1] == p.last());
                assert(!self.pending@.contains(p.last())) by {
                    if self.pending@.contains(p.last()) {
                        let k = choose|k: int| 0 <= k < self.pending@.len() && self.pending@[k] == p.last();
                        assert(p[k] == p[p.len() - 1]);
                    }
                }
                assert(self.seen@.contains(p[p.len() - 1]));
            }
        }
        r
    }

    /// The origin answered with event `id`, which passed validation and cites `refs`: those
    /// never seen before are queued.
    pub fn record_fetched(&mut self, id: u64, refs: &Vec<u64>)
        requires
            old(self).wf(),
        ensures
            final(self).wf(),
            final(self).obtained@ == old(self).obtained@.push(id),
            final(self).unavailable@ == old(self).unavailable@,
            final(self).pending@ == old(self).pending@ + fresh_spec(refs@, old(self).seen@),
            final(self).seen@ == old(self).seen@ + refs@.to_set(),
    {
        self.obtained.push(id);
        let ghost base = self.seen@;
        self.queue_fresh(refs, Ghost(base));
    }

    /// Event `id` could not be had: the origin was unreachable, timed out, or sent an event
    /// that failed validation.
    pub fn record_unavailable(&mut self, id: u64)
        requires
            old(self).wf(),
        ensures
            final(self).wf(),
            final(self).unavailable@ == old(self).unavailable@.push(id),
            final(self).obtained@ == old(self).obtained@,
            final(self).pending@ == old(self).pending@,
            final(self).seen@ == old(self).seen@,
    {
        self.unavailable.push(id);
    }

    /// Whether every request has been answered.
    pub fn is_done(&self) -> (r: bool)
        ensures
            r == (self.pending@.len() == 0),
    {
        self.pending.len() == 0
    }
}

/// Where an event goes once fetching is over: into the timeline only when every auth event
/// it cites is available; one that could not be had, from an unreachable or lying origin,
/// makes it an outlier.
pub fn placement_after_fetch(auth_events: &Vec<u64>, available: &HashSet<u64>) -> (r: Placement)
    ensures
        r is Timeline <==> (forall|i: int|
            0 <= i < auth_events@.len() ==> available@.contains(#[trigger] auth_events@[i])),
{
    let mut i: usize = 0;
    while i < auth_events.len()
        invariant
            0 <= i <= auth_events@.len(),
            forall|j: int| 0 <= j < i ==> available@.contains(#[trigger] auth_events@[j]),
        decreases auth_events@.len() - i,
    {
        if !available.contains(&auth_events[i]) {
            return Placement::Outlier;
        }
        i = i + 1;
    }
    Placement::Timeline
}

/// The outcome of the whole inbound pipeline, from the outcome of each stage.
pub open spec fn inbound_spec(
    validation: Result<(), RejectReason>,
    dependencies: Placement,
    state_resolved: bool,
    authorization: Result<(), RejectReason>,
) -> Result<Placement, RejectReason> {
    match validation {
        Err(e) => Err(e),
        Ok(()) => if dependencies is Outlier || !state_resolved {
            Ok(Placement::Outlier)
        } else {
            match authorization {
                Err(e) => Err(e),
                Ok(()) => Ok(Placement::Timeline),
            }
        },
    }
}

/// Combines the stages for one inbound event: a validation failure rejects it; missing
/// dependencies or an indeterminate state demote it to an outlier without running the
/// rules; otherwise the authorization verdict decides.
pub fn inbound_outcome(
    validation: Result<(), RejectReason>,
    dependencies: Placement,
    state_resolved: bool,
    authorization: Result<(), RejectReason>,
) -> (r: Result<Placement, RejectReason>)
    ensures
        r == inbound_spec(validation, dependencies, state_resolved, authorization),
{
    match validation {
        Err(e) => Err(e),
        Ok(()) => match dependencies {
            Placement::Outlier => Ok(Placement::Outlier),
            Placement::Timeline => {
                if !state_resolved {
                    Ok(Placement::Outlier)
                } else {
                    match authorization {
                        Err(e) => Err(e),
                        Ok(()) => Ok(Placement::Timeline),
                    }
                }
            },
        },
    }
}

} // verus!
