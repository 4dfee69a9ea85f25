use std::collections::HashMap;
use vstd::prelude::*;

use crate::sending::SendingEventType;

verus! {

broadcast use vstd::std_specs::hash::group_hash_axioms;

/// Most durable items that one transaction carries.
pub const BATCH_LIMIT: usize = 30;

/// Backoff unit: the wait after the first failure, in milliseconds.
pub const BACKOFF_UNIT_MS: u64 = 30_000;

/// Longest wait between two attempts, in milliseconds (a day).
pub const BACKOFF_CEILING_MS: u64 = 86_400_000;

/// The wait after `failures` consecutive failures: `min(30 s * n^2, 24 h)`.
pub open spec fn backoff_spec(failures: nat) -> int {
    let quadratic = BACKOFF_UNIT_MS * failures * failures;
    if quadratic < BACKOFF_CEILING_MS {
        quadratic
    } else {
        BACKOFF_CEILING_MS as int
    }
}

/// Milliseconds to wait after `failures` consecutive failures before the next attempt.
pub fn backoff_ms(failures: u64) -> (r: u64)
    ensures
        r == backoff_spec(failures as nat),
{
    if failures >= 54 {
        assert(BACKOFF_UNIT_MS * failures * failures >= BACKOFF_UNIT_MS * 54 * 54) by (nonlinear_arith)
            requires
                failures >= 54,
        ;
        BACKOFF_CEILING_MS
    } else {
        assert(BACKOFF_UNIT_MS * failures * failures <= BACKOFF_UNIT_MS * 53 * 53) by (nonlinear_arith)
            requires
                failures <= 53,
        ;
        let quadratic = BACKOFF_UNIT_MS * failures * failures;
        if quadratic < BACKOFF_CEILING_MS {
            quadratic
        } else {
            BACKOFF_CEILING_MS
        }
    }
}

/// Consecutive failures never shorten the wait before the next attempt.
pub proof fn backoff_is_monotonic(n: nat, m: nat)
    requires
        n <= m,
    ensures
        backoff_spec(n) <= backoff_spec(m),
        backoff_spec(m) <= BACKOFF_CEILING_MS,
{
    assert(BACKOFF_UNIT_MS * n * n <= BACKOFF_UNIT_MS * m * m) by (nonlinear_arith)
        requires
            n <= m,
    ;
}

/// Whether the backoff after `failures` failures, the last at `last_failure_ms`, has run out
/// at `now_ms`.
pub open spec fn backoff_elapsed(failures: nat, last_failure_ms: int, now_ms: int) -> bool {
    last_failure_ms <= now_ms && now_ms - last_failure_ms >= backoff_spec(failures)
}

/// The delivery state of one destination.
#[derive(Clone, Copy, Debug, PartialEq, Eq, Structural)]
pub enum TransactionState {
    /// Nothing queued and nothing in flight.
    Idle,
    /// A transaction is in flight; `failures` attempts failed before it.
    Running { failures: u64 },
    /// The last attempt failed; the next waits for the backoff of `failures`.
    Failed { failures: u64, last_failure_ms: u64 },
}

/// What the caller has to do after a step of a destination queue.
#[derive(Clone, Copy, Debug, PartialEq, Eq, Structural)]
pub enum DispatchAction {
    /// Nothing to send now.
    Wait,
    /// Send one transaction carrying the queue's active batch.
    Send,
}

/// The outbound queue of one destination.
///
/// `active` holds the batch of the current (or last failed) transaction; `queued` holds
/// what arrived since, in order of arrival.
pub struct DestinationQueue {
    pub active: Vec<SendingEventType>,
    pub queued: Vec<SendingEventType>,
    pub state: TransactionState,
}

/// How many queued items the next batch takes, given the size of the active batch.
pub open spec fn batch_take(active_len: nat, queued_len: nat) -> nat {
    if active_len >= BATCH_LIMIT {
        0
    } else if queued_len <= BATCH_LIMIT - active_len {
        queued_len
    } else {
        (BATCH_LIMIT - active_len) as nat
    }
}

/// What `enqueue` does: the item joins the queue; it starts a transaction only when none is
/// in flight and no backoff is pending.
pub open spec fn enqueue_spec(
    pre: DestinationQueue,
    post: DestinationQueue,
    item: SendingEventType,
    now_ms: u64,
    r: DispatchAction,
) -> bool {
    &&& post.undelivered() == pre.undelivered().push(item)
    &&& pre.in_flight() ==> r is Wait && post.state == pre.state && post.active@ == pre.active@
    &&& r is Send ==> post.in_flight()
    &&& match pre.state {
        TransactionState::Idle => r is Send && post.state == (TransactionState::Running {
            failures: 0,
        }) && post.active@ == seq![item] && post.queued@.len() == 0,
        TransactionState::Running { .. } => post.queued@ == pre.queued@.push(item),
        TransactionState::Failed { failures, last_failure_ms } => if backoff_elapsed(
            failures as nat,
            last_failure_ms as int,
            now_ms as int,
        ) {
            r is Send && post.state == (TransactionState::Running { failures }) && post.active@
                == pre.active@ + pre.queued@.push(item).take(
                batch_take(pre.active@.len(), pre.queued@.len() + 1) as int,
            )
        } else {
            r is Wait && post.state == pre.state && post.active@ == pre.active@ && post.queued@
                == pre.queued@.push(item)
        },
    }
}

/// What `poll` does: only a failed queue whose backoff has run out starts its retry.
pub open spec fn poll_spec(
    pre: DestinationQueue,
    post: DestinationQueue,
    now_ms: u64,
    r: DispatchAction,
) -> bool {
    &&& post.undelivered() == pre.undelivered()
    &&& pre.in_flight() ==> r is Wait
    &&& r is Send ==> post.in_flight()
    &&& match pre.state {
        TransactionState::Failed { failures, last_failure_ms } => if backoff_elapsed(
            failures as nat,
            last_failure_ms as int,
            now_ms as int,
        ) {
            r is Send && post.state == (TransactionState::Running { failures }) && post.active@
                == pre.active@ + pre.queued@.take(
                batch_take(pre.active@.len(), pre.queued@.len()) as int,
            )
        } else {
            r is Wait && post == pre
        },
        _ => r is Wait && post == pre,
    }
}

/// What `transaction_succeeded` does: the delivered batch leaves, and the next starts at
/// once if anything is queued.
pub open spec fn succeeded_spec(pre: DestinationQueue, post: DestinationQueue, r: DispatchAction) -> bool {
    &&& post.undelivered() == pre.queued@
    &&& if pre.queued@.len() == 0 {
        r is Wait && post.state is Idle
    } else {
        r is Send && post.state == (TransactionState::Running { failures: 0 }) && post.active@
            == pre.queued@.take(batch_take(0, pre.queued@.len()) as int) && post.queued@
            == pre.queued@.skip(batch_take(0, pre.queued@.len()) as int)
    }
}

/// What `transaction_failed` does: the batch stays for the retry and the count of
/// consecutive failures grows by one.
pub open spec fn failed_spec(pre: DestinationQueue, post: DestinationQueue, now_ms: u64) -> bool {
    &&& post.active@ == pre.active@
    &&& post.queued@ == pre.queued@
    &&& !post.in_flight()
    &&& match pre.state {
        TransactionState::Running { failures } => post.state == (TransactionState::Failed {
            failures: if failures < u64::MAX {
                (failures + 1) as u64
            } else {
                failures
            },
            last_failure_ms: now_ms,
        }),
        _ => false,
    }
}

impl DestinationQueue {
    /// The queue invariant: idle means empty, a batch exists exactly while one is in flight
    /// or awaits its retry, and no batch exceeds the limit.
    pub open spec fn wf(&self) -> bool {
        &&& self.active@.len() <= BATCH_LIMIT
        &&& match self.state {
            TransactionState::Idle => self.active@.len() == 0 && self.queued@.len() == 0,
            TransactionState::Running { .. } => self.active@.len() > 0,
            TransactionState::Failed { .. } => self.active@.len() > 0,
        }
    }

    /// Whether a transaction to this destination is in flight.
    pub open spec fn in_flight(&self) -> bool {
        self.state is Running
    }

    /// Every item that still awaits delivery, oldest first.
    pub open spec fn undelivered(&self) -> Seq<SendingEventType> {
        self.active@ + self.queued@
    }

    /// A queue with nothing in it.
    pub fn new() -> (r: Self)
        ensures
            r.wf(),
            r.state is Idle,
            r.undelivered().len() == 0,
    {
        DestinationQueue { active: Vec::new(), queued: Vec::new(), state: TransactionState::Idle }
    }

    /// Moves queued items into the active batch, oldest first, up to the batch limit.
    fn fill_batch(&mut self)
        requires
            old(self).active@.len() <= BATCH_LIMIT,
        ensures
            final(self).active@ == old(self).active@ + old(self).queued@.take(
                batch_take(old(self).active@.len(), old(self).queued@.len()) as int,
            ),
            final(self).queued@ == old(self).queued@.skip(
                batch_take(old(self).active@.len(), old(self).queued@.len()) as int,
            ),
            final(self).state == old(self).state,
            final(self).active@.len() <= BATCH_LIMIT,
    {
        let ghost k = batch_take(old(self).active@.len(), old(self).queued@.len()) as int;
        let mut rest: Vec<SendingEventType> = Vec::new();
        std::mem::swap(&mut rest, &mut self.queued);
        let ghost q0 = rest@;
        let ghost a0 = self.active@;
        let mut i: usize = 0;
        while rest.len() > 0 && self.active.len() < BATCH_LIMIT
            invariant
                0 <= i <= k,
                k <= q0.len(),
                k == batch_take(a0.len(), q0.len()),
                self.active@ == a0 + q0.take(i as int),
                rest@ == q0.skip(i as int),
                self.queued@.len() == 0,
                self.state == old(self).state,
                a0.len() <= BATCH_LIMIT,
                self.active@.len() == a0.len() + i,
            decreases rest@.len(),
        {
            let item = rest.remove(0);
            self.active.push(item);
            proof {
                assert(q0.take(i + 1) == q0.take(i as int).push(q0[i as int]));
                assert(q0.skip(i + 1) == q0.skip(i as int).skip(1));
            }
            i = i + 1;
        }
        self.queued = rest;
    }

    /// Starts a transaction with the active batch filled from the queue.
    fn start_transaction(&mut self, failures: u64)
        requires
            old(self).active@.len() <= BATCH_LIMIT,
            old(self).active@.len() + old(self).queued@.len() > 0,
        ensures
            final(self).active@ == old(self).active@ + old(self).queued@.take(
                batch_take(old(self).active@.len(), old(self).queued@.len()) as int,
            ),
            final(self).queued@ == old(self).queued@.skip(
                batch_take(old(self).active@.len(), old(self).queued@.len()) as int,
            ),
            final(self).state == (TransactionState::Running { failures }),
            final(self).wf(),
    {
        self.fill_batch();
        self.state = TransactionState::Running { failures };
    }

    /// Queues `item`. Starts a transaction when none is in flight and no backoff is pending;
    /// while one is in flight the item waits for the next batch.
    pub fn enqueue(&mut self, item: SendingEventType, now_ms: u64) -> (r: DispatchAction)
        requires
            old(self).wf(),
        ensures
            final(self).wf(),
            enqueue_spec(*old(self), *final(self), item, now_ms, r),
    {
        self.queued.push(item);
        let ghost a = self.active@;
        let ghost q = self.queued@;
        let r = match self.state {
            TransactionState::Idle => {
                self.start_transaction(0);
                assert(q.take(1) == q);
                assert(self.active@ =~= seq![item]);
                DispatchAction::Send
            },
            TransactionState::Running { .. } => DispatchAction::Wait,
            TransactionState::Failed { failures, last_failure_ms } => {
                if backoff_ready(failures, last_failure_ms, now_ms) {
                    self.start_transaction(failures);
                    DispatchAction::Send
                } else {
                    DispatchAction::Wait
                }
            },
        };
        proof {
            lemma_take_skip(a, q, batch_take(a.len(), q.len()) as int);
            assert(q == old(self).queued@.push(item));
            assert(a == old(self).active@);
            assert(self.undelivered() == old(self).undelivered().push(item));
        }
        r
    }

    /// A timer tick: retries the batch once the backoff after the last failure has run out.
    pub fn poll(&mut self, now_ms: u64) -> (r: DispatchAction)
        requires
            old(self).wf(),
        ensures
            final(self).wf(),
            poll_spec(*old(self), *final(self), now_ms, r),
    {
        let ghost a = self.active@;
        let ghost q = self.queued@;
        let r = match self.state {
            TransactionState::Failed { failures, last_failure_ms } => {
                if backoff_ready(failures, last_failure_ms, now_ms) {
                    self.start_transaction(failures);
                    DispatchAction::Send
                } else {
                    DispatchAction::Wait
                }
            },
            _ => DispatchAction::Wait,
        };
        proof {
            lemma_take_skip(a, q, batch_take(a.len(), q.len()) as int);
        }
        r
    }

    /// The transaction in flight was delivered: its batch leaves the queue, and the next
    /// batch, if anything is queued, starts at once.
    pub fn transaction_succeeded(&mut self) -> (r: DispatchAction)
        requires
            old(self).wf(),
            old(self).in_flight(),
        ensures
            final(self).wf(),
            succeeded_spec(*old(self), *final(self), r),
    {
        self.active.clear();
        let ghost q = self.queued@;
        if self.queued.len() == 0 {
            self.state = TransactionState::Idle;
            DispatchAction::Wait
        } else {
            self.start_transaction(0);
            proof {
                lemma_take_skip(seq![], q, batch_take(0, q.len()) as int);
                assert(seq![] + q.take(batch_take(0, q.len()) as int) == q.take(
                    batch_take(0, q.len()) as int,
                ));
            }
            DispatchAction::Send
        }
    }

    /// The transaction in flight failed at `now_ms`: its batch stays for the retry, which
    /// waits for the backoff of one more failure.
    pub fn transaction_failed(&mut self, now_ms: u64)
        requires
            old(self).wf(),
            old(self).in_flight(),
        ensures
            final(self).wf(),
            failed_spec(*old(self), *final(self), now_ms),
    {
        if let TransactionState::Running { failures } = self.state {
            let failures = if failures < u64::MAX {
                failures + 1
            } else {
                failures
            };
            self.state = TransactionState::Failed { failures, last_failure_ms: now_ms };
        }
    }

    /// Drops everything queued for this destination, as when its registration is gone.
    pub fn clear(&mut self)
        ensures
            final(self).wf(),
            final(self).state is Idle,
            final(self).undelivered().len() == 0,
    {
        self.active.clear();
        self.queued.clear();
        self.state = TransactionState::Idle;
    }
}

/// Whether the backoff has run out; computed without overflow.
fn backoff_ready(failures: u64, last_failure_ms: u64, now_ms: u64) -> (r: bool)
    ensures
        r == backoff_elapsed(failures as nat, last_failure_ms as int, now_ms as int),
{
    last_failure_ms <= now_ms && now_ms - last_failure_ms >= backoff_ms(failures)
}

proof fn lemma_take_skip(a: Seq<SendingEventType>, q: Seq<SendingEventType>, k: int)
    requires
        0 <= k <= q.len(),
    ensures
        (a + q.take(k)) + q.skip(k) == a + q,
{
    assert((a + q.take(k)) + q.skip(k) =~= a + q);
}


/// The shared bound on outbound requests in flight, over all destinations together.
pub struct RequestPermits {
    pub in_use: u64,
    pub limit: u64,
}

impl RequestPermits {
    pub open spec fn wf(&self) -> bool {
        self.in_use <= self.limit
    }

    /// Permits for at most `limit` requests at once.
    pub fn new(limit: u64) -> (r: Self)
        ensures
            r.wf(),
            r.in_use == 0,
            r.limit == limit,
    {
        RequestPermits { in_use: 0, limit }
    }

    /// Takes a permit if one is free.
    pub fn try_acquire(&mut self) -> (r: bool)
        requires
            old(self).wf(),
        ensures
            final(self).wf(),
            final(self).limit == old(self).limit,
            r == (old(self).in_use < old(self).limit),
            final(self).in_use == if r {
                old(self).in_use + 1
            } else {
                old(self).in_use as int
            },
    {
        if self.in_use < self.limit {
            self.in_use = self.in_use + 1;
            true
        } else {
            false
        }
    }

    /// Gives back a permit taken before.
    pub fn release(&mut self)
        requires
            old(self).wf(),
            old(self).in_use > 0,
        ensures
            final(self).wf(),
            final(self).limit == old(self).limit,
            final(self).in_use == old(self).in_use - 1,
    {
        self.in_use = self.in_use - 1;
    }
}

/// The outbound queues of all destinations, by interned destination id. A destination has
/// an entry exactly while something is queued for it or in flight to it; each entry is
/// driven only through its own queue, so no destination ever has two transactions in flight.
pub struct Dispatcher {
    pub queues: HashMap<u64, DestinationQueue>,
}

impl Dispatcher {
    pub open spec fn wf(&self) -> bool {
        forall|d: u64| #[trigger]
            self.queues@.contains_key(d) ==> self.queues@[d].wf() && !(self.queues@[d].state is Idle)
    }

    /// A dispatcher with nothing queued.
    pub fn new() -> (r: Self)
        ensures
            r.wf(),
            r.queues@ == Map::<u64, DestinationQueue>::empty(),
    {
        Dispatcher { queues: HashMap::new() }
    }

    /// Queues `item` for `destination`, creating its queue on first use.
    pub fn enqueue_outbound(&mut self, destination: u64, item: SendingEventType, now_ms: u64) -> (r:
        DispatchAction)
        requires
            old(self).wf(),
        ensures
            final(self).wf(),
            final(self).queues@.remove(destination) == old(self).queues@.remove(destination),
            final(self).queues@.contains_key(destination),
            old(self).queues@.contains_key(destination) ==> enqueue_spec(
                old(self).queues@[destination],
                final(self).queues@[destination],
                item,
                now_ms,
                r,
            ),
            !old(self).queues@.contains_key(destination) ==> r is Send
                && final(self).queues@[destination].state == (TransactionState::Running {
                failures: 0,
            }) && final(self).queues@[destination].active@ == seq![item]
                && final(self).queues@[destination].queued@.len() == 0,
    {
        let mut q = match self.queues.remove(&destination) {
            Some(q) => q,
            None => DestinationQueue::new(),
        };
        let r = q.enqueue(item, now_ms);
        self.queues.insert(destination, q);
        proof {
            assert(self.queues@.remove(destination) =~= old(self).queues@.remove(destination));
            assert forall|d: u64| #[trigger] self.queues@.contains_key(d) implies self.queues@[d].wf()
                && !(self.queues@[d].state is Idle) by {
                if d != destination {
                    assert(old(self).queues@.contains_key(d));
                }
            }
        }
        r
    }

    /// A timer tick for `destination`: retries its batch once its backoff has run out.
    pub fn poll(&mut self, destination: u64, now_ms: u64) -> (r: DispatchAction)
        requires
            old(self).wf(),
        ensures
            final(self).wf(),
            final(self).queues@.remove(destination) == old(self).queues@.remove(destination),
            final(self).queues@.contains_key(destination) == old(self).queues@.contains_key(
                destination,
            ),
            old(self).queues@.contains_key(destination) ==> poll_spec(
                old(self).queues@[destination],
                final(self).queues@[destination],
                now_ms,
                r,
            ),
            !old(self).queues@.contains_key(destination) ==> r is Wait,
    {
        match self.queues.remove(&destination) {
            None => {
                proof {
                    assert(self.queues@ =~= old(self).queues@);
                }
                DispatchAction::Wait
            },
            Some(q) => {
                let mut q = q;
                let r = q.poll(now_ms);
                self.queues.insert(destination, q);
                proof {
                    assert(self.queues@.remove(destination) =~= old(self).queues@.remove(
                        destination,
                    ));
                    assert forall|d: u64| #[trigger] self.queues@.contains_key(d) implies self.queues@[
                        d].wf() && !(self.queues@[d].state is Idle) by {
                        if d != destination {
                            assert(old(self).queues@.contains_key(d));
                        }
                    }
                }
                r
            },
        }
    }

    /// The transaction in flight to `destination` was delivered. A queue left empty is
    /// dropped; otherwise its next batch starts.
    pub fn transaction_succeeded(&mut self, destination: u64) -> (r: DispatchAction)
        requires
            old(self).wf(),
            old(self).queues@.contains_key(destination),
            old(self).queues@[destination].in_flight(),
        ensures
            final(self).wf(),
            final(self).queues@.remove(destination) == old(self).queues@.remove(destination),
            r is Wait <==> !final(self).queues@.contains_key(destination),
            r is Wait <==> old(self).queues@[destination].queued@.len() == 0,
            r is Send ==> succeeded_spec(
                old(self).queues@[destination],
                final(self).queues@[destination],
                r,
            ),
    {
        let mut q = self.queues.remove(&destination).unwrap();
        let r = q.transaction_succeeded();
        match r {
            DispatchAction::Send => {
                self.queues.insert(destination, q);
            },
            DispatchAction::Wait => {},
        }
        proof {
            assert(self.queues@.remove(destination) =~= old(self).queues@.remove(destination));
            assert forall|d: u64| #[trigger] self.queues@.contains_key(d) implies self.queues@[
                d].wf() && !(self.queues@[d].state is Idle) by {
                if d != destination {
                    assert(old(self).queues@.contains_key(d));
                }
            }
        }
        r
    }

    /// The transaction in flight to `destination` failed at `now_ms`.
    pub fn transaction_failed(&mut self, destination: u64, now_ms: u64)
        requires
            old(self).wf(),
            old(self).queues@.contains_key(destination),
            old(self).queues@[destination].in_flight(),
        ensures
            final(self).wf(),
            final(self).queues@.remove(destination) == old(self).queues@.remove(destination),
            final(self).queues@.contains_key(destination),
            failed_spec(old(self).queues@[destination], final(self).queues@[destination], now_ms),
    {
        let mut q = self.queues.remove(&destination).unwrap();
        q.transaction_failed(now_ms);
        self.queues.insert(destination, q);
        proof {
            assert(self.queues@.remove(destination) =~= old(self).queues@.remove(destination));
            assert forall|d: u64| #[trigger] self.queues@.contains_key(d) implies self.queues@[
                d].wf() && !(self.queues@[d].state is Idle) by {
                if d != destination {
                    assert(old(self).queues@.contains_key(d));
                }
            }
        }
    }

    /// Drops everything queued for `destination`, as when its registration is gone.
    pub fn cleanup_events(&mut self, destination: u64)
        requires
            old(self).wf(),
        ensures
            final(self).wf(),
            final(self).queues@ == old(self).queues@.remove(destination),
    {
        self.queues.remove(&destination);
    }
}

} // verus!
