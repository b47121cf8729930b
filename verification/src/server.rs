//! Listener-side policies: the bounded-concurrency admission gate and
//! the exponential accept-retry backoff.
//!
//! The listener loop itself races a live socket accept against the
//! shutdown signal outside this library; the decisions it takes — may
//! one more connection run, how long to back off, when to give up — are
//! made here.

use vstd::arithmetic::power2::{lemma2_to64, lemma_pow2_strictly_increases, pow2};
use vstd::prelude::*;

verus! {

/// The counting admission gate: at most `capacity` connection tasks hold
/// a slot at any instant.
///
/// A slot is held while a connection runs and returned afterwards;
/// with no slot free, new accepts wait.
pub struct AdmissionGate {
    capacity: usize,
    in_use: usize,
}

impl AdmissionGate {
    /// The admission bound never breaks: taken slots never exceed the
    /// capacity.
    pub closed spec fn wf(&self) -> bool {
        self.in_use <= self.capacity
    }

    /// Upper bound on simultaneous connections.
    pub closed spec fn capacity_spec(&self) -> usize {
        self.capacity
    }

    /// How many slots are taken right now.
    pub closed spec fn in_use_spec(&self) -> usize {
        self.in_use
    }

    /// A gate with every slot free.
    pub fn new(capacity: usize) -> (r: AdmissionGate)
        ensures
            r.wf(),
            r.capacity_spec() == capacity,
            r.in_use_spec() == 0,
    {
        AdmissionGate { capacity, in_use: 0 }
    }

    /// Upper bound on simultaneous connections.
    pub fn capacity(&self) -> (r: usize)
        ensures
            r == self.capacity_spec(),
    {
        self.capacity
    }

    /// How many slots are taken right now.
    pub fn in_use(&self) -> (r: usize)
        ensures
            r == self.in_use_spec(),
    {
        self.in_use
    }

    /// Takes one slot if any is free; otherwise nothing changes and
    /// the caller must wait.
    pub fn try_acquire(&mut self) -> (r: bool)
        requires
            old(self).wf(),
        ensures
            final(self).wf(),
            final(self).capacity_spec() == old(self).capacity_spec(),
            r == (old(self).in_use_spec() < old(self).capacity_spec()),
            r ==> final(self).in_use_spec() == old(self).in_use_spec() + 1,
            !r ==> final(self).in_use_spec() == old(self).in_use_spec(),
    {
        if self.in_use < self.capacity {
            self.in_use = self.in_use + 1;
            true
        } else {
            false
        }
    }

    /// Gives one slot back when a connection task finishes.
    pub fn release(&mut self)
        requires
            old(self).wf(),
            old(self).in_use_spec() > 0,
        ensures
            final(self).wf(),
            final(self).capacity_spec() == old(self).capacity_spec(),
            final(self).in_use_spec() == old(self).in_use_spec() - 1,
    {
        self.in_use = self.in_use - 1;
    }
}

/// How many slots are held after the first `k` events of a run, where
/// `true` is an arrival (admitted only while a slot is free) and `false`
/// a departure.
pub open spec fn gate_count_after(capacity: usize, events: Seq<bool>, k: int) -> int
    decreases k,
{
    if k <= 0 {
        0
    } else {
        let prev = gate_count_after(capacity, events, k - 1);
        if events[k - 1] {
            if prev < capacity {
                prev + 1
            } else {
                prev
            }
        } else {
            if prev > 0 {
                prev - 1
            } else {
                prev
            }
        }
    }
}

/// Admission bound: after any prefix of arrivals and departures, the
/// number of tasks holding a slot lies between zero and the capacity —
/// even a burst of arrivals beyond the capacity never pushes it over.
pub proof fn lemma_admission_bound(capacity: usize, events: Seq<bool>, k: int)
    requires
        0 <= k <= events.len(),
    ensures
        0 <= gate_count_after(capacity, events, k) <= capacity,
    decreases k,
{
    if k > 0 {
        lemma_admission_bound(capacity, events, k - 1);
    }
}

/// Replays arrivals (`true`) and departures (`false`) through an
/// admission counter, exactly as the listener and the connection tasks
/// drive it.
///
/// Returns the count of slots in use after each event; the counts follow
/// [`gate_count_after`], so none ever exceeds the capacity.
pub fn run_admission(capacity: usize, events: &Vec<bool>) -> (counts: Vec<usize>)
    ensures
        counts@.len() == events@.len(),
        forall|i: int|
            0 <= i < counts@.len() ==> #[trigger] counts@[i] == gate_count_after(
                capacity,
                events@,
                i + 1,
            ),
        forall|i: int| 0 <= i < counts@.len() ==> #[trigger] counts@[i] <= capacity,
{
    let mut gate = AdmissionGate::new(capacity);
    let mut counts: Vec<usize> = Vec::new();
    let n = events.len();
    let mut i: usize = 0;
    while i < n
        invariant
            i <= n,
            n == events@.len(),
            counts@.len() == i,
            gate.wf(),
            gate.capacity_spec() == capacity,
            gate.in_use_spec() == gate_count_after(capacity, events@, i as int),
            forall|j: int|
                0 <= j < counts@.len() ==> #[trigger] counts@[j] == gate_count_after(
                    capacity,
                    events@,
                    j + 1,
                ),
            forall|j: int| 0 <= j < counts@.len() ==> #[trigger] counts@[j] <= capacity,
        decreases n - i,
    {
        if events[i] {
            // An arrival at a full gate is turned away without a slot.
            let _admitted = gate.try_acquire();
        } else {
            if gate.in_use() > 0 {
                gate.release();
            }
        }
        counts.push(gate.in_use());
        i = i + 1;
    }
    counts
}

/// What the listener does after one failed accept: sleep and retry, or
/// give up and propagate the error.
#[derive(Clone, Copy, Debug, PartialEq, Eq, Structural)]
pub enum AcceptDecision {
    /// Sleep this many seconds, then try again.
    Retry(u64),
    /// The backoff is exhausted; the failure is fatal to the listener.
    GiveUp,
}

/// The retry state of one accept attempt: a backoff delay starting at
/// one second and doubling after every failure, fatal once it would
/// exceed 64 seconds.
///
/// The state is local to a single accept; a successful accept starts the
/// next one fresh.
pub struct AcceptRetry {
    backoff: u64,
}

impl AcceptRetry {
    /// The backoff is a power of two between 1 and 128 seconds.
    pub closed spec fn wf(&self) -> bool {
        exists|e: nat| e <= 7 && self.backoff == pow2(e)
    }

    /// The current backoff delay in seconds.
    pub closed spec fn backoff_spec(&self) -> u64 {
        self.backoff
    }

    /// A fresh accept attempt: the first retry would sleep one second.
    pub fn new() -> (r: AcceptRetry)
        ensures
            r.wf(),
            r.backoff_spec() == 1,
    {
        let r = AcceptRetry { backoff: 1 };
        proof {
            lemma2_to64();
            assert(r.backoff == pow2(0));
        }
        r
    }

    /// Decides what to do after one failed accept: give up once the
    /// backoff has grown past 64 seconds, otherwise sleep for the
    /// current backoff and double it.
    pub fn on_failure(&mut self) -> (r: AcceptDecision)
        requires
            old(self).wf(),
        ensures
            final(self).wf(),
            old(self).backoff_spec() > 64 ==> (r == AcceptDecision::GiveUp
                && final(self).backoff_spec() == old(self).backoff_spec()),
            old(self).backoff_spec() <= 64 ==> (r == AcceptDecision::Retry(
                old(self).backoff_spec(),
            ) && final(self).backoff_spec() == 2 * old(self).backoff_spec()),
    {
        if self.backoff > 64 {
            AcceptDecision::GiveUp
        } else {
            let sleep_secs = self.backoff;
            proof {
                let e = choose|e: nat| e <= 7 && old(self).backoff == pow2(e);
                lemma2_to64();
                if e >= 7 {
                    assert(old(self).backoff == pow2(7));
                }
                assert(e < 7);
                assert(2 * old(self).backoff == pow2(e + 1)) by {
                    assert(pow2(e + 1) == 2 * pow2(e)) by {
                        vstd::arithmetic::power2::lemma_pow2_unfold(e + 1);
                    }
                }
            }
            self.backoff = 2 * self.backoff;
            AcceptDecision::Retry(sleep_secs)
        }
    }
}

/// Backoff termination: when every accept attempt fails, the listener
/// retries exactly seven times — sleeping 1, 2, 4, 8, 16, 32 and 64
/// seconds — and then gives up; it never retries forever.
///
/// Returns the number of retries before giving up.
pub fn accept_failures_until_give_up() -> (retries: u64)
    ensures
        retries == 7,
{
    let mut retry = AcceptRetry::new();
    let mut count: u64 = 0;
    proof {
        lemma2_to64();
    }
    loop
        invariant
            retry.wf(),
            count <= 7,
            retry.backoff_spec() == pow2(count as nat),
        decreases 128 - retry.backoff_spec(),
    {
        proof {
            if count < 7 {
                lemma_pow2_strictly_increases(count as nat, 7);
            }
            lemma2_to64();
        }
        match retry.on_failure() {
            AcceptDecision::Retry(_) => {
                proof {
                    assert(retry.backoff_spec() == 2 * pow2(count as nat));
                    assert(pow2((count + 1) as nat) == 2 * pow2(count as nat)) by {
                        vstd::arithmetic::power2::lemma_pow2_unfold((count + 1) as nat);
                    }
                    if count + 1 > 7 {
                        assert(pow2(count as nat) == pow2(7));
                        assert(false);
                    }
                }
                count = count + 1;
            },
            AcceptDecision::GiveUp => {
                proof {
                    if count < 7 {
                        assert(pow2(count as nat) < pow2(7));
                        assert(false);
                    }
                }
                return count;
            },
        }
    }
}

} // verus!
