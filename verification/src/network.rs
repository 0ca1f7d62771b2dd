//! Connection-level machinery: framing, admission control.

pub mod cipher;
pub mod client;
pub mod encode;
pub mod framing;
pub mod proxy;

use std::sync::atomic::{AtomicU32, Ordering};

use vstd::prelude::*;

use crate::error::WireError;

verus! {

/// Whether one more player may enter when `count` are online and `max` are
/// allowed.
pub open spec fn admit_allowed(count: u32, max: u32) -> bool {
    count < max
}

/// One admission attempt against a momentary count: the new count on
/// success, the admission error when the cap is reached.
pub fn admit_decision(count: u32, max: u32) -> (r: Result<u32, WireError>)
    ensures
        r is Ok <==> admit_allowed(count, max),
        r matches Ok(n) ==> n == count + 1,
        r is Err ==> r == Err::<u32, WireError>(WireError::Admission),
{
    if count >= max {
        Err(WireError::Admission)
    } else {
        Ok(count + 1)
    }
}

/// The counter and number of successes after `attempts` uncontended
/// admission attempts starting from `count` online players.
pub open spec fn run_admissions(count: u32, max: u32, attempts: nat) -> (u32, nat)
    decreases attempts,
{
    if attempts == 0 {
        (count, 0)
    } else if admit_allowed(count, max) {
        let rest = run_admissions((count + 1) as u32, max, (attempts - 1) as nat);
        (rest.0, rest.1 + 1)
    } else {
        run_admissions(count, max, (attempts - 1) as nat)
    }
}

/// Admission commits exactly as many entries as there is room for: from an
/// empty counter, `m` attempts against cap `n` succeed `min(m, n)` times,
/// and the counter ends at exactly that value.
pub proof fn lemma_admission_min(count: u32, max: u32, attempts: nat)
    requires
        count <= max,
    ensures
        run_admissions(count, max, attempts).1 == if attempts <= (max - count) as nat {
            attempts
        } else {
            (max - count) as nat
        },
        run_admissions(count, max, attempts).0 == count + run_admissions(
            count,
            max,
            attempts,
        ).1,
    decreases attempts,
{
    if attempts > 0 {
        if admit_allowed(count, max) {
            lemma_admission_min((count + 1) as u32, max, (attempts - 1) as nat);
        } else {
            lemma_admission_min(count, max, (attempts - 1) as nat);
        }
    }
}

/// Leaving rebalances admission: after a departure from a full room, one
/// more admission succeeds again.
pub proof fn lemma_admission_rebalance(max: u32)
    requires
        max >= 1,
    ensures
        !admit_allowed(max, max),
        admit_allowed((max - 1) as u32, max),
{
}

/// The process-wide player counter with its fixed cap. Shared across
/// connections behind a reference-counted pointer.
pub struct PlayerCount {
    count: AtomicU32,
    max: u32,
}

impl PlayerCount {
    /// The fixed cap.
    pub closed spec fn spec_max(&self) -> u32 {
        self.max
    }

    /// A counter at zero with the given cap.
    pub fn new(max: u32) -> (r: PlayerCount)
        ensures
            r.spec_max() == max,
    {
        PlayerCount { count: AtomicU32::new(0), max }
    }

    /// Try to admit one player: a compare-exchange loop that fails with
    /// `Admission` once the cap is reached. The count another task sees
    /// between the load and the exchange is out of this function's hands,
    /// so on a contended counter a bounded number of rounds is retried;
    /// with a cap of zero every attempt fails.
    pub fn try_add(&self) -> (r: Result<(), WireError>)
        ensures
            self.spec_max() == 0 ==> r is Err,
            r is Ok ==> self.spec_max() >= 1,
            r is Err ==> r == Err::<(), WireError>(WireError::Admission),
    {
        let mut tries: u32 = 64;
        while tries > 0
            decreases tries,
        {
            let count: u32 = self.count.load(Ordering::SeqCst);
            let next: u32 = match admit_decision(count, self.max) {
                Ok(n) => n,
                Err(e) => {
                    return Err(e);
                },
            };
            match self.count.compare_exchange(count, next, Ordering::SeqCst, Ordering::SeqCst) {
                Ok(prev) => {
                    return Ok(());
                },
                Err(prev) => {},
            }
            tries = tries - 1;
        }
        Err(WireError::Admission)
    }

    /// One player left: decrement the counter.
    pub fn remove_player(&self) {
        self.count.fetch_sub(1, Ordering::SeqCst);
    }

    /// The number of players online right now.
    pub fn get(&self) -> u32 {
        self.count.load(Ordering::Acquire)
    }
}

} // verus!
