//! Process-global Box2D activity accounting.
//!
//! One packed word counts Rust-owned worlds (bits 0..31), worldless native calls (bits 31..62)
//! and an exclusive replay flag (bit 62). Shared activity and replay exclude each other: shared
//! activity cannot begin while replay is held, and replay is granted only when nothing else is.

use std::sync::atomic::AtomicU64;
use std::sync::atomic::Ordering;

use vstd::prelude::*;

use crate::error::{FoundationActivity, FoundationActivityError, FoundationDiagnostics};

verus! {

/// Mask of the ordinary-world counter.
pub const ORDINARY_MASK: u64 = 0x7fff_ffff;
/// Increment of the ordinary-world counter.
pub const ORDINARY_ONE: u64 = 1;
/// Position of the transient-call counter.
pub const TRANSIENT_SHIFT: u64 = 31;
/// Increment of the transient-call counter.
pub const TRANSIENT_ONE: u64 = 0x8000_0000;
/// Mask of the transient-call counter.
pub const TRANSIENT_MASK: u64 = 0x3fff_ffff_8000_0000;
/// The exclusive replay flag.
pub const REPLAY_BIT: u64 = 0x4000_0000_0000_0000;

/// The number of ordinary worlds a packed word records.
pub open spec fn ordinary_count(p: u64) -> u64 {
    p & ORDINARY_MASK
}

/// The number of transient calls a packed word records.
pub open spec fn transient_count(p: u64) -> u64 {
    (p & TRANSIENT_MASK) >> TRANSIENT_SHIFT
}

/// Whether a packed word records exclusive replay.
pub open spec fn replay_held(p: u64) -> bool {
    p & REPLAY_BIT != 0
}

/// The two kinds of shared activity.
#[derive(Clone, Copy, Debug, PartialEq, Eq, Structural)]
pub enum SharedActivity {
    /// A Rust-owned world.
    Ordinary,
    /// A worldless native call or persistent native owner.
    Transient,
}

/// The counter increment of `activity`.
pub open spec fn increment_of(activity: SharedActivity) -> u64 {
    match activity {
        SharedActivity::Ordinary => ORDINARY_ONE,
        SharedActivity::Transient => TRANSIENT_ONE,
    }
}

/// The counter `activity` occupies in packed word `p`.
pub open spec fn count_of(p: u64, activity: SharedActivity) -> u64 {
    match activity {
        SharedActivity::Ordinary => ordinary_count(p),
        SharedActivity::Transient => transient_count(p),
    }
}

/// The packed word after one more `activity` begins in `current`, or `None` when replay is held
/// or the counter is full.
pub open spec fn shared_step_spec(current: u64, activity: SharedActivity) -> Option<u64> {
    if replay_held(current) || count_of(current, activity) == ORDINARY_MASK {
        None
    } else {
        Some((current + increment_of(activity)) as u64)
    }
}

/// The activity a packed word records.
pub fn unpack(packed: u64) -> (a: FoundationActivity)
    ensures
        a.ordinary_worlds == ordinary_count(packed),
        a.transient_calls == transient_count(packed),
        a.replay_active == replay_held(packed),
        a == activity_of(packed),
{
    assert(packed & ORDINARY_MASK <= 0x7fff_ffff) by (bit_vector);
    assert((packed & TRANSIENT_MASK) >> TRANSIENT_SHIFT <= 0x7fff_ffff) by (bit_vector);
    FoundationActivity {
        ordinary_worlds: (packed & ORDINARY_MASK) as u32,
        transient_calls: ((packed & TRANSIENT_MASK) >> TRANSIENT_SHIFT) as u32,
        replay_active: packed & REPLAY_BIT != 0,
    }
}

/// The packed word after one more `activity` begins in `current`; `None` when replay is held or
/// the counter cannot represent another activity.
pub fn shared_step(current: u64, activity: SharedActivity) -> (r: Option<u64>)
    ensures
        r == shared_step_spec(current, activity),
        r matches Some(next) ==> {
            &&& count_of(next, activity) == count_of(current, activity) + 1
            &&& ordinary_count(next) == ordinary_count(current) + if activity == SharedActivity::Ordinary { 1int } else { 0 }
            &&& transient_count(next) == transient_count(current) + if activity == SharedActivity::Transient { 1int } else { 0 }
            &&& !replay_held(next)
        },
{
    if current & REPLAY_BIT != 0 {
        return None;
    }
    match activity {
        SharedActivity::Ordinary => {
            if current & ORDINARY_MASK == ORDINARY_MASK {
                return None;
            }
            assert(current & 0x7fff_ffffu64 != 0x7fff_ffffu64 ==> current + 1 <= u64::MAX) by (bit_vector);
            proof {
                lemma_ordinary_increment(current);
            }
            Some(current + ORDINARY_ONE)
        },
        SharedActivity::Transient => {
            if (current & TRANSIENT_MASK) >> TRANSIENT_SHIFT == ORDINARY_MASK {
                return None;
            }
            proof {
                lemma_transient_increment(current);
            }
            Some(current + TRANSIENT_ONE)
        },
    }
}

proof fn lemma_ordinary_increment(p: u64)
    requires
        p & REPLAY_BIT == 0,
        p & ORDINARY_MASK != ORDINARY_MASK,
    ensures
        p + 1 <= u64::MAX,
        (((p + 1) as u64) & ORDINARY_MASK) == (p & ORDINARY_MASK) + 1,
        (((p + 1) as u64) & TRANSIENT_MASK) >> TRANSIENT_SHIFT == (p & TRANSIENT_MASK) >> TRANSIENT_SHIFT,
        ((p + 1) as u64) & REPLAY_BIT == 0,
{
    assert(p & 0x4000_0000_0000_0000u64 == 0 && p & 0x7fff_ffffu64 != 0x7fff_ffffu64 ==> {
        &&& p + 1 <= u64::MAX
        &&& (((p + 1) as u64) & 0x7fff_ffffu64) == (p & 0x7fff_ffffu64) + 1
        &&& (((p + 1) as u64) & 0x3fff_ffff_8000_0000u64) >> 31u64 == (p & 0x3fff_ffff_8000_0000u64) >> 31u64
        &&& ((p + 1) as u64) & 0x4000_0000_0000_0000u64 == 0
    }) by (bit_vector);
}

proof fn lemma_transient_increment(p: u64)
    requires
        p & REPLAY_BIT == 0,
        (p & TRANSIENT_MASK) >> TRANSIENT_SHIFT != ORDINARY_MASK,
    ensures
        p + 0x8000_0000 <= u64::MAX,
        (((p + 0x8000_0000) as u64) & ORDINARY_MASK) == (p & ORDINARY_MASK),
        (((p + 0x8000_0000) as u64) & TRANSIENT_MASK) >> TRANSIENT_SHIFT == ((p & TRANSIENT_MASK) >> TRANSIENT_SHIFT) + 1,
        ((p + 0x8000_0000) as u64) & REPLAY_BIT == 0,
{
    assert(p & 0x4000_0000_0000_0000u64 == 0 && (p & 0x3fff_ffff_8000_0000u64) >> 31u64 != 0x7fff_ffffu64 ==> {
        &&& p + 0x8000_0000u64 <= u64::MAX
        &&& (((p + 0x8000_0000u64) as u64) & 0x7fff_ffffu64) == (p & 0x7fff_ffffu64)
        &&& (((p + 0x8000_0000u64) as u64) & 0x3fff_ffff_8000_0000u64) >> 31u64 == ((p & 0x3fff_ffff_8000_0000u64) >> 31u64) + 1
        &&& ((p + 0x8000_0000u64) as u64) & 0x4000_0000_0000_0000u64 == 0
    }) by (bit_vector);
}

/// The error that refuses `activity` in packed word `observed`: replay, or a full counter.
pub open spec fn shared_error_spec(observed: u64, activity: SharedActivity) -> FoundationActivityError {
    if replay_held(observed) {
        FoundationActivityError::ReplayActive
    } else {
        match activity {
            SharedActivity::Ordinary => FoundationActivityError::OrdinaryWorldCapacityExhausted,
            SharedActivity::Transient => FoundationActivityError::TransientCallCapacityExhausted,
        }
    }
}

/// The error reported when `activity` cannot begin in observed packed word `observed`.
pub fn shared_error(observed: u64, activity: SharedActivity) -> (e: FoundationActivityError)
    ensures
        e == shared_error_spec(observed, activity),
{
    if observed & REPLAY_BIT != 0 {
        FoundationActivityError::ReplayActive
    } else {
        match activity {
            SharedActivity::Ordinary => FoundationActivityError::OrdinaryWorldCapacityExhausted,
            SharedActivity::Transient => FoundationActivityError::TransientCallCapacityExhausted,
        }
    }
}

/// Calls `AtomicU64::fetch_update` with a closure that applies [`shared_step`].
///
/// Trusted: `Ok(previous)` means the closure returned `Some` for `previous` and the word was
/// replaced; `Err(previous)` means it returned `None` for `previous`. Which value is observed
/// depends on concurrent activity and is not stated.
#[verifier::external_body]
fn fetch_update_shared(packed: &AtomicU64, activity: SharedActivity) -> (r: core::result::Result<u64, u64>)
    ensures
        r matches Ok(previous) ==> shared_step_spec(previous, activity) is Some,
        r matches Err(previous) ==> shared_step_spec(previous, activity) is None,
{
    packed.fetch_update(Ordering::AcqRel, Ordering::Acquire, |current| shared_step(current, activity))
}

/// The activity a packed word records, as the public snapshot type.
pub open spec fn activity_of(p: u64) -> FoundationActivity {
    FoundationActivity {
        ordinary_worlds: ordinary_count(p) as u32,
        transient_calls: transient_count(p) as u32,
        replay_active: replay_held(p),
    }
}

/// Calls `AtomicU64::compare_exchange` to move the word from `current` to `new`.
///
/// Trusted, as the method's documentation states: `Ok(previous)` means the word held `current`
/// (and now holds `new`); `Err(previous)` means it held `previous`, which differs from `current`,
/// and was left unchanged. Which value is observed depends on concurrent activity.
#[verifier::external_body]
fn compare_exchange_word(packed: &AtomicU64, current: u64, new: u64) -> (r: core::result::Result<u64, u64>)
    ensures
        r matches Ok(previous) ==> previous == current,
        r matches Err(previous) ==> previous != current,
{
    packed.compare_exchange(current, new, Ordering::AcqRel, Ordering::Acquire)
}

/// Shared activity and replay exclude each other: no shared activity can begin in a word that
/// records replay, a word that records any shared activity is not the empty word from which
/// replay begins, and beginning a shared activity never yields the empty word or one recording
/// replay.
pub proof fn lemma_shared_and_replay_exclude(p: u64, activity: SharedActivity)
    ensures
        replay_held(p) ==> shared_step_spec(p, activity) is None,
        ordinary_count(p) > 0 || transient_count(p) > 0 ==> p != 0,
        shared_step_spec(p, activity) matches Some(next) ==> next != 0 && !replay_held(next)
            && count_of(next, activity) == count_of(p, activity) + 1,
        !replay_held(0) && ordinary_count(0) == 0 && transient_count(0) == 0,
{
    assert(0u64 & 0x4000_0000_0000_0000u64 == 0 && 0u64 & 0x7fff_ffffu64 == 0
        && (0u64 & 0x3fff_ffff_8000_0000u64) >> 31u64 == 0) by (bit_vector);
    assert((p & 0x7fff_ffffu64 > 0 || (p & 0x3fff_ffff_8000_0000u64) >> 31u64 > 0) ==> p != 0) by (bit_vector);
    if let Some(next) = shared_step_spec(p, activity) {
        match activity {
            SharedActivity::Ordinary => lemma_ordinary_increment(p),
            SharedActivity::Transient => lemma_transient_increment(p),
        }
        assert((next & 0x7fff_ffffu64 > 0 || (next & 0x3fff_ffff_8000_0000u64) >> 31u64 > 0) ==> next != 0) by (bit_vector);
    }
}

/// The process-global activity word.
pub struct FoundationActivityState {
    packed: AtomicU64,
}

/// Keeps one Rust-owned native world counted as shared activity until released.
#[must_use]
pub struct OrdinaryWorldLease {
    activity: &'static FoundationActivityState,
}

/// Keeps one worldless native operation counted as shared activity until released.
#[must_use]
pub struct TransientFoundationLease {
    activity: &'static FoundationActivityState,
}

/// Keeps replay's exclusive access until released.
#[must_use]
pub struct ReplayLease {
    activity: &'static FoundationActivityState,
}

impl FoundationActivityState {
    /// No activity.
    pub fn new() -> (s: Self) {
        FoundationActivityState { packed: AtomicU64::new(0) }
    }

    /// The current activity.
    pub fn snapshot(&self) -> (a: FoundationActivity)
        ensures
            a.ordinary_worlds <= ORDINARY_MASK,
            a.transient_calls <= ORDINARY_MASK,
    {
        let packed = self.packed.load(Ordering::Acquire);
        let a = unpack(packed);
        assert(packed & ORDINARY_MASK <= 0x7fff_ffff) by (bit_vector);
        assert((packed & TRANSIENT_MASK) >> TRANSIENT_SHIFT <= 0x7fff_ffff) by (bit_vector);
        a
    }

    /// Begin one shared activity unless replay is held or its counter is full.
    pub fn acquire_shared(&self, activity: SharedActivity) -> (r: core::result::Result<(), FoundationActivityError>)
        ensures
            r is Ok ==> exists|observed: u64| #[trigger] shared_step_spec(observed, activity) is Some,
            r matches Err(e) ==> exists|observed: u64| #[trigger] shared_step_spec(observed, activity) is None
                && e == shared_error_spec(observed, activity),
    {
        match fetch_update_shared(&self.packed, activity) {
            Ok(_) => Ok(()),
            Err(observed) => Err(shared_error(observed, activity)),
        }
    }

    /// Count one more Rust-owned world.
    pub fn acquire_ordinary(&'static self) -> (r: core::result::Result<OrdinaryWorldLease, FoundationActivityError>)
        ensures
            r is Ok ==> exists|observed: u64| #[trigger] shared_step_spec(observed, SharedActivity::Ordinary) is Some,
            r matches Err(e) ==> exists|observed: u64| #[trigger] shared_step_spec(observed, SharedActivity::Ordinary) is None
                && e == shared_error_spec(observed, SharedActivity::Ordinary),
    {
        self.acquire_shared(SharedActivity::Ordinary)?;
        Ok(OrdinaryWorldLease { activity: self })
    }

    /// Count one more worldless native call.
    pub fn acquire_transient(&'static self) -> (r: core::result::Result<TransientFoundationLease, FoundationActivityError>)
        ensures
            r is Ok ==> exists|observed: u64| #[trigger] shared_step_spec(observed, SharedActivity::Transient) is Some,
            r matches Err(e) ==> exists|observed: u64| #[trigger] shared_step_spec(observed, SharedActivity::Transient) is None
                && e == shared_error_spec(observed, SharedActivity::Transient),
    {
        self.acquire_shared(SharedActivity::Transient)?;
        Ok(TransientFoundationLease { activity: self })
    }

    /// Take exclusive replay access; granted only when no other activity is recorded.
    pub fn acquire_replay(&'static self) -> (r: core::result::Result<ReplayLease, FoundationActivityError>)
        ensures
            r matches Err(e) ==> exists|observed: u64| observed != 0 && e == (FoundationActivityError::ReplayUnavailable {
                activity: activity_of(observed),
            }),
    {
        match compare_exchange_word(&self.packed, 0, REPLAY_BIT) {
            Ok(_) => Ok(ReplayLease { activity: self }),
            Err(packed) => {
                let activity = unpack(packed);
                assert(packed != 0 && activity == activity_of(packed));
                Err(FoundationActivityError::ReplayUnavailable { activity })
            },
        }
    }

    /// End one shared activity counted by `decrement`.
    fn release(&self, decrement: u64) {
        self.packed.fetch_sub(decrement, Ordering::AcqRel);
    }

    /// Overwrite the packed word; lets a test place the counters at their limits.
    pub fn set_packed_for_test(&self, packed: u64) {
        self.packed.store(packed, Ordering::Release);
    }
}

impl OrdinaryWorldLease {
    /// Stop counting the world.
    pub fn release(self) {
        self.activity.release(ORDINARY_ONE);
    }
}

impl TransientFoundationLease {
    /// Stop counting the call.
    pub fn release(self) {
        self.activity.release(TRANSIENT_ONE);
    }
}

impl ReplayLease {
    /// Give up exclusive replay access.
    pub fn release(self) {
        let _ = compare_exchange_word(&self.activity.packed, REPLAY_BIT, 0);
    }
}

/// Counters of panic-contained native hook invocations.
pub struct FoundationDiagnosticState {
    pub assertion_calls: AtomicU64,
    pub assertion_hook_panics: AtomicU64,
    pub assertion_hook_recursions: AtomicU64,
    pub log_calls: AtomicU64,
    pub log_hook_panics: AtomicU64,
    pub log_hook_recursions: AtomicU64,
}

impl FoundationDiagnosticState {
    /// All counters at zero.
    pub fn new() -> (s: Self) {
        FoundationDiagnosticState {
            assertion_calls: AtomicU64::new(0),
            assertion_hook_panics: AtomicU64::new(0),
            assertion_hook_recursions: AtomicU64::new(0),
            log_calls: AtomicU64::new(0),
            log_hook_panics: AtomicU64::new(0),
            log_hook_recursions: AtomicU64::new(0),
        }
    }

    /// The current counter values.
    pub fn snapshot(&self) -> (d: FoundationDiagnostics) {
        FoundationDiagnostics {
            assertion_calls: self.assertion_calls.load(Ordering::Relaxed),
            assertion_hook_panics: self.assertion_hook_panics.load(Ordering::Relaxed),
            assertion_hook_recursions: self.assertion_hook_recursions.load(Ordering::Relaxed),
            log_calls: self.log_calls.load(Ordering::Relaxed),
            log_hook_panics: self.log_hook_panics.load(Ordering::Relaxed),
            log_hook_recursions: self.log_hook_recursions.load(Ordering::Relaxed),
        }
    }
}

} // verus!
