//! Decisions of the one-time, process-global foundation initialization.
//!
//! Initialization validates the length scale, then looks for a foundation that is already
//! installed, first without and then with the initialization lock held; only when none exists does
//! it check the native adapter's identity and install the configuration. An existing foundation
//! answers the request with success when its configuration is the same and with a conflict when it
//! is not, so initializing repeatedly with the same configuration is idempotent.
//!
//! The caller performs each action (reading the installed foundation, taking the lock, running the
//! adapter handshake, installing) and reports what it found as the next event.

use vstd::prelude::*;

use crate::error::{FoundationAdapterIdentityField, FoundationInitError};

verus! {

/// Why the native adapter's identity handshake failed.
#[derive(Clone, Copy, Debug, PartialEq, Eq, Structural)]
pub enum AdapterIdentityFailure {
    Unavailable,
    Mismatch(FoundationAdapterIdentityField),
}

/// Where an initialization request stands.
#[derive(Clone, Copy, Debug, PartialEq, Eq, Structural)]
pub enum FoundationInitPhase {
    Validating,
    CheckingExisting,
    CheckingLocked,
    VerifyingAdapter,
    Installing,
    Done,
}

/// What the caller found when it performed the last action.
#[derive(Clone, Copy, Debug, PartialEq, Eq, Structural)]
pub enum FoundationInitEvent {
    /// Whether the requested length scale is safe.
    Validated { safe_scale: bool },
    /// Whether a foundation is installed, and if so whether its configuration is the requested one.
    Observed { existing_same: Option<bool> },
    /// The outcome of the native adapter's identity handshake.
    AdapterChecked { failure: Option<AdapterIdentityFailure> },
    /// Whether the installation took effect, or else whether the foundation another caller
    /// installed first has the requested configuration.
    Installed { existing_same: Option<bool> },
}

/// What the caller must do next.
#[derive(Clone, Copy, Debug)]
pub enum FoundationInitAction {
    /// Read the installed foundation without the lock.
    CheckExisting,
    /// Take the initialization lock, then read the installed foundation again.
    LockAndCheckExisting,
    /// Run the native adapter's identity handshake.
    VerifyAdapter,
    /// Configure Box2D's globals and install the foundation.
    Install,
    /// Release the lock if held and answer the request.
    Finish { result: Result<(), FoundationInitError> },
}

/// The initialization error for a failed adapter handshake.
pub open spec fn adapter_error(failure: AdapterIdentityFailure) -> FoundationInitError {
    match failure {
        AdapterIdentityFailure::Unavailable => FoundationInitError::AdapterIdentityUnavailable,
        AdapterIdentityFailure::Mismatch(field) => FoundationInitError::AdapterIdentityMismatch(field),
    }
}

/// The answer when a foundation is already installed.
pub open spec fn existing_answer(same_configuration: bool) -> Result<(), FoundationInitError> {
    if same_configuration {
        Ok(())
    } else {
        Err(FoundationInitError::ConfigurationConflict)
    }
}

/// Whether an event answers the action of a phase.
pub open spec fn event_fits(phase: FoundationInitPhase, event: FoundationInitEvent) -> bool {
    match phase {
        FoundationInitPhase::Validating => event is Validated,
        FoundationInitPhase::CheckingExisting => event is Observed,
        FoundationInitPhase::CheckingLocked => event is Observed,
        FoundationInitPhase::VerifyingAdapter => event is AdapterChecked,
        FoundationInitPhase::Installing => event is Installed,
        FoundationInitPhase::Done => false,
    }
}

/// The initialization error for a failed adapter handshake.
pub fn adapter_identity_error(failure: AdapterIdentityFailure) -> (e: FoundationInitError)
    ensures
        e == adapter_error(failure),
{
    match failure {
        AdapterIdentityFailure::Unavailable => FoundationInitError::AdapterIdentityUnavailable,
        AdapterIdentityFailure::Mismatch(field) => FoundationInitError::AdapterIdentityMismatch(field),
    }
}

/// The answer when a foundation is already installed: success for the same configuration, a
/// conflict for another.
pub fn existing_foundation_answer(same_configuration: bool) -> (r: Result<(), FoundationInitError>)
    ensures
        r == existing_answer(same_configuration),
{
    if same_configuration {
        Ok(())
    } else {
        Err(FoundationInitError::ConfigurationConflict)
    }
}

/// The next phase and action of an initialization request, given what the last action found.
pub fn foundation_init_step(phase: FoundationInitPhase, event: FoundationInitEvent) -> (next: (
    FoundationInitPhase,
    FoundationInitAction,
))
    requires
        event_fits(phase, event),
    ensures
        next == match event {
            FoundationInitEvent::Validated { safe_scale } => if safe_scale {
                (FoundationInitPhase::CheckingExisting, FoundationInitAction::CheckExisting)
            } else {
                (FoundationInitPhase::Done, FoundationInitAction::Finish {
                    result: Err(FoundationInitError::InvalidLengthUnitsPerMeter),
                })
            },
            FoundationInitEvent::Observed { existing_same } => match existing_same {
                Some(same) => (FoundationInitPhase::Done, FoundationInitAction::Finish { result: existing_answer(same) }),
                None => if phase == FoundationInitPhase::CheckingExisting {
                    (FoundationInitPhase::CheckingLocked, FoundationInitAction::LockAndCheckExisting)
                } else {
                    (FoundationInitPhase::VerifyingAdapter, FoundationInitAction::VerifyAdapter)
                },
            },
            FoundationInitEvent::AdapterChecked { failure } => match failure {
                Some(f) => (FoundationInitPhase::Done, FoundationInitAction::Finish { result: Err(adapter_error(f)) }),
                None => (FoundationInitPhase::Installing, FoundationInitAction::Install),
            },
            FoundationInitEvent::Installed { existing_same } => match existing_same {
                None => (FoundationInitPhase::Done, FoundationInitAction::Finish { result: Ok(()) }),
                Some(same) => (FoundationInitPhase::Done, FoundationInitAction::Finish { result: existing_answer(same) }),
            },
        },
{
    match event {
        FoundationInitEvent::Validated { safe_scale } => if safe_scale {
            (FoundationInitPhase::CheckingExisting, FoundationInitAction::CheckExisting)
        } else {
            (FoundationInitPhase::Done, FoundationInitAction::Finish {
                result: Err(FoundationInitError::InvalidLengthUnitsPerMeter),
            })
        },
        FoundationInitEvent::Observed { existing_same } => match existing_same {
            Some(same) => (FoundationInitPhase::Done, FoundationInitAction::Finish {
                result: existing_foundation_answer(same),
            }),
            None => if phase == FoundationInitPhase::CheckingExisting {
                (FoundationInitPhase::CheckingLocked, FoundationInitAction::LockAndCheckExisting)
            } else {
                (FoundationInitPhase::VerifyingAdapter, FoundationInitAction::VerifyAdapter)
            },
        },
        FoundationInitEvent::AdapterChecked { failure } => match failure {
            Some(f) => (FoundationInitPhase::Done, FoundationInitAction::Finish {
                result: Err(adapter_identity_error(f)),
            }),
            None => (FoundationInitPhase::Installing, FoundationInitAction::Install),
        },
        FoundationInitEvent::Installed { existing_same } => match existing_same {
            None => (FoundationInitPhase::Done, FoundationInitAction::Finish { result: Ok(()) }),
            Some(same) => (FoundationInitPhase::Done, FoundationInitAction::Finish {
                result: existing_foundation_answer(same),
            }),
        },
    }
}

/// Initialization never touches the adapter or the globals before the scale is validated, and an
/// installed foundation always answers: whenever a request observes one, it finishes at once with
/// success exactly for the same configuration.
pub proof fn lemma_existing_foundation_decides(phase: FoundationInitPhase, same: bool)
    requires
        phase == FoundationInitPhase::CheckingExisting || phase == FoundationInitPhase::CheckingLocked,
    ensures
        ({
            let event = FoundationInitEvent::Observed { existing_same: Some(same) };
            event_fits(phase, event)
        }),
        existing_answer(same) is Ok <==> same,
{
}

} // verus!
