use boxdd::error::{FoundationAdapterIdentityField, FoundationInitError};
use boxdd::foundation::{
    foundation_init_step, AdapterIdentityFailure, FoundationInitAction, FoundationInitEvent,
    FoundationInitPhase,
};

fn finish(action: FoundationInitAction) -> Result<(), FoundationInitError> {
    match action {
        FoundationInitAction::Finish { result } => result,
        other => panic!("expected the request to finish, got {other:?}"),
    }
}

#[test]
fn invalid_scales_are_rejected_before_native_initialization() {
    let (phase, action) =
        foundation_init_step(FoundationInitPhase::Validating, FoundationInitEvent::Validated { safe_scale: false });
    assert_eq!(phase, FoundationInitPhase::Done);
    assert_eq!(finish(action), Err(FoundationInitError::InvalidLengthUnitsPerMeter));
}

#[test]
fn repeated_initialization_is_idempotent_and_conflicts_are_rejected() {
    let (phase, action) =
        foundation_init_step(FoundationInitPhase::Validating, FoundationInitEvent::Validated { safe_scale: true });
    assert_eq!(phase, FoundationInitPhase::CheckingExisting);
    assert!(matches!(action, FoundationInitAction::CheckExisting));
    let same = foundation_init_step(phase, FoundationInitEvent::Observed { existing_same: Some(true) });
    assert_eq!(same.0, FoundationInitPhase::Done);
    assert_eq!(finish(same.1), Ok(()));
    let other = foundation_init_step(phase, FoundationInitEvent::Observed { existing_same: Some(false) });
    assert_eq!(finish(other.1), Err(FoundationInitError::ConfigurationConflict));
}

#[test]
fn first_initialization_locks_checks_the_adapter_and_installs() {
    let (phase, action) =
        foundation_init_step(FoundationInitPhase::CheckingExisting, FoundationInitEvent::Observed { existing_same: None });
    assert_eq!(phase, FoundationInitPhase::CheckingLocked);
    assert!(matches!(action, FoundationInitAction::LockAndCheckExisting));
    let (phase, action) = foundation_init_step(phase, FoundationInitEvent::Observed { existing_same: None });
    assert_eq!(phase, FoundationInitPhase::VerifyingAdapter);
    assert!(matches!(action, FoundationInitAction::VerifyAdapter));
    let (phase, action) = foundation_init_step(phase, FoundationInitEvent::AdapterChecked { failure: None });
    assert_eq!(phase, FoundationInitPhase::Installing);
    assert!(matches!(action, FoundationInitAction::Install));
    let (phase, action) = foundation_init_step(phase, FoundationInitEvent::Installed { existing_same: None });
    assert_eq!(phase, FoundationInitPhase::Done);
    assert_eq!(finish(action), Ok(()));
}

#[test]
fn adapter_identity_mapping_preserves_effective_source_and_private_abi() {
    for field in [FoundationAdapterIdentityField::EffectiveSource, FoundationAdapterIdentityField::PrivateAbi] {
        let (_, action) = foundation_init_step(
            FoundationInitPhase::VerifyingAdapter,
            FoundationInitEvent::AdapterChecked { failure: Some(AdapterIdentityFailure::Mismatch(field)) },
        );
        assert_eq!(finish(action), Err(FoundationInitError::AdapterIdentityMismatch(field)));
    }
    let (_, action) = foundation_init_step(
        FoundationInitPhase::VerifyingAdapter,
        FoundationInitEvent::AdapterChecked { failure: Some(AdapterIdentityFailure::Unavailable) },
    );
    assert_eq!(finish(action), Err(FoundationInitError::AdapterIdentityUnavailable));
}

#[test]
fn losing_the_installation_race_defers_to_the_winner() {
    let (_, action) =
        foundation_init_step(FoundationInitPhase::Installing, FoundationInitEvent::Installed { existing_same: Some(false) });
    assert_eq!(finish(action), Err(FoundationInitError::ConfigurationConflict));
    let (_, action) =
        foundation_init_step(FoundationInitPhase::Installing, FoundationInitEvent::Installed { existing_same: Some(true) });
    assert_eq!(finish(action), Ok(()));
}
