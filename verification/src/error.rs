//! Common errors for the safe API.
//!
//! Every fallible safe operation returns [`Result`]. The categories are stale or foreign
//! identifiers, callback re-entry, exhausted identity spaces, invalid arguments and indices,
//! invalid native outputs, and snapshot/recording/replay failures.

use vstd::prelude::*;

verus! {

/// One field of the linked native adapter identity that did not match this build.
#[derive(Clone, Copy, Debug, PartialEq, Eq, Structural)]
#[non_exhaustive]
pub enum FoundationAdapterIdentityField {
    /// Versioned identity structure size.
    StructSize,
    /// Repository adapter ABI version.
    AbiVersion,
    /// Native snapshot wire version.
    SnapshotVersion,
    /// Recording wire version.
    RecordingVersion,
    /// Target pointer width.
    PointerWidth,
    /// Target byte order.
    Endianness,
    /// Single- or double-precision build mode.
    Precision,
    /// Native validation build mode.
    Validation,
    /// Pinned upstream Box2D revision.
    UpstreamSha,
    /// Full Rust target ABI triple.
    TargetAbi,
    /// Repository adapter source digest.
    AdapterSource,
    /// Canonical effective Box2D source digest.
    EffectiveSource,
    /// Generated recording contract digest.
    RecordingContract,
    /// Private snapshot layout identity.
    SnapshotLayout,
    /// Private C ABI identity.
    PrivateAbi,
    /// Identity field introduced by a newer low-level adapter.
    Unknown,
}

/// Failure to initialize the process-global Box2D foundation.
#[derive(Clone, Copy, Debug, PartialEq, Eq, Structural)]
#[non_exhaustive]
pub enum FoundationInitError {
    /// Safe Box2D operations require a scale with representable ray and shape tolerances.
    InvalidLengthUnitsPerMeter,
    /// The linked native adapter did not provide its required identity handshake.
    AdapterIdentityUnavailable,
    /// The linked native adapter was built for a different ABI or source contract.
    AdapterIdentityMismatch(FoundationAdapterIdentityField),
    /// Another safe call already froze a different process configuration.
    ConfigurationConflict,
}

/// A point-in-time snapshot of process-global Box2D activity.
#[derive(Clone, Copy, Debug, Default, PartialEq, Eq, Structural)]
#[non_exhaustive]
pub struct FoundationActivity {
    /// Number of Rust-owned Box2D worlds holding shared access.
    pub ordinary_worlds: u32,
    /// Number of worldless native calls or persistent native owners holding shared access.
    pub transient_calls: u32,
    /// Whether a replay player holds exclusive access.
    pub replay_active: bool,
}

/// Failure to acquire a process-global Box2D foundation activity lease.
#[derive(Clone, Copy, Debug, PartialEq, Eq, Structural)]
#[non_exhaustive]
pub enum FoundationActivityError {
    /// Native activity requires the process-global foundation to be initialized explicitly.
    NotInitialized,
    /// Shared activity cannot begin while replay has exclusive access.
    ReplayActive,
    /// The packed ordinary-world counter cannot represent another world.
    OrdinaryWorldCapacityExhausted,
    /// The packed transient-call counter cannot represent another call.
    TransientCallCapacityExhausted,
    /// Replay requires the process to have no other Box2D activity.
    ReplayUnavailable { activity: FoundationActivity },
}

/// Process-global diagnostics produced by panic-contained Box2D hooks.
#[derive(Clone, Copy, Debug, Default, PartialEq, Eq, Structural)]
#[non_exhaustive]
pub struct FoundationDiagnostics {
    /// Number of assertion callback entries, including recursive entries.
    pub assertion_calls: u64,
    /// Number of panics contained in the assertion trampoline's user-hook path.
    pub assertion_hook_panics: u64,
    /// Number of recursive assertion-hook entries suppressed by the trampoline.
    pub assertion_hook_recursions: u64,
    /// Number of log callback entries, including recursive entries.
    pub log_calls: u64,
    /// Number of panics contained in the log trampoline's user-hook path.
    pub log_hook_panics: u64,
    /// Number of recursive log-hook entries suppressed by the trampoline.
    pub log_hook_recursions: u64,
}

/// Box2D joint kinds, in the native discriminant order.
#[derive(Clone, Copy, Debug, PartialEq, Eq, Structural, Hash)]
pub enum JointType {
    Distance,
    Filter,
    Motor,
    Prismatic,
    Revolute,
    Weld,
    Wheel,
}

impl JointType {
    /// The joint kind with native discriminant `raw`, if any.
    pub open spec fn from_raw_spec(raw: u32) -> Option<JointType> {
        if raw == 0 {
            Some(JointType::Distance)
        } else if raw == 1 {
            Some(JointType::Filter)
        } else if raw == 2 {
            Some(JointType::Motor)
        } else if raw == 3 {
            Some(JointType::Prismatic)
        } else if raw == 4 {
            Some(JointType::Revolute)
        } else if raw == 5 {
            Some(JointType::Weld)
        } else if raw == 6 {
            Some(JointType::Wheel)
        } else {
            None
        }
    }

    /// Decode a native joint discriminant.
    pub fn from_raw(raw: u32) -> (r: Option<JointType>)
        ensures
            r == Self::from_raw_spec(raw),
    {
        match raw {
            0 => Some(JointType::Distance),
            1 => Some(JointType::Filter),
            2 => Some(JointType::Motor),
            3 => Some(JointType::Prismatic),
            4 => Some(JointType::Revolute),
            5 => Some(JointType::Weld),
            6 => Some(JointType::Wheel),
            _ => None,
        }
    }
}

/// Box2D shape kinds, in the native discriminant order.
#[derive(Clone, Copy, Debug, PartialEq, Eq, Structural, Hash)]
pub enum ShapeType {
    Circle,
    Capsule,
    Segment,
    Polygon,
    ChainSegment,
}

impl ShapeType {
    /// The shape kind with native discriminant `raw`, if any.
    pub open spec fn from_raw_spec(raw: u32) -> Option<ShapeType> {
        if raw == 0 {
            Some(ShapeType::Circle)
        } else if raw == 1 {
            Some(ShapeType::Capsule)
        } else if raw == 2 {
            Some(ShapeType::Segment)
        } else if raw == 3 {
            Some(ShapeType::Polygon)
        } else if raw == 4 {
            Some(ShapeType::ChainSegment)
        } else {
            None
        }
    }

    /// Decode a native shape discriminant.
    pub fn from_raw(raw: u32) -> (r: Option<ShapeType>)
        ensures
            r == Self::from_raw_spec(raw),
    {
        match raw {
            0 => Some(ShapeType::Circle),
            1 => Some(ShapeType::Capsule),
            2 => Some(ShapeType::Segment),
            3 => Some(ShapeType::Polygon),
            4 => Some(ShapeType::ChainSegment),
            _ => None,
        }
    }
}

/// Errors returned by the safe API.
#[allow(inconsistent_fields)]
#[derive(Debug, Clone, Copy, PartialEq, Eq)]
#[non_exhaustive]
pub enum Error {
    InCallback,
    WrongWorld,
    WrongTree,
    InvalidTreeProxyId,
    WorldIdentityExhausted,
    WorldCreationFailed,
    TreeIdentityExhausted,
    ObjectIdentityExhausted,
    IdentityTrackingAllocationFailed,
    UserDataVersionExhausted,
    UserDataAllocationFailed,
    SnapshotAllocationFailed,
    SnapshotNativeFailed,
    SnapshotCommitPanicked,
    InvalidNativeSnapshot,
    SnapshotAbiMismatch,
    ForeignSnapshot,
    SnapshotManifestMismatch,
    SnapshotCallbacksUnavailable,
    SnapshotHostWiringMismatch,
    ReentrantAccess,
    WorldPoisoned,
    WorldDestroyed,
    WorldBusy,
    FoundationInitialization(FoundationInitError),
    FoundationActivity(FoundationActivityError),
    InvalidBodyId,
    InvalidShapeId,
    InvalidJointId,
    WrongJointType { expected: JointType, actual: JointType },
    WrongShapeType { expected: ShapeType, actual: ShapeType },
    InvalidNativeBodyType { raw: u32 },
    InvalidNativeShapeType { raw: u32 },
    NegativeAllocatedByteCount { count: i64 },
    InvalidNativeElapsedMilliseconds,
    InvalidNativeAngle,
    InvalidNativeRotation,
    InvalidChainId,
    ChainOwnedShape,
    InvalidContactId,
    InvalidChainDef,
    LengthScaleMismatch { operation: &'static str, expected: u32, actual: u32 },
    InvalidArgument { operation: &'static str, argument: &'static str, constraint: &'static str },
    IndexOutOfRange { operation: &'static str, index: i64, bound: usize },
    InvalidNativeWorkerCount { value: i32 },
    InvalidNativeWorldCapacity { field: &'static str, value: i64, constraint: &'static str },
    InvalidNativeDynamicTreeState {
        operation: &'static str,
        field: &'static str,
        value: i64,
        constraint: &'static str,
    },
    InvalidNativeOutput { operation: &'static str, output: &'static str, constraint: &'static str },
    UnsupportedWorkerCount { requested: u32 },
    RecordingCustomFilterUnsupported,
    RecordingPreSolveUnsupported,
    RecordingAllocationFailed,
    InvalidNativeRecording,
    RecordingLimitExceeded,
    RecordingOperationTooLarge,
    RecordingOutputValidationFailed,
    RecordingStorageAllocationFailed,
    ReplayMixerIdentityMismatch,
    ReplayNativeCreateFailed,
    ReplayNativeFailure,
    InvalidNativeReplayMetadata,
    ReplayFrameOutOfRange,
    ReplayQueryOutOfRange,
    InvalidReplayKeyframePolicy,
    ReplayEpochExhausted,
    ReplayLengthScaleNotRestored { expected: u32, observed: u32 },
    NulByteInString,
    UserDataTypeMismatch,
    CallbackSlotsExhausted,
    NegativeFfiOutputCapacity { capacity: i32 },
    NegativeFfiOutputCount { count: i32 },
    FfiOutputCountExceedsCapacity { count: i32, capacity: i32 },
    FfiOutputAllocationFailed,
    InvalidNativeEventBuffer,
}

/// The result type of every fallible safe operation.
pub type Result<T> = core::result::Result<T, Error>;

impl Error {
    /// An `InvalidArgument` error naming the operation, the argument and the violated constraint.
    #[inline]
    pub fn invalid_argument(
        operation: &'static str,
        argument: &'static str,
        constraint: &'static str,
    ) -> (e: Self)
        ensures
            e == (Error::InvalidArgument { operation, argument, constraint }),
    {
        Error::InvalidArgument { operation, argument, constraint }
    }

    /// An `IndexOutOfRange` error naming the operation, the index and the exclusive bound.
    #[inline]
    pub fn index_out_of_range(operation: &'static str, index: i64, bound: usize) -> (e: Self)
        ensures
            e == (Error::IndexOutOfRange { operation, index, bound }),
    {
        Error::IndexOutOfRange { operation, index, bound }
    }
}

impl From<FoundationInitError> for Error {
    fn from(error: FoundationInitError) -> (r: Error) {
        Error::FoundationInitialization(error)
    }
}

impl vstd::std_specs::convert::FromSpecImpl<FoundationInitError> for Error {
    open spec fn obeys_from_spec() -> bool {
        true
    }

    open spec fn from_spec(v: FoundationInitError) -> Error {
        Error::FoundationInitialization(v)
    }
}

impl From<FoundationActivityError> for Error {
    fn from(error: FoundationActivityError) -> (r: Error) {
        Error::FoundationActivity(error)
    }
}

impl vstd::std_specs::convert::FromSpecImpl<FoundationActivityError> for Error {
    open spec fn obeys_from_spec() -> bool {
        true
    }

    open spec fn from_spec(v: FoundationActivityError) -> Error {
        Error::FoundationActivity(v)
    }
}

} // verus!
