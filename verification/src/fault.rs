//! The closed set of refusals that the authority gives.

use vstd::prelude::*;

verus! {

/// How a refusal is classed for the caller.
#[derive(Clone, Copy, Debug, PartialEq, Eq, Structural)]
pub enum FaultKind {
    InvalidRequest,
    InvalidParams,
    Internal,
    TaskNotFound,
    TaskNotCancelable,
    PushNotificationNotSupported,
    UnsupportedOperation,
    InvalidAgentResponse,
    QuotaExceeded,
    QuotaUnavailable,
}

/// Why a request is refused.
#[derive(Clone, Copy, Debug, PartialEq, Eq, Structural)]
pub enum Fault {
    AdmissionPayloadTooLarge,
    AdmissionTaskMismatch,
    ArtifactBackupLeaseCorrupt,
    ArtifactBackupUnavailable,
    ArtifactBindingStale,
    ArtifactGcCorrupt,
    ArtifactGcFenceLost,
    ArtifactGcUnsupported,
    ArtifactHoldUnavailable,
    ArtifactIntegrityFailed,
    ArtifactLeaseOverflow,
    ArtifactMetadataCorrupt,
    ArtifactOrphanOwnershipLost,
    ArtifactOrphanScanUnsupported,
    ArtifactPayloadCorrupt,
    ArtifactPayloadTooLarge,
    ArtifactPromotionCorrupt,
    ArtifactPromotionIntegrityFailed,
    ArtifactPromotionUnsupported,
    ArtifactPublicationUnsupported,
    ArtifactQuarantined,
    ArtifactQuotaIntentMismatch,
    ArtifactRegistrationConflict,
    ArtifactResolutionUnsupported,
    ArtifactRetentionOverflow,
    ArtifactStageOrphaned,
    ArtifactStagingFailed,
    AuthorizationRetentionConfigInvalid,
    AuthorizedAdmissionScopeMismatch,
    AuthorizedCancellationScopeMismatch,
    AuthorizedContinuationScopeMismatch,
    AuthorizedListScopeMismatch,
    AuthorizedReadScopeMismatch,
    AuthorizedReplayScopeMismatch,
    CallbackAttemptCorrupt,
    CallbackConfigCapacity,
    CallbackConfigCapacityParams,
    CallbackConfigConflict,
    CallbackConfigStateCorrupt,
    CallbackDeliveryStateCorrupt,
    CallbackEgressOverflow,
    CallbackEnrollmentCorrupt,
    CallbackEnrollmentNotAuthorized,
    CallbackEnrollmentNotAuthorizedParams,
    CallbackFenceCorrupt,
    CallbackFenceStale,
    CallbackPolicyCorrupt,
    CallbackTenantCapacity,
    CallbackTerminalFaultDisabled,
    CancellationUnencodable,
    CanonicalStreamResultCorrupt,
    ClaimableOutboxUnreserved,
    ContinuationPayloadTooLarge,
    ContinuationTaskMismatch,
    DeadLetterBindingCorrupt,
    DeadLetterTaskLost,
    DeadLetterUnencodable,
    DeniedAuditNotDeny,
    DispatchPayloadConflict,
    DispatchReservationConflict,
    ExecutionBudgetMissing,
    ExecutionEventBudgetCorrupt,
    ExecutionOutputBudgetCorrupt,
    ExecutionReceiptsCorrupt,
    ExecutionRefundFailed,
    ExecutionRefundFenceStale,
    ExecutionReservationAbsent,
    ExecutionReservationBudgetCorrupt,
    ExecutionReservationIncomplete,
    ExecutionReservationKeyConflict,
    ExecutionReservationPolicyCorrupt,
    ExecutionReservationRequiredForReplay,
    ExecutionReservationVersionCorrupt,
    ExecutionSettlementBindingCorrupt,
    ExecutionSettlementConflict,
    ExecutionSettlementFenceStale,
    ExecutionUsageExceedsReceipt,
    FinalAttemptFenceCorrupt,
    FinalDeadLetterFenceStale,
    FinalReceiverFenceStale,
    HistoryLengthOutOfRange,
    IdempotencyAdmissionConflict,
    IdempotencyConflict,
    IdempotencyContinuationConflict,
    InjectedPublicationFault,
    InvalidAgentResponse,
    InvalidArtifactBackupLease,
    InvalidArtifactBackupRenewal,
    InvalidArtifactGcLease,
    InvalidArtifactOrphanScan,
    InvalidArtifactPromotionLease,
    InvalidArtifactReadPreflight,
    InvalidArtifactRegistration,
    InvalidAuditProjectionClaim,
    InvalidAuditProjectionCleanup,
    InvalidAuthorizationRetention,
    InvalidCallbackGeneration,
    InvalidCallbackPageToken,
    InvalidDeletionReceipt,
    InvalidDeliveryResult,
    InvalidDurableAdmission,
    InvalidDurableContinuation,
    InvalidEventBudget,
    InvalidOutboxLease,
    InvalidOutboxRenewal,
    InvalidOutputBudget,
    InvalidPageToken,
    InvalidProgressFrame,
    InvalidProjectionKind,
    InvalidProjectionSource,
    InvalidQuotaCapacity,
    InvalidQuotaLeaseDuration,
    InvalidQuotaOverride,
    InvalidQuotaRevision,
    InvalidQuotaUnits,
    InvalidReceiverEnvelope,
    InvalidReceiverRenewal,
    InvalidReceiverReservation,
    InvalidReceiverTermination,
    ListNormalizationFailed,
    MessageIdRequired,
    OutboxAttemptCorrupt,
    OutboxBoundCorrupt,
    OutboxErrorTooLong,
    OutboxLeaseTimeOverflow,
    OutboxPayloadCorrupt,
    OutboxRenewalOverflow,
    PageSizeOutOfRange,
    PersistedPrefixCorrupt,
    PersistedPrefixDiverges,
    PersistentTaskCorrupt,
    PolicyRevisionTooLarge,
    PublicStreamTerminalCorrupt,
    PublicTranscriptTooLarge,
    PublicationFaultDisabled,
    PushNotificationNotSupported,
    QuotaAuthorityUnavailable,
    QuotaBucketChargeFailed,
    QuotaDenialDiagnosticsCorrupt,
    QuotaDiagnosticsCorrupt,
    QuotaExceeded,
    QuotaGcBatch,
    QuotaGcCorrupt,
    QuotaIntentBindingMismatch,
    QuotaIntentKeyConflict,
    QuotaIntentOperationMismatch,
    QuotaIntentRequiredForReplay,
    QuotaLeaseReclaimBatch,
    QuotaLeaseReclaimCountCorrupt,
    QuotaLeaseTimeOverflow,
    QuotaReservationExpired,
    QuotaReservationKeyConflict,
    QuotaReservationNotBound,
    QuotaReservationRequiredForReplay,
    QuotaReservationScopeMismatch,
    ReceiverBudgetExceeded,
    ReceiverByteCountOverflow,
    ReceiverEnvelopeUnreserved,
    ReceiverEpochCorrupt,
    ReceiverEpochOverflow,
    ReceiverEventMeasurementMissing,
    ReceiverFrameCorrupt,
    ReceiverLeaseOverflow,
    ReceiverLeaseStale,
    ReceiverLeaseUnreserved,
    ReceiverMeasurementAbsent,
    ReceiverMeasurementCorrupt,
    ReceiverMeasurementIncomplete,
    ReceiverMeasurementOverflow,
    ReceiverOutputMeasurementMissing,
    ReceiverPayloadConflict,
    ReceiverReclaimFailed,
    ReceiverReconciliationStale,
    ReceiverRenewalOverflow,
    ReceiverReplayCorrupt,
    ReceiverTerminationCorrupt,
    ReceiverTranscriptTooLarge,
    ReceiverTranscriptTooLong,
    RetainedPrincipalCorrupt,
    RetainedTenantCorrupt,
    RevisionExhausted,
    SenderAttemptCorrupt,
    SnapshotCapacityReached,
    SnapshotClockExhausted,
    StoredContinuationCorrupt,
    StoredEventBudgetCorrupt,
    StoredEventCorrupt,
    StoredExecutionBudgetCorrupt,
    StoredFinalResultCorrupt,
    StoredIdempotencyCorrupt,
    StoredOutputBudgetCorrupt,
    StoredStreamFrameCorrupt,
    StoredStreamTranscriptCorrupt,
    StoredTaskCorrupt,
    StreamCompletionStale,
    StreamNotBound,
    StreamProgressStale,
    StreamReplayCursorCorrupt,
    StreamTranscriptCorrupt,
    SubscriptionBaselineCorrupt,
    SubscriptionCursorCorrupt,
    SubscriptionTranscriptCorrupt,
    TaskAlreadyExists,
    TaskCapacityReached,
    TaskNoLongerAcceptsContinuation,
    TaskNotCancelable,
    TaskNotFound,
    TaskRevisionCorrupt,
    TestPoolHoldDisabled,
    TestTenantHoldDisabled,
    TransactionCommitFailed,
    TransactionFailed,
    TransactionRetryLimit,
}

/// How a refusal is classed.
pub open spec fn kind_of(fault: Fault) -> FaultKind {
    match fault {
        Fault::AdmissionPayloadTooLarge => FaultKind::InvalidParams,
        Fault::AdmissionTaskMismatch => FaultKind::InvalidParams,
        Fault::ArtifactBackupLeaseCorrupt => FaultKind::Internal,
        Fault::ArtifactBackupUnavailable => FaultKind::InvalidParams,
        Fault::ArtifactBindingStale => FaultKind::InvalidRequest,
        Fault::ArtifactGcCorrupt => FaultKind::Internal,
        Fault::ArtifactGcFenceLost => FaultKind::Internal,
        Fault::ArtifactGcUnsupported => FaultKind::UnsupportedOperation,
        Fault::ArtifactHoldUnavailable => FaultKind::InvalidParams,
        Fault::ArtifactIntegrityFailed => FaultKind::Internal,
        Fault::ArtifactLeaseOverflow => FaultKind::InvalidParams,
        Fault::ArtifactMetadataCorrupt => FaultKind::Internal,
        Fault::ArtifactOrphanOwnershipLost => FaultKind::Internal,
        Fault::ArtifactOrphanScanUnsupported => FaultKind::UnsupportedOperation,
        Fault::ArtifactPayloadCorrupt => FaultKind::Internal,
        Fault::ArtifactPayloadTooLarge => FaultKind::InvalidRequest,
        Fault::ArtifactPromotionCorrupt => FaultKind::Internal,
        Fault::ArtifactPromotionIntegrityFailed => FaultKind::Internal,
        Fault::ArtifactPromotionUnsupported => FaultKind::UnsupportedOperation,
        Fault::ArtifactPublicationUnsupported => FaultKind::UnsupportedOperation,
        Fault::ArtifactQuarantined => FaultKind::Internal,
        Fault::ArtifactQuotaIntentMismatch => FaultKind::InvalidParams,
        Fault::ArtifactRegistrationConflict => FaultKind::InvalidRequest,
        Fault::ArtifactResolutionUnsupported => FaultKind::UnsupportedOperation,
        Fault::ArtifactRetentionOverflow => FaultKind::InvalidParams,
        Fault::ArtifactStageOrphaned => FaultKind::InvalidRequest,
        Fault::ArtifactStagingFailed => FaultKind::InvalidRequest,
        Fault::AuthorizationRetentionConfigInvalid => FaultKind::Internal,
        Fault::AuthorizedAdmissionScopeMismatch => FaultKind::InvalidRequest,
        Fault::AuthorizedCancellationScopeMismatch => FaultKind::InvalidRequest,
        Fault::AuthorizedContinuationScopeMismatch => FaultKind::InvalidRequest,
        Fault::AuthorizedListScopeMismatch => FaultKind::InvalidRequest,
        Fault::AuthorizedReadScopeMismatch => FaultKind::InvalidRequest,
        Fault::AuthorizedReplayScopeMismatch => FaultKind::InvalidRequest,
        Fault::CallbackAttemptCorrupt => FaultKind::Internal,
        Fault::CallbackConfigCapacity => FaultKind::InvalidRequest,
        Fault::CallbackConfigCapacityParams => FaultKind::InvalidParams,
        Fault::CallbackConfigConflict => FaultKind::InvalidRequest,
        Fault::CallbackConfigStateCorrupt => FaultKind::Internal,
        Fault::CallbackDeliveryStateCorrupt => FaultKind::Internal,
        Fault::CallbackEgressOverflow => FaultKind::Internal,
        Fault::CallbackEnrollmentCorrupt => FaultKind::Internal,
        Fault::CallbackEnrollmentNotAuthorized => FaultKind::InvalidRequest,
        Fault::CallbackEnrollmentNotAuthorizedParams => FaultKind::InvalidParams,
        Fault::CallbackFenceCorrupt => FaultKind::Internal,
        Fault::CallbackFenceStale => FaultKind::InvalidRequest,
        Fault::CallbackPolicyCorrupt => FaultKind::Internal,
        Fault::CallbackTenantCapacity => FaultKind::InvalidParams,
        Fault::CallbackTerminalFaultDisabled => FaultKind::InvalidRequest,
        Fault::CancellationUnencodable => FaultKind::Internal,
        Fault::CanonicalStreamResultCorrupt => FaultKind::Internal,
        Fault::ClaimableOutboxUnreserved => FaultKind::Internal,
        Fault::ContinuationPayloadTooLarge => FaultKind::InvalidParams,
        Fault::ContinuationTaskMismatch => FaultKind::InvalidParams,
        Fault::DeadLetterBindingCorrupt => FaultKind::Internal,
        Fault::DeadLetterTaskLost => FaultKind::Internal,
        Fault::DeadLetterUnencodable => FaultKind::Internal,
        Fault::DeniedAuditNotDeny => FaultKind::InvalidRequest,
        Fault::DispatchPayloadConflict => FaultKind::InvalidRequest,
        Fault::DispatchReservationConflict => FaultKind::InvalidRequest,
        Fault::ExecutionBudgetMissing => FaultKind::InvalidRequest,
        Fault::ExecutionEventBudgetCorrupt => FaultKind::Internal,
        Fault::ExecutionOutputBudgetCorrupt => FaultKind::Internal,
        Fault::ExecutionReceiptsCorrupt => FaultKind::Internal,
        Fault::ExecutionRefundFailed => FaultKind::Internal,
        Fault::ExecutionRefundFenceStale => FaultKind::Internal,
        Fault::ExecutionReservationAbsent => FaultKind::Internal,
        Fault::ExecutionReservationBudgetCorrupt => FaultKind::Internal,
        Fault::ExecutionReservationIncomplete => FaultKind::Internal,
        Fault::ExecutionReservationKeyConflict => FaultKind::InvalidRequest,
        Fault::ExecutionReservationPolicyCorrupt => FaultKind::Internal,
        Fault::ExecutionReservationRequiredForReplay => FaultKind::InvalidRequest,
        Fault::ExecutionReservationVersionCorrupt => FaultKind::Internal,
        Fault::ExecutionSettlementBindingCorrupt => FaultKind::Internal,
        Fault::ExecutionSettlementConflict => FaultKind::Internal,
        Fault::ExecutionSettlementFenceStale => FaultKind::Internal,
        Fault::ExecutionUsageExceedsReceipt => FaultKind::Internal,
        Fault::FinalAttemptFenceCorrupt => FaultKind::Internal,
        Fault::FinalDeadLetterFenceStale => FaultKind::Internal,
        Fault::FinalReceiverFenceStale => FaultKind::Internal,
        Fault::HistoryLengthOutOfRange => FaultKind::InvalidParams,
        Fault::IdempotencyAdmissionConflict => FaultKind::InvalidRequest,
        Fault::IdempotencyConflict => FaultKind::InvalidRequest,
        Fault::IdempotencyContinuationConflict => FaultKind::InvalidRequest,
        Fault::InjectedPublicationFault => FaultKind::Internal,
        Fault::InvalidAgentResponse => FaultKind::InvalidAgentResponse,
        Fault::InvalidArtifactBackupLease => FaultKind::InvalidParams,
        Fault::InvalidArtifactBackupRenewal => FaultKind::InvalidParams,
        Fault::InvalidArtifactGcLease => FaultKind::InvalidParams,
        Fault::InvalidArtifactOrphanScan => FaultKind::InvalidParams,
        Fault::InvalidArtifactPromotionLease => FaultKind::InvalidParams,
        Fault::InvalidArtifactReadPreflight => FaultKind::InvalidParams,
        Fault::InvalidArtifactRegistration => FaultKind::InvalidParams,
        Fault::InvalidAuditProjectionClaim => FaultKind::InvalidRequest,
        Fault::InvalidAuditProjectionCleanup => FaultKind::InvalidRequest,
        Fault::InvalidAuthorizationRetention => FaultKind::InvalidRequest,
        Fault::InvalidCallbackGeneration => FaultKind::InvalidRequest,
        Fault::InvalidCallbackPageToken => FaultKind::InvalidRequest,
        Fault::InvalidDeletionReceipt => FaultKind::InvalidParams,
        Fault::InvalidDeliveryResult => FaultKind::InvalidParams,
        Fault::InvalidDurableAdmission => FaultKind::InvalidParams,
        Fault::InvalidDurableContinuation => FaultKind::InvalidParams,
        Fault::InvalidEventBudget => FaultKind::InvalidRequest,
        Fault::InvalidOutboxLease => FaultKind::InvalidParams,
        Fault::InvalidOutboxRenewal => FaultKind::InvalidParams,
        Fault::InvalidOutputBudget => FaultKind::InvalidRequest,
        Fault::InvalidPageToken => FaultKind::InvalidParams,
        Fault::InvalidProgressFrame => FaultKind::InvalidParams,
        Fault::InvalidProjectionKind => FaultKind::Internal,
        Fault::InvalidProjectionSource => FaultKind::Internal,
        Fault::InvalidQuotaCapacity => FaultKind::InvalidRequest,
        Fault::InvalidQuotaLeaseDuration => FaultKind::InvalidRequest,
        Fault::InvalidQuotaOverride => FaultKind::InvalidRequest,
        Fault::InvalidQuotaRevision => FaultKind::InvalidRequest,
        Fault::InvalidQuotaUnits => FaultKind::InvalidRequest,
        Fault::InvalidReceiverEnvelope => FaultKind::InvalidParams,
        Fault::InvalidReceiverRenewal => FaultKind::InvalidParams,
        Fault::InvalidReceiverReservation => FaultKind::InvalidParams,
        Fault::InvalidReceiverTermination => FaultKind::InvalidParams,
        Fault::ListNormalizationFailed => FaultKind::Internal,
        Fault::MessageIdRequired => FaultKind::InvalidParams,
        Fault::OutboxAttemptCorrupt => FaultKind::Internal,
        Fault::OutboxBoundCorrupt => FaultKind::Internal,
        Fault::OutboxErrorTooLong => FaultKind::InvalidParams,
        Fault::OutboxLeaseTimeOverflow => FaultKind::InvalidParams,
        Fault::OutboxPayloadCorrupt => FaultKind::Internal,
        Fault::OutboxRenewalOverflow => FaultKind::InvalidParams,
        Fault::PageSizeOutOfRange => FaultKind::InvalidParams,
        Fault::PersistedPrefixCorrupt => FaultKind::Internal,
        Fault::PersistedPrefixDiverges => FaultKind::Internal,
        Fault::PersistentTaskCorrupt => FaultKind::Internal,
        Fault::PolicyRevisionTooLarge => FaultKind::InvalidRequest,
        Fault::PublicStreamTerminalCorrupt => FaultKind::Internal,
        Fault::PublicTranscriptTooLarge => FaultKind::InvalidParams,
        Fault::PublicationFaultDisabled => FaultKind::InvalidRequest,
        Fault::PushNotificationNotSupported => FaultKind::PushNotificationNotSupported,
        Fault::QuotaAuthorityUnavailable => FaultKind::QuotaUnavailable,
        Fault::QuotaBucketChargeFailed => FaultKind::Internal,
        Fault::QuotaDenialDiagnosticsCorrupt => FaultKind::Internal,
        Fault::QuotaDiagnosticsCorrupt => FaultKind::Internal,
        Fault::QuotaExceeded => FaultKind::QuotaExceeded,
        Fault::QuotaGcBatch => FaultKind::InvalidParams,
        Fault::QuotaGcCorrupt => FaultKind::Internal,
        Fault::QuotaIntentBindingMismatch => FaultKind::InvalidRequest,
        Fault::QuotaIntentKeyConflict => FaultKind::InvalidRequest,
        Fault::QuotaIntentOperationMismatch => FaultKind::InvalidRequest,
        Fault::QuotaIntentRequiredForReplay => FaultKind::InvalidRequest,
        Fault::QuotaLeaseReclaimBatch => FaultKind::InvalidParams,
        Fault::QuotaLeaseReclaimCountCorrupt => FaultKind::Internal,
        Fault::QuotaLeaseTimeOverflow => FaultKind::InvalidRequest,
        Fault::QuotaReservationExpired => FaultKind::InvalidRequest,
        Fault::QuotaReservationKeyConflict => FaultKind::InvalidRequest,
        Fault::QuotaReservationNotBound => FaultKind::InvalidRequest,
        Fault::QuotaReservationRequiredForReplay => FaultKind::InvalidRequest,
        Fault::QuotaReservationScopeMismatch => FaultKind::InvalidRequest,
        Fault::ReceiverBudgetExceeded => FaultKind::InvalidParams,
        Fault::ReceiverByteCountOverflow => FaultKind::InvalidParams,
        Fault::ReceiverEnvelopeUnreserved => FaultKind::InvalidParams,
        Fault::ReceiverEpochCorrupt => FaultKind::Internal,
        Fault::ReceiverEpochOverflow => FaultKind::InvalidParams,
        Fault::ReceiverEventMeasurementMissing => FaultKind::Internal,
        Fault::ReceiverFrameCorrupt => FaultKind::Internal,
        Fault::ReceiverLeaseOverflow => FaultKind::InvalidParams,
        Fault::ReceiverLeaseStale => FaultKind::InvalidRequest,
        Fault::ReceiverLeaseUnreserved => FaultKind::InvalidParams,
        Fault::ReceiverMeasurementAbsent => FaultKind::Internal,
        Fault::ReceiverMeasurementCorrupt => FaultKind::Internal,
        Fault::ReceiverMeasurementIncomplete => FaultKind::Internal,
        Fault::ReceiverMeasurementOverflow => FaultKind::Internal,
        Fault::ReceiverOutputMeasurementMissing => FaultKind::Internal,
        Fault::ReceiverPayloadConflict => FaultKind::Internal,
        Fault::ReceiverReclaimFailed => FaultKind::Internal,
        Fault::ReceiverReconciliationStale => FaultKind::Internal,
        Fault::ReceiverRenewalOverflow => FaultKind::InvalidParams,
        Fault::ReceiverReplayCorrupt => FaultKind::Internal,
        Fault::ReceiverTerminationCorrupt => FaultKind::Internal,
        Fault::ReceiverTranscriptTooLarge => FaultKind::InvalidParams,
        Fault::ReceiverTranscriptTooLong => FaultKind::InvalidParams,
        Fault::RetainedPrincipalCorrupt => FaultKind::Internal,
        Fault::RetainedTenantCorrupt => FaultKind::Internal,
        Fault::RevisionExhausted => FaultKind::Internal,
        Fault::SenderAttemptCorrupt => FaultKind::Internal,
        Fault::SnapshotCapacityReached => FaultKind::Internal,
        Fault::SnapshotClockExhausted => FaultKind::Internal,
        Fault::StoredContinuationCorrupt => FaultKind::Internal,
        Fault::StoredEventBudgetCorrupt => FaultKind::Internal,
        Fault::StoredEventCorrupt => FaultKind::Internal,
        Fault::StoredExecutionBudgetCorrupt => FaultKind::Internal,
        Fault::StoredFinalResultCorrupt => FaultKind::Internal,
        Fault::StoredIdempotencyCorrupt => FaultKind::Internal,
        Fault::StoredOutputBudgetCorrupt => FaultKind::Internal,
        Fault::StoredStreamFrameCorrupt => FaultKind::Internal,
        Fault::StoredStreamTranscriptCorrupt => FaultKind::Internal,
        Fault::StoredTaskCorrupt => FaultKind::Internal,
        Fault::StreamCompletionStale => FaultKind::Internal,
        Fault::StreamNotBound => FaultKind::InvalidRequest,
        Fault::StreamProgressStale => FaultKind::Internal,
        Fault::StreamReplayCursorCorrupt => FaultKind::Internal,
        Fault::StreamTranscriptCorrupt => FaultKind::Internal,
        Fault::SubscriptionBaselineCorrupt => FaultKind::Internal,
        Fault::SubscriptionCursorCorrupt => FaultKind::Internal,
        Fault::SubscriptionTranscriptCorrupt => FaultKind::Internal,
        Fault::TaskAlreadyExists => FaultKind::InvalidRequest,
        Fault::TaskCapacityReached => FaultKind::Internal,
        Fault::TaskNoLongerAcceptsContinuation => FaultKind::UnsupportedOperation,
        Fault::TaskNotCancelable => FaultKind::TaskNotCancelable,
        Fault::TaskNotFound => FaultKind::TaskNotFound,
        Fault::TaskRevisionCorrupt => FaultKind::Internal,
        Fault::TestPoolHoldDisabled => FaultKind::Internal,
        Fault::TestTenantHoldDisabled => FaultKind::Internal,
        Fault::TransactionCommitFailed => FaultKind::Internal,
        Fault::TransactionFailed => FaultKind::Internal,
        Fault::TransactionRetryLimit => FaultKind::Internal,
    }
}

/// Whether a refusal reports a failure of the authority itself.
pub open spec fn is_internal(fault: Fault) -> bool {
    kind_of(fault) == FaultKind::Internal
}

/// Whether the caller is told what a refusal is about.
pub open spec fn names_resource(kind: FaultKind) -> bool {
    kind == FaultKind::TaskNotFound || kind == FaultKind::TaskNotCancelable
}

/// What the caller is told about a task or another resource.
pub open spec fn told_text(fault: Fault, id: Seq<char>) -> Seq<char> {
    if names_resource(kind_of(fault)) {
        fault_text(fault) + ": "@ + id
    } else {
        fault_text(fault)
    }
}

/// The text of a refusal, without what it is about.
pub open spec fn fault_text(fault: Fault) -> Seq<char> {
    match fault {
        Fault::AdmissionPayloadTooLarge => "durable admission payload exceeds limit"@,
        Fault::AdmissionTaskMismatch => "admission task and result must exactly match the canonical request"@,
        Fault::ArtifactBackupLeaseCorrupt => "artifact backup lease corrupt"@,
        Fault::ArtifactBackupUnavailable => "artifact backup object unavailable"@,
        Fault::ArtifactBindingStale => "artifact receiver binding is stale"@,
        Fault::ArtifactGcCorrupt => "artifact gc row corrupt"@,
        Fault::ArtifactGcFenceLost => "artifact gc fence lost"@,
        Fault::ArtifactGcUnsupported => "artifact gc is unsupported"@,
        Fault::ArtifactHoldUnavailable => "artifact hold object unavailable"@,
        Fault::ArtifactIntegrityFailed => "artifact integrity verification failed"@,
        Fault::ArtifactLeaseOverflow => "artifact lease overflow"@,
        Fault::ArtifactMetadataCorrupt => "artifact metadata corrupt"@,
        Fault::ArtifactOrphanOwnershipLost => "artifact orphan ownership lost"@,
        Fault::ArtifactOrphanScanUnsupported => "artifact orphan scanning is unsupported"@,
        Fault::ArtifactPayloadCorrupt => "artifact payload is corrupt"@,
        Fault::ArtifactPayloadTooLarge => "artifact payload exceeds configured limit"@,
        Fault::ArtifactPromotionCorrupt => "artifact promotion row corrupt"@,
        Fault::ArtifactPromotionIntegrityFailed => "artifact promotion integrity failed"@,
        Fault::ArtifactPromotionUnsupported => "artifact promotion is unsupported"@,
        Fault::ArtifactPublicationUnsupported => "artifact publication is unsupported"@,
        Fault::ArtifactQuarantined => "artifact is quarantined"@,
        Fault::ArtifactQuotaIntentMismatch => "artifact request quota intent mismatch"@,
        Fault::ArtifactRegistrationConflict => "artifact registration conflicts with immutable state"@,
        Fault::ArtifactResolutionUnsupported => "artifact resolution is unsupported"@,
        Fault::ArtifactRetentionOverflow => "artifact retention overflow"@,
        Fault::ArtifactStageOrphaned => "artifact stage is owned by orphan cleanup"@,
        Fault::ArtifactStagingFailed => "artifact staging failed"@,
        Fault::AuthorizationRetentionConfigInvalid => "authorization retention configuration invalid"@,
        Fault::AuthorizedAdmissionScopeMismatch => "authorized admission scope mismatch"@,
        Fault::AuthorizedCancellationScopeMismatch => "authorized cancellation scope mismatch"@,
        Fault::AuthorizedContinuationScopeMismatch => "authorized continuation scope mismatch"@,
        Fault::AuthorizedListScopeMismatch => "authorized list scope mismatch"@,
        Fault::AuthorizedReadScopeMismatch => "authorized read scope mismatch"@,
        Fault::AuthorizedReplayScopeMismatch => "authorized replay scope mismatch"@,
        Fault::CallbackAttemptCorrupt => "callback attempt corrupt"@,
        Fault::CallbackConfigCapacity => "callback config capacity reached"@,
        Fault::CallbackConfigCapacityParams => "callback config capacity reached"@,
        Fault::CallbackConfigConflict => "callback config id is already bound to different semantics"@,
        Fault::CallbackConfigStateCorrupt => "callback config state corrupt"@,
        Fault::CallbackDeliveryStateCorrupt => "callback delivery state corrupt"@,
        Fault::CallbackEgressOverflow => "callback public egress size overflow"@,
        Fault::CallbackEnrollmentCorrupt => "callback enrollment corrupt"@,
        Fault::CallbackEnrollmentNotAuthorized => "callback enrollment is not authorized"@,
        Fault::CallbackEnrollmentNotAuthorizedParams => "callback enrollment is not authorized"@,
        Fault::CallbackFenceCorrupt => "callback fence corrupt"@,
        Fault::CallbackFenceStale => "stale callback delivery fence"@,
        Fault::CallbackPolicyCorrupt => "callback policy corrupt"@,
        Fault::CallbackTenantCapacity => "callback tenant config capacity reached"@,
        Fault::CallbackTerminalFaultDisabled => "callback terminal fault injection is disabled"@,
        Fault::CancellationUnencodable => "failed to encode cancellation task"@,
        Fault::CanonicalStreamResultCorrupt => "canonical stream result is corrupt"@,
        Fault::ClaimableOutboxUnreserved => "claimable outbox has no execution reservation"@,
        Fault::ContinuationPayloadTooLarge => "durable continuation payload exceeds limit"@,
        Fault::ContinuationTaskMismatch => "continuation task identity mismatch"@,
        Fault::DeadLetterBindingCorrupt => "dead-letter idempotency binding is corrupt"@,
        Fault::DeadLetterTaskLost => "dead-letter task arbitration failed"@,
        Fault::DeadLetterUnencodable => "dead-letter task encoding failed"@,
        Fault::DeniedAuditNotDeny => "denied audit must contain a deny decision"@,
        Fault::DispatchPayloadConflict => "dispatch identity is already bound to another payload"@,
        Fault::DispatchReservationConflict => "dispatch identity is already bound to another execution reservation"@,
        Fault::ExecutionBudgetMissing => "execution quota budget is missing"@,
        Fault::ExecutionEventBudgetCorrupt => "execution event budget is corrupt"@,
        Fault::ExecutionOutputBudgetCorrupt => "execution output budget is corrupt"@,
        Fault::ExecutionReceiptsCorrupt => "execution reservation receipts are corrupt"@,
        Fault::ExecutionRefundFailed => "execution reservation refund failed"@,
        Fault::ExecutionRefundFenceStale => "execution reservation refund fence is stale"@,
        Fault::ExecutionReservationAbsent => "terminal workflow has no execution reservation"@,
        Fault::ExecutionReservationBudgetCorrupt => "execution reservation budget is corrupt"@,
        Fault::ExecutionReservationIncomplete => "execution reservation binding is incomplete"@,
        Fault::ExecutionReservationKeyConflict => "execution reservation key conflict"@,
        Fault::ExecutionReservationPolicyCorrupt => "execution reservation policy revision is corrupt"@,
        Fault::ExecutionReservationRequiredForReplay => "execution reservation is required for replay"@,
        Fault::ExecutionReservationVersionCorrupt => "execution reservation version is corrupt"@,
        Fault::ExecutionSettlementBindingCorrupt => "execution reservation settlement binding is corrupt"@,
        Fault::ExecutionSettlementConflict => "execution reservation settlement conflicts"@,
        Fault::ExecutionSettlementFenceStale => "execution reservation settlement fence is stale"@,
        Fault::ExecutionUsageExceedsReceipt => "execution reservation measured usage exceeds receipt"@,
        Fault::FinalAttemptFenceCorrupt => "expired final attempt fence is corrupt"@,
        Fault::FinalDeadLetterFenceStale => "expired final dead-letter fence is stale"@,
        Fault::FinalReceiverFenceStale => "final attempt receiver fence is stale"@,
        Fault::HistoryLengthOutOfRange => "historyLength must be between 0 and 100"@,
        Fault::IdempotencyAdmissionConflict =>
            "idempotency key is already bound to different request or admission semantics"@,
        Fault::IdempotencyConflict => "idempotency key is already bound to different request semantics"@,
        Fault::IdempotencyContinuationConflict =>
            "idempotency key is already bound to different request or continuation semantics"@,
        Fault::InjectedPublicationFault => "injected artifact publication fault"@,
        Fault::InvalidAgentResponse => "invalid agent response"@,
        Fault::InvalidArtifactBackupLease => "invalid artifact backup lease"@,
        Fault::InvalidArtifactBackupRenewal => "invalid artifact backup renewal"@,
        Fault::InvalidArtifactGcLease => "invalid artifact gc lease"@,
        Fault::InvalidArtifactOrphanScan => "invalid artifact orphan scan"@,
        Fault::InvalidArtifactPromotionLease => "invalid artifact promotion lease"@,
        Fault::InvalidArtifactReadPreflight => "invalid artifact read preflight"@,
        Fault::InvalidArtifactRegistration => "invalid artifact registration"@,
        Fault::InvalidAuditProjectionClaim => "invalid audit projection claim"@,
        Fault::InvalidAuditProjectionCleanup => "invalid audit projection cleanup"@,
        Fault::InvalidAuthorizationRetention => "invalid authorization retention cleanup"@,
        Fault::InvalidCallbackGeneration => "invalid callback enrollment generation"@,
        Fault::InvalidCallbackPageToken => "invalid callback page token"@,
        Fault::InvalidDeletionReceipt => "invalid artifact deletion receipt"@,
        Fault::InvalidDeliveryResult => "invalid durable delivery result"@,
        Fault::InvalidDurableAdmission => "invalid durable admission"@,
        Fault::InvalidDurableContinuation => "invalid durable continuation"@,
        Fault::InvalidEventBudget => "invalid event budget"@,
        Fault::InvalidOutboxLease => "invalid outbox lease"@,
        Fault::InvalidOutboxRenewal => "invalid outbox renewal duration"@,
        Fault::InvalidOutputBudget => "invalid output budget"@,
        Fault::InvalidPageToken => "invalid pageToken"@,
        Fault::InvalidProgressFrame => "invalid durable stream progress frame"@,
        Fault::InvalidProjectionKind => "invalid audit projection kind"@,
        Fault::InvalidProjectionSource => "invalid audit projection source"@,
        Fault::InvalidQuotaCapacity => "invalid quota capacity"@,
        Fault::InvalidQuotaLeaseDuration => "invalid quota lease duration"@,
        Fault::InvalidQuotaOverride => "invalid quota override"@,
        Fault::InvalidQuotaRevision => "invalid quota revision"@,
        Fault::InvalidQuotaUnits => "invalid quota units"@,
        Fault::InvalidReceiverEnvelope => "invalid durable receiver envelope"@,
        Fault::InvalidReceiverRenewal => "invalid receiver renewal duration"@,
        Fault::InvalidReceiverReservation => "invalid durable receiver execution reservation"@,
        Fault::InvalidReceiverTermination => "invalid receiver termination"@,
        Fault::ListNormalizationFailed => "failed to normalize task-list request"@,
        Fault::MessageIdRequired => "messageId is required for durable admission"@,
        Fault::OutboxAttemptCorrupt => "outbox attempt is corrupt"@,
        Fault::OutboxBoundCorrupt => "outbox bound is corrupt"@,
        Fault::OutboxErrorTooLong => "outbox error diagnostic exceeds limit"@,
        Fault::OutboxLeaseTimeOverflow => "outbox lease time overflow"@,
        Fault::OutboxPayloadCorrupt => "outbox payload is corrupt"@,
        Fault::OutboxRenewalOverflow => "outbox renewal time overflow"@,
        Fault::PageSizeOutOfRange => "pageSize must be between 1 and 100"@,
        Fault::PersistedPrefixCorrupt => "persisted public stream prefix is corrupt"@,
        Fault::PersistedPrefixDiverges => "persisted public stream prefix diverges from delivery transcript"@,
        Fault::PersistentTaskCorrupt => "persistent task record is corrupt"@,
        Fault::PolicyRevisionTooLarge => "policy revision is too large"@,
        Fault::PublicStreamTerminalCorrupt => "public stream terminal transcript is corrupt"@,
        Fault::PublicTranscriptTooLarge => "public stream transcript exceeds limit"@,
        Fault::PublicationFaultDisabled => "artifact publication fault injection is disabled"@,
        Fault::PushNotificationNotSupported => "push notification not supported"@,
        Fault::QuotaAuthorityUnavailable => "quota authority unavailable"@,
        Fault::QuotaBucketChargeFailed => "quota bucket charge failed"@,
        Fault::QuotaDenialDiagnosticsCorrupt => "quota denial diagnostics are corrupt"@,
        Fault::QuotaDiagnosticsCorrupt => "quota diagnostics are corrupt"@,
        Fault::QuotaExceeded => "quota exceeded"@,
        Fault::QuotaGcBatch => "quota GC max_rows must be between 1 and 1000"@,
        Fault::QuotaGcCorrupt => "quota GC result is corrupt"@,
        Fault::QuotaIntentBindingMismatch => "quota intent binding mismatch"@,
        Fault::QuotaIntentKeyConflict => "quota intent key conflict"@,
        Fault::QuotaIntentOperationMismatch => "quota intent operation mismatch"@,
        Fault::QuotaIntentRequiredForReplay => "quota intent is required for replay"@,
        Fault::QuotaLeaseReclaimBatch => "quota lease reclaim batch_size must be between 1 and 1000"@,
        Fault::QuotaLeaseReclaimCountCorrupt => "quota lease reclaim count is corrupt"@,
        Fault::QuotaLeaseTimeOverflow => "quota lease time overflow"@,
        Fault::QuotaReservationExpired => "quota reservation expired"@,
        Fault::QuotaReservationKeyConflict => "quota reservation key conflict"@,
        Fault::QuotaReservationNotBound => "quota reservation is not bound to this mutation"@,
        Fault::QuotaReservationRequiredForReplay => "quota reservation is required for replay"@,
        Fault::QuotaReservationScopeMismatch => "quota reservation scope mismatch"@,
        Fault::ReceiverBudgetExceeded => "receiver transcript exceeds reserved execution budget"@,
        Fault::ReceiverByteCountOverflow => "receiver transcript byte count overflow"@,
        Fault::ReceiverEnvelopeUnreserved => "durable receiver envelope has no execution reservation"@,
        Fault::ReceiverEpochCorrupt => "receiver epoch corrupt"@,
        Fault::ReceiverEpochOverflow => "receiver lease epoch overflow"@,
        Fault::ReceiverEventMeasurementMissing => "receiver event measurement is missing"@,
        Fault::ReceiverFrameCorrupt => "receiver frame corrupt"@,
        Fault::ReceiverLeaseOverflow => "receiver lease overflow"@,
        Fault::ReceiverLeaseStale => "receiver lease is stale"@,
        Fault::ReceiverLeaseUnreserved => "receiver lease has no execution reservation"@,
        Fault::ReceiverMeasurementAbsent => "terminal workflow has no receiver measurement"@,
        Fault::ReceiverMeasurementCorrupt => "receiver replay measurement is corrupt"@,
        Fault::ReceiverMeasurementIncomplete => "receiver measurement is not complete"@,
        Fault::ReceiverMeasurementOverflow => "receiver output measurement overflow"@,
        Fault::ReceiverOutputMeasurementMissing => "receiver output measurement is missing"@,
        Fault::ReceiverPayloadConflict => "receiver dispatch identity is bound to a conflicting payload"@,
        Fault::ReceiverReclaimFailed => "receiver reclaim failed"@,
        Fault::ReceiverReconciliationStale => "receiver reconciliation fence is stale"@,
        Fault::ReceiverRenewalOverflow => "receiver renewal time overflow"@,
        Fault::ReceiverReplayCorrupt => "receiver replay transcript is corrupt"@,
        Fault::ReceiverTerminationCorrupt => "receiver termination is corrupt"@,
        Fault::ReceiverTranscriptTooLarge => "receiver transcript exceeds byte limit"@,
        Fault::ReceiverTranscriptTooLong => "receiver transcript exceeds limit"@,
        Fault::RetainedPrincipalCorrupt => "retained principal counter is corrupt"@,
        Fault::RetainedTenantCorrupt => "retained tenant counter is corrupt"@,
        Fault::RevisionExhausted => "persistent task revision exhausted"@,
        Fault::SenderAttemptCorrupt => "sender attempt corrupt"@,
        Fault::SnapshotCapacityReached => "task snapshot capacity reached"@,
        Fault::SnapshotClockExhausted => "task snapshot clock exhausted"@,
        Fault::StoredContinuationCorrupt => "stored continuation result is corrupt"@,
        Fault::StoredEventBudgetCorrupt => "stored execution event budget is corrupt"@,
        Fault::StoredEventCorrupt => "stored event corrupt"@,
        Fault::StoredExecutionBudgetCorrupt => "stored execution budget is corrupt"@,
        Fault::StoredFinalResultCorrupt => "stored final result is corrupt"@,
        Fault::StoredIdempotencyCorrupt => "stored idempotency result is corrupt"@,
        Fault::StoredOutputBudgetCorrupt => "stored execution output budget is corrupt"@,
        Fault::StoredStreamFrameCorrupt => "stored stream frame corrupt"@,
        Fault::StoredStreamTranscriptCorrupt => "stored stream transcript corrupt"@,
        Fault::StoredTaskCorrupt => "stored task is corrupt"@,
        Fault::StreamCompletionStale => "stale public stream completion"@,
        Fault::StreamNotBound => "message identity is not bound to a streaming request"@,
        Fault::StreamProgressStale => "stale stream progress"@,
        Fault::StreamReplayCursorCorrupt => "stream replay cursor is corrupt"@,
        Fault::StreamTranscriptCorrupt => "stream transcript is corrupt"@,
        Fault::SubscriptionBaselineCorrupt => "subscription baseline task is corrupt"@,
        Fault::SubscriptionCursorCorrupt => "subscription cursor is corrupt"@,
        Fault::SubscriptionTranscriptCorrupt => "subscription transcript is corrupt"@,
        Fault::TaskAlreadyExists => "task already exists"@,
        Fault::TaskCapacityReached => "task capacity reached"@,
        Fault::TaskNoLongerAcceptsContinuation => "task no longer accepts continuation"@,
        Fault::TaskNotCancelable => "task cannot be canceled"@,
        Fault::TaskNotFound => "task not found"@,
        Fault::TaskRevisionCorrupt => "task revision corrupt"@,
        Fault::TestPoolHoldDisabled => "test pool hold is disabled"@,
        Fault::TestTenantHoldDisabled => "test tenant transaction hold is disabled"@,
        Fault::TransactionCommitFailed => "PostgreSQL transaction commit failed"@,
        Fault::TransactionFailed => "PostgreSQL transaction failed"@,
        Fault::TransactionRetryLimit => "PostgreSQL transaction retry limit reached"@,
    }
}

/// The number that a kind of refusal has on the wire. The kinds of the quota
/// authority get theirs elsewhere.
pub open spec fn wire_code(kind: FaultKind) -> Option<int> {
    match kind {
        FaultKind::InvalidRequest => Some(-32600),
        FaultKind::InvalidParams => Some(-32602),
        FaultKind::Internal => Some(-32603),
        FaultKind::TaskNotFound => Some(-32001),
        FaultKind::TaskNotCancelable => Some(-32002),
        FaultKind::PushNotificationNotSupported => Some(-32003),
        FaultKind::UnsupportedOperation => Some(-32004),
        FaultKind::InvalidAgentResponse => Some(-32006),
        FaultKind::QuotaExceeded => None,
        FaultKind::QuotaUnavailable => None,
    }
}

impl FaultKind {
    /// The number that the kind has on the wire.
    pub fn code(self) -> (r: Option<i32>)
        ensures
            match r {
                Some(code) => wire_code(self) == Some(code as int),
                None => wire_code(self) is None,
            },
    {
        match self {
            FaultKind::InvalidRequest => Some(-32600),
            FaultKind::InvalidParams => Some(-32602),
            FaultKind::Internal => Some(-32603),
            FaultKind::TaskNotFound => Some(-32001),
            FaultKind::TaskNotCancelable => Some(-32002),
            FaultKind::PushNotificationNotSupported => Some(-32003),
            FaultKind::UnsupportedOperation => Some(-32004),
            FaultKind::InvalidAgentResponse => Some(-32006),
            FaultKind::QuotaExceeded => None,
            FaultKind::QuotaUnavailable => None,
        }
    }
}

impl Fault {
    /// How the refusal is classed.
    pub fn kind(self) -> (r: FaultKind)
        ensures
            r == kind_of(self),
    {
        match self {
            Fault::AdmissionPayloadTooLarge => FaultKind::InvalidParams,
            Fault::AdmissionTaskMismatch => FaultKind::InvalidParams,
            Fault::ArtifactBackupLeaseCorrupt => FaultKind::Internal,
            Fault::ArtifactBackupUnavailable => FaultKind::InvalidParams,
            Fault::ArtifactBindingStale => FaultKind::InvalidRequest,
            Fault::ArtifactGcCorrupt => FaultKind::Internal,
            Fault::ArtifactGcFenceLost => FaultKind::Internal,
            Fault::ArtifactGcUnsupported => FaultKind::UnsupportedOperation,
            Fault::ArtifactHoldUnavailable => FaultKind::InvalidParams,
            Fault::ArtifactIntegrityFailed => FaultKind::Internal,
            Fault::ArtifactLeaseOverflow => FaultKind::InvalidParams,
            Fault::ArtifactMetadataCorrupt => FaultKind::Internal,
            Fault::ArtifactOrphanOwnershipLost => FaultKind::Internal,
            Fault::ArtifactOrphanScanUnsupported => FaultKind::UnsupportedOperation,
            Fault::ArtifactPayloadCorrupt => FaultKind::Internal,
            Fault::ArtifactPayloadTooLarge => FaultKind::InvalidRequest,
            Fault::ArtifactPromotionCorrupt => FaultKind::Internal,
            Fault::ArtifactPromotionIntegrityFailed => FaultKind::Internal,
            Fault::ArtifactPromotionUnsupported => FaultKind::UnsupportedOperation,
            Fault::ArtifactPublicationUnsupported => FaultKind::UnsupportedOperation,
            Fault::ArtifactQuarantined => FaultKind::Internal,
            Fault::ArtifactQuotaIntentMismatch => FaultKind::InvalidParams,
            Fault::ArtifactRegistrationConflict => FaultKind::InvalidRequest,
            Fault::ArtifactResolutionUnsupported => FaultKind::UnsupportedOperation,
            Fault::ArtifactRetentionOverflow => FaultKind::InvalidParams,
            Fault::ArtifactStageOrphaned => FaultKind::InvalidRequest,
            Fault::ArtifactStagingFailed => FaultKind::InvalidRequest,
            Fault::AuthorizationRetentionConfigInvalid => FaultKind::Internal,
            Fault::AuthorizedAdmissionScopeMismatch => FaultKind::InvalidRequest,
            Fault::AuthorizedCancellationScopeMismatch => FaultKind::InvalidRequest,
            Fault::AuthorizedContinuationScopeMismatch => FaultKind::InvalidRequest,
            Fault::AuthorizedListScopeMismatch => FaultKind::InvalidRequest,
            Fault::AuthorizedReadScopeMismatch => FaultKind::InvalidRequest,
            Fault::AuthorizedReplayScopeMismatch => FaultKind::InvalidRequest,
            Fault::CallbackAttemptCorrupt => FaultKind::Internal,
            Fault::CallbackConfigCapacity => FaultKind::InvalidRequest,
            Fault::CallbackConfigCapacityParams => FaultKind::InvalidParams,
            Fault::CallbackConfigConflict => FaultKind::InvalidRequest,
            Fault::CallbackConfigStateCorrupt => FaultKind::Internal,
            Fault::CallbackDeliveryStateCorrupt => FaultKind::Internal,
            Fault::CallbackEgressOverflow => FaultKind::Internal,
            Fault::CallbackEnrollmentCorrupt => FaultKind::Internal,
            Fault::CallbackEnrollmentNotAuthorized => FaultKind::InvalidRequest,
            Fault::CallbackEnrollmentNotAuthorizedParams => FaultKind::InvalidParams,
            Fault::CallbackFenceCorrupt => FaultKind::Internal,
            Fault::CallbackFenceStale => FaultKind::InvalidRequest,
            Fault::CallbackPolicyCorrupt => FaultKind::Internal,
            Fault::CallbackTenantCapacity => FaultKind::InvalidParams,
            Fault::CallbackTerminalFaultDisabled => FaultKind::InvalidRequest,
            Fault::CancellationUnencodable => FaultKind::Internal,
            Fault::CanonicalStreamResultCorrupt => FaultKind::Internal,
            Fault::ClaimableOutboxUnreserved => FaultKind::Internal,
            Fault::ContinuationPayloadTooLarge => FaultKind::InvalidParams,
            Fault::ContinuationTaskMismatch => FaultKind::InvalidParams,
            Fault::DeadLetterBindingCorrupt => FaultKind::Internal,
            Fault::DeadLetterTaskLost => FaultKind::Internal,
            Fault::DeadLetterUnencodable => FaultKind::Internal,
            Fault::DeniedAuditNotDeny => FaultKind::InvalidRequest,
            Fault::DispatchPayloadConflict => FaultKind::InvalidRequest,
            Fault::DispatchReservationConflict => FaultKind::InvalidRequest,
            Fault::ExecutionBudgetMissing => FaultKind::InvalidRequest,
            Fault::ExecutionEventBudgetCorrupt => FaultKind::Internal,
            Fault::ExecutionOutputBudgetCorrupt => FaultKind::Internal,
            Fault::ExecutionReceiptsCorrupt => FaultKind::Internal,
            Fault::ExecutionRefundFailed => FaultKind::Internal,
            Fault::ExecutionRefundFenceStale => FaultKind::Internal,
            Fault::ExecutionReservationAbsent => FaultKind::Internal,
            Fault::ExecutionReservationBudgetCorrupt => FaultKind::Internal,
            Fault::ExecutionReservationIncomplete => FaultKind::Internal,
            Fault::ExecutionReservationKeyConflict => FaultKind::InvalidRequest,
            Fault::ExecutionReservationPolicyCorrupt => FaultKind::Internal,
            Fault::ExecutionReservationRequiredForReplay => FaultKind::InvalidRequest,
            Fault::ExecutionReservationVersionCorrupt => FaultKind::Internal,
            Fault::ExecutionSettlementBindingCorrupt => FaultKind::Internal,
            Fault::ExecutionSettlementConflict => FaultKind::Internal,
            Fault::ExecutionSettlementFenceStale => FaultKind::Internal,
            Fault::ExecutionUsageExceedsReceipt => FaultKind::Internal,
            Fault::FinalAttemptFenceCorrupt => FaultKind::Internal,
            Fault::FinalDeadLetterFenceStale => FaultKind::Internal,
            Fault::FinalReceiverFenceStale => FaultKind::Internal,
            Fault::HistoryLengthOutOfRange => FaultKind::InvalidParams,
            Fault::IdempotencyAdmissionConflict => FaultKind::InvalidRequest,
            Fault::IdempotencyConflict => FaultKind::InvalidRequest,
            Fault::IdempotencyContinuationConflict => FaultKind::InvalidRequest,
            Fault::InjectedPublicationFault => FaultKind::Internal,
            Fault::InvalidAgentResponse => FaultKind::InvalidAgentResponse,
            Fault::InvalidArtifactBackupLease => FaultKind::InvalidParams,
            Fault::InvalidArtifactBackupRenewal => FaultKind::InvalidParams,
            Fault::InvalidArtifactGcLease => FaultKind::InvalidParams,
            Fault::InvalidArtifactOrphanScan => FaultKind::InvalidParams,
            Fault::InvalidArtifactPromotionLease => FaultKind::InvalidParams,
            Fault::InvalidArtifactReadPreflight => FaultKind::InvalidParams,
            Fault::InvalidArtifactRegistration => FaultKind::InvalidParams,
            Fault::InvalidAuditProjectionClaim => FaultKind::InvalidRequest,
            Fault::InvalidAuditProjectionCleanup => FaultKind::InvalidRequest,
            Fault::InvalidAuthorizationRetention => FaultKind::InvalidRequest,
            Fault::InvalidCallbackGeneration => FaultKind::InvalidRequest,
            Fault::InvalidCallbackPageToken => FaultKind::InvalidRequest,
            Fault::InvalidDeletionReceipt => FaultKind::InvalidParams,
            Fault::InvalidDeliveryResult => FaultKind::InvalidParams,
            Fault::InvalidDurableAdmission => FaultKind::InvalidParams,
            Fault::InvalidDurableContinuation => FaultKind::InvalidParams,
            Fault::InvalidEventBudget => FaultKind::InvalidRequest,
            Fault::InvalidOutboxLease => FaultKind::InvalidParams,
            Fault::InvalidOutboxRenewal => FaultKind::InvalidParams,
            Fault::InvalidOutputBudget => FaultKind::InvalidRequest,
            Fault::InvalidPageToken => FaultKind::InvalidParams,
            Fault::InvalidProgressFrame => FaultKind::InvalidParams,
            Fault::InvalidProjectionKind => FaultKind::Internal,
            Fault::InvalidProjectionSource => FaultKind::Internal,
            Fault::InvalidQuotaCapacity => FaultKind::InvalidRequest,
            Fault::InvalidQuotaLeaseDuration => FaultKind::InvalidRequest,
            Fault::InvalidQuotaOverride => FaultKind::InvalidRequest,
            Fault::InvalidQuotaRevision => FaultKind::InvalidRequest,
            Fault::InvalidQuotaUnits => FaultKind::InvalidRequest,
            Fault::InvalidReceiverEnvelope => FaultKind::InvalidParams,
            Fault::InvalidReceiverRenewal => FaultKind::InvalidParams,
            Fault::InvalidReceiverReservation => FaultKind::InvalidParams,
            Fault::InvalidReceiverTermination => FaultKind::InvalidParams,
            Fault::ListNormalizationFailed => FaultKind::Internal,
            Fault::MessageIdRequired => FaultKind::InvalidParams,
            Fault::OutboxAttemptCorrupt => FaultKind::Internal,
            Fault::OutboxBoundCorrupt => FaultKind::Internal,
            Fault::OutboxErrorTooLong => FaultKind::InvalidParams,
            Fault::OutboxLeaseTimeOverflow => FaultKind::InvalidParams,
            Fault::OutboxPayloadCorrupt => FaultKind::Internal,
            Fault::OutboxRenewalOverflow => FaultKind::InvalidParams,
            Fault::PageSizeOutOfRange => FaultKind::InvalidParams,
            Fault::PersistedPrefixCorrupt => FaultKind::Internal,
            Fault::PersistedPrefixDiverges => FaultKind::Internal,
            Fault::PersistentTaskCorrupt => FaultKind::Internal,
            Fault::PolicyRevisionTooLarge => FaultKind::InvalidRequest,
            Fault::PublicStreamTerminalCorrupt => FaultKind::Internal,
            Fault::PublicTranscriptTooLarge => FaultKind::InvalidParams,
            Fault::PublicationFaultDisabled => FaultKind::InvalidRequest,
            Fault::PushNotificationNotSupported => FaultKind::PushNotificationNotSupported,
            Fault::QuotaAuthorityUnavailable => FaultKind::QuotaUnavailable,
            Fault::QuotaBucketChargeFailed => FaultKind::Internal,
            Fault::QuotaDenialDiagnosticsCorrupt => FaultKind::Internal,
            Fault::QuotaDiagnosticsCorrupt => FaultKind::Internal,
            Fault::QuotaExceeded => FaultKind::QuotaExceeded,
            Fault::QuotaGcBatch => FaultKind::InvalidParams,
            Fault::QuotaGcCorrupt => FaultKind::Internal,
            Fault::QuotaIntentBindingMismatch => FaultKind::InvalidRequest,
            Fault::QuotaIntentKeyConflict => FaultKind::InvalidRequest,
            Fault::QuotaIntentOperationMismatch => FaultKind::InvalidRequest,
            Fault::QuotaIntentRequiredForReplay => FaultKind::InvalidRequest,
            Fault::QuotaLeaseReclaimBatch => FaultKind::InvalidParams,
            Fault::QuotaLeaseReclaimCountCorrupt => FaultKind::Internal,
            Fault::QuotaLeaseTimeOverflow => FaultKind::InvalidRequest,
            Fault::QuotaReservationExpired => FaultKind::InvalidRequest,
            Fault::QuotaReservationKeyConflict => FaultKind::InvalidRequest,
            Fault::QuotaReservationNotBound => FaultKind::InvalidRequest,
            Fault::QuotaReservationRequiredForReplay => FaultKind::InvalidRequest,
            Fault::QuotaReservationScopeMismatch => FaultKind::InvalidRequest,
            Fault::ReceiverBudgetExceeded => FaultKind::InvalidParams,
            Fault::ReceiverByteCountOverflow => FaultKind::InvalidParams,
            Fault::ReceiverEnvelopeUnreserved => FaultKind::InvalidParams,
            Fault::ReceiverEpochCorrupt => FaultKind::Internal,
            Fault::ReceiverEpochOverflow => FaultKind::InvalidParams,
            Fault::ReceiverEventMeasurementMissing => FaultKind::Internal,
            Fault::ReceiverFrameCorrupt => FaultKind::Internal,
            Fault::ReceiverLeaseOverflow => FaultKind::InvalidParams,
            Fault::ReceiverLeaseStale => FaultKind::InvalidRequest,
            Fault::ReceiverLeaseUnreserved => FaultKind::InvalidParams,
            Fault::ReceiverMeasurementAbsent => FaultKind::Internal,
            Fault::ReceiverMeasurementCorrupt => FaultKind::Internal,
            Fault::ReceiverMeasurementIncomplete => FaultKind::Internal,
            Fault::ReceiverMeasurementOverflow => FaultKind::Internal,
            Fault::ReceiverOutputMeasurementMissing => FaultKind::Internal,
            Fault::ReceiverPayloadConflict => FaultKind::Internal,
            Fault::ReceiverReclaimFailed => FaultKind::Internal,
            Fault::ReceiverReconciliationStale => FaultKind::Internal,
            Fault::ReceiverRenewalOverflow => FaultKind::InvalidParams,
            Fault::ReceiverReplayCorrupt => FaultKind::Internal,
            Fault::ReceiverTerminationCorrupt => FaultKind::Internal,
            Fault::ReceiverTranscriptTooLarge => FaultKind::InvalidParams,
            Fault::ReceiverTranscriptTooLong => FaultKind::InvalidParams,
            Fault::RetainedPrincipalCorrupt => FaultKind::Internal,
            Fault::RetainedTenantCorrupt => FaultKind::Internal,
            Fault::RevisionExhausted => FaultKind::Internal,
            Fault::SenderAttemptCorrupt => FaultKind::Internal,
            Fault::SnapshotCapacityReached => FaultKind::Internal,
            Fault::SnapshotClockExhausted => FaultKind::Internal,
            Fault::StoredContinuationCorrupt => FaultKind::Internal,
            Fault::StoredEventBudgetCorrupt => FaultKind::Internal,
            Fault::StoredEventCorrupt => FaultKind::Internal,
            Fault::StoredExecutionBudgetCorrupt => FaultKind::Internal,
            Fault::StoredFinalResultCorrupt => FaultKind::Internal,
            Fault::StoredIdempotencyCorrupt => FaultKind::Internal,
            Fault::StoredOutputBudgetCorrupt => FaultKind::Internal,
            Fault::StoredStreamFrameCorrupt => FaultKind::Internal,
            Fault::StoredStreamTranscriptCorrupt => FaultKind::Internal,
            Fault::StoredTaskCorrupt => FaultKind::Internal,
            Fault::StreamCompletionStale => FaultKind::Internal,
            Fault::StreamNotBound => FaultKind::InvalidRequest,
            Fault::StreamProgressStale => FaultKind::Internal,
            Fault::StreamReplayCursorCorrupt => FaultKind::Internal,
            Fault::StreamTranscriptCorrupt => FaultKind::Internal,
            Fault::SubscriptionBaselineCorrupt => FaultKind::Internal,
            Fault::SubscriptionCursorCorrupt => FaultKind::Internal,
            Fault::SubscriptionTranscriptCorrupt => FaultKind::Internal,
            Fault::TaskAlreadyExists => FaultKind::InvalidRequest,
            Fault::TaskCapacityReached => FaultKind::Internal,
            Fault::TaskNoLongerAcceptsContinuation => FaultKind::UnsupportedOperation,
            Fault::TaskNotCancelable => FaultKind::TaskNotCancelable,
            Fault::TaskNotFound => FaultKind::TaskNotFound,
            Fault::TaskRevisionCorrupt => FaultKind::Internal,
            Fault::TestPoolHoldDisabled => FaultKind::Internal,
            Fault::TestTenantHoldDisabled => FaultKind::Internal,
            Fault::TransactionCommitFailed => FaultKind::Internal,
            Fault::TransactionFailed => FaultKind::Internal,
            Fault::TransactionRetryLimit => FaultKind::Internal,
        }
    }

    /// Whether the refusal reports a failure of the authority itself.
    pub fn internal(self) -> (r: bool)
        ensures
            r == is_internal(self),
    {
        self.kind() == FaultKind::Internal
    }

    /// The text of the refusal, without what it is about.
    pub fn message(self) -> (r: &'static str)
        ensures
            r@ == fault_text(self),
    {
        match self {
            Fault::AdmissionPayloadTooLarge => "durable admission payload exceeds limit",
            Fault::AdmissionTaskMismatch => "admission task and result must exactly match the canonical request",
            Fault::ArtifactBackupLeaseCorrupt => "artifact backup lease corrupt",
            Fault::ArtifactBackupUnavailable => "artifact backup object unavailable",
            Fault::ArtifactBindingStale => "artifact receiver binding is stale",
            Fault::ArtifactGcCorrupt => "artifact gc row corrupt",
            Fault::ArtifactGcFenceLost => "artifact gc fence lost",
            Fault::ArtifactGcUnsupported => "artifact gc is unsupported",
            Fault::ArtifactHoldUnavailable => "artifact hold object unavailable",
            Fault::ArtifactIntegrityFailed => "artifact integrity verification failed",
            Fault::ArtifactLeaseOverflow => "artifact lease overflow",
            Fault::ArtifactMetadataCorrupt => "artifact metadata corrupt",
            Fault::ArtifactOrphanOwnershipLost => "artifact orphan ownership lost",
            Fault::ArtifactOrphanScanUnsupported => "artifact orphan scanning is unsupported",
            Fault::ArtifactPayloadCorrupt => "artifact payload is corrupt",
            Fault::ArtifactPayloadTooLarge => "artifact payload exceeds configured limit",
            Fault::ArtifactPromotionCorrupt => "artifact promotion row corrupt",
            Fault::ArtifactPromotionIntegrityFailed => "artifact promotion integrity failed",
            Fault::ArtifactPromotionUnsupported => "artifact promotion is unsupported",
            Fault::ArtifactPublicationUnsupported => "artifact publication is unsupported",
            Fault::ArtifactQuarantined => "artifact is quarantined",
            Fault::ArtifactQuotaIntentMismatch => "artifact request quota intent mismatch",
            Fault::ArtifactRegistrationConflict => "artifact registration conflicts with immutable state",
            Fault::ArtifactResolutionUnsupported => "artifact resolution is unsupported",
            Fault::ArtifactRetentionOverflow => "artifact retention overflow",
            Fault::ArtifactStageOrphaned => "artifact stage is owned by orphan cleanup",
            Fault::ArtifactStagingFailed => "artifact staging failed",
            Fault::AuthorizationRetentionConfigInvalid => "authorization retention configuration invalid",
            Fault::AuthorizedAdmissionScopeMismatch => "authorized admission scope mismatch",
            Fault::AuthorizedCancellationScopeMismatch => "authorized cancellation scope mismatch",
            Fault::AuthorizedContinuationScopeMismatch => "authorized continuation scope mismatch",
            Fault::AuthorizedListScopeMismatch => "authorized list scope mismatch",
            Fault::AuthorizedReadScopeMismatch => "authorized read scope mismatch",
            Fault::AuthorizedReplayScopeMismatch => "authorized replay scope mismatch",
            Fault::CallbackAttemptCorrupt => "callback attempt corrupt",
            Fault::CallbackConfigCapacity => "callback config capacity reached",
            Fault::CallbackConfigCapacityParams => "callback config capacity reached",
            Fault::CallbackConfigConflict => "callback config id is already bound to different semantics",
            Fault::CallbackConfigStateCorrupt => "callback config state corrupt",
            Fault::CallbackDeliveryStateCorrupt => "callback delivery state corrupt",
            Fault::CallbackEgressOverflow => "callback public egress size overflow",
            Fault::CallbackEnrollmentCorrupt => "callback enrollment corrupt",
            Fault::CallbackEnrollmentNotAuthorized => "callback enrollment is not authorized",
            Fault::CallbackEnrollmentNotAuthorizedParams => "callback enrollment is not authorized",
            Fault::CallbackFenceCorrupt => "callback fence corrupt",
            Fault::CallbackFenceStale => "stale callback delivery fence",
            Fault::CallbackPolicyCorrupt => "callback policy corrupt",
            Fault::CallbackTenantCapacity => "callback tenant config capacity reached",
            Fault::CallbackTerminalFaultDisabled => "callback terminal fault injection is disabled",
            Fault::CancellationUnencodable => "failed to encode cancellation task",
            Fault::CanonicalStreamResultCorrupt => "canonical stream result is corrupt",
            Fault::ClaimableOutboxUnreserved => "claimable outbox has no execution reservation",
            Fault::ContinuationPayloadTooLarge => "durable continuation payload exceeds limit",
            Fault::ContinuationTaskMismatch => "continuation task identity mismatch",
            Fault::DeadLetterBindingCorrupt => "dead-letter idempotency binding is corrupt",
            Fault::DeadLetterTaskLost => "dead-letter task arbitration failed",
            Fault::DeadLetterUnencodable => "dead-letter task encoding failed",
            Fault::DeniedAuditNotDeny => "denied audit must contain a deny decision",
            Fault::DispatchPayloadConflict => "dispatch identity is already bound to another payload",
            Fault::DispatchReservationConflict => "dispatch identity is already bound to another execution reservation",
            Fault::ExecutionBudgetMissing => "execution quota budget is missing",
            Fault::ExecutionEventBudgetCorrupt => "execution event budget is corrupt",
            Fault::ExecutionOutputBudgetCorrupt => "execution output budget is corrupt",
            Fault::ExecutionReceiptsCorrupt => "execution reservation receipts are corrupt",
            Fault::ExecutionRefundFailed => "execution reservation refund failed",
            Fault::ExecutionRefundFenceStale => "execution reservation refund fence is stale",
            Fault::ExecutionReservationAbsent => "terminal workflow has no execution reservation",
            Fault::ExecutionReservationBudgetCorrupt => "execution reservation budget is corrupt",
            Fault::ExecutionReservationIncomplete => "execution reservation binding is incomplete",
            Fault::ExecutionReservationKeyConflict => "execution reservation key conflict",
            Fault::ExecutionReservationPolicyCorrupt => "execution reservation policy revision is corrupt",
            Fault::ExecutionReservationRequiredForReplay => "execution reservation is required for replay",
            Fault::ExecutionReservationVersionCorrupt => "execution reservation version is corrupt",
            Fault::ExecutionSettlementBindingCorrupt => "execution reservation settlement binding is corrupt",
            Fault::ExecutionSettlementConflict => "execution reservation settlement conflicts",
            Fault::ExecutionSettlementFenceStale => "execution reservation settlement fence is stale",
            Fault::ExecutionUsageExceedsReceipt => "execution reservation measured usage exceeds receipt",
            Fault::FinalAttemptFenceCorrupt => "expired final attempt fence is corrupt",
            Fault::FinalDeadLetterFenceStale => "expired final dead-letter fence is stale",
            Fault::FinalReceiverFenceStale => "final attempt receiver fence is stale",
            Fault::HistoryLengthOutOfRange => "historyLength must be between 0 and 100",
            Fault::IdempotencyAdmissionConflict =>
                "idempotency key is already bound to different request or admission semantics",
            Fault::IdempotencyConflict => "idempotency key is already bound to different request semantics",
            Fault::IdempotencyContinuationConflict =>
                "idempotency key is already bound to different request or continuation semantics",
            Fault::InjectedPublicationFault => "injected artifact publication fault",
            Fault::InvalidAgentResponse => "invalid agent response",
            Fault::InvalidArtifactBackupLease => "invalid artifact backup lease",
            Fault::InvalidArtifactBackupRenewal => "invalid artifact backup renewal",
            Fault::InvalidArtifactGcLease => "invalid artifact gc lease",
            Fault::InvalidArtifactOrphanScan => "invalid artifact orphan scan",
            Fault::InvalidArtifactPromotionLease => "invalid artifact promotion lease",
            Fault::InvalidArtifactReadPreflight => "invalid artifact read preflight",
            Fault::InvalidArtifactRegistration => "invalid artifact registration",
            Fault::InvalidAuditProjectionClaim => "invalid audit projection claim",
            Fault::InvalidAuditProjectionCleanup => "invalid audit projection cleanup",
            Fault::InvalidAuthorizationRetention => "invalid authorization retention cleanup",
            Fault::InvalidCallbackGeneration => "invalid callback enrollment generation",
            Fault::InvalidCallbackPageToken => "invalid callback page token",
            Fault::InvalidDeletionReceipt => "invalid artifact deletion receipt",
            Fault::InvalidDeliveryResult => "invalid durable delivery result",
            Fault::InvalidDurableAdmission => "invalid durable admission",
            Fault::InvalidDurableContinuation => "invalid durable continuation",
            Fault::InvalidEventBudget => "invalid event budget",
            Fault::InvalidOutboxLease => "invalid outbox lease",
            Fault::InvalidOutboxRenewal => "invalid outbox renewal duration",
            Fault::InvalidOutputBudget => "invalid output budget",
            Fault::InvalidPageToken => "invalid pageToken",
            Fault::InvalidProgressFrame => "invalid durable stream progress frame",
            Fault::InvalidProjectionKind => "invalid audit projection kind",
            Fault::InvalidProjectionSource => "invalid audit projection source",
            Fault::InvalidQuotaCapacity => "invalid quota capacity",
            Fault::InvalidQuotaLeaseDuration => "invalid quota lease duration",
            Fault::InvalidQuotaOverride => "invalid quota override",
            Fault::InvalidQuotaRevision => "invalid quota revision",
            Fault::InvalidQuotaUnits => "invalid quota units",
            Fault::InvalidReceiverEnvelope => "invalid durable receiver envelope",
            Fault::InvalidReceiverRenewal => "invalid receiver renewal duration",
            Fault::InvalidReceiverReservation => "invalid durable receiver execution reservation",
            Fault::InvalidReceiverTermination => "invalid receiver termination",
            Fault::ListNormalizationFailed => "failed to normalize task-list request",
            Fault::MessageIdRequired => "messageId is required for durable admission",
            Fault::OutboxAttemptCorrupt => "outbox attempt is corrupt",
            Fault::OutboxBoundCorrupt => "outbox bound is corrupt",
            Fault::OutboxErrorTooLong => "outbox error diagnostic exceeds limit",
            Fault::OutboxLeaseTimeOverflow => "outbox lease time overflow",
            Fault::OutboxPayloadCorrupt => "outbox payload is corrupt",
            Fault::OutboxRenewalOverflow => "outbox renewal time overflow",
            Fault::PageSizeOutOfRange => "pageSize must be between 1 and 100",
            Fault::PersistedPrefixCorrupt => "persisted public stream prefix is corrupt",
            Fault::PersistedPrefixDiverges => "persisted public stream prefix diverges from delivery transcript",
            Fault::PersistentTaskCorrupt => "persistent task record is corrupt",
            Fault::PolicyRevisionTooLarge => "policy revision is too large",
            Fault::PublicStreamTerminalCorrupt => "public stream terminal transcript is corrupt",
            Fault::PublicTranscriptTooLarge => "public stream transcript exceeds limit",
            Fault::PublicationFaultDisabled => "artifact publication fault injection is disabled",
            Fault::PushNotificationNotSupported => "push notification not supported",
            Fault::QuotaAuthorityUnavailable => "quota authority unavailable",
            Fault::QuotaBucketChargeFailed => "quota bucket charge failed",
            Fault::QuotaDenialDiagnosticsCorrupt => "quota denial diagnostics are corrupt",
            Fault::QuotaDiagnosticsCorrupt => "quota diagnostics are corrupt",
            Fault::QuotaExceeded => "quota exceeded",
            Fault::QuotaGcBatch => "quota GC max_rows must be between 1 and 1000",
            Fault::QuotaGcCorrupt => "quota GC result is corrupt",
            Fault::QuotaIntentBindingMismatch => "quota intent binding mismatch",
            Fault::QuotaIntentKeyConflict => "quota intent key conflict",
            Fault::QuotaIntentOperationMismatch => "quota intent operation mismatch",
            Fault::QuotaIntentRequiredForReplay => "quota intent is required for replay",
            Fault::QuotaLeaseReclaimBatch => "quota lease reclaim batch_size must be between 1 and 1000",
            Fault::QuotaLeaseReclaimCountCorrupt => "quota lease reclaim count is corrupt",
            Fault::QuotaLeaseTimeOverflow => "quota lease time overflow",
            Fault::QuotaReservationExpired => "quota reservation expired",
            Fault::QuotaReservationKeyConflict => "quota reservation key conflict",
            Fault::QuotaReservationNotBound => "quota reservation is not bound to this mutation",
            Fault::QuotaReservationRequiredForReplay => "quota reservation is required for replay",
            Fault::QuotaReservationScopeMismatch => "quota reservation scope mismatch",
            Fault::ReceiverBudgetExceeded => "receiver transcript exceeds reserved execution budget",
            Fault::ReceiverByteCountOverflow => "receiver transcript byte count overflow",
            Fault::ReceiverEnvelopeUnreserved => "durable receiver envelope has no execution reservation",
            Fault::ReceiverEpochCorrupt => "receiver epoch corrupt",
            Fault::ReceiverEpochOverflow => "receiver lease epoch overflow",
            Fault::ReceiverEventMeasurementMissing => "receiver event measurement is missing",
            Fault::ReceiverFrameCorrupt => "receiver frame corrupt",
            Fault::ReceiverLeaseOverflow => "receiver lease overflow",
            Fault::ReceiverLeaseStale => "receiver lease is stale",
            Fault::ReceiverLeaseUnreserved => "receiver lease has no execution reservation",
            Fault::ReceiverMeasurementAbsent => "terminal workflow has no receiver measurement",
            Fault::ReceiverMeasurementCorrupt => "receiver replay measurement is corrupt",
            Fault::ReceiverMeasurementIncomplete => "receiver measurement is not complete",
            Fault::ReceiverMeasurementOverflow => "receiver output measurement overflow",
            Fault::ReceiverOutputMeasurementMissing => "receiver output measurement is missing",
            Fault::ReceiverPayloadConflict => "receiver dispatch identity is bound to a conflicting payload",
            Fault::ReceiverReclaimFailed => "receiver reclaim failed",
            Fault::ReceiverReconciliationStale => "receiver reconciliation fence is stale",
            Fault::ReceiverRenewalOverflow => "receiver renewal time overflow",
            Fault::ReceiverReplayCorrupt => "receiver replay transcript is corrupt",
            Fault::ReceiverTerminationCorrupt => "receiver termination is corrupt",
            Fault::ReceiverTranscriptTooLarge => "receiver transcript exceeds byte limit",
            Fault::ReceiverTranscriptTooLong => "receiver transcript exceeds limit",
            Fault::RetainedPrincipalCorrupt => "retained principal counter is corrupt",
            Fault::RetainedTenantCorrupt => "retained tenant counter is corrupt",
            Fault::RevisionExhausted => "persistent task revision exhausted",
            Fault::SenderAttemptCorrupt => "sender attempt corrupt",
            Fault::SnapshotCapacityReached => "task snapshot capacity reached",
            Fault::SnapshotClockExhausted => "task snapshot clock exhausted",
            Fault::StoredContinuationCorrupt => "stored continuation result is corrupt",
            Fault::StoredEventBudgetCorrupt => "stored execution event budget is corrupt",
            Fault::StoredEventCorrupt => "stored event corrupt",
            Fault::StoredExecutionBudgetCorrupt => "stored execution budget is corrupt",
            Fault::StoredFinalResultCorrupt => "stored final result is corrupt",
            Fault::StoredIdempotencyCorrupt => "stored idempotency result is corrupt",
            Fault::StoredOutputBudgetCorrupt => "stored execution output budget is corrupt",
            Fault::StoredStreamFrameCorrupt => "stored stream frame corrupt",
            Fault::StoredStreamTranscriptCorrupt => "stored stream transcript corrupt",
            Fault::StoredTaskCorrupt => "stored task is corrupt",
            Fault::StreamCompletionStale => "stale public stream completion",
            Fault::StreamNotBound => "message identity is not bound to a streaming request",
            Fault::StreamProgressStale => "stale stream progress",
            Fault::StreamReplayCursorCorrupt => "stream replay cursor is corrupt",
            Fault::StreamTranscriptCorrupt => "stream transcript is corrupt",
            Fault::SubscriptionBaselineCorrupt => "subscription baseline task is corrupt",
            Fault::SubscriptionCursorCorrupt => "subscription cursor is corrupt",
            Fault::SubscriptionTranscriptCorrupt => "subscription transcript is corrupt",
            Fault::TaskAlreadyExists => "task already exists",
            Fault::TaskCapacityReached => "task capacity reached",
            Fault::TaskNoLongerAcceptsContinuation => "task no longer accepts continuation",
            Fault::TaskNotCancelable => "task cannot be canceled",
            Fault::TaskNotFound => "task not found",
            Fault::TaskRevisionCorrupt => "task revision corrupt",
            Fault::TestPoolHoldDisabled => "test pool hold is disabled",
            Fault::TestTenantHoldDisabled => "test tenant transaction hold is disabled",
            Fault::TransactionCommitFailed => "PostgreSQL transaction commit failed",
            Fault::TransactionFailed => "PostgreSQL transaction failed",
            Fault::TransactionRetryLimit => "PostgreSQL transaction retry limit reached",
        }
    }

    /// What the caller is told about a task or another resource.
    pub fn told(self, id: &str) -> (r: String)
        ensures
            r@ == told_text(self, id@),
    {
        let mut out = self.message().to_owned();
        match self.kind() {
            FaultKind::TaskNotFound | FaultKind::TaskNotCancelable => {
                out.append(": ");
                out.append(id);
            },
            _ => {},
        }
        out
    }
}

/// The caller answers for bad parameters, bad requests, unknown tasks, tasks that cannot be
/// canceled, what is not supported and spent quotas, the receiver for bad responses; every other
/// refusal is a failure of the authority itself.
pub proof fn law_refusals_are_of_their_kinds(fault: Fault)
    ensures
        kind_of(fault) is InvalidParams <==> fault is AdmissionPayloadTooLarge
            || fault is AdmissionTaskMismatch
            || fault is ArtifactBackupUnavailable
            || fault is ArtifactHoldUnavailable
            || fault is ArtifactLeaseOverflow
            || fault is ArtifactQuotaIntentMismatch
            || fault is ArtifactRetentionOverflow
            || fault is CallbackConfigCapacityParams
            || fault is CallbackEnrollmentNotAuthorizedParams
            || fault is CallbackTenantCapacity
            || fault is ContinuationPayloadTooLarge
            || fault is ContinuationTaskMismatch
            || fault is HistoryLengthOutOfRange
            || fault is InvalidArtifactBackupLease
            || fault is InvalidArtifactBackupRenewal
            || fault is InvalidArtifactGcLease
            || fault is InvalidArtifactOrphanScan
            || fault is InvalidArtifactPromotionLease
            || fault is InvalidArtifactReadPreflight
            || fault is InvalidArtifactRegistration
            || fault is InvalidDeletionReceipt
            || fault is InvalidDeliveryResult
            || fault is InvalidDurableAdmission
            || fault is InvalidDurableContinuation
            || fault is InvalidOutboxLease
            || fault is InvalidOutboxRenewal
            || fault is InvalidPageToken
            || fault is InvalidProgressFrame
            || fault is InvalidReceiverEnvelope
            || fault is InvalidReceiverRenewal
            || fault is InvalidReceiverReservation
            || fault is InvalidReceiverTermination
            || fault is MessageIdRequired
            || fault is OutboxErrorTooLong
            || fault is OutboxLeaseTimeOverflow
            || fault is OutboxRenewalOverflow
            || fault is PageSizeOutOfRange
            || fault is PublicTranscriptTooLarge
            || fault is QuotaGcBatch
            || fault is QuotaLeaseReclaimBatch
            || fault is ReceiverBudgetExceeded
            || fault is ReceiverByteCountOverflow
            || fault is ReceiverEnvelopeUnreserved
            || fault is ReceiverEpochOverflow
            || fault is ReceiverLeaseOverflow
            || fault is ReceiverLeaseUnreserved
            || fault is ReceiverRenewalOverflow
            || fault is ReceiverTranscriptTooLarge
            || fault is ReceiverTranscriptTooLong,
        kind_of(fault) is InvalidRequest <==> fault is ArtifactBindingStale
            || fault is ArtifactPayloadTooLarge
            || fault is ArtifactRegistrationConflict
            || fault is ArtifactStageOrphaned
            || fault is ArtifactStagingFailed
            || fault is AuthorizedAdmissionScopeMismatch
            || fault is AuthorizedCancellationScopeMismatch
            || fault is AuthorizedContinuationScopeMismatch
            || fault is AuthorizedListScopeMismatch
            || fault is AuthorizedReadScopeMismatch
            || fault is AuthorizedReplayScopeMismatch
            || fault is CallbackConfigCapacity
            || fault is CallbackConfigConflict
            || fault is CallbackEnrollmentNotAuthorized
            || fault is CallbackFenceStale
            || fault is CallbackTerminalFaultDisabled
            || fault is DeniedAuditNotDeny
            || fault is DispatchPayloadConflict
            || fault is DispatchReservationConflict
            || fault is ExecutionBudgetMissing
            || fault is ExecutionReservationKeyConflict
            || fault is ExecutionReservationRequiredForReplay
            || fault is IdempotencyAdmissionConflict
            || fault is IdempotencyConflict
            || fault is IdempotencyContinuationConflict
            || fault is InvalidAuditProjectionClaim
            || fault is InvalidAuditProjectionCleanup
            || fault is InvalidAuthorizationRetention
            || fault is InvalidCallbackGeneration
            || fault is InvalidCallbackPageToken
            || fault is InvalidEventBudget
            || fault is InvalidOutputBudget
            || fault is InvalidQuotaCapacity
            || fault is InvalidQuotaLeaseDuration
            || fault is InvalidQuotaOverride
            || fault is InvalidQuotaRevision
            || fault is InvalidQuotaUnits
            || fault is PolicyRevisionTooLarge
            || fault is PublicationFaultDisabled
            || fault is QuotaIntentBindingMismatch
            || fault is QuotaIntentKeyConflict
            || fault is QuotaIntentOperationMismatch
            || fault is QuotaIntentRequiredForReplay
            || fault is QuotaLeaseTimeOverflow
            || fault is QuotaReservationExpired
            || fault is QuotaReservationKeyConflict
            || fault is QuotaReservationNotBound
            || fault is QuotaReservationRequiredForReplay
            || fault is QuotaReservationScopeMismatch
            || fault is ReceiverLeaseStale
            || fault is StreamNotBound
            || fault is TaskAlreadyExists,
        kind_of(fault) is UnsupportedOperation <==> fault is ArtifactGcUnsupported
            || fault is ArtifactOrphanScanUnsupported
            || fault is ArtifactPromotionUnsupported
            || fault is ArtifactPublicationUnsupported
            || fault is ArtifactResolutionUnsupported
            || fault is TaskNoLongerAcceptsContinuation,
        kind_of(fault) is InvalidAgentResponse <==> fault is InvalidAgentResponse,
        kind_of(fault) is PushNotificationNotSupported <==> fault is PushNotificationNotSupported,
        kind_of(fault) is QuotaUnavailable <==> fault is QuotaAuthorityUnavailable,
        kind_of(fault) is QuotaExceeded <==> fault is QuotaExceeded,
        kind_of(fault) is TaskNotCancelable <==> fault is TaskNotCancelable,
        kind_of(fault) is TaskNotFound <==> fault is TaskNotFound,
        is_internal(fault) <==> kind_of(fault) is Internal,
{
}

/// Kinds that have a number on the wire have different ones: those of JSON-RPC for what it names,
/// and for the rest those from -32001 down. The quota authority has none here.
pub proof fn law_wire_codes_are_distinct(a: FaultKind, b: FaultKind)
    ensures
        wire_code(a) is Some && wire_code(a) == wire_code(b) ==> a == b,
        wire_code(a) is None <==> a is QuotaExceeded || a is QuotaUnavailable,
        wire_code(FaultKind::InvalidRequest) == Some(-32600int),
        wire_code(FaultKind::InvalidParams) == Some(-32602int),
        wire_code(FaultKind::Internal) == Some(-32603int),
        wire_code(FaultKind::TaskNotFound) == Some(-32001int),
        wire_code(FaultKind::TaskNotCancelable) == Some(-32002int),
        wire_code(FaultKind::PushNotificationNotSupported) == Some(-32003int),
        wire_code(FaultKind::UnsupportedOperation) == Some(-32004int),
        wire_code(FaultKind::InvalidAgentResponse) == Some(-32006int),
{
}

/// The caller is told the name of a task that is unknown or cannot be canceled, behind the text of
/// the refusal, and of nothing else.
pub proof fn law_refusals_name_unavailable_tasks(fault: Fault, id: Seq<char>, other: Seq<char>)
    ensures
        kind_of(fault) is TaskNotFound || kind_of(fault) is TaskNotCancelable ==> told_text(fault, id)
            == fault_text(fault) + seq![':', ' '] + id,
        !(kind_of(fault) is TaskNotFound) && !(kind_of(fault) is TaskNotCancelable) ==> told_text(fault, id) == told_text(
            fault,
            other,
        ) && told_text(fault, id) == fault_text(fault),
{
    reveal_strlit(": ");
    assert(": "@ =~= seq![':', ' ']);
}

} // verus!
