//! The transaction runner: bounded retries, and a commit that is never retried.

use vstd::prelude::*;

use crate::fault::Fault;
use crate::text;

verus! {

/// How often a transaction is tried.
pub const MAX_TRANSACTION_ATTEMPTS: usize = 3;

/// Transaction faults that tests inject.
#[derive(Clone, Copy, Debug, PartialEq, Eq, Structural)]
pub enum PostgresTransactionTestFault {
    SerializationFailure,
    DeadlockDetected,
    NonRetryable,
    AmbiguousCommit,
}

/// Where tests interrupt the publication of artifacts.
#[derive(Clone, Copy, Debug, PartialEq, Eq, Structural)]
pub enum ArtifactPublicationTestFault {
    BeforeContentObject,
    AfterContentObject,
    BeforeChunkBatch,
    AfterChunkBatch,
    BeforeManifest,
    AfterManifest,
    BeforeProvenanceBatch,
    AfterProvenanceBatch,
    BeforeReference,
    AfterReference,
    BeforeUploadIntent,
    AfterUploadIntent,
    BeforeReceiverEffect,
    AfterReceiverEffect,
    BeforeReceiverFrames,
    AfterReceiverFrames,
    BeforeReceiverCompletion,
    AfterReceiverCompletion,
}

/// The faults that tests have armed. Nothing is injected unless the store trusts
/// injected time.
pub struct TestFaults {
    pub trust_injected_time: bool,
    pub transaction: Vec<PostgresTransactionTestFault>,
    pub publication: Option<ArtifactPublicationTestFault>,
    pub callback_terminal: Option<String>,
}

impl TestFaults {
    /// Takes the next transaction fault, first armed first.
    pub fn next_transaction_test_fault(&mut self) -> (r: Option<PostgresTransactionTestFault>)
        ensures
            final(self).trust_injected_time == old(self).trust_injected_time,
            final(self).publication == old(self).publication,
            final(self).callback_terminal == old(self).callback_terminal,
            if old(self).trust_injected_time && old(self).transaction@.len() > 0 {
                r == Some(old(self).transaction@[0]) && final(self).transaction@
                    == old(self).transaction@.drop_first()
            } else {
                r is None && final(self).transaction@ == old(self).transaction@
            },
    {
        if !self.trust_injected_time || self.transaction.len() == 0 {
            return None;
        }
        let first = self.transaction.remove(0);
        proof {
            assert(self.transaction@ =~= old(self).transaction@.drop_first());
        }
        Some(first)
    }

    /// Arms one publication fault.
    pub fn set_artifact_publication_test_fault(&mut self, fault: ArtifactPublicationTestFault) -> (r: Result<(), Fault>)
        ensures
            final(self).trust_injected_time == old(self).trust_injected_time,
            final(self).transaction@ == old(self).transaction@,
            final(self).callback_terminal == old(self).callback_terminal,
            if old(self).trust_injected_time {
                r is Ok && final(self).publication == Some(fault)
            } else {
                r == Err::<(), Fault>(Fault::PublicationFaultDisabled) && final(self).publication
                    == old(self).publication
            },
    {
        if !self.trust_injected_time {
            return Err(Fault::PublicationFaultDisabled);
        }
        self.publication = Some(fault);
        Ok(())
    }

    /// Fails at the armed point, once.
    pub fn publication_fault(&mut self, point: ArtifactPublicationTestFault) -> (r: Result<(), Fault>)
        ensures
            final(self).trust_injected_time == old(self).trust_injected_time,
            final(self).transaction@ == old(self).transaction@,
            final(self).callback_terminal == old(self).callback_terminal,
            if old(self).trust_injected_time && old(self).publication == Some(point) {
                r == Err::<(), Fault>(Fault::InjectedPublicationFault) && final(self).publication is None
            } else {
                r is Ok && final(self).publication == old(self).publication
            },
    {
        if !self.trust_injected_time {
            return Ok(());
        }
        if self.publication == Some(point) {
            self.publication = None;
            return Err(Fault::InjectedPublicationFault);
        }
        Ok(())
    }

    /// Arms one fault for the moment at which callbacks are told of a task's end.
    pub fn set_callback_terminal_test_fault(&mut self, fault: String) -> (r: Result<(), Fault>)
        ensures
            final(self).trust_injected_time == old(self).trust_injected_time,
            final(self).transaction@ == old(self).transaction@,
            final(self).publication == old(self).publication,
            if old(self).trust_injected_time {
                r is Ok && final(self).callback_terminal == Some(fault)
            } else {
                r == Err::<(), Fault>(Fault::CallbackTerminalFaultDisabled) && final(self).callback_terminal
                    == old(self).callback_terminal
            },
    {
        if !self.trust_injected_time {
            return Err(Fault::CallbackTerminalFaultDisabled);
        }
        self.callback_terminal = Some(fault);
        Ok(())
    }

    /// Takes the fault for the moment at which callbacks are told of a task's end.
    pub fn callback_terminal_fault(&mut self) -> (r: Option<String>)
        ensures
            final(self).trust_injected_time == old(self).trust_injected_time,
            final(self).transaction@ == old(self).transaction@,
            final(self).publication == old(self).publication,
            if old(self).trust_injected_time {
                r == old(self).callback_terminal && final(self).callback_terminal is None
            } else {
                r is None && final(self).callback_terminal == old(self).callback_terminal
            },
    {
        if !self.trust_injected_time {
            return None;
        }
        self.callback_terminal.take()
    }

    /// Whether a test may hold a pooled connection.
    pub fn hold_test_pool_connection(&self) -> (r: Result<(), Fault>)
        ensures
            r == (if self.trust_injected_time {
                Ok::<(), Fault>(())
            } else {
                Err(Fault::TestPoolHoldDisabled)
            }),
    {
        if self.trust_injected_time {
            Ok(())
        } else {
            Err(Fault::TestPoolHoldDisabled)
        }
    }

    /// Whether a test may hold a tenant's counter inside a transaction.
    pub fn hold_test_tenant_counter_transaction(&self) -> (r: Result<(), Fault>)
        ensures
            r == (if self.trust_injected_time {
                Ok::<(), Fault>(())
            } else {
                Err(Fault::TestTenantHoldDisabled)
            }),
    {
        if self.trust_injected_time {
            Ok(())
        } else {
            Err(Fault::TestTenantHoldDisabled)
        }
    }
}

/// Why the body of a transaction failed.
#[derive(Clone, Copy, Debug, PartialEq, Eq, Structural)]
pub enum BodyFailure {
    /// The database asks for the whole transaction to be run again.
    Retryable,
    /// The body refused, or the database failed in another way.
    Refused(Fault),
}

impl From<Fault> for BodyFailure {
    fn from(fault: Fault) -> (r: BodyFailure) {
        BodyFailure::Refused(fault)
    }
}

impl vstd::std_specs::convert::FromSpecImpl<Fault> for BodyFailure {
    open spec fn obeys_from_spec() -> bool {
        true
    }

    open spec fn from_spec(fault: Fault) -> BodyFailure {
        BodyFailure::Refused(fault)
    }
}

/// Whether an SQL state asks for a retry: a serialization failure or a deadlock.
pub open spec fn retryable_state(code: Option<Seq<char>>) -> bool {
    code == Some("40001"@) || code == Some("40P01"@)
}

/// What a database error inside a transaction's body means.
pub fn transaction_body_error(code: &Option<String>, public: Fault) -> (r: BodyFailure)
    ensures
        r == (if retryable_state(text::opt_text(*code)) {
            BodyFailure::Retryable
        } else {
            BodyFailure::Refused(public)
        }),
{
    if text::opt_text_is(code, "40001") || text::opt_text_is(code, "40P01") {
        BodyFailure::Retryable
    } else {
        BodyFailure::Refused(public)
    }
}

/// What happened to the step that the runner asked for.
#[derive(Clone, Copy, Debug, PartialEq, Eq, Structural)]
pub enum TransactionEvent {
    /// A transaction was begun under its tenant; `fault` is the one that a test
    /// injects into it.
    Begun { fault: Option<PostgresTransactionTestFault> },
    /// No transaction could be begun.
    BeginFailed(Fault),
    /// The body ran and gave a value.
    BodyDone,
    /// The body failed.
    BodyFailed(BodyFailure),
    /// The transaction was committed.
    Committed,
    /// The commit failed; whether it took effect is unknown.
    CommitFailed,
}

/// What the runner asks for next.
#[derive(Clone, Copy, Debug, PartialEq, Eq, Structural)]
pub enum TransactionStep {
    /// Begin a transaction. Any open one is rolled back first.
    Begin,
    /// Run the body.
    RunBody,
    /// Commit.
    Commit,
    /// The value of the body is handed out.
    Finished,
    /// The transaction is rolled back and the request fails.
    Failed(Fault),
}

/// The state of a running transaction: the attempt it is at, what it last asked
/// for, and the fault that a test injects into the attempt.
#[derive(Clone, Copy, Debug, PartialEq, Eq, Structural)]
pub struct TransactionRun {
    pub attempt: usize,
    pub quota_required: bool,
    pub step: TransactionStep,
    pub fault: Option<PostgresTransactionTestFault>,
}

/// A failure as a quota-bearing caller sees it: an internal one means that the
/// quota authority is unavailable.
pub open spec fn reported_fault(quota_required: bool, fault: Fault) -> Fault {
    if quota_required && crate::fault::is_internal(fault) {
        Fault::QuotaAuthorityUnavailable
    } else {
        fault
    }
}

fn report(quota_required: bool, fault: Fault) -> (r: Fault)
    ensures
        r == reported_fault(quota_required, fault),
{
    if quota_required && fault.internal() {
        Fault::QuotaAuthorityUnavailable
    } else {
        fault
    }
}

/// A run that has not begun.
pub open spec fn fresh_run(quota_required: bool) -> TransactionRun {
    TransactionRun { attempt: 1, quota_required, step: TransactionStep::Begin, fault: None }
}

/// The run after another attempt is asked for: a new one, or the end.
pub open spec fn retried(run: TransactionRun) -> TransactionRun {
    if run.attempt >= MAX_TRANSACTION_ATTEMPTS {
        TransactionRun {
            step: TransactionStep::Failed(reported_fault(run.quota_required, Fault::TransactionRetryLimit)),
            fault: None,
            ..run
        }
    } else {
        TransactionRun {
            attempt: (run.attempt + 1) as usize,
            step: TransactionStep::Begin,
            fault: None,
            ..run
        }
    }
}

/// The run after it failed.
pub open spec fn failed_with(run: TransactionRun, fault: Fault) -> TransactionRun {
    TransactionRun { step: TransactionStep::Failed(reported_fault(run.quota_required, fault)), fault: None, ..run }
}

/// The run after an event. An event that does not answer what was asked for
/// changes nothing.
pub open spec fn next_run(run: TransactionRun, event: TransactionEvent) -> TransactionRun {
    match (run.step, event) {
        (TransactionStep::Begin, TransactionEvent::Begun { fault }) => match fault {
            Some(PostgresTransactionTestFault::SerializationFailure) => retried(run),
            Some(PostgresTransactionTestFault::DeadlockDetected) => retried(run),
            Some(PostgresTransactionTestFault::NonRetryable) => failed_with(run, Fault::TransactionFailed),
            _ => TransactionRun { step: TransactionStep::RunBody, fault, ..run },
        },
        (TransactionStep::Begin, TransactionEvent::BeginFailed(fault)) => failed_with(run, fault),
        (TransactionStep::RunBody, TransactionEvent::BodyDone) => if run.fault == Some(
            PostgresTransactionTestFault::AmbiguousCommit,
        ) {
            failed_with(run, Fault::TransactionCommitFailed)
        } else {
            TransactionRun { step: TransactionStep::Commit, ..run }
        },
        (TransactionStep::RunBody, TransactionEvent::BodyFailed(BodyFailure::Retryable)) => retried(run),
        (TransactionStep::RunBody, TransactionEvent::BodyFailed(BodyFailure::Refused(fault))) => failed_with(run, fault),
        (TransactionStep::Commit, TransactionEvent::Committed) => TransactionRun {
            step: TransactionStep::Finished,
            ..run
        },
        (TransactionStep::Commit, TransactionEvent::CommitFailed) => failed_with(run, Fault::TransactionCommitFailed),
        _ => run,
    }
}

impl TransactionRun {
    /// Starts a run. A caller with an account on an enforcing store is told of
    /// failures as of an unavailable quota authority.
    pub fn new(quota_enforcement: bool, has_account: bool) -> (r: TransactionRun)
        ensures
            r == fresh_run(quota_enforcement && has_account),
    {
        TransactionRun {
            attempt: 1,
            quota_required: quota_enforcement && has_account,
            step: TransactionStep::Begin,
            fault: None,
        }
    }

    fn retry(self) -> (r: TransactionRun)
        ensures
            r == retried(self),
    {
        if self.attempt >= MAX_TRANSACTION_ATTEMPTS {
            TransactionRun {
                attempt: self.attempt,
                quota_required: self.quota_required,
                step: TransactionStep::Failed(report(self.quota_required, Fault::TransactionRetryLimit)),
                fault: None,
            }
        } else {
            TransactionRun {
                attempt: self.attempt + 1,
                quota_required: self.quota_required,
                step: TransactionStep::Begin,
                fault: None,
            }
        }
    }

    fn fail(self, fault: Fault) -> (r: TransactionRun)
        ensures
            r == failed_with(self, fault),
    {
        TransactionRun {
            attempt: self.attempt,
            quota_required: self.quota_required,
            step: TransactionStep::Failed(report(self.quota_required, fault)),
            fault: None,
        }
    }

    fn at(self, step: TransactionStep, fault: Option<PostgresTransactionTestFault>) -> (r: TransactionRun)
        ensures
            r == (TransactionRun { step, fault, ..self }),
    {
        TransactionRun { attempt: self.attempt, quota_required: self.quota_required, step, fault }
    }

    /// Takes the run on by one event.
    pub fn advance(self, event: TransactionEvent) -> (r: TransactionRun)
        ensures
            r == next_run(self, event),
    {
        match (self.step, event) {
            (TransactionStep::Begin, TransactionEvent::Begun { fault }) => match fault {
                Some(PostgresTransactionTestFault::SerializationFailure) => self.retry(),
                Some(PostgresTransactionTestFault::DeadlockDetected) => self.retry(),
                Some(PostgresTransactionTestFault::NonRetryable) => self.fail(Fault::TransactionFailed),
                Some(PostgresTransactionTestFault::AmbiguousCommit) => self.at(TransactionStep::RunBody, fault),
                None => self.at(TransactionStep::RunBody, None),
            },
            (TransactionStep::Begin, TransactionEvent::BeginFailed(fault)) => self.fail(fault),
            (TransactionStep::RunBody, TransactionEvent::BodyDone) => match self.fault {
                Some(PostgresTransactionTestFault::AmbiguousCommit) => self.fail(Fault::TransactionCommitFailed),
                _ => self.at(TransactionStep::Commit, self.fault),
            },
            (TransactionStep::RunBody, TransactionEvent::BodyFailed(BodyFailure::Retryable)) => self.retry(),
            (TransactionStep::RunBody, TransactionEvent::BodyFailed(BodyFailure::Refused(fault))) => self.fail(fault),
            (TransactionStep::Commit, TransactionEvent::Committed) => self.at(TransactionStep::Finished, self.fault),
            (TransactionStep::Commit, TransactionEvent::CommitFailed) => self.fail(Fault::TransactionCommitFailed),
            _ => self,
        }
    }
}

/// The run after a sequence of events.
pub open spec fn run_after(run: TransactionRun, events: Seq<TransactionEvent>) -> TransactionRun
    decreases events.len(),
{
    if events.len() == 0 {
        run
    } else {
        next_run(run_after(run, events.drop_last()), events.last())
    }
}

/// Whatever happens, a transaction is tried at most three times.
pub proof fn law_attempts_are_bounded(quota_required: bool, events: Seq<TransactionEvent>)
    ensures
        1 <= run_after(fresh_run(quota_required), events).attempt <= MAX_TRANSACTION_ATTEMPTS,
    decreases events.len(),
{
    if events.len() > 0 {
        law_attempts_are_bounded(quota_required, events.drop_last());
    }
}

/// A failed commit ends the run, whatever happens afterwards.
pub proof fn law_commits_are_never_retried(run: TransactionRun, events: Seq<TransactionEvent>)
    requires
        run.step == TransactionStep::Commit,
    ensures
        run_after(next_run(run, TransactionEvent::CommitFailed), events).step == TransactionStep::Failed(
            reported_fault(run.quota_required, Fault::TransactionCommitFailed),
        ),
    decreases events.len(),
{
    if events.len() > 0 {
        law_commits_are_never_retried(run, events.drop_last());
    }
}

/// A value is handed out only after a commit that succeeded.
pub proof fn law_values_are_committed(run: TransactionRun, event: TransactionEvent)
    requires
        run.step != TransactionStep::Finished,
        next_run(run, event).step == TransactionStep::Finished,
    ensures
        run.step == TransactionStep::Commit,
        event == TransactionEvent::Committed,
{
}

/// A body that is refused is not run again.
pub proof fn law_refusals_are_not_retried(run: TransactionRun, fault: Fault)
    requires
        run.step == TransactionStep::RunBody,
    ensures
        next_run(run, TransactionEvent::BodyFailed(BodyFailure::Refused(fault))).step == TransactionStep::Failed(
            reported_fault(run.quota_required, fault),
        ),
{
}

/// A run begins, runs its body and commits, in this order, and its value is handed out after that;
/// it stays at the same attempt and for the same caller all the way.
pub proof fn law_runs_begin_run_and_commit(run: TransactionRun)
    ensures
        run.step is Begin ==> next_run(run, TransactionEvent::Begun { fault: None }) == (TransactionRun {
            step: TransactionStep::RunBody,
            fault: None,
            ..run
        }),
        run.step is RunBody && run.fault is None ==> next_run(run, TransactionEvent::BodyDone) == (TransactionRun {
            step: TransactionStep::Commit,
            ..run
        }),
        run.step is Commit ==> next_run(run, TransactionEvent::Committed) == (TransactionRun {
            step: TransactionStep::Finished,
            ..run
        }),
        run_after(
            fresh_run(run.quota_required),
            seq![TransactionEvent::Begun { fault: None }, TransactionEvent::BodyDone, TransactionEvent::Committed],
        ).step is Finished,
{
    let events = seq![TransactionEvent::Begun { fault: None }, TransactionEvent::BodyDone, TransactionEvent::Committed];
    reveal_with_fuel(run_after, 4);
    assert(events.drop_last() =~= seq![TransactionEvent::Begun { fault: None }, TransactionEvent::BodyDone]);
    assert(events.drop_last().drop_last() =~= seq![TransactionEvent::Begun { fault: None }]);
    assert(events.drop_last().drop_last().drop_last() =~= Seq::empty());
}

/// A body that the database asks to be run again is begun anew, twice at the most: the third such
/// failure ends the run.
pub proof fn law_retries_begin_anew(run: TransactionRun)
    requires
        run.step is RunBody,
    ensures
        run.attempt < 3 ==> next_run(run, TransactionEvent::BodyFailed(BodyFailure::Retryable)) == (TransactionRun {
            attempt: (run.attempt + 1) as usize,
            step: TransactionStep::Begin,
            fault: None,
            ..run
        }),
        run.attempt >= 3 && !run.quota_required ==> next_run(
            run,
            TransactionEvent::BodyFailed(BodyFailure::Retryable),
        ).step == TransactionStep::Failed(Fault::TransactionRetryLimit),
        run.attempt >= 3 && run.quota_required ==> next_run(
            run,
            TransactionEvent::BodyFailed(BodyFailure::Retryable),
        ).step == TransactionStep::Failed(Fault::QuotaAuthorityUnavailable),
        fresh_run(run.quota_required).attempt == 1,
        fresh_run(run.quota_required).step is Begin,
{
}

/// What is over stays over, and an event that answers no question changes nothing.
pub proof fn law_finished_runs_rest(run: TransactionRun, event: TransactionEvent)
    ensures
        run.step is Finished || run.step is Failed ==> next_run(run, event) == run,
        run.step is Begin && !(event is Begun) && !(event is BeginFailed) ==> next_run(run, event) == run,
        run.step is RunBody && !(event is BodyDone) && !(event is BodyFailed) ==> next_run(run, event) == run,
        run.step is Commit && !(event is Committed) && !(event is CommitFailed) ==> next_run(run, event) == run,
        next_run(run, event).quota_required == run.quota_required,
        next_run(run, event).attempt == run.attempt || next_run(run, event).attempt == run.attempt + 1,
{
}

/// The faults that a test injects act as the database would: a serialization failure and a deadlock
/// as a body that must be run again, another failure as one that ends the run, and an ambiguous
/// commit only after the body.
pub proof fn law_injected_faults_act_as_the_database(run: TransactionRun)
    requires
        run.step is Begin,
        run.attempt < 3,
    ensures
        next_run(
            run,
            TransactionEvent::Begun { fault: Some(PostgresTransactionTestFault::SerializationFailure) },
        ) == next_run(
            TransactionRun { step: TransactionStep::RunBody, ..run },
            TransactionEvent::BodyFailed(BodyFailure::Retryable),
        ),
        next_run(run, TransactionEvent::Begun { fault: Some(PostgresTransactionTestFault::DeadlockDetected) })
            == next_run(run, TransactionEvent::Begun { fault: Some(PostgresTransactionTestFault::SerializationFailure) }),
        next_run(run, TransactionEvent::Begun { fault: Some(PostgresTransactionTestFault::NonRetryable) }).step is Failed,
        next_run(run, TransactionEvent::Begun { fault: Some(PostgresTransactionTestFault::AmbiguousCommit) }).step
            is RunBody,
        next_run(
            next_run(run, TransactionEvent::Begun { fault: Some(PostgresTransactionTestFault::AmbiguousCommit) }),
            TransactionEvent::BodyDone,
        ).step == TransactionStep::Failed(reported_fault(run.quota_required, Fault::TransactionCommitFailed)),
        next_run(
            next_run(run, TransactionEvent::Begun { fault: Some(PostgresTransactionTestFault::AmbiguousCommit) }),
            TransactionEvent::BodyDone,
        ).attempt == run.attempt,
{
}

/// A caller without a quota is told every fault as it is; one with a quota is told so of everything
/// that is its own affair, and otherwise that the quota authority is unavailable.
pub proof fn law_internal_faults_hide_behind_the_quota(fault: Fault)
    ensures
        reported_fault(false, fault) == fault,
        !crate::fault::is_internal(fault) ==> reported_fault(true, fault) == fault,
        crate::fault::is_internal(fault) ==> reported_fault(true, fault) == Fault::QuotaAuthorityUnavailable,
        reported_fault(true, reported_fault(true, fault)) == reported_fault(true, fault),
{
}

/// The database asks for a retry with two states and no other: a serialization failure and a
/// deadlock.
pub proof fn law_two_states_ask_for_a_retry(code: Seq<char>)
    ensures
        !retryable_state(None),
        retryable_state(Some(code)) <==> code == "40001"@ || code == "40P01"@,
        retryable_state(Some(code)) ==> code.len() == 5 && code[0] == '4' && code[1] == '0',
{
    reveal_strlit("40001");
    reveal_strlit("40P01");
}

/// A failure that the database does not ask to be retried ends the run, as the caller may be told.
pub proof fn law_other_failures_end_the_run(run: TransactionRun, fault: Fault)
    requires
        run.step is Begin,
    ensures
        !run.quota_required ==> next_run(
            run,
            TransactionEvent::Begun { fault: Some(PostgresTransactionTestFault::NonRetryable) },
        ).step == TransactionStep::Failed(Fault::TransactionFailed),
        !run.quota_required ==> next_run(run, TransactionEvent::BeginFailed(fault)).step == TransactionStep::Failed(fault),
        next_run(run, TransactionEvent::BeginFailed(fault)).step == TransactionStep::Failed(
            reported_fault(run.quota_required, fault),
        ),
{
}

} // verus!
