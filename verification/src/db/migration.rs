//! The decisions of a schema migration: when the keyspace has to be
//! selected, what a failed statement means, and how often and how long to
//! wait for a keyspace. Reading the files and talking to the storage is the
//! caller's part.

use vstd::prelude::*;

verus! {

/// What a migration statement is, as far as the order of the steps depends
/// on it.
#[derive(Debug, Clone, Copy, PartialEq, Eq, Structural)]
pub enum StatementKind {
    /// `USE <keyspace>`: it is not sent; the session selects the keyspace.
    UseKeyspace,
    /// A statement that creates the keyspace.
    CreateKeyspace,
    /// Every other statement.
    Other,
}

/// How sending a statement ended.
#[derive(Debug, Clone, Copy, PartialEq, Eq, Structural)]
pub enum StatementOutcome {
    Applied,
    /// The storage reported that the object exists already.
    AlreadyExists,
    Failed,
}

/// What to do for one statement before it is sent.
#[derive(Debug, Clone, Copy, PartialEq, Eq, Structural)]
pub struct StatementStep {
    /// Select the keyspace first.
    pub select_keyspace: bool,
    /// Send the statement.
    pub execute: bool,
}

/// What to do after a statement was sent.
#[derive(Debug, Clone, Copy, PartialEq, Eq, Structural)]
pub struct StatementFollowUp {
    /// Wait for schema agreement, refresh the metadata and select the
    /// keyspace.
    pub settle_keyspace: bool,
    /// Give the migration up with an error.
    pub abort: bool,
    /// Whether the keyspace is selected from here on.
    pub keyspace_ready: bool,
}

/// What to do after an attempt to select the keyspace failed.
#[derive(Debug, Clone, Copy, PartialEq, Eq, Structural)]
pub enum Retry {
    GiveUp,
    /// Refresh the metadata, wait so many milliseconds and try again.
    AfterMillis(u64),
}

/// How often the selection of a keyspace is tried.
pub const MAX_KEYSPACE_ATTEMPTS: usize = 6;

/// The step for a statement: `USE` selects the keyspace and is not sent;
/// any other statement is sent, and the keyspace is selected before it
/// unless it is selected already or the statement is the one that creates
/// it.
pub open spec fn step_for(kind: StatementKind, keyspace_ready: bool) -> StatementStep {
    match kind {
        StatementKind::UseKeyspace => StatementStep { select_keyspace: true, execute: false },
        StatementKind::CreateKeyspace => StatementStep { select_keyspace: false, execute: true },
        StatementKind::Other => StatementStep { select_keyspace: !keyspace_ready, execute: true },
    }
}

/// What follows a statement that was sent: a failure ends the migration,
/// an object that exists already is passed over, and after the keyspace was
/// created it is settled and selected.
pub open spec fn follow_up_for(
    kind: StatementKind,
    keyspace_ready: bool,
    outcome: StatementOutcome,
) -> StatementFollowUp {
    let ready = keyspace_ready || step_for(kind, keyspace_ready).select_keyspace;
    match outcome {
        StatementOutcome::Failed => StatementFollowUp {
            settle_keyspace: false,
            abort: true,
            keyspace_ready: ready,
        },
        StatementOutcome::AlreadyExists => StatementFollowUp {
            settle_keyspace: false,
            abort: false,
            keyspace_ready: ready,
        },
        StatementOutcome::Applied => StatementFollowUp {
            settle_keyspace: kind == StatementKind::CreateKeyspace,
            abort: false,
            keyspace_ready: ready || kind == StatementKind::CreateKeyspace,
        },
    }
}

/// What follows the failure of the attempt number `attempt`, counted from
/// zero: the last attempt gives up, every earlier one waits a quarter of a
/// second longer than the one before.
pub open spec fn retry_after(attempt: usize) -> Retry {
    if attempt + 1 >= MAX_KEYSPACE_ATTEMPTS {
        Retry::GiveUp
    } else {
        Retry::AfterMillis((250 * (attempt + 1)) as u64)
    }
}

pub fn plan_statement(kind: StatementKind, keyspace_ready: bool) -> (step: StatementStep)
    ensures
        step == step_for(kind, keyspace_ready),
{
    match kind {
        StatementKind::UseKeyspace => StatementStep { select_keyspace: true, execute: false },
        StatementKind::CreateKeyspace => StatementStep { select_keyspace: false, execute: true },
        StatementKind::Other => StatementStep { select_keyspace: !keyspace_ready, execute: true },
    }
}

pub fn follow_statement(kind: StatementKind, keyspace_ready: bool, outcome: StatementOutcome) -> (next:
    StatementFollowUp)
    ensures
        next == follow_up_for(kind, keyspace_ready, outcome),
{
    let ready = keyspace_ready || plan_statement(kind, keyspace_ready).select_keyspace;
    let creates = match kind {
        StatementKind::CreateKeyspace => true,
        _ => false,
    };
    match outcome {
        StatementOutcome::Failed => StatementFollowUp {
            settle_keyspace: false,
            abort: true,
            keyspace_ready: ready,
        },
        StatementOutcome::AlreadyExists => StatementFollowUp {
            settle_keyspace: false,
            abort: false,
            keyspace_ready: ready,
        },
        StatementOutcome::Applied => StatementFollowUp {
            settle_keyspace: creates,
            abort: false,
            keyspace_ready: ready || creates,
        },
    }
}

pub fn after_failed_selection(attempt: usize) -> (retry: Retry)
    ensures
        retry == retry_after(attempt),
{
    if attempt >= MAX_KEYSPACE_ATTEMPTS - 1 {
        Retry::GiveUp
    } else {
        let tries: u64 = attempt as u64 + 1;
        Retry::AfterMillis(250 * tries)
    }
}

/// Once the keyspace is selected it stays selected, and after a `USE` or a
/// created keyspace it is selected.
pub proof fn lemma_keyspace_stays_ready(
    kind: StatementKind,
    keyspace_ready: bool,
    outcome: StatementOutcome,
)
    ensures
        keyspace_ready ==> follow_up_for(kind, keyspace_ready, outcome).keyspace_ready,
        step_for(kind, keyspace_ready).execute && kind == StatementKind::Other ==> follow_up_for(
            kind,
            keyspace_ready,
            outcome,
        ).keyspace_ready,
        kind == StatementKind::CreateKeyspace && outcome == StatementOutcome::Applied
            ==> follow_up_for(kind, keyspace_ready, outcome).keyspace_ready,
{
}

} // verus!
