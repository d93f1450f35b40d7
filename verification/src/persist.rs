//! Persistence and notification as an explicit state machine:
//! `Idle → TransactionOpen → Validated → Committed | RolledBack`.
//!
//! The machine owns every decision of the post-stream phase; the
//! surrounding application merely performs the storage and HTTP work it
//! is told to do and reports how each attempt went. The transaction is
//! opened only after the provider stream has been fully consumed; the
//! in-transaction re-fetch is the authoritative read, so a concurrent
//! edit of the same conversation is detected here. The write, the
//! billing notification and the commit happen in that order: a notifier
//! failure still rolls the transaction back.

use vstd::prelude::*;

verus! {

/// The turn-level failure taxonomy.
#[derive(Debug, Clone, Copy, PartialEq, Eq, Structural)]
pub enum TurnError {
    /// The model identifier is not priced.
    InvalidModel,
    /// The model's price exceeds the balance snapshot.
    InsufficientCredit,
    /// The message type named neither text nor voice.
    InvalidMessageType,
    /// The edit target does not name an existing user turn.
    InvalidEditTarget,
    /// No session data accompanied the request.
    MissingSession,
    /// The conversation is absent for this user.
    NotFound,
    /// Provider transport failure, or a stream that never produced a delta.
    Upstream,
    /// A storage write, the notifier call or the commit failed.
    Persistence,
}

impl TurnError {
    /// The HTTP status class each failure surfaces as.
    pub fn http_status(&self) -> (r: u16)
        ensures
            r == match *self {
                TurnError::InvalidModel => 400u16,
                TurnError::InsufficientCredit => 400u16,
                TurnError::InvalidMessageType => 400u16,
                TurnError::InvalidEditTarget => 400u16,
                TurnError::MissingSession => 401u16,
                TurnError::NotFound => 404u16,
                TurnError::Upstream => 500u16,
                TurnError::Persistence => 500u16,
            },
    {
        match *self {
            TurnError::InvalidModel => 400,
            TurnError::InsufficientCredit => 400,
            TurnError::InvalidMessageType => 400,
            TurnError::InvalidEditTarget => 400,
            TurnError::MissingSession => 401,
            TurnError::NotFound => 404,
            TurnError::Upstream => 500,
            TurnError::Persistence => 500,
        }
    }
}

/// The machine's phases. `Validated` is split into the three waits the
/// committed path passes through: the write, the notifier call, the
/// commit.
#[derive(Debug, Clone, Copy, PartialEq, Eq, Structural)]
pub enum PersistPhase {
    Idle,
    TransactionOpen,
    AwaitingWrite,
    AwaitingNotify,
    AwaitingCommit,
    Committed,
    RolledBack,
}

/// What the application reports back to the machine.
#[derive(Debug, Clone, Copy, PartialEq, Eq, Structural)]
pub enum PersistEvent {
    /// The transaction is open.
    TxBegun,
    /// The transaction could not be opened.
    TxFailed,
    /// The in-transaction re-fetch found the conversation, with this
    /// many stored entries.
    Fetched(usize),
    /// The in-transaction re-fetch found no conversation.
    FetchedAbsent,
    /// The in-transaction re-fetch itself failed.
    FetchFailed,
    /// The updated record was written.
    WriteOk,
    /// The write failed.
    WriteFailed,
    /// The billing notifier accepted the new balance.
    NotifyOk,
    /// The billing notifier call failed.
    NotifyFailed,
    /// The transaction committed.
    CommitOk,
    /// The commit failed.
    CommitFailed,
}

/// What the application must do next.
#[derive(Debug, Clone, Copy, PartialEq, Eq, Structural)]
pub enum PersistAction {
    /// Re-fetch the conversation inside the transaction.
    Fetch,
    /// Truncate at the boundary, append the pair (`Model::apply_turn`)
    /// and write the record back.
    Write { boundary: usize },
    /// Call the billing notifier with this balance for this user.
    Notify { credits_remaining: i64, user_id: i64 },
    /// Commit the transaction.
    Commit,
    /// Roll the transaction back and surface the recorded failure as a
    /// terminal error on the client stream.
    Rollback,
    /// Nothing: the machine is finished or the event was stray.
    Halt,
}

/// The machine's state: the phase plus the immutable data of the turn —
/// the caller, the balance snapshot taken at turn start, and the raw
/// edit target. `boundary` is meaningful once validation has passed;
/// `failure` once the machine has rolled back.
#[derive(Debug, Clone, Copy, PartialEq, Eq, Structural)]
pub struct PersistCtl {
    pub phase: PersistPhase,
    pub user_id: i64,
    pub credits_remaining: i64,
    pub edit_target: i64,
    pub boundary: usize,
    pub failure: Option<TurnError>,
}

/// A valid edit target for a conversation of `entry_count` entries.
pub open spec fn valid_target(t: int, entry_count: int) -> bool {
    t == -1 || (0 <= t && 2 * t < entry_count)
}

/// The entry index a valid target truncates to.
pub open spec fn target_boundary(t: int, entry_count: int) -> int {
    if t == -1 {
        entry_count
    } else {
        2 * t
    }
}

/// The machine's transition function: next state and the action the
/// application must perform.
pub open spec fn spec_step(s: PersistCtl, ev: PersistEvent) -> (PersistCtl, PersistAction) {
    match (s.phase, ev) {
        (PersistPhase::Idle, PersistEvent::TxBegun) => (
            PersistCtl { phase: PersistPhase::TransactionOpen, ..s },
            PersistAction::Fetch,
        ),
        (PersistPhase::Idle, PersistEvent::TxFailed) => (
            PersistCtl {
                phase: PersistPhase::RolledBack,
                failure: Some(TurnError::Persistence),
                ..s
            },
            PersistAction::Rollback,
        ),
        (PersistPhase::TransactionOpen, PersistEvent::Fetched(entry_count)) => {
            if valid_target(s.edit_target as int, entry_count as int) {
                (
                    PersistCtl {
                        phase: PersistPhase::AwaitingWrite,
                        boundary: target_boundary(
                            s.edit_target as int,
                            entry_count as int,
                        ) as usize,
                        ..s
                    },
                    PersistAction::Write {
                        boundary: target_boundary(s.edit_target as int, entry_count as int) as usize,
                    },
                )
            } else {
                (
                    PersistCtl {
                        phase: PersistPhase::RolledBack,
                        failure: Some(TurnError::InvalidEditTarget),
                        ..s
                    },
                    PersistAction::Rollback,
                )
            }
        },
        (PersistPhase::TransactionOpen, PersistEvent::FetchedAbsent) => (
            PersistCtl { phase: PersistPhase::RolledBack, failure: Some(TurnError::NotFound), ..s },
            PersistAction::Rollback,
        ),
        (PersistPhase::TransactionOpen, PersistEvent::FetchFailed) => (
            PersistCtl {
                phase: PersistPhase::RolledBack,
                failure: Some(TurnError::Persistence),
                ..s
            },
            PersistAction::Rollback,
        ),
        (PersistPhase::AwaitingWrite, PersistEvent::WriteOk) => (
            PersistCtl { phase: PersistPhase::AwaitingNotify, ..s },
            PersistAction::Notify {
                credits_remaining: s.credits_remaining,
                user_id: s.user_id,
            },
        ),
        (PersistPhase::AwaitingWrite, PersistEvent::WriteFailed) => (
            PersistCtl {
                phase: PersistPhase::RolledBack,
                failure: Some(TurnError::Persistence),
                ..s
            },
            PersistAction::Rollback,
        ),
        (PersistPhase::AwaitingNotify, PersistEvent::NotifyOk) => (
            PersistCtl { phase: PersistPhase::AwaitingCommit, ..s },
            PersistAction::Commit,
        ),
        (PersistPhase::AwaitingNotify, PersistEvent::NotifyFailed) => (
            PersistCtl {
                phase: PersistPhase::RolledBack,
                failure: Some(TurnError::Persistence),
                ..s
            },
            PersistAction::Rollback,
        ),
        (PersistPhase::AwaitingCommit, PersistEvent::CommitOk) => (
            PersistCtl { phase: PersistPhase::Committed, ..s },
            PersistAction::Halt,
        ),
        (PersistPhase::AwaitingCommit, PersistEvent::CommitFailed) => (
            PersistCtl {
                phase: PersistPhase::RolledBack,
                failure: Some(TurnError::Persistence),
                ..s
            },
            PersistAction::Rollback,
        ),
        _ => (s, PersistAction::Halt),
    }
}

impl PersistCtl {
    /// A machine ready to begin the post-stream phase for this caller,
    /// with the balance snapshot taken at turn start.
    pub fn start(user_id: i64, credits_remaining: i64, edit_target: i64) -> (s: PersistCtl)
        ensures
            s == (PersistCtl {
                phase: PersistPhase::Idle,
                user_id,
                credits_remaining,
                edit_target,
                boundary: 0,
                failure: None,
            }),
    {
        PersistCtl {
            phase: PersistPhase::Idle,
            user_id,
            credits_remaining,
            edit_target,
            boundary: 0,
            failure: None,
        }
    }

    /// Take one step: exactly the transition [`spec_step`] prescribes.
    pub fn step(&mut self, ev: PersistEvent) -> (r: PersistAction)
        ensures
            *final(self) == spec_step(*old(self), ev).0,
            r == spec_step(*old(self), ev).1,
    {
        match (self.phase, ev) {
            (PersistPhase::Idle, PersistEvent::TxBegun) => {
                self.phase = PersistPhase::TransactionOpen;
                PersistAction::Fetch
            },
            (PersistPhase::Idle, PersistEvent::TxFailed) => {
                self.phase = PersistPhase::RolledBack;
                self.failure = Some(TurnError::Persistence);
                PersistAction::Rollback
            },
            (PersistPhase::TransactionOpen, PersistEvent::Fetched(entry_count)) => {
                if self.edit_target == -1 {
                    self.phase = PersistPhase::AwaitingWrite;
                    self.boundary = entry_count;
                    PersistAction::Write { boundary: entry_count }
                } else if self.edit_target >= 0 && self.edit_target <= (usize::MAX / 2) as i64 && 2
                    * (self.edit_target as usize) < entry_count {
                    let b = 2 * (self.edit_target as usize);
                    self.phase = PersistPhase::AwaitingWrite;
                    self.boundary = b;
                    PersistAction::Write { boundary: b }
                } else {
                    self.phase = PersistPhase::RolledBack;
                    self.failure = Some(TurnError::InvalidEditTarget);
                    PersistAction::Rollback
                }
            },
            (PersistPhase::TransactionOpen, PersistEvent::FetchedAbsent) => {
                self.phase = PersistPhase::RolledBack;
                self.failure = Some(TurnError::NotFound);
                PersistAction::Rollback
            },
            (PersistPhase::TransactionOpen, PersistEvent::FetchFailed) => {
                self.phase = PersistPhase::RolledBack;
                self.failure = Some(TurnError::Persistence);
                PersistAction::Rollback
            },
            (PersistPhase::AwaitingWrite, PersistEvent::WriteOk) => {
                self.phase = PersistPhase::AwaitingNotify;
                PersistAction::Notify {
                    credits_remaining: self.credits_remaining,
                    user_id: self.user_id,
                }
            },
            (PersistPhase::AwaitingWrite, PersistEvent::WriteFailed) => {
                self.phase = PersistPhase::RolledBack;
                self.failure = Some(TurnError::Persistence);
                PersistAction::Rollback
            },
            (PersistPhase::AwaitingNotify, PersistEvent::NotifyOk) => {
                self.phase = PersistPhase::AwaitingCommit;
                PersistAction::Commit
            },
            (PersistPhase::AwaitingNotify, PersistEvent::NotifyFailed) => {
                self.phase = PersistPhase::RolledBack;
                self.failure = Some(TurnError::Persistence);
                PersistAction::Rollback
            },
            (PersistPhase::AwaitingCommit, PersistEvent::CommitOk) => {
                self.phase = PersistPhase::Committed;
                PersistAction::Halt
            },
            (PersistPhase::AwaitingCommit, PersistEvent::CommitFailed) => {
                self.phase = PersistPhase::RolledBack;
                self.failure = Some(TurnError::Persistence);
                PersistAction::Rollback
            },
            _ => PersistAction::Halt,
        }
    }
}

/// The state after running a whole event sequence.
pub open spec fn spec_run(s: PersistCtl, evs: Seq<PersistEvent>) -> PersistCtl
    decreases evs.len(),
{
    if evs.len() == 0 {
        s
    } else {
        spec_run(spec_step(s, evs[0]).0, evs.drop_first())
    }
}

/// How many steps of a run emit a `Commit` action.
pub open spec fn commit_count(s: PersistCtl, evs: Seq<PersistEvent>) -> int
    decreases evs.len(),
{
    if evs.len() == 0 {
        0
    } else {
        (if spec_step(s, evs[0]).1 is Commit {
            1int
        } else {
            0int
        }) + commit_count(spec_step(s, evs[0]).0, evs.drop_first())
    }
}

/// How many steps of a run emit a `Notify` action.
pub open spec fn notify_count(s: PersistCtl, evs: Seq<PersistEvent>) -> int
    decreases evs.len(),
{
    if evs.len() == 0 {
        0
    } else {
        (if spec_step(s, evs[0]).1 is Notify {
            1int
        } else {
            0int
        }) + notify_count(spec_step(s, evs[0]).0, evs.drop_first())
    }
}

/// Every `Notify` action of a run carries exactly this balance and user.
pub open spec fn notifies_carry(s: PersistCtl, evs: Seq<PersistEvent>, c: i64, u: i64) -> bool
    decreases evs.len(),
{
    if evs.len() == 0 {
        true
    } else {
        &&& (spec_step(s, evs[0]).1 matches PersistAction::Notify { credits_remaining, user_id }
            ==> credits_remaining == c && user_id == u)
        &&& notifies_carry(spec_step(s, evs[0]).0, evs.drop_first(), c, u)
    }
}

/// A step never changes who is billed or the balance snapshot.
proof fn lemma_step_immutable(s: PersistCtl, ev: PersistEvent)
    ensures
        spec_step(s, ev).0.user_id == s.user_id,
        spec_step(s, ev).0.credits_remaining == s.credits_remaining,
        spec_step(s, ev).0.edit_target == s.edit_target,
{
}

/// The balance a notifier call carries is always the snapshot the
/// machine was started with — never a re-read value.
pub proof fn lemma_notify_payload(s: PersistCtl, evs: Seq<PersistEvent>)
    ensures
        notifies_carry(s, evs, s.credits_remaining, s.user_id),
    decreases evs.len(),
{
    if evs.len() > 0 {
        lemma_step_immutable(s, evs[0]);
        lemma_notify_payload(spec_step(s, evs[0]).0, evs.drop_first());
    }
}

/// A total order on phases along the committed path; `RolledBack` sits
/// on top because nothing leaves it.
pub open spec fn phase_rank(p: PersistPhase) -> int {
    match p {
        PersistPhase::Idle => 0,
        PersistPhase::TransactionOpen => 1,
        PersistPhase::AwaitingWrite => 2,
        PersistPhase::AwaitingNotify => 3,
        PersistPhase::AwaitingCommit => 4,
        PersistPhase::Committed => 5,
        PersistPhase::RolledBack => 6,
    }
}

/// Single steps never move backwards.
proof fn lemma_step_monotone(s: PersistCtl, ev: PersistEvent)
    ensures
        phase_rank(spec_step(s, ev).0.phase) >= phase_rank(s.phase),
{
}

/// `Committed` and `RolledBack` are absorbing.
proof fn lemma_terminal_absorbing(s: PersistCtl, evs: Seq<PersistEvent>)
    requires
        s.phase == PersistPhase::Committed || s.phase == PersistPhase::RolledBack,
    ensures
        spec_run(s, evs) == s,
        commit_count(s, evs) == 0,
        notify_count(s, evs) == 0,
    decreases evs.len(),
{
    if evs.len() > 0 {
        lemma_terminal_absorbing(spec_step(s, evs[0]).0, evs.drop_first());
    }
}

/// Past the notifier wait, no step ever emits another `Notify`.
proof fn lemma_no_notify_past(s: PersistCtl, evs: Seq<PersistEvent>)
    requires
        phase_rank(s.phase) >= 3,
    ensures
        notify_count(s, evs) == 0,
    decreases evs.len(),
{
    if evs.len() > 0 {
        lemma_step_monotone(s, evs[0]);
        lemma_no_notify_past(spec_step(s, evs[0]).0, evs.drop_first());
    }
}

/// Past the commit wait, no step ever emits another `Commit`.
proof fn lemma_no_commit_past(s: PersistCtl, evs: Seq<PersistEvent>)
    requires
        phase_rank(s.phase) >= 4,
    ensures
        commit_count(s, evs) == 0,
    decreases evs.len(),
{
    if evs.len() > 0 {
        lemma_step_monotone(s, evs[0]);
        lemma_no_commit_past(spec_step(s, evs[0]).0, evs.drop_first());
    }
}

/// Before the commit was ever prescribed, a run that ends committed
/// prescribes it exactly once.
proof fn lemma_commit_once(s0: PersistCtl, evs: Seq<PersistEvent>)
    requires
        phase_rank(s0.phase) <= 3,
    ensures
        spec_run(s0, evs).phase == PersistPhase::Committed ==> commit_count(s0, evs) == 1,
    decreases evs.len(),
{
    if evs.len() > 0 {
        let s1 = spec_step(s0, evs[0]).0;
        let a = spec_step(s0, evs[0]).1;
        if a is Commit {
            lemma_no_commit_past(s1, evs.drop_first());
        } else if s1.phase == PersistPhase::RolledBack {
            lemma_terminal_absorbing(s1, evs.drop_first());
        } else {
            lemma_commit_once(s1, evs.drop_first());
        }
    }
}

/// Before the notifier call was ever prescribed, a run that ends
/// committed prescribes it exactly once.
proof fn lemma_notify_once(s0: PersistCtl, evs: Seq<PersistEvent>)
    requires
        phase_rank(s0.phase) <= 2,
    ensures
        spec_run(s0, evs).phase == PersistPhase::Committed ==> notify_count(s0, evs) == 1,
    decreases evs.len(),
{
    if evs.len() > 0 {
        let s1 = spec_step(s0, evs[0]).0;
        let a = spec_step(s0, evs[0]).1;
        if a is Notify {
            lemma_no_notify_past(s1, evs.drop_first());
        } else if s1.phase == PersistPhase::RolledBack {
            lemma_terminal_absorbing(s1, evs.drop_first());
        } else {
            lemma_notify_once(s1, evs.drop_first());
        }
    }
}

/// A turn whose machine runs from the start to `Committed` performed
/// the notifier call exactly once and the commit exactly once — and
/// every notifier call of the run carried the balance snapshot and the
/// caller the machine was started with.
pub proof fn lemma_committed_run(s0: PersistCtl, evs: Seq<PersistEvent>)
    requires
        s0.phase == PersistPhase::Idle,
    ensures
        spec_run(s0, evs).phase == PersistPhase::Committed ==> commit_count(s0, evs) == 1,
        spec_run(s0, evs).phase == PersistPhase::Committed ==> notify_count(s0, evs) == 1,
        notifies_carry(s0, evs, s0.credits_remaining, s0.user_id),
{
    lemma_notify_payload(s0, evs);
    lemma_commit_once(s0, evs);
    lemma_notify_once(s0, evs);
}

/// A notifier failure after a fully successful stream and write rolls
/// the transaction back: the machine lands in `RolledBack` with a
/// persistence failure recorded, the prescribed action is `Rollback`,
/// and no continuation of the run ever commits.
pub proof fn lemma_notify_failure_rolls_back(s: PersistCtl, evs: Seq<PersistEvent>)
    requires
        s.phase == PersistPhase::AwaitingNotify,
    ensures
        spec_step(s, PersistEvent::NotifyFailed).1 == PersistAction::Rollback,
        spec_step(s, PersistEvent::NotifyFailed).0.phase == PersistPhase::RolledBack,
        spec_step(s, PersistEvent::NotifyFailed).0.failure == Some(TurnError::Persistence),
        spec_run(spec_step(s, PersistEvent::NotifyFailed).0, evs).phase
            == PersistPhase::RolledBack,
        commit_count(spec_step(s, PersistEvent::NotifyFailed).0, evs) == 0,
{
    lemma_terminal_absorbing(spec_step(s, PersistEvent::NotifyFailed).0, evs);
}

} // verus!
