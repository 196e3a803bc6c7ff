use vstd::prelude::*;

verus! {

/// Where the write of one batch stands.
#[derive(Debug, Clone, Copy, PartialEq, Eq, Structural)]
pub enum TxPhase {
    /// No transaction opened yet.
    Pending,
    /// The transaction is open; rows are being written.
    Writing,
    /// A step failed inside the open transaction; it must be rolled back.
    Aborting,
    /// Every row was written and the transaction committed.
    Committed,
    /// The transaction was abandoned; the store is as it was before the batch.
    RolledBack,
}

/// What the caller is to do next against the store.
#[derive(Debug, Clone, Copy, PartialEq, Eq, Structural)]
pub enum TxCommand {
    /// Open a transaction.
    Begin,
    /// Write the row at this index of the batch inside the transaction.
    Write(usize),
    /// Commit the transaction.
    Commit,
    /// Roll the transaction back.
    Rollback,
    /// Nothing is left to do.
    Finish,
}

/// The state of a batch write, as a model.
pub struct TxView {
    pub len: nat,
    pub written: nat,
    pub phase: TxPhase,
}

/// The state before anything was done for a batch of `len` rows.
pub open spec fn tx_start(len: nat) -> TxView {
    TxView { len, written: 0, phase: TxPhase::Pending }
}

/// Rows written never exceed the batch; nothing is written before the
/// transaction opens; a commit comes only after every row.
pub open spec fn tx_wf(s: TxView) -> bool {
    &&& s.written <= s.len
    &&& s.phase is Pending ==> s.written == 0
    &&& s.phase is Committed ==> s.written == s.len
    &&& s.len <= usize::MAX
}

/// The command that follows a state.
pub open spec fn tx_next(s: TxView) -> TxCommand {
    match s.phase {
        TxPhase::Pending => if s.len == 0 {
            TxCommand::Finish
        } else {
            TxCommand::Begin
        },
        TxPhase::Writing => if s.written < s.len {
            TxCommand::Write(s.written as usize)
        } else {
            TxCommand::Commit
        },
        TxPhase::Aborting => TxCommand::Rollback,
        TxPhase::Committed => TxCommand::Finish,
        TxPhase::RolledBack => TxCommand::Finish,
    }
}

/// The state after the command `tx_next(s)` succeeded (`ok`) or failed.
pub open spec fn tx_step(s: TxView, ok: bool) -> TxView {
    match s.phase {
        TxPhase::Pending => if s.len == 0 {
            s
        } else if ok {
            TxView { phase: TxPhase::Writing, ..s }
        } else {
            TxView { phase: TxPhase::RolledBack, ..s }
        },
        TxPhase::Writing => if !ok {
            TxView { phase: TxPhase::Aborting, ..s }
        } else if s.written < s.len {
            TxView { written: s.written + 1, ..s }
        } else {
            TxView { phase: TxPhase::Committed, ..s }
        },
        TxPhase::Aborting => TxView { phase: TxPhase::RolledBack, ..s },
        TxPhase::Committed => s,
        TxPhase::RolledBack => s,
    }
}

/// The state after a sequence of reported outcomes.
pub open spec fn tx_run(s: TxView, outcomes: Seq<bool>) -> TxView
    decreases outcomes.len(),
{
    if outcomes.len() == 0 {
        s
    } else {
        tx_run(tx_step(s, outcomes[0]), outcomes.drop_first())
    }
}

/// How many rows of the batch a reader of the store can see.
pub open spec fn tx_visible(s: TxView) -> nat {
    if s.phase is Committed {
        s.written
    } else {
        0
    }
}

/// The write of one batch inside a single transaction.
///
/// The caller performs each command of `next_command` and reports whether it
/// succeeded; the batch is committed only after every row was written.
#[derive(Debug)]
pub struct UpsertTx {
    len: usize,
    written: usize,
    phase: TxPhase,
}

impl View for UpsertTx {
    type V = TxView;

    closed spec fn view(&self) -> TxView {
        TxView { len: self.len as nat, written: self.written as nat, phase: self.phase }
    }
}

impl UpsertTx {
    /// A write of `len` rows that has not begun.
    pub fn new(len: usize) -> (r: UpsertTx)
        ensures
            r@ == tx_start(len as nat),
            tx_wf(r@),
    {
        UpsertTx { len, written: 0, phase: TxPhase::Pending }
    }

    /// The next command to perform.
    pub fn next_command(&self) -> (r: TxCommand)
        requires
            tx_wf(self@),
        ensures
            r == tx_next(self@),
    {
        match self.phase {
            TxPhase::Pending => if self.len == 0 {
                TxCommand::Finish
            } else {
                TxCommand::Begin
            },
            TxPhase::Writing => if self.written < self.len {
                TxCommand::Write(self.written)
            } else {
                TxCommand::Commit
            },
            TxPhase::Aborting => TxCommand::Rollback,
            TxPhase::Committed => TxCommand::Finish,
            TxPhase::RolledBack => TxCommand::Finish,
        }
    }

    /// Records the outcome of the command last handed out.
    pub fn report(&mut self, ok: bool)
        requires
            tx_wf(old(self)@),
        ensures
            final(self)@ == tx_step(old(self)@, ok),
            tx_wf(final(self)@),
    {
        match self.phase {
            TxPhase::Pending => if self.len > 0 {
                self.phase = if ok {
                    TxPhase::Writing
                } else {
                    TxPhase::RolledBack
                };
            },
            TxPhase::Writing => if !ok {
                self.phase = TxPhase::Aborting;
            } else if self.written < self.len {
                self.written = self.written + 1;
            } else {
                self.phase = TxPhase::Committed;
            },
            TxPhase::Aborting => {
                self.phase = TxPhase::RolledBack;
            },
            TxPhase::Committed => {},
            TxPhase::RolledBack => {},
        }
    }

    /// Whether the batch was committed.
    pub fn is_committed(&self) -> (r: bool)
        ensures
            r == (self@.phase is Committed),
    {
        match self.phase {
            TxPhase::Committed => true,
            _ => false,
        }
    }

    /// The number of rows in the batch.
    pub fn len(&self) -> (r: usize)
        ensures
            r == self@.len,
    {
        self.len
    }
}

proof fn lemma_tx_run_wf(s: TxView, outcomes: Seq<bool>)
    requires
        tx_wf(s),
    ensures
        tx_wf(tx_run(s, outcomes)),
        tx_run(s, outcomes).len == s.len,
    decreases outcomes.len(),
{
    if outcomes.len() > 0 {
        lemma_tx_run_wf(tx_step(s, outcomes[0]), outcomes.drop_first());
    }
}

proof fn lemma_tx_abandoned_stays(s: TxView, outcomes: Seq<bool>)
    requires
        s.phase is Aborting || s.phase is RolledBack,
    ensures
        !(tx_run(s, outcomes).phase is Committed),
    decreases outcomes.len(),
{
    if outcomes.len() > 0 {
        lemma_tx_abandoned_stays(tx_step(s, outcomes[0]), outcomes.drop_first());
    }
}

/// From an open transaction with `written` rows, a commit needs the next
/// `len - written + 1` outcomes (the remaining writes and the commit) to succeed.
proof fn lemma_tx_commit_needs_success(s: TxView, outcomes: Seq<bool>)
    requires
        s.phase is Writing,
        s.written <= s.len,
        tx_run(s, outcomes).phase is Committed,
    ensures
        outcomes.len() >= s.len - s.written + 1,
        forall|i: int| 0 <= i < s.len - s.written + 1 ==> outcomes[i],
    decreases outcomes.len(),
{
    if outcomes.len() == 0 {
    } else {
        let next = tx_step(s, outcomes[0]);
        if !outcomes[0] {
            lemma_tx_abandoned_stays(next, outcomes.drop_first());
        } else if s.written < s.len {
            lemma_tx_commit_needs_success(next, outcomes.drop_first());
            assert forall|i: int| 0 <= i < s.len - s.written + 1 implies outcomes[i] by {
                if i > 0 {
                    assert(outcomes[i] == outcomes.drop_first()[i - 1]);
                }
            }
        }
    }
}

/// A batch write is all or nothing: whatever fails, a reader of the store sees
/// either none of the batch or all of it, and all of a non-empty batch only when
/// the opening, every row write and the commit succeeded.
pub proof fn lemma_upsert_all_or_nothing(len: nat, outcomes: Seq<bool>)
    requires
        len <= usize::MAX,
    ensures
        tx_visible(tx_run(tx_start(len), outcomes)) == 0 || tx_visible(tx_run(tx_start(len), outcomes))
            == len,
        len > 0 && tx_visible(tx_run(tx_start(len), outcomes)) == len ==> outcomes.len() >= len + 2
            && forall|i: int| 0 <= i < len + 2 ==> outcomes[i],
{
    let s = tx_start(len);
    lemma_tx_run_wf(s, outcomes);
    let end = tx_run(s, outcomes);
    if len > 0 && end.phase is Committed {
        let next = tx_step(s, outcomes[0]);
        if !outcomes[0] {
            lemma_tx_abandoned_stays(next, outcomes.drop_first());
        } else {
            lemma_tx_commit_needs_success(next, outcomes.drop_first());
            assert forall|i: int| 0 <= i < len + 2 implies outcomes[i] by {
                if i > 0 {
                    assert(outcomes[i] == outcomes.drop_first()[i - 1]);
                }
            }
        }
    }
}

proof fn lemma_tx_empty_stays(outcomes: Seq<bool>)
    ensures
        tx_run(tx_start(0), outcomes) == tx_start(0),
    decreases outcomes.len(),
{
    if outcomes.len() > 0 {
        lemma_tx_empty_stays(outcomes.drop_first());
    }
}

/// An empty batch performs no write: its only command is `Finish`, whatever is
/// reported.
pub proof fn lemma_empty_batch_writes_nothing(outcomes: Seq<bool>)
    ensures
        tx_next(tx_run(tx_start(0), outcomes)) == TxCommand::Finish,
        tx_visible(tx_run(tx_start(0), outcomes)) == 0,
{
    lemma_tx_empty_stays(outcomes);
}

} // verus!
