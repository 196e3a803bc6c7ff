use vstd::prelude::*;

verus! {

/// How many times initialising the embedding model is attempted.
pub const MAX_INIT_ATTEMPTS: u32 = 5;

/// The wait before the first retry; each later retry waits twice as long.
pub const BASE_BACKOFF_MS: u64 = 500;

/// The lifecycle of the embedding model.
#[derive(Debug, Clone, Copy, PartialEq, Eq, Structural)]
pub enum ModelState {
    /// Initialisation is under way; `failures` attempts have failed so far.
    Loading { failures: u32 },
    /// The model is initialised and can embed.
    Ready,
    /// Every attempt failed; the model stays unavailable.
    PermanentlyFailed,
}

/// What the initialising context is to do next.
#[derive(Debug, Clone, Copy, PartialEq, Eq, Structural)]
pub enum InitAction {
    /// Wait `delay_ms` milliseconds, then attempt to initialise the model.
    Attempt { delay_ms: u64 },
    /// Initialisation is over, one way or the other.
    Stop,
}

pub open spec fn pow2(n: nat) -> nat
    decreases n,
{
    if n == 0 {
        1
    } else {
        2 * pow2((n - 1) as nat)
    }
}

/// The wait before the attempt that follows `failures` failed ones.
pub open spec fn backoff_ms(failures: nat) -> nat {
    if failures == 0 {
        0
    } else {
        (BASE_BACKOFF_MS * pow2((failures - 1) as nat)) as nat
    }
}

/// The action that follows a state.
pub open spec fn init_next(s: ModelState) -> InitAction {
    match s {
        ModelState::Loading { failures } => InitAction::Attempt {
            delay_ms: backoff_ms(failures as nat) as u64,
        },
        _ => InitAction::Stop,
    }
}

/// The state after an attempt succeeded or failed.
pub open spec fn init_step(s: ModelState, succeeded: bool) -> ModelState {
    match s {
        ModelState::Loading { failures } => if succeeded {
            ModelState::Ready
        } else if failures + 1 >= MAX_INIT_ATTEMPTS {
            ModelState::PermanentlyFailed
        } else {
            ModelState::Loading { failures: (failures + 1) as u32 }
        },
        _ => s,
    }
}

/// The state after a sequence of attempt outcomes.
pub open spec fn init_run(s: ModelState, outcomes: Seq<bool>) -> ModelState
    decreases outcomes.len(),
{
    if outcomes.len() == 0 {
        s
    } else {
        init_run(init_step(s, outcomes[0]), outcomes.drop_first())
    }
}

impl ModelState {
    /// While loading, the failures stay under the attempt budget.
    pub open spec fn wf(self) -> bool {
        self matches ModelState::Loading { failures } ==> failures < MAX_INIT_ATTEMPTS
    }

    /// The state before the first attempt.
    pub fn new() -> (r: ModelState)
        ensures
            r == (ModelState::Loading { failures: 0 }),
            r.wf(),
    {
        ModelState::Loading { failures: 0 }
    }

    /// The next action of the initialising context.
    pub fn next_action(&self) -> (r: InitAction)
        requires
            self.wf(),
        ensures
            r == init_next(*self),
    {
        match *self {
            ModelState::Loading { failures } => {
                if failures == 0 {
                    return InitAction::Attempt { delay_ms: 0 };
                }
                let mut delay: u64 = BASE_BACKOFF_MS;
                let mut i: u32 = 1;
                while i < failures
                    invariant
                        1 <= i <= failures < MAX_INIT_ATTEMPTS,
                        delay == BASE_BACKOFF_MS * pow2((i - 1) as nat),
                        pow2((i - 1) as nat) <= 8,
                    decreases failures - i,
                {
                    assert(pow2(i as nat) == 2 * pow2((i - 1) as nat));
                    delay = delay * 2;
                    i = i + 1;
                    assert(pow2((i - 1) as nat) <= 8) by {
                        assert(pow2(0) == 1);
                        assert(pow2(1) == 2);
                        assert(pow2(2) == 4);
                        assert(pow2(3) == 8);
                    }
                }
                InitAction::Attempt { delay_ms: delay }
            },
            _ => InitAction::Stop,
        }
    }

    /// Records the outcome of an attempt.
    pub fn report(&mut self, succeeded: bool)
        requires
            old(self).wf(),
        ensures
            *final(self) == init_step(*old(self), succeeded),
            final(self).wf(),
    {
        match *self {
            ModelState::Loading { failures } => {
                *self = if succeeded {
                    ModelState::Ready
                } else if failures + 1 >= MAX_INIT_ATTEMPTS {
                    ModelState::PermanentlyFailed
                } else {
                    ModelState::Loading { failures: failures + 1 }
                };
            },
            _ => {},
        }
    }

    /// Whether queries may embed with the model.
    pub fn is_ready(&self) -> (r: bool)
        ensures
            r == (*self is Ready),
    {
        match self {
            ModelState::Ready => true,
            _ => false,
        }
    }
}

proof fn lemma_init_failures(s: ModelState, outcomes: Seq<bool>)
    requires
        s.wf(),
        s is Loading,
        forall|i: int| 0 <= i < outcomes.len() ==> !outcomes[i],
    ensures
        s->failures + outcomes.len() >= MAX_INIT_ATTEMPTS ==> init_run(s, outcomes) is PermanentlyFailed,
        s->failures + outcomes.len() < MAX_INIT_ATTEMPTS ==> init_run(s, outcomes) == (
        ModelState::Loading { failures: (s->failures + outcomes.len()) as u32 }),
    decreases outcomes.len(),
{
    if outcomes.len() > 0 {
        let next = init_step(s, outcomes[0]);
        if next is Loading {
            lemma_init_failures(next, outcomes.drop_first());
        } else {
            lemma_init_stopped(next, outcomes.drop_first());
        }
    }
}

proof fn lemma_init_stopped(s: ModelState, outcomes: Seq<bool>)
    requires
        !(s is Loading),
    ensures
        init_run(s, outcomes) == s,
    decreases outcomes.len(),
{
    if outcomes.len() > 0 {
        lemma_init_stopped(s, outcomes.drop_first());
    }
}

proof fn lemma_init_loading_bound(s: ModelState, outcomes: Seq<bool>)
    requires
        s.wf(),
    ensures
        init_run(s, outcomes).wf(),
        init_run(s, outcomes) matches ModelState::Loading { failures } ==> s is Loading && failures
            == s->failures + outcomes.len(),
    decreases outcomes.len(),
{
    if outcomes.len() > 0 {
        let next = init_step(s, outcomes[0]);
        lemma_init_loading_bound(next, outcomes.drop_first());
    }
}

/// Initialisation is bounded: it stops after at most `MAX_INIT_ATTEMPTS`
/// attempts, and that many failures in a row leave the model permanently failed.
pub proof fn lemma_init_attempt_budget(outcomes: Seq<bool>)
    ensures
        init_run(ModelState::Loading { failures: 0 }, outcomes) is Loading ==> outcomes.len()
            < MAX_INIT_ATTEMPTS,
        outcomes.len() >= MAX_INIT_ATTEMPTS && (forall|i: int| 0 <= i < outcomes.len() ==> !outcomes[i])
            ==> init_run(ModelState::Loading { failures: 0 }, outcomes) is PermanentlyFailed,
{
    let s = ModelState::Loading { failures: 0 };
    lemma_init_loading_bound(s, outcomes);
    if forall|i: int| 0 <= i < outcomes.len() ==> !outcomes[i] {
        lemma_init_failures(s, outcomes);
    }
}

} // verus!
