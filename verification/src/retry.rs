//! Binding a listener with retries: the attempts, the pauses between them,
//! and the end of it; and what becomes of a generation whose listeners were
//! bound one by one.

use crate::scope::ApiAccess;
use crate::text::{decimal, push_decimal};
use vstd::prelude::*;

verus! {

/// Why a listener could not be bound, or why it ended.
#[derive(Debug, Clone, PartialEq, Eq)]
pub struct ServerError {
    pub message: String,
}

/// An outcome as a value of specifications: success, or the words of the
/// failure.
pub open spec fn outcome_view(outcome: Result<(), ServerError>) -> Result<(), Seq<char>> {
    match outcome {
        Ok(_) => Ok(()),
        Err(error) => Err(error.message@),
    }
}

/// Where an operation that is retried stands.
#[derive(Debug, Clone, Copy, PartialEq, Eq, Structural)]
pub enum RetryPhase {
    /// Nothing was attempted yet.
    Ready,
    /// An attempt is under way.
    Attempting,
    /// The last attempt failed, and the pause after it is under way.
    Sleeping,
    /// An attempt succeeded.
    Succeeded,
    /// Every attempt failed.
    Failed,
}

/// What happened to an operation that is retried.
#[derive(Debug, Clone, Copy, PartialEq, Eq, Structural)]
pub enum RetryEvent {
    /// The operation is wanted.
    Begin,
    /// The attempt under way succeeded.
    Succeeded,
    /// The attempt under way failed.
    Failed,
    /// The pause is over.
    Slept,
}

/// What is to be done next for an operation that is retried.
#[derive(Debug, Clone, PartialEq, Eq)]
pub enum RetryAction {
    /// Make the attempt of this number; the first has number 1.
    Attempt { number: u16 },
    /// Pause for so many milliseconds.
    Sleep { millis: u64 },
    /// The operation is done.
    Succeed,
    /// The operation is given up, with these words.
    Fail { message: String },
    /// The event does not belong here; nothing is to be done.
    Nothing,
}

/// An action as a value of specifications.
pub enum RetryStep {
    Attempt { number: int },
    Sleep { millis: int },
    Succeed,
    Fail { message: Seq<char> },
    Nothing,
}

impl View for RetryAction {
    type V = RetryStep;

    open spec fn view(&self) -> RetryStep {
        match self {
            RetryAction::Attempt { number } => RetryStep::Attempt { number: *number as int },
            RetryAction::Sleep { millis } => RetryStep::Sleep { millis: *millis as int },
            RetryAction::Succeed => RetryStep::Succeed,
            RetryAction::Fail { message } => RetryStep::Fail { message: message@ },
            RetryAction::Nothing => RetryStep::Nothing,
        }
    }
}

/// The state of an operation that is retried.
pub struct RetryState {
    /// What is attempted, in words.
    pub description: Seq<char>,
    /// How often it may be attempted.
    pub attempts: int,
    /// The pause after a failed attempt, in milliseconds.
    pub timeout: int,
    pub phase: RetryPhase,
    /// The attempts begun so far.
    pub made: int,
    /// The pauses begun so far.
    pub pauses: int,
}

/// The words of giving up.
pub open spec fn retry_failure(description: Seq<char>, attempts: int) -> Seq<char> {
    "Cannot complete "@ + description + " after "@ + decimal(attempts as nat) + " attempts"@
}

/// The rule of retrying. The first attempt is made at once. After an attempt
/// that failed comes a pause of the fixed length, and after the pause the
/// next attempt, or the end where all attempts are used up. An event that
/// does not belong to the phase changes nothing.
pub open spec fn retry_next(state: RetryState, event: RetryEvent) -> (RetryState, RetryStep) {
    match (state.phase, event) {
        (RetryPhase::Ready, RetryEvent::Begin) => if state.attempts >= 1 {
            (
                RetryState { phase: RetryPhase::Attempting, made: 1, ..state },
                RetryStep::Attempt { number: 1 },
            )
        } else {
            (
                RetryState { phase: RetryPhase::Failed, ..state },
                RetryStep::Fail { message: retry_failure(state.description, state.attempts) },
            )
        },
        (RetryPhase::Attempting, RetryEvent::Succeeded) => (
            RetryState { phase: RetryPhase::Succeeded, ..state },
            RetryStep::Succeed,
        ),
        (RetryPhase::Attempting, RetryEvent::Failed) => (
            RetryState { phase: RetryPhase::Sleeping, pauses: state.pauses + 1, ..state },
            RetryStep::Sleep { millis: state.timeout },
        ),
        (RetryPhase::Sleeping, RetryEvent::Slept) => if state.made < state.attempts {
            (
                RetryState { phase: RetryPhase::Attempting, made: state.made + 1, ..state },
                RetryStep::Attempt { number: state.made + 1 },
            )
        } else {
            (
                RetryState { phase: RetryPhase::Failed, ..state },
                RetryStep::Fail { message: retry_failure(state.description, state.attempts) },
            )
        },
        _ => (state, RetryStep::Nothing),
    }
}

/// The state before anything was attempted.
pub open spec fn retry_start(description: Seq<char>, attempts: int, timeout: int) -> RetryState {
    RetryState { description, attempts, timeout, phase: RetryPhase::Ready, made: 0, pauses: 0 }
}

/// The state after the attempts under way and to come had the given
/// outcomes, `true` for a success, each failure followed by its pause.
pub open spec fn retry_after(state: RetryState, outcomes: Seq<bool>) -> RetryState
    decreases outcomes.len(),
{
    if outcomes.len() == 0 {
        state
    } else if outcomes[0] {
        retry_after(retry_next(state, RetryEvent::Succeeded).0, outcomes.drop_first())
    } else {
        retry_after(
            retry_next(retry_next(state, RetryEvent::Failed).0, RetryEvent::Slept).0,
            outcomes.drop_first(),
        )
    }
}

/// Binding that fails `failures` times and then succeeds, with attempts to
/// spare, succeeds with the attempt after the failures, and has paused once
/// for each failure.
pub proof fn lemma_retry_succeeds_after_failures(state: RetryState, failures: int)
    requires
        state.phase == RetryPhase::Attempting,
        failures >= 0,
        state.made + failures <= state.attempts,
    ensures
        ({
            let end = retry_after(
                state,
                Seq::new(failures as nat, |i: int| false).push(true),
            );
            &&& end.phase == RetryPhase::Succeeded
            &&& end.made == state.made + failures
            &&& end.pauses == state.pauses + failures
            &&& end.attempts == state.attempts
            &&& end.timeout == state.timeout
        }),
    decreases failures,
{
    let outcomes = Seq::new(failures as nat, |i: int| false).push(true);
    if failures == 0 {
        assert(outcomes.drop_first() == Seq::<bool>::empty());
        assert(outcomes[0]);
        reveal_with_fuel(retry_after, 2);
    } else {
        let next = retry_next(retry_next(state, RetryEvent::Failed).0, RetryEvent::Slept).0;
        assert(outcomes.drop_first() == Seq::new((failures - 1) as nat, |i: int| false).push(
            true,
        ));
        assert(!outcomes[0]);
        lemma_retry_succeeds_after_failures(next, failures - 1);
    }
}

/// Binding that fails as often as it may be attempted is given up: every
/// attempt was made, each was followed by its pause, and whatever the later
/// outcomes would have been, they change nothing.
pub proof fn lemma_retry_fails_after_all(state: RetryState, outcomes: Seq<bool>)
    requires
        state.phase == RetryPhase::Attempting,
        1 <= state.made <= state.attempts,
        outcomes.len() >= state.attempts - state.made + 1,
        forall|i: int| 0 <= i < state.attempts - state.made + 1 ==> !outcomes[i],
    ensures
        ({
            let end = retry_after(state, outcomes);
            &&& end.phase == RetryPhase::Failed
            &&& end.made == state.attempts
            &&& end.pauses == state.pauses + (state.attempts - state.made + 1)
        }),
    decreases outcomes.len(),
{
    let next = retry_next(retry_next(state, RetryEvent::Failed).0, RetryEvent::Slept).0;
    assert(!outcomes[0]);
    if state.made < state.attempts {
        lemma_retry_fails_after_all(next, outcomes.drop_first());
    } else {
        lemma_retry_stays_failed(next, outcomes.drop_first());
    }
}

/// Once the operation is done or given up, nothing moves.
pub proof fn lemma_retry_stays_failed(state: RetryState, outcomes: Seq<bool>)
    requires
        state.phase == RetryPhase::Failed || state.phase == RetryPhase::Succeeded,
    ensures
        retry_after(state, outcomes) == state,
    decreases outcomes.len(),
{
    if outcomes.len() > 0 {
        lemma_retry_stays_failed(state, outcomes.drop_first());
    }
}

/// An operation that fails `failures` times and then succeeds, where it may
/// be attempted more often than that, succeeds with attempt `failures + 1`,
/// after `failures` pauses of the fixed length.
pub proof fn lemma_succeeds_after_failures(
    description: Seq<char>,
    attempts: int,
    timeout: int,
    failures: int,
)
    requires
        0 <= failures < attempts,
    ensures
        ({
            let begun = retry_next(retry_start(description, attempts, timeout), RetryEvent::Begin);
            let end = retry_after(begun.0, Seq::new(failures as nat, |i: int| false).push(true));
            &&& begun.1 == RetryStep::Attempt { number: 1 }
            &&& end.phase == RetryPhase::Succeeded
            &&& end.made == failures + 1
            &&& end.pauses == failures
            &&& end.timeout == timeout
        }),
{
    let begun = retry_next(retry_start(description, attempts, timeout), RetryEvent::Begin);
    lemma_retry_succeeds_after_failures(begun.0, failures);
}

/// An operation that fails as often as it may be attempted is given up
/// after that many attempts and that many pauses, with words that name the
/// operation and the number of attempts.
pub proof fn lemma_fails_after_all_attempts(
    description: Seq<char>,
    attempts: int,
    timeout: int,
    outcomes: Seq<bool>,
)
    requires
        0 <= attempts <= outcomes.len(),
        forall|i: int| 0 <= i < attempts ==> !outcomes[i],
    ensures
        ({
            let begun = retry_next(retry_start(description, attempts, timeout), RetryEvent::Begin);
            let end = retry_after(begun.0, outcomes);
            &&& end.phase == RetryPhase::Failed
            &&& end.made == attempts
            &&& end.pauses == attempts
            &&& attempts == 0 ==> begun.1 == RetryStep::Fail {
                message: retry_failure(description, attempts),
            }
        }),
{
    let begun = retry_next(retry_start(description, attempts, timeout), RetryEvent::Begin);
    if attempts == 0 {
        lemma_retry_stays_failed(begun.0, outcomes);
    } else {
        lemma_retry_fails_after_all(begun.0, outcomes);
    }
}

/// An operation that is retried: what it is, how often it may be attempted,
/// and where it stands.
#[derive(Debug, PartialEq, Eq)]
pub struct Retry {
    description: String,
    attempts: u16,
    timeout: u64,
    phase: RetryPhase,
    made: u16,
    pauses: u16,
}

impl View for Retry {
    type V = RetryState;

    closed spec fn view(&self) -> RetryState {
        RetryState {
            description: self.description@,
            attempts: self.attempts as int,
            timeout: self.timeout as int,
            phase: self.phase,
            made: self.made as int,
            pauses: self.pauses as int,
        }
    }
}

/// An operation to be attempted up to `attempts` times, with a pause of
/// `timeout` milliseconds after each attempt that fails.
pub fn with_retries(description: String, attempts: u16, timeout: u64) -> (retry: Retry)
    ensures
        retry@ == retry_start(description@, attempts as int, timeout as int),
{
    Retry { description, attempts, timeout, phase: RetryPhase::Ready, made: 0, pauses: 0 }
}

impl Retry {
    #[verifier::type_invariant]
    spec fn counted(self) -> bool {
        &&& self.made <= self.attempts
        &&& self.pauses <= self.made
        &&& (self.phase == RetryPhase::Attempting ==> self.pauses < self.made)
        &&& (self.phase == RetryPhase::Ready ==> self.made == 0)
    }

    pub fn phase(&self) -> (phase: RetryPhase)
        ensures
            phase == self@.phase,
    {
        self.phase
    }

    /// What is attempted, in words.
    pub fn description(&self) -> (description: &str)
        ensures
            description@ == self@.description,
    {
        self.description.as_str()
    }

    /// The attempts begun so far.
    pub fn attempts_made(&self) -> (made: u16)
        ensures
            made == self@.made,
    {
        self.made
    }

    /// The pauses begun so far.
    pub fn pauses(&self) -> (pauses: u16)
        ensures
            pauses == self@.pauses,
    {
        self.pauses
    }

    /// The words of giving up.
    fn failure(&self) -> (message: String)
        ensures
            message@ == retry_failure(self@.description, self@.attempts),
    {
        let mut message = String::from_str("Cannot complete ");
        message.append(self.description.as_str());
        message.append(" after ");
        push_decimal(&mut message, self.attempts as u64);
        message.append(" attempts");
        message
    }

    /// Moves to a phase, with the counts that belong to it.
    fn advance(&mut self, phase: RetryPhase, made: u16, pauses: u16)
        requires
            made <= old(self)@.attempts,
            pauses <= made,
            phase == RetryPhase::Attempting ==> pauses < made,
            phase == RetryPhase::Ready ==> made == 0,
        ensures
            final(self)@ == (RetryState { phase, made: made as int, pauses: pauses as int, ..old(self)@ }),
    {
        proof {
            use_type_invariant(&*self);
        }
        let mut description = String::new();
        core::mem::swap(&mut self.description, &mut description);
        *self = Retry {
            description,
            attempts: self.attempts,
            timeout: self.timeout,
            phase,
            made,
            pauses,
        };
    }

    /// Takes note of what happened, and says what is to be done next.
    pub fn step(&mut self, event: RetryEvent) -> (action: RetryAction)
        ensures
            (final(self)@, action@) == retry_next(old(self)@, event),
    {
        proof {
            use_type_invariant(&*self);
        }
        match (self.phase, event) {
            (RetryPhase::Ready, RetryEvent::Begin) => {
                if self.attempts >= 1 {
                    self.advance(RetryPhase::Attempting, 1, 0);
                    RetryAction::Attempt { number: 1 }
                } else {
                    let message = self.failure();
                    self.advance(RetryPhase::Failed, 0, 0);
                    RetryAction::Fail { message }
                }
            },
            (RetryPhase::Attempting, RetryEvent::Succeeded) => {
                self.advance(RetryPhase::Succeeded, self.made, self.pauses);
                RetryAction::Succeed
            },
            (RetryPhase::Attempting, RetryEvent::Failed) => {
                self.advance(RetryPhase::Sleeping, self.made, self.pauses + 1);
                RetryAction::Sleep { millis: self.timeout }
            },
            (RetryPhase::Sleeping, RetryEvent::Slept) => {
                if self.made < self.attempts {
                    self.advance(RetryPhase::Attempting, self.made + 1, self.pauses);
                    RetryAction::Attempt { number: self.made }
                } else {
                    let message = self.failure();
                    self.advance(RetryPhase::Failed, self.made, self.pauses);
                    RetryAction::Fail { message }
                }
            },
            _ => RetryAction::Nothing,
        }
    }
}

/// What is attempted when a listener is bound, in words.
pub open spec fn start_description(access: ApiAccess, address: Seq<char>) -> Seq<char> {
    "starting "@ + access.name() + " api on "@ + address
}

/// The outcome of binding the listeners of one generation: success where
/// each was bound, and the first failure otherwise.
pub open spec fn joined(outcomes: Seq<Result<(), Seq<char>>>) -> Result<(), Seq<char>>
    decreases outcomes.len(),
{
    if outcomes.len() == 0 {
        Ok(())
    } else if outcomes[0] is Err {
        outcomes[0]
    } else {
        joined(outcomes.drop_first())
    }
}

/// The outcomes of a list, as values of specifications.
pub open spec fn outcomes_view(outcomes: Seq<Result<(), ServerError>>) -> Seq<
    Result<(), Seq<char>>,
> {
    outcomes.map_values(|outcome: Result<(), ServerError>| outcome_view(outcome))
}

/// Binding succeeds as a whole exactly where every listener was bound.
pub proof fn lemma_joined_all_or_nothing(outcomes: Seq<Result<(), Seq<char>>>)
    ensures
        joined(outcomes) is Ok <==> forall|i: int| 0 <= i < outcomes.len() ==> outcomes[i] is Ok,
        joined(outcomes) is Err ==> exists|i: int|
            0 <= i < outcomes.len() && outcomes[i] == joined(outcomes) && forall|j: int|
                0 <= j < i ==> outcomes[j] is Ok,
    decreases outcomes.len(),
{
    if outcomes.len() == 0 {
    } else if outcomes[0] is Err {
        assert(outcomes[0] == joined(outcomes));
    } else {
        let rest = outcomes.drop_first();
        lemma_joined_all_or_nothing(rest);
        assert forall|i: int| 0 <= i < rest.len() implies rest[i] == outcomes[i + 1] by {}
        if joined(rest) is Ok {
            assert forall|i: int| 0 <= i < outcomes.len() implies outcomes[i] is Ok by {
                if i > 0 {
                    assert(rest[i - 1] is Ok);
                }
            }
        } else {
            let i = choose|i: int|
                0 <= i < rest.len() && rest[i] == joined(rest) && forall|j: int|
                    0 <= j < i ==> rest[j] is Ok;
            assert(outcomes[i + 1] == joined(outcomes));
            assert forall|j: int| 0 <= j < i + 1 implies outcomes[j] is Ok by {
                if j > 0 {
                    assert(rest[j - 1] is Ok);
                }
            }
        }
    }
}

/// The outcome of binding the listeners of one generation, from the outcome
/// for each of them, in the order in which they ended.
pub fn join_starts(outcomes: Vec<Result<(), ServerError>>) -> (outcome: Result<(), ServerError>)
    ensures
        outcome_view(outcome) == joined(outcomes_view(outcomes@)),
{
    let ghost all = outcomes_view(outcomes@);
    assert(all.skip(0) == all);
    for outcome in it: outcomes
        invariant
            all == outcomes_view(it.seq()),
            joined(all) == joined(all.skip(it.index() as int)),
    {
        let ghost rest = all.skip(it.index() as int);
        proof {
            assert(rest[0] == outcome_view(outcome));
            assert(rest.drop_first() == all.skip(it.index() + 1));
        }
        match outcome {
            Ok(_) => {},
            Err(error) => {
                return Err(error);
            },
        }
    }
    Ok(())
}

} // verus!
