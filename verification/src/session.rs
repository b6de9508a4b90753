use vstd::prelude::*;

use crate::compare::{compare, compare_spec, ComparisonResult};
use crate::parser::{parse, parse_ok, parsed_guess};

verus! {

/// The two durable states of a session: waiting for the next line, or won.
#[derive(Clone, Copy, Debug, PartialEq, Eq, Structural)]
pub enum SessionState {
    AwaitingInput,
    Won,
}

/// The user-facing feedback one evaluated guess can draw.
#[derive(Clone, Copy, Debug, PartialEq, Eq, Structural)]
pub enum Feedback {
    TooSmall,
    TooLarge,
    Congratulation,
}

impl Feedback {
    /// The user-facing line this feedback prints.
    pub fn message(self) -> (s: String)
        ensures
            self == Feedback::TooSmall ==> s@ == "Too small..."@,
            self == Feedback::TooLarge ==> s@ == "Too large..."@,
            self == Feedback::Congratulation ==> s@
                == "Congratulations! You guessed the number!"@,
    {
        match self {
            Feedback::TooSmall => String::from_str("Too small..."),
            Feedback::TooLarge => String::from_str("Too large..."),
            Feedback::Congratulation => String::from_str(
                "Congratulations! You guessed the number!",
            ),
        }
    }
}

/// The state one line of input takes a session to. A waiting session wins
/// exactly when the line parses and the guess compares `Equal` against the
/// target; `Won` is terminal and absorbs any further input.
pub open spec fn step_state(target: u32, st: SessionState, input: Seq<char>) -> SessionState {
    match st {
        SessionState::Won => SessionState::Won,
        SessionState::AwaitingInput => if parse_ok(input) && compare_spec(
            parsed_guess(input) as u32,
            target,
        ) == ComparisonResult::Equal {
            SessionState::Won
        } else {
            SessionState::AwaitingInput
        },
    }
}

/// The feedback one line of input draws: none for a line that does not
/// parse, otherwise the echo of the comparison of the guess against the
/// target.
pub open spec fn step_feedback(target: u32, st: SessionState, input: Seq<char>) -> Option<
    Feedback,
> {
    match st {
        SessionState::Won => None,
        SessionState::AwaitingInput => if !parse_ok(input) {
            None
        } else {
            match compare_spec(parsed_guess(input) as u32, target) {
                ComparisonResult::Less => Some(Feedback::TooSmall),
                ComparisonResult::Greater => Some(Feedback::TooLarge),
                ComparisonResult::Equal => Some(Feedback::Congratulation),
            }
        },
    }
}

/// The state a fresh session reaches after the given lines, in order.
pub open spec fn run_state(target: u32, inputs: Seq<Seq<char>>) -> SessionState
    decreases inputs.len(),
{
    if inputs.len() == 0 {
        SessionState::AwaitingInput
    } else {
        step_state(target, run_state(target, inputs.drop_last()), inputs.last())
    }
}

/// One interactive guessing session: the hidden target, drawn once at
/// session start and never changed, and the current state of the
/// retry/compare loop.
pub struct Session {
    target: u32,
    state: SessionState,
}

impl Session {
    /// The hidden target of this session.
    pub closed spec fn target(&self) -> u32 {
        self.target
    }

    /// The current state of this session.
    pub closed spec fn state(&self) -> SessionState {
        self.state
    }

    /// Starts a session around a target chosen by the caller.
    pub fn new(target: u32) -> (s: Session)
        requires
            1 <= target <= 100,
        ensures
            s.target() == target,
            s.state() == SessionState::AwaitingInput,
    {
        Session { target, state: SessionState::AwaitingInput }
    }

    /// Starts a session whose target is one independent draw over
    /// [1, 100] from the process-wide entropy source.
    pub fn new_random() -> (s: Session)
        ensures
            1 <= s.target() <= 100,
            s.state() == SessionState::AwaitingInput,
    {
        Session::new(crate::random::generate(1, 100))
    }

    /// Whether the session has reached its terminal state.
    pub fn is_won(&self) -> (b: bool)
        ensures
            b == (self.state() == SessionState::Won),
    {
        match self.state {
            SessionState::Won => true,
            SessionState::AwaitingInput => false,
        }
    }

    /// Feeds one raw line to the session. A line that does not parse is
    /// discarded silently: no feedback, no change of state. A parsed guess
    /// draws the feedback of its comparison against the target, and an
    /// equal guess ends the session.
    pub fn submit_line(&mut self, raw: &str) -> (fb: Option<Feedback>)
        ensures
            final(self).target() == old(self).target(),
            final(self).state() == step_state(old(self).target(), old(self).state(), raw@),
            fb == step_feedback(old(self).target(), old(self).state(), raw@),
    {
        match self.state {
            SessionState::Won => None,
            SessionState::AwaitingInput => match parse(raw) {
                Err(_) => None,
                Ok(guess) => match compare(guess, self.target) {
                    ComparisonResult::Less => Some(Feedback::TooSmall),
                    ComparisonResult::Greater => Some(Feedback::TooLarge),
                    ComparisonResult::Equal => {
                        self.state = SessionState::Won;
                        Some(Feedback::Congratulation)
                    },
                },
            },
        }
    }
}

/// Lines that do not parse leave a fresh session waiting, however many of
/// them arrive, and none of them draws feedback from any state.
pub proof fn lemma_invalid_input_is_ignored(target: u32, inputs: Seq<Seq<char>>)
    requires
        forall|i: int| 0 <= i < inputs.len() ==> !parse_ok(#[trigger] inputs[i]),
    ensures
        run_state(target, inputs) == SessionState::AwaitingInput,
        forall|i: int, st: SessionState|
            0 <= i < inputs.len() ==> #[trigger] step_feedback(target, st, inputs[i]) is None,
    decreases inputs.len(),
{
    if inputs.len() > 0 {
        let d = inputs.drop_last();
        assert forall|i: int| 0 <= i < d.len() implies !parse_ok(#[trigger] d[i]) by {
            assert(d[i] == inputs[i]);
        }
        lemma_invalid_input_is_ignored(target, d);
    }
}

/// A session reaches `Won` only through a round whose parsed guess
/// compared `Equal` against the target.
pub proof fn lemma_won_only_by_equal(target: u32, inputs: Seq<Seq<char>>)
    requires
        run_state(target, inputs) == SessionState::Won,
    ensures
        exists|i: int|
            0 <= i < inputs.len() && parse_ok(#[trigger] inputs[i]) && compare_spec(
                parsed_guess(inputs[i]) as u32,
                target,
            ) == ComparisonResult::Equal,
    decreases inputs.len(),
{
    let d = inputs.drop_last();
    if run_state(target, d) == SessionState::Won {
        lemma_won_only_by_equal(target, d);
        let i = choose|i: int|
            0 <= i < d.len() && parse_ok(#[trigger] d[i]) && compare_spec(
                parsed_guess(d[i]) as u32,
                target,
            ) == ComparisonResult::Equal;
        assert(d[i] == inputs[i]);
        assert(parse_ok(inputs[i]) && compare_spec(parsed_guess(inputs[i]) as u32, target)
            == ComparisonResult::Equal);
    } else {
        let i = inputs.len() - 1;
        assert(inputs.last() == inputs[i]);
        assert(parse_ok(inputs[i]) && compare_spec(parsed_guess(inputs[i]) as u32, target)
            == ComparisonResult::Equal);
    }
}

} // verus!
