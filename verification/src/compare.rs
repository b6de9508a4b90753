use vstd::prelude::*;

verus! {

/// Tri-state outcome of ordering a guess against the target.
#[derive(Clone, Copy, Debug, PartialEq, Eq, Structural)]
pub enum ComparisonResult {
    Less,
    Equal,
    Greater,
}

/// The result `compare` owes for a given guess and target.
pub open spec fn compare_spec(guess: u32, target: u32) -> ComparisonResult {
    if guess < target {
        ComparisonResult::Less
    } else if guess > target {
        ComparisonResult::Greater
    } else {
        ComparisonResult::Equal
    }
}

/// Orders a guess against the target: a pure, total comparison.
pub fn compare(guess: u32, target: u32) -> (r: ComparisonResult)
    ensures
        r == compare_spec(guess, target),
        r == ComparisonResult::Less <==> guess < target,
        r == ComparisonResult::Greater <==> guess > target,
        r == ComparisonResult::Equal <==> guess == target,
{
    if guess < target {
        ComparisonResult::Less
    } else if guess > target {
        ComparisonResult::Greater
    } else {
        ComparisonResult::Equal
    }
}

} // verus!
