//! An interactive number-guessing session, verified: a hidden target drawn
//! once over [1, 100], raw lines trimmed and parsed into guesses, a
//! tri-state comparison, and the retry/compare loop as an explicit state
//! machine whose only terminal state is reached by an equal guess. Beside
//! it stand a few small, verified string and ownership exercises.

pub mod basics;
pub mod compare;
pub mod ownership;
pub mod parser;
pub mod random;
pub mod session;
pub mod words;
