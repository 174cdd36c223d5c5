//! Recovery of the pseudo-random seed behind an observed sequence of gacha
//! draws: a replay model for the game's 32-bit xorshift generator, a matcher
//! that replays one candidate seed against the observed draws, an exhaustive
//! scan over the non-zero 32-bit seed domain split into disjoint ranges, an
//! advisory detector for observation patterns prone to multiple matches, and
//! the parsers that turn the game's delimited tables into typed banner data.

pub mod collision;
pub mod gatya_data;
pub mod matcher;
pub mod model;
pub mod numbers;
pub mod prng;
pub mod search;
pub mod signature;
