//! Random password generation under a character-class policy, and a
//! heuristic strength rating for passwords.

pub mod generator;
pub mod strength;
