//! Verified core of a blockchain light client: validator sets, commits,
//! voting-power tallies, trusting verification, evidence and timestamps.

pub mod block;
pub mod error;
pub mod evidence;
pub mod lite;
pub mod tag;
pub mod time;
pub mod validator;
