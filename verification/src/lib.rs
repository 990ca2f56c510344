//! A poll registry whose voting eligibility check is delegated to an
//! external token registry.
//!
//! Polls are grouped by the account of the external registry (the
//! authority) that issued the credentials eligible to vote on them.
//! Casting a ballot is a two-phase protocol: a dispatch phase issues an
//! asynchronous ownership query for the credential, and a completion
//! phase validates the response and commits the ballot, enforcing
//! exactly-once counting per credential.

pub mod contract;
pub mod errors;
pub mod laws;
pub mod model;
pub mod protocol;
