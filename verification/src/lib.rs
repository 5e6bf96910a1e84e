//! Client-side data layer for a proof-of-stake chain's subnet runtime: the
//! compact wire codec and the entities carried in it, typed runtime queries,
//! endpoint announcements, weight normalisation, and wallet key handling.

pub mod account;
pub mod axon;
pub mod codec;
pub mod rpc;
pub mod sign;
pub mod subtensor;
pub mod wallet;
pub mod weights;

pub use account::AccountId;
