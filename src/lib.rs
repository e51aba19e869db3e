//! Governance of a child subnet in hierarchical consensus: validators post
//! collateral, the subnet moves through its lifecycle, and checkpoints are
//! committed once two thirds of the validators vote for them.
pub mod keyed;
pub mod types;
pub mod state;
pub mod checkpoint;
pub mod actor;
pub mod laws;

pub use actor::Actor;
pub use state::State;
pub use types::{
    ActorError, ActorId, ActorType, ChainEpoch, Checkpoint, CommittedCheckpoint, ConsensusType, ConstructParams,
    JoinParams, Method, Outbound, StakeEntry, Status, TokenAmount, Validator, Votes, INIT_ACTOR_ADDR,
    MIN_COLLATERAL_AMOUNT, TEST_ADDR_ID,
};
