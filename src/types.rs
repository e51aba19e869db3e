//! Plain data of the subnet actor: parameters, records, messages and errors.
use vstd::prelude::*;

verus! {

/// Identifier of an actor on the parent chain.
pub type ActorId = u64;

/// Amount of tokens, in atto units.
pub type TokenAmount = u128;

/// Epoch of the chain.
pub type ChainEpoch = u64;

/// The init actor, the only caller allowed to construct the subnet actor.
pub const INIT_ACTOR_ADDR: ActorId = 1;

/// Caller that may also construct the actor when it runs in testing mode.
pub const TEST_ADDR_ID: ActorId = 339;

/// Collateral that activates a subnet and registers it with the coordinator.
pub const MIN_COLLATERAL_AMOUNT: TokenAmount = 1_000_000_000_000_000_000;

/// Lifecycle of a subnet.
#[derive(PartialEq, Eq, Structural, Clone, Copy, Debug)]
pub enum Status {
    Instantiated,
    Active,
    Inactive,
    Terminating,
    Killed,
}

/// Consensus run by the subnet; opaque to the actor.
#[derive(PartialEq, Eq, Structural, Clone, Copy, Debug)]
pub enum ConsensusType {
    Delegated,
    PoW,
    PoS,
}

/// Kind of a calling actor, as the host classifies its code.
#[derive(PartialEq, Eq, Structural, Clone, Copy, Debug)]
pub enum ActorType {
    Account,
    Multisig,
    Other,
}

/// Categorical errors surfaced to the host.
#[derive(PartialEq, Eq, Structural, Clone, Copy, Debug)]
pub enum ActorError {
    Forbidden,
    IllegalArgument,
    IllegalState,
    Serialization,
    UnhandledMessage,
}

/// Methods of the actor, by selector.
#[derive(PartialEq, Eq, Structural, Clone, Copy, Debug)]
pub enum Method {
    Constructor,
    Join,
    Leave,
    Kill,
    SubmitCheckpoint,
}

pub open spec fn method_spec(selector: u64) -> Option<Method> {
    if selector == 1 {
        Some(Method::Constructor)
    } else if selector == 2 {
        Some(Method::Join)
    } else if selector == 3 {
        Some(Method::Leave)
    } else if selector == 4 {
        Some(Method::Kill)
    } else if selector == 5 {
        Some(Method::SubmitCheckpoint)
    } else {
        None
    }
}

/// Decodes a method selector; an unknown one is `UnhandledMessage`.
pub fn method_of(selector: u64) -> (r: Result<Method, ActorError>)
    ensures
        match method_spec(selector) {
            Some(m) => r == Ok::<Method, ActorError>(m),
            None => r == Err::<Method, ActorError>(ActorError::UnhandledMessage),
        },
{
    if selector == 1 {
        Ok(Method::Constructor)
    } else if selector == 2 {
        Ok(Method::Join)
    } else if selector == 3 {
        Ok(Method::Leave)
    } else if selector == 4 {
        Ok(Method::Kill)
    } else if selector == 5 {
        Ok(Method::SubmitCheckpoint)
    } else {
        Err(ActorError::UnhandledMessage)
    }
}

/// Parameters of the constructor.
#[derive(Clone, Debug, PartialEq, Eq)]
pub struct ConstructParams {
    pub parent: String,
    pub name: String,
    pub consensus: ConsensusType,
    pub min_validator_stake: TokenAmount,
    pub min_validators: u64,
    pub finality_threshold: ChainEpoch,
    pub check_period: ChainEpoch,
    pub genesis: Vec<u8>,
}

/// Parameters of a join.
#[derive(Clone, Debug, PartialEq, Eq)]
pub struct JoinParams {
    pub validator_net_addr: String,
}

/// A checkpoint of the child subnet; `prev_check` is the content id of its
/// predecessor, `None` for the first one.
#[derive(Clone, Debug, PartialEq, Eq)]
pub struct Checkpoint {
    pub source: String,
    pub epoch: ChainEpoch,
    pub prev_check: Option<Vec<u8>>,
    pub data: Vec<u8>,
}

/// Collateral posted by one address.
#[derive(Clone, Copy, Debug, PartialEq, Eq, Structural)]
pub struct StakeEntry {
    pub addr: ActorId,
    pub amount: TokenAmount,
}

/// A validator and its network address.
#[derive(Clone, Debug, PartialEq, Eq)]
pub struct Validator {
    pub addr: ActorId,
    pub net_addr: String,
}

/// Votes gathered for the checkpoint with content id `cid`.
#[derive(Clone, Debug, PartialEq, Eq)]
pub struct Votes {
    pub cid: Vec<u8>,
    pub validators: Vec<ActorId>,
}

/// Linkage fields of a committed checkpoint.
#[derive(Clone, Debug, PartialEq, Eq)]
pub struct CommittedCheckpoint {
    pub epoch: ChainEpoch,
    pub cid: Vec<u8>,
    pub prev_check: Option<Vec<u8>>,
}

/// A message the actor sends; all but `Transfer` go to the coordinator actor.
#[derive(Clone, Debug, PartialEq, Eq)]
pub enum Outbound {
    Register { value: TokenAmount },
    AddStake { value: TokenAmount },
    ReleaseStake { value: TokenAmount },
    Kill,
    CommitChildCheckpoint { checkpoint: Checkpoint },
    Transfer { to: ActorId, value: TokenAmount },
}

} // verus!
