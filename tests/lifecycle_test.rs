use fil_hierarchical_subnet_actor::checkpoint::has_majority_vote;
use fil_hierarchical_subnet_actor::types::method_of;
use fil_hierarchical_subnet_actor::{
    Actor, ActorError, ActorId, ActorType, Checkpoint, ConsensusType, ConstructParams, JoinParams, Method,
    Outbound, State, Status, TokenAmount, INIT_ACTOR_ADDR, MIN_COLLATERAL_AMOUNT, TEST_ADDR_ID,
};

const T: TokenAmount = 1_000_000_000_000_000_000;
const M: TokenAmount = MIN_COLLATERAL_AMOUNT;
const SUBNET: &str = "/root/f0102";

fn params(min_validator_stake: TokenAmount, check_period: u64) -> ConstructParams {
    ConstructParams {
        parent: String::from("/root"),
        name: String::from("subnet"),
        consensus: ConsensusType::Delegated,
        min_validator_stake,
        min_validators: 1,
        finality_threshold: 5,
        check_period,
        genesis: vec![1, 2, 3],
    }
}

fn fresh() -> State {
    Actor::constructor(INIT_ACTOR_ADDR, false, params(T, 10)).unwrap()
}

fn v(i: u64) -> ActorId {
    200 + i
}

fn join(st: &mut State, who: ActorId, value: TokenAmount) -> Result<Vec<Outbound>, ActorError> {
    let balance = st.total_stake + value;
    Actor::join(st, who, ActorType::Account, value, balance, JoinParams { validator_net_addr: String::from(":99") })
}

fn ch(epoch: u64, prev: Option<Vec<u8>>) -> Checkpoint {
    Checkpoint { source: String::from(SUBNET), epoch, prev_check: prev, data: vec![7] }
}

fn c(epoch: u64) -> Vec<u8> {
    vec![0x01, 0x71, epoch as u8, 0xff]
}

fn submit(st: &mut State, who: ActorId, epoch: u64, prev: Option<Vec<u8>>) -> Result<Vec<Outbound>, ActorError> {
    Actor::submit_checkpoint(st, who, ActorType::Account, &String::from(SUBNET), ch(epoch, prev), c(epoch))
}

fn three_validators() -> State {
    let mut st = fresh();
    for i in 0..3 {
        join(&mut st, v(i), M).unwrap();
    }
    st
}

#[test]
fn join_below_threshold_then_activate() {
    let mut st = fresh();
    let low: TokenAmount = 5_u128.pow(18);
    assert_eq!(join(&mut st, v(0), low).unwrap(), vec![Outbound::AddStake { value: low }]);
    assert_eq!(st.status, Status::Instantiated);
    assert!(st.validator_set.is_empty());
    assert_eq!(st.total_stake, low);
    assert_eq!(join(&mut st, v(0), M - low).unwrap(), vec![Outbound::Register { value: M }]);
    assert_eq!(st.status, Status::Active);
    assert_eq!(st.validator_set.len(), 1);
    assert_eq!(st.validator_set[0].addr, v(0));
    assert_eq!(st.validator_set[0].net_addr, ":99");
    assert_eq!(st.total_stake, M);
}

#[test]
fn second_miner_adds_stake() {
    let mut st = fresh();
    join(&mut st, v(0), M).unwrap();
    assert_eq!(join(&mut st, v(1), M).unwrap(), vec![Outbound::AddStake { value: M }]);
    assert_eq!(st.status, Status::Active);
    assert_eq!(st.total_stake, 2 * M);
}

#[test]
fn leave_returns_funds_and_deregisters() {
    let mut st = fresh();
    join(&mut st, v(0), M).unwrap();
    join(&mut st, v(1), M).unwrap();
    let msgs = Actor::leave(&mut st, v(0), ActorType::Account).unwrap();
    assert_eq!(msgs, vec![Outbound::ReleaseStake { value: M }, Outbound::Transfer { to: v(0), value: M }]);
    assert_eq!(st.status, Status::Active);
    assert_eq!(st.validator_set.len(), 1);
    assert_eq!(st.validator_set[0].addr, v(1));
    assert_eq!(st.get_stake(v(0)), 0);
    assert_eq!(st.total_stake, M);
}

#[test]
fn kill_forbidden_while_validators_remain() {
    let mut st = fresh();
    join(&mut st, v(0), M).unwrap();
    join(&mut st, v(1), M).unwrap();
    Actor::leave(&mut st, v(0), ActorType::Account).unwrap();
    assert_eq!(Actor::kill(&mut st, ActorType::Account), Err(ActorError::IllegalState));
    assert_eq!(st.status, Status::Active);
}

#[test]
fn checkpoint_reaches_supermajority() {
    let mut st = three_validators();
    assert!(submit(&mut st, v(0), 10, None).unwrap().is_empty());
    assert_eq!(st.vote_count(&c(10)), 1);
    assert_eq!(st.committed_cid(10), None);
    assert_eq!(submit(&mut st, v(0), 10, None), Err(ActorError::IllegalState));
    assert_eq!(st.vote_count(&c(10)), 1);
    let msgs = submit(&mut st, v(1), 10, None).unwrap();
    assert_eq!(msgs, vec![Outbound::CommitChildCheckpoint { checkpoint: ch(10, None) }]);
    assert_eq!(st.vote_count(&c(10)), 0);
    assert_eq!(st.committed_cid(10), Some(c(10)));
    assert_eq!(submit(&mut st, v(2), 10, None), Err(ActorError::IllegalState));
}

#[test]
fn checkpoint_linkage_enforced() {
    let mut st = three_validators();
    submit(&mut st, v(0), 10, None).unwrap();
    submit(&mut st, v(1), 10, None).unwrap();
    assert_eq!(submit(&mut st, v(0), 20, None), Err(ActorError::IllegalState));
    assert!(submit(&mut st, v(0), 20, Some(c(10))).unwrap().is_empty());
    let msgs = submit(&mut st, v(1), 20, Some(c(10))).unwrap();
    assert_eq!(msgs, vec![Outbound::CommitChildCheckpoint { checkpoint: ch(20, Some(c(10))) }]);
    assert_eq!(st.committed_checkpoints.len(), 2);
    assert_eq!(st.committed_checkpoints[1].prev_check, Some(c(10)));
    assert_eq!(st.prev_checkpoint, Some(c(20)));
}

#[test]
fn constructor_acl() {
    assert_eq!(Actor::constructor(5, true, params(T, 10)).err(), Some(ActorError::Forbidden));
    assert_eq!(Actor::constructor(TEST_ADDR_ID, false, params(T, 10)).err(), Some(ActorError::Forbidden));
    let st = Actor::constructor(TEST_ADDR_ID, true, params(T, 10)).unwrap();
    assert!(st.testing);
    assert_eq!(st.genesis, vec![1, 2, 3]);
    assert_eq!(Actor::constructor(INIT_ACTOR_ADDR, false, params(T, 0)).err(), Some(ActorError::IllegalArgument));
}

#[test]
fn join_errors_leave_state_unchanged() {
    let mut st = fresh();
    let r = Actor::join(&mut st, v(0), ActorType::Multisig, M, M, JoinParams { validator_net_addr: String::new() });
    assert_eq!(r, Err(ActorError::Forbidden));
    assert_eq!(join(&mut st, v(0), 0), Err(ActorError::IllegalArgument));
    assert_eq!(st.total_stake, 0);
    assert!(st.stake.is_empty());
}

#[test]
fn leave_without_stake_fails() {
    let mut st = fresh();
    assert_eq!(Actor::leave(&mut st, v(0), ActorType::Account), Err(ActorError::IllegalState));
    assert_eq!(Actor::leave(&mut st, v(0), ActorType::Other), Err(ActorError::Forbidden));
}

#[test]
fn killed_subnet_refuses_calls() {
    let mut st = fresh();
    assert_eq!(Actor::kill(&mut st, ActorType::Account).unwrap(), vec![Outbound::Kill]);
    assert_eq!(st.status, Status::Killed);
    assert_eq!(Actor::kill(&mut st, ActorType::Account), Err(ActorError::IllegalState));
    assert_eq!(join(&mut st, v(0), M), Err(ActorError::IllegalState));
    assert_eq!(Actor::leave(&mut st, v(0), ActorType::Account), Err(ActorError::IllegalState));
    assert_eq!(submit(&mut st, v(0), 10, None), Err(ActorError::IllegalState));
    assert_eq!(Actor::kill(&mut st, ActorType::Multisig), Err(ActorError::Forbidden));
}

#[test]
fn terminating_waits_for_remaining_stake() {
    let mut st = fresh();
    let small: TokenAmount = 1000;
    join(&mut st, v(0), small).unwrap();
    assert!(st.validator_set.is_empty());
    Actor::kill(&mut st, ActorType::Account).unwrap();
    assert_eq!(st.status, Status::Terminating);
    let msgs = Actor::leave(&mut st, v(0), ActorType::Account).unwrap();
    assert_eq!(msgs, vec![Outbound::Transfer { to: v(0), value: small }]);
    assert_eq!(st.status, Status::Killed);
}

#[test]
fn inactive_reactivates_on_validator_join() {
    let mut st = fresh();
    join(&mut st, v(0), M).unwrap();
    Actor::leave(&mut st, v(0), ActorType::Account).unwrap();
    assert_eq!(st.status, Status::Inactive);
    assert_eq!(join(&mut st, v(1), M).unwrap(), vec![Outbound::AddStake { value: M }]);
    assert_eq!(st.status, Status::Active);
}

#[test]
fn checkpoint_verification_errors() {
    let mut st = three_validators();
    let wrong_source = Checkpoint { source: String::from("/root/f0999"), epoch: 10, prev_check: None, data: vec![] };
    let r = Actor::submit_checkpoint(&mut st, v(0), ActorType::Account, &String::from(SUBNET), wrong_source, c(10));
    assert_eq!(r, Err(ActorError::IllegalState));
    assert_eq!(submit(&mut st, v(0), 0, None), Err(ActorError::IllegalState));
    assert_eq!(submit(&mut st, v(0), 15, None), Err(ActorError::IllegalState));
    let r = Actor::submit_checkpoint(&mut st, v(0), ActorType::Multisig, &String::from(SUBNET), ch(10, None), c(10));
    assert_eq!(r, Err(ActorError::Forbidden));
    assert!(st.window_checks.is_empty());
}

#[test]
fn majority_boundaries() {
    assert!(has_majority_vote(1, 1));
    assert!(!has_majority_vote(1, 2));
    assert!(has_majority_vote(2, 2));
    assert!(!has_majority_vote(1, 3));
    assert!(has_majority_vote(2, 3));
    assert!(!has_majority_vote(2, 4));
    assert!(has_majority_vote(3, 4));
}

#[test]
fn method_selectors() {
    assert_eq!(method_of(1), Ok(Method::Constructor));
    assert_eq!(method_of(2), Ok(Method::Join));
    assert_eq!(method_of(3), Ok(Method::Leave));
    assert_eq!(method_of(4), Ok(Method::Kill));
    assert_eq!(method_of(5), Ok(Method::SubmitCheckpoint));
    assert_eq!(method_of(0), Err(ActorError::UnhandledMessage));
    assert_eq!(method_of(6), Err(ActorError::UnhandledMessage));
}

#[test]
fn total_stake_tracks_ledger() {
    let mut st = fresh();
    join(&mut st, v(0), 3 * T).unwrap();
    join(&mut st, v(1), 500).unwrap();
    join(&mut st, v(0), 7).unwrap();
    join(&mut st, v(2), T).unwrap();
    Actor::leave(&mut st, v(1), ActorType::Account).unwrap();
    let sum: TokenAmount = st.stake.iter().map(|e| e.amount).sum();
    assert_eq!(st.total_stake, sum);
    assert_eq!(st.total_stake, 4 * T + 7);
    assert_eq!(st.get_stake(v(0)), 3 * T + 7);
    assert_eq!(st.validator_set.len(), 2);
}

#[test]
fn checkpoint_links_to_previous_period() {
    let mut st = three_validators();
    submit(&mut st, v(0), 20, None).unwrap();
    submit(&mut st, v(1), 20, None).unwrap();
    assert_eq!(st.committed_cid(20), Some(c(20)));
    assert_eq!(submit(&mut st, v(0), 10, Some(c(20))), Err(ActorError::IllegalState));
    assert_eq!(submit(&mut st, v(0), 10, None), Err(ActorError::IllegalState));
    assert!(submit(&mut st, v(0), 30, Some(c(20))).unwrap().is_empty());
}

#[test]
fn checkpoint_gap_rejected() {
    let mut st = three_validators();
    submit(&mut st, v(0), 10, None).unwrap();
    submit(&mut st, v(1), 10, None).unwrap();
    assert_eq!(submit(&mut st, v(0), 30, Some(c(10))), Err(ActorError::IllegalState));
    assert_eq!(st.vote_count(&c(30)), 0);
    assert!(submit(&mut st, v(0), 20, Some(c(10))).unwrap().is_empty());
}

#[test]
fn leave_keeps_instantiated_subnet_instantiated() {
    let mut st = fresh();
    join(&mut st, v(0), 500).unwrap();
    join(&mut st, v(1), 700).unwrap();
    Actor::leave(&mut st, v(0), ActorType::Account).unwrap();
    assert_eq!(st.status, Status::Instantiated);
    assert_eq!(st.total_stake, 700);
}

fn configured(min_validator_stake: TokenAmount, min_validators: u64) -> State {
    let mut p = params(min_validator_stake, 10);
    p.min_validators = min_validators;
    Actor::constructor(INIT_ACTOR_ADDR, false, p).unwrap()
}

#[test]
fn no_activation_without_validator() {
    let mut st = configured(2 * M, 1);
    assert_eq!(join(&mut st, v(0), M).unwrap(), vec![Outbound::Register { value: M }]);
    assert!(st.validator_set.is_empty());
    assert_eq!(st.status, Status::Instantiated);
    join(&mut st, v(0), M).unwrap();
    assert_eq!(st.status, Status::Active);
}

#[test]
fn active_turns_inactive_below_threshold() {
    let mut st = configured(1, 1);
    join(&mut st, v(0), M / 2).unwrap();
    join(&mut st, v(1), M / 2).unwrap();
    assert_eq!(st.status, Status::Active);
    Actor::leave(&mut st, v(0), ActorType::Account).unwrap();
    assert_eq!(st.total_stake, M / 2);
    assert_eq!(st.validator_set.len(), 1);
    assert_eq!(st.status, Status::Inactive);
}

#[test]
fn activation_waits_for_min_validators() {
    let mut st = configured(T, 2);
    join(&mut st, v(0), M).unwrap();
    assert_eq!(st.validator_set.len(), 1);
    assert_eq!(st.status, Status::Instantiated);
    join(&mut st, v(1), M).unwrap();
    assert_eq!(st.status, Status::Active);
    Actor::leave(&mut st, v(1), ActorType::Account).unwrap();
    assert_eq!(st.status, Status::Inactive);
}
