//! The methods of the subnet actor. Each takes what the host knows of the
//! call as plain values, updates the state, and returns the messages to send;
//! on an error the state is left as it was.
use vstd::prelude::*;

use crate::checkpoint::{checkpoint_ok, contains_addr, copy_bytes, copy_opt_bytes, find_votes, has_majority_vote};
use crate::keyed::{
    keys_unique, lemma_keyed_absent, lemma_keyed_index, lemma_keyed_len, lemma_keyed_push, lemma_keyed_remove,
};
use crate::state::{
    chain_linked, epoch_key, last_cid, lemma_validators_frame, majority, next_status, no_dups, opt_bytes,
    validator_key, validator_val, votes_key, votes_val, State,
};
use crate::types::{
    ActorError, ActorId, ActorType, ChainEpoch, Checkpoint, CommittedCheckpoint, ConstructParams, INIT_ACTOR_ADDR, JoinParams,
    MIN_COLLATERAL_AMOUNT, Outbound, Status, TEST_ADDR_ID, TokenAmount, Votes,
};

verus! {

/// Whether `caller` may construct the actor.
pub open spec fn may_construct(caller: ActorId, testing: bool) -> bool {
    caller == INIT_ACTOR_ADDR || (testing && caller == TEST_ADDR_ID)
}

pub open spec fn join_error(st: State, caller_type: ActorType, value: TokenAmount) -> Option<ActorError> {
    if caller_type != ActorType::Account {
        Some(ActorError::Forbidden)
    } else if value == 0 {
        Some(ActorError::IllegalArgument)
    } else if st.status == Status::Killed {
        Some(ActorError::IllegalState)
    } else {
        None
    }
}

/// The message a join sends to the coordinator: the registration of the
/// subnet once the actor holds enough collateral, else the added stake.
pub open spec fn join_message(status: Status, balance: TokenAmount, total_stake: TokenAmount, value: TokenAmount) -> Outbound {
    if status == Status::Instantiated && balance >= MIN_COLLATERAL_AMOUNT {
        Outbound::Register { value: total_stake }
    } else {
        Outbound::AddStake { value }
    }
}

pub open spec fn leave_error(st: State, caller: ActorId, caller_type: ActorType) -> Option<ActorError> {
    if caller_type != ActorType::Account {
        Some(ActorError::Forbidden)
    } else if st.stake_of(caller) == 0 {
        Some(ActorError::IllegalState)
    } else {
        None
    }
}

/// The messages of a leave: the release of the stake at the coordinator,
/// unless the subnet is terminating, then the refund to the caller.
pub open spec fn leave_messages(status: Status, caller: ActorId, stake: TokenAmount) -> Seq<Outbound> {
    if status != Status::Terminating {
        seq![Outbound::ReleaseStake { value: stake }, Outbound::Transfer { to: caller, value: stake }]
    } else {
        seq![Outbound::Transfer { to: caller, value: stake }]
    }
}

pub open spec fn kill_error(st: State, caller_type: ActorType) -> Option<ActorError> {
    if caller_type != ActorType::Account {
        Some(ActorError::Forbidden)
    } else if st.status == Status::Terminating || st.status == Status::Killed {
        Some(ActorError::IllegalState)
    } else if st.validators().len() > 0 {
        Some(ActorError::IllegalState)
    } else {
        None
    }
}

/// Votes already gathered for the checkpoint with content id `cid`.
pub open spec fn votes_before(st: State, cid: Seq<u8>) -> Seq<ActorId> {
    if st.window().contains_key(cid) {
        st.window()[cid]
    } else {
        Seq::empty()
    }
}

pub open spec fn submit_error(
    st: State,
    caller: ActorId,
    caller_type: ActorType,
    this_subnet: Seq<char>,
    ch: Checkpoint,
    cid: Seq<u8>,
) -> Option<ActorError> {
    if caller_type != ActorType::Account {
        Some(ActorError::Forbidden)
    } else if !checkpoint_ok(st, caller, this_subnet, ch) {
        Some(ActorError::IllegalState)
    } else if votes_before(st, cid).contains(caller) {
        Some(ActorError::IllegalState)
    } else {
        None
    }
}

/// The subnet actor.
pub struct Actor;

impl Actor {
    /// Creates the initial state; only the init actor, or the test caller in
    /// testing mode, may do so, and the checkpoint period must be positive.
    pub fn constructor(caller: ActorId, testing: bool, params: ConstructParams) -> (r: Result<State, ActorError>)
        ensures
            !may_construct(caller, testing) ==> r == Err::<State, ActorError>(ActorError::Forbidden),
            may_construct(caller, testing) && params.check_period == 0 ==> r == Err::<State, ActorError>(
                ActorError::IllegalArgument,
            ),
            may_construct(caller, testing) && params.check_period > 0 ==> r is Ok,
            r matches Ok(st) ==> {
                &&& st.wf()
                &&& st.parent@ == params.parent@
                &&& st.name@ == params.name@
                &&& st.consensus == params.consensus
                &&& st.min_validator_stake == params.min_validator_stake
                &&& st.min_validators == params.min_validators
                &&& st.finality_threshold == params.finality_threshold
                &&& st.check_period == params.check_period
                &&& st.genesis@ == params.genesis@
                &&& st.testing == testing
                &&& st.status == Status::Instantiated
                &&& st.total_stake == 0
                &&& st.ledger() == Map::<ActorId, nat>::empty()
                &&& st.validators() == Map::<ActorId, Seq<char>>::empty()
                &&& st.window() == Map::<Seq<u8>, Seq<ActorId>>::empty()
                &&& st.committed_checkpoints@.len() == 0
                &&& st.prev_checkpoint is None
            },
    {
        if caller != INIT_ACTOR_ADDR && !(testing && caller == TEST_ADDR_ID) {
            return Err(ActorError::Forbidden);
        }
        if params.check_period == 0 {
            return Err(ActorError::IllegalArgument);
        }
        let st = State {
            parent: params.parent,
            name: params.name,
            consensus: params.consensus,
            min_validator_stake: params.min_validator_stake,
            min_validators: params.min_validators,
            finality_threshold: params.finality_threshold,
            check_period: params.check_period,
            genesis: params.genesis,
            status: Status::Instantiated,
            total_stake: 0,
            stake: Vec::new(),
            validator_set: Vec::new(),
            window_checks: Vec::new(),
            prev_checkpoint: None,
            committed_checkpoints: Vec::new(),
            testing,
        };
        proof {
            assert(st.ledger() =~= Map::<ActorId, nat>::empty());
            assert(st.validators() =~= Map::<ActorId, Seq<char>>::empty());
            assert(st.window() =~= Map::<Seq<u8>, Seq<ActorId>>::empty());
        }
        Ok(st)
    }

    /// Adds the attached `value` to the caller's collateral. `balance` is the
    /// actor's own balance once the value is credited.
    pub fn join(
        st: &mut State,
        caller: ActorId,
        caller_type: ActorType,
        value: TokenAmount,
        balance: TokenAmount,
        params: JoinParams,
    ) -> (r: Result<Vec<Outbound>, ActorError>)
        requires
            old(st).wf(),
            old(st).total_stake + value <= u128::MAX,
        ensures
            final(st).wf(),
            match join_error(*old(st), caller_type, value) {
                Some(e) => r == Err::<Vec<Outbound>, ActorError>(e) && *final(st) == *old(st),
                None => r matches Ok(msgs) && {
                    let stake = (old(st).stake_of(caller) + value) as nat;
                    &&& final(st).ledger() == old(st).ledger().insert(caller, stake)
                    &&& final(st).total_stake == old(st).total_stake + value
                    &&& final(st).validators() == if old(st).is_validator(caller) || stake
                        < old(st).min_validator_stake {
                        old(st).validators()
                    } else {
                        old(st).validators().insert(caller, params.validator_net_addr@)
                    }
                    &&& final(st).status == next_status(
                        old(st).status,
                        final(st).total_stake as nat,
                        final(st).validators().len(),
                        old(st).min_validators as nat,
                    )
                    &&& final(st).same_config(old(st))
                    &&& final(st).same_checkpoints(old(st))
                    &&& msgs@ == seq![join_message(old(st).status, balance, final(st).total_stake, value)]
                },
            },
    {
        if caller_type != ActorType::Account {
            return Err(ActorError::Forbidden);
        }
        if value == 0 {
            return Err(ActorError::IllegalArgument);
        }
        if st.status == Status::Killed {
            return Err(ActorError::IllegalState);
        }
        let prior = st.status;
        st.add_stake(caller, params.validator_net_addr, value);
        let msg = if prior == Status::Instantiated && balance >= MIN_COLLATERAL_AMOUNT {
            Outbound::Register { value: st.total_stake }
        } else {
            Outbound::AddStake { value }
        };
        st.mutate_state();
        proof {
            lemma_keyed_len(st.validator_set@, validator_key(), validator_val());
        }
        Ok(vec![msg])
    }

    /// Returns the caller's whole collateral and removes it from the validator set.
    pub fn leave(st: &mut State, caller: ActorId, caller_type: ActorType) -> (r: Result<Vec<Outbound>, ActorError>)
        requires
            old(st).wf(),
        ensures
            final(st).wf(),
            match leave_error(*old(st), caller, caller_type) {
                Some(e) => r == Err::<Vec<Outbound>, ActorError>(e) && *final(st) == *old(st),
                None => r matches Ok(msgs) && {
                    let stake = old(st).stake_of(caller);
                    &&& final(st).ledger() == old(st).ledger().remove(caller)
                    &&& final(st).total_stake == old(st).total_stake - stake
                    &&& final(st).validators() == old(st).validators().remove(caller)
                    &&& final(st).status == next_status(
                        old(st).status,
                        final(st).total_stake as nat,
                        final(st).validators().len(),
                        old(st).min_validators as nat,
                    )
                    &&& final(st).same_config(old(st))
                    &&& final(st).same_checkpoints(old(st))
                    &&& msgs@ == leave_messages(old(st).status, caller, stake as TokenAmount)
                },
            },
    {
        if caller_type != ActorType::Account {
            return Err(ActorError::Forbidden);
        }
        let stake = st.get_stake(caller);
        if stake == 0 {
            return Err(ActorError::IllegalState);
        }
        let mut msgs: Vec<Outbound> = Vec::new();
        if st.status != Status::Terminating {
            msgs.push(Outbound::ReleaseStake { value: stake });
        }
        st.rm_stake(caller, stake);
        msgs.push(Outbound::Transfer { to: caller, value: stake });
        st.mutate_state();
        proof {
            lemma_keyed_len(st.validator_set@, validator_key(), validator_val());
            assert(msgs@ =~= leave_messages(old(st).status, caller, stake));
        }
        Ok(msgs)
    }

    /// Starts the termination of a subnet that no validator is left in.
    ///
    /// The subnet enters `Terminating` and the coordinator is told. Since a
    /// failed send undoes the whole call, a kill that returns has been
    /// acknowledged: the subnet is `Killed` at once when no collateral is left
    /// in it, and otherwise stays `Terminating` until the last holders of
    /// collateral below the validator minimum have left.
    pub fn kill(st: &mut State, caller_type: ActorType) -> (r: Result<Vec<Outbound>, ActorError>)
        requires
            old(st).wf(),
        ensures
            final(st).wf(),
            match kill_error(*old(st), caller_type) {
                Some(e) => r == Err::<Vec<Outbound>, ActorError>(e) && *final(st) == *old(st),
                None => r matches Ok(msgs) && {
                    &&& final(st).status == next_status(
                        Status::Terminating,
                        old(st).total_stake as nat,
                        0,
                        old(st).min_validators as nat,
                    )
                    &&& final(st).ledger() == old(st).ledger()
                    &&& final(st).total_stake == old(st).total_stake
                    &&& final(st).validators() == old(st).validators()
                    &&& final(st).same_config(old(st))
                    &&& final(st).same_checkpoints(old(st))
                    &&& msgs@ == seq![Outbound::Kill]
                },
            },
    {
        if caller_type != ActorType::Account {
            return Err(ActorError::Forbidden);
        }
        if st.status == Status::Terminating || st.status == Status::Killed {
            return Err(ActorError::IllegalState);
        }
        proof {
            lemma_keyed_len(st.validator_set@, validator_key(), validator_val());
        }
        if st.validator_set.len() != 0 {
            return Err(ActorError::IllegalState);
        }
        let ghost pre = *st;
        st.status = Status::Terminating;
        proof {
            lemma_validators_frame(pre, *st);
        }
        st.mutate_state();
        Ok(vec![Outbound::Kill])
    }

    /// Records the caller's vote for `ch`, whose content id is `cid`. Once two
    /// thirds of the validators have voted for it, the checkpoint is committed,
    /// its votes are dropped, and it is sent to the coordinator.
    pub fn submit_checkpoint(
        st: &mut State,
        caller: ActorId,
        caller_type: ActorType,
        this_subnet: &String,
        ch: Checkpoint,
        cid: Vec<u8>,
    ) -> (r: Result<Vec<Outbound>, ActorError>)
        requires
            old(st).wf(),
        ensures
            final(st).wf(),
            match submit_error(*old(st), caller, caller_type, this_subnet@, ch, cid@) {
                Some(e) => r == Err::<Vec<Outbound>, ActorError>(e) && *final(st) == *old(st),
                None => r matches Ok(msgs) && {
                    let votes = votes_before(*old(st), cid@).push(caller);
                    &&& final(st).same_config(old(st))
                    &&& final(st).same_stake(old(st))
                    &&& if majority(votes.len(), old(st).validators().len()) {
                        &&& final(st).window() == old(st).window().remove(cid@)
                        &&& final(st).committed_checkpoints@.drop_last() == old(
                            st,
                        ).committed_checkpoints@
                        &&& final(st).committed_checkpoints@.len() == old(st).committed_checkpoints@.len()
                            + 1
                        &&& final(st).committed_checkpoints@.last().epoch == ch.epoch
                        &&& final(st).committed_checkpoints@.last().cid@ == cid@
                        &&& opt_bytes(final(st).committed_checkpoints@.last().prev_check) == opt_bytes(
                            ch.prev_check,
                        )
                        &&& opt_bytes(final(st).prev_checkpoint) == Some(cid@)
                        &&& msgs@ == seq![Outbound::CommitChildCheckpoint { checkpoint: ch }]
                    } else {
                        &&& final(st).window() == old(st).window().insert(cid@, votes)
                        &&& final(st).committed_checkpoints == old(st).committed_checkpoints
                        &&& final(st).prev_checkpoint == old(st).prev_checkpoint
                        &&& msgs@.len() == 0
                    }
                },
            },
    {
        if caller_type != ActorType::Account {
            return Err(ActorError::Forbidden);
        }
        if st.verify_checkpoint(caller, this_subnet, &ch).is_err() {
            return Err(ActorError::IllegalState);
        }
        let ghost pre = *st;
        let found = find_votes(&st.window_checks, &cid);
        let mut voters: Vec<ActorId> = match found {
            Some(i) => {
                proof {
                    lemma_keyed_index(st.window_checks@, votes_key(), votes_val(), i as int);
                }
                if contains_addr(&st.window_checks[i].validators, caller) {
                    return Err(ActorError::IllegalState);
                }
                proof {
                    lemma_keyed_remove(st.window_checks@, votes_key(), votes_val(), i as int);
                    assert forall|k: int| 0 <= k < st.window_checks@.remove(i as int).len() implies (#[trigger] st.window_checks@.remove(
                        i as int,
                    )[k]).cid@ != cid@ by {
                        let k2 = if k < i { k } else { k + 1 };
                        assert(st.window_checks@.remove(i as int)[k] == st.window_checks@[k2]);
                        assert(votes_key()(st.window_checks@[k2]) != votes_key()(st.window_checks@[i as int]));
                    }
                }
                let v = st.window_checks.remove(i);
                v.validators
            },
            None => {
                proof {
                    lemma_keyed_absent(st.window_checks@, votes_key(), votes_val(), cid@);
                    assert(st.window_checks@ == pre.window_checks@);
                    assert(pre.window().remove(cid@) =~= pre.window());
                }
                Vec::new()
            },
        };
        proof {
            assert(voters@ == votes_before(pre, cid@));
            assert(st.window() == pre.window().remove(cid@));
            assert(forall|k: int| 0 <= k < st.window_checks@.len() ==> (#[trigger] st.window_checks@[k]).cid@ != cid@);
            assert(no_dups(voters@) && !voters@.contains(caller)) by {
                if found is Some {
                    let i = found->Some_0 as int;
                    assert(pre.window_checks@[i].validators@ == voters@);
                }
            }
        }
        voters.push(caller);
        proof {
            assert(no_dups(voters@)) by {
                assert forall|a: int, b: int| 0 <= a < voters@.len() && 0 <= b < voters@.len() && a != b implies voters@[a]
                    != voters@[b] by {
                    if a == voters@.len() - 1 {
                        assert(voters@[b] == voters@.drop_last()[b]);
                    } else if b == voters@.len() - 1 {
                        assert(voters@[a] == voters@.drop_last()[a]);
                    } else {
                        assert(voters@[a] == voters@.drop_last()[a]);
                        assert(voters@[b] == voters@.drop_last()[b]);
                    }
                }
            }
        }
        proof {
            lemma_keyed_len(st.validator_set@, validator_key(), validator_val());
        }
        if has_majority_vote(voters.len(), st.validator_set.len()) {
            let record = CommittedCheckpoint {
                epoch: ch.epoch,
                cid: copy_bytes(&cid),
                prev_check: copy_opt_bytes(&ch.prev_check),
            };
            proof {
                let c = st.committed_checkpoints@;
                assert forall|a: int, b: int| 0 <= a < c.len() + 1 && 0 <= b < c.len() + 1 && a != b implies epoch_key()(
                    #[trigger] c.push(record)[a],
                ) != epoch_key()(#[trigger] c.push(record)[b]) by {
                    if a < c.len() && b < c.len() {
                        assert(epoch_key()(c[a]) != epoch_key()(c[b]));
                    } else if a < c.len() {
                        assert(c[a].epoch != ch.epoch);
                    } else {
                        assert(c[b].epoch != ch.epoch);
                    }
                }
                assert(chain_linked(c.push(record), st.check_period)) by {
                    assert forall|i: int| 1 <= i < c.len() + 1 implies opt_bytes(
                        #[trigger] c.push(record)[i].prev_check,
                    ) == Some(c.push(record)[i - 1].cid@) by {
                        if i < c.len() {
                            assert(c.push(record)[i] == c[i]);
                        }
                    }
                    assert forall|i: int| 1 <= i < c.len() + 1 implies (#[trigger] c.push(record)[i]).epoch == c.push(
                        record,
                    )[i - 1].epoch + st.check_period by {
                        if i < c.len() {
                            assert(c.push(record)[i] == c[i]);
                        }
                    }
                }
            }
            st.committed_checkpoints.push(record);
            st.prev_checkpoint = Some(cid);
            proof {
                assert(st.committed_checkpoints@.drop_last() =~= pre.committed_checkpoints@);
                lemma_validators_frame(pre, *st);
            }
            Ok(vec![Outbound::CommitChildCheckpoint { checkpoint: ch }])
        } else {
            let entry = Votes { cid, validators: voters };
            proof {
                let w = st.window_checks@;
                lemma_keyed_push(w, votes_key(), votes_val(), entry);
                assert forall|a: int, b: int| 0 <= a < w.len() + 1 && 0 <= b < w.len() + 1 && a != b implies votes_key()(
                    #[trigger] w.push(entry)[a],
                ) != votes_key()(#[trigger] w.push(entry)[b]) by {
                    if a < w.len() && b < w.len() {
                        assert(votes_key()(w[a]) != votes_key()(w[b]));
                    } else if a < w.len() {
                        assert(w[a].cid@ != cid@);
                    } else {
                        assert(w[b].cid@ != cid@);
                    }
                }
                assert(pre.window().remove(cid@).insert(cid@, voters@) =~= pre.window().insert(cid@, voters@));
            }
            st.window_checks.push(entry);
            proof {
                assert forall|k: int| 0 <= k < st.window_checks@.len() implies (#[trigger] st.window_checks@[k]).validators@.len()
                    > 0 && no_dups(st.window_checks@[k].validators@) by {
                    if k < st.window_checks@.len() - 1 {
                        let w0 = st.window_checks@.drop_last();
                        assert(st.window_checks@[k] == w0[k]);
                        if found is Some {
                            let i = found->Some_0 as int;
                            let k2 = if k < i { k } else { k + 1 };
                            assert(w0[k] == pre.window_checks@[k2]);
                        } else {
                            assert(w0[k] == pre.window_checks@[k]);
                        }
                    }
                }
                lemma_validators_frame(pre, *st);
            }
            Ok(Vec::new())
        }
    }
}

impl State {
    /// Number of votes gathered so far for the checkpoint with content id `cid`.
    pub fn vote_count(&self, cid: &Vec<u8>) -> (r: usize)
        requires
            keys_unique(self.window_checks@, votes_key()),
        ensures
            r == votes_before(*self, cid@).len(),
    {
        match find_votes(&self.window_checks, cid) {
            Some(i) => {
                proof {
                    lemma_keyed_index(self.window_checks@, votes_key(), votes_val(), i as int);
                }
                self.window_checks[i].validators.len()
            },
            None => {
                proof {
                    lemma_keyed_absent(self.window_checks@, votes_key(), votes_val(), cid@);
                }
                0
            },
        }
    }

    /// Content id of the checkpoint committed at `epoch`, if any.
    pub fn committed_cid(&self, epoch: ChainEpoch) -> (r: Option<Vec<u8>>)
        ensures
            match r {
                Some(c) => exists|i: int|
                    0 <= i < self.committed_checkpoints@.len() && (#[trigger] self.committed_checkpoints@[i]).epoch
                        == epoch && self.committed_checkpoints@[i].cid@ == c@,
                None => !self.committed_at(epoch),
            },
    {
        let mut i: usize = 0;
        while i < self.committed_checkpoints.len()
            invariant
                i <= self.committed_checkpoints@.len(),
                forall|k: int| 0 <= k < i ==> (#[trigger] self.committed_checkpoints@[k]).epoch != epoch,
            decreases self.committed_checkpoints@.len() - i,
        {
            if self.committed_checkpoints[i].epoch == epoch {
                return Some(copy_bytes(&self.committed_checkpoints[i].cid));
            }
            i = i + 1;
        }
        None
    }
}

} // verus!
