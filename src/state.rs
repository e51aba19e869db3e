//! Persisted state of the subnet actor, its invariant, and the stake ledger.
use vstd::prelude::*;

use crate::keyed::{
    keyed_map, keys_unique, lemma_keyed_absent, lemma_keyed_index, lemma_keyed_len, lemma_keyed_present, lemma_keyed_push,
    lemma_keyed_remove, lemma_keyed_update,
};
use crate::types::{
    ActorId, ChainEpoch, CommittedCheckpoint, ConsensusType, MIN_COLLATERAL_AMOUNT, StakeEntry, Status,
    TokenAmount, Validator, Votes,
};

verus! {

pub open spec fn stake_key() -> spec_fn(StakeEntry) -> ActorId {
    |e: StakeEntry| e.addr
}

pub open spec fn stake_val() -> spec_fn(StakeEntry) -> nat {
    |e: StakeEntry| e.amount as nat
}

pub open spec fn validator_key() -> spec_fn(Validator) -> ActorId {
    |v: Validator| v.addr
}

pub open spec fn validator_val() -> spec_fn(Validator) -> Seq<char> {
    |v: Validator| v.net_addr@
}

pub open spec fn votes_key() -> spec_fn(Votes) -> Seq<u8> {
    |v: Votes| v.cid@
}

pub open spec fn votes_val() -> spec_fn(Votes) -> Seq<ActorId> {
    |v: Votes| v.validators@
}

pub open spec fn epoch_key() -> spec_fn(CommittedCheckpoint) -> ChainEpoch {
    |c: CommittedCheckpoint| c.epoch
}

/// Sum of the collateral held in the ledger.
pub open spec fn ledger_sum(s: Seq<StakeEntry>) -> nat
    decreases s.len(),
{
    if s.len() == 0 {
        0
    } else {
        ledger_sum(s.drop_last()) + s.last().amount as nat
    }
}

pub open spec fn opt_bytes(o: Option<Vec<u8>>) -> Option<Seq<u8>> {
    match o {
        Some(v) => Some(v@),
        None => None,
    }
}

/// No address appears twice.
pub open spec fn no_dups(s: Seq<ActorId>) -> bool {
    forall|i: int, j: int| 0 <= i < s.len() && 0 <= j < s.len() && i != j ==> s[i] != s[j]
}

/// Committed checkpoints, in the order of their commits, sit one checkpoint
/// period apart, and each points at the one committed before it, so at the one
/// committed at its epoch less the period; the first points at none.
pub open spec fn chain_linked(c: Seq<CommittedCheckpoint>, period: ChainEpoch) -> bool {
    &&& (c.len() > 0 ==> opt_bytes(c[0].prev_check) == None::<Seq<u8>>)
    &&& forall|i: int| 1 <= i < c.len() ==> opt_bytes(#[trigger] c[i].prev_check) == Some(c[i - 1].cid@)
    &&& forall|i: int| 1 <= i < c.len() ==> (#[trigger] c[i]).epoch == c[i - 1].epoch + period
}

/// Whether a checkpoint at `epoch` may follow the committed ones: any epoch
/// for the first, else the epoch one period after the last commit.
pub open spec fn follows_chain(c: Seq<CommittedCheckpoint>, period: ChainEpoch, epoch: ChainEpoch) -> bool {
    c.len() == 0 || epoch == c.last().epoch + period
}

/// Content id of the most recently committed checkpoint.
pub open spec fn last_cid(c: Seq<CommittedCheckpoint>) -> Option<Seq<u8>> {
    if c.len() == 0 {
        None
    } else {
        Some(c.last().cid@)
    }
}

/// Whether a subnet qualifies to be active: it holds the activation collateral
/// and at least the configured number of validators.
pub open spec fn activation_ready(total_stake: nat, n_validators: nat, min_validators: nat) -> bool {
    total_stake >= MIN_COLLATERAL_AMOUNT && n_validators >= min_validators
}

/// The status that follows `status` once funds have moved.
///
/// Before termination the subnet is active exactly when it qualifies: a new
/// or inactive subnet becomes active once it qualifies, and an active one
/// turns inactive as soon as it no longer does, be it for want of collateral
/// or of validators. An inactive subnet may therefore still hold validators
/// that are too few or too poorly funded to activate it; keeping it active
/// instead would break the rule that status follows the qualification. A
/// terminating subnet is killed once no collateral is left in it.
pub open spec fn next_status(status: Status, total_stake: nat, n_validators: nat, min_validators: nat) -> Status {
    match status {
        Status::Instantiated => if activation_ready(total_stake, n_validators, min_validators) {
            Status::Active
        } else {
            Status::Instantiated
        },
        Status::Active | Status::Inactive => if activation_ready(total_stake, n_validators, min_validators) {
            Status::Active
        } else {
            Status::Inactive
        },
        Status::Terminating => if total_stake == 0 {
            Status::Killed
        } else {
            Status::Terminating
        },
        Status::Killed => Status::Killed,
    }
}

/// Before termination, the status is active exactly when the subnet qualifies.
pub open spec fn status_follows_stake(st: State) -> bool {
    (st.status == Status::Instantiated || st.status == Status::Active || st.status == Status::Inactive) ==> (
    st.status == Status::Active <==> activation_ready(
        st.total_stake as nat,
        st.validators().len(),
        st.min_validators as nat,
    ))
}

/// Whether `votes` of `n_validators` reach the two-thirds supermajority.
pub open spec fn majority(votes: nat, n_validators: nat) -> bool {
    3 * votes >= 2 * n_validators
}

/// The single persisted state root of a subnet actor.
pub struct State {
    pub parent: String,
    pub name: String,
    pub consensus: ConsensusType,
    pub min_validator_stake: TokenAmount,
    pub min_validators: u64,
    pub finality_threshold: ChainEpoch,
    pub check_period: ChainEpoch,
    pub genesis: Vec<u8>,
    pub status: Status,
    pub total_stake: TokenAmount,
    pub stake: Vec<StakeEntry>,
    pub validator_set: Vec<Validator>,
    pub window_checks: Vec<Votes>,
    pub prev_checkpoint: Option<Vec<u8>>,
    pub committed_checkpoints: Vec<CommittedCheckpoint>,
    pub testing: bool,
}

impl State {
    /// The stake ledger: collateral by address, absent where none.
    pub open spec fn ledger(&self) -> Map<ActorId, nat> {
        keyed_map(self.stake@, stake_key(), stake_val())
    }

    pub open spec fn stake_of(&self, a: ActorId) -> nat {
        if self.ledger().contains_key(a) {
            self.ledger()[a]
        } else {
            0
        }
    }

    /// The validator set: network address by validator.
    pub open spec fn validators(&self) -> Map<ActorId, Seq<char>> {
        keyed_map(self.validator_set@, validator_key(), validator_val())
    }

    pub open spec fn is_validator(&self, a: ActorId) -> bool {
        self.validators().contains_key(a)
    }

    /// Votes gathered so far, by checkpoint content id.
    pub open spec fn window(&self) -> Map<Seq<u8>, Seq<ActorId>> {
        keyed_map(self.window_checks@, votes_key(), votes_val())
    }

    pub open spec fn committed_at(&self, epoch: ChainEpoch) -> bool {
        exists|i: int|
            0 <= i < self.committed_checkpoints@.len() && (#[trigger] self.committed_checkpoints@[i]).epoch
                == epoch
    }

    /// An address is a validator exactly when its collateral is positive and reaches the minimum.
    pub open spec fn validators_match_ledger(&self) -> bool {
        forall|a: ActorId| #[trigger]
            self.is_validator(a) <==> (self.stake_of(a) > 0 && self.stake_of(a)
                >= self.min_validator_stake)
    }

    pub open spec fn ledger_wf(&self) -> bool {
        &&& keys_unique(self.stake@, stake_key())
        &&& forall|i: int| 0 <= i < self.stake@.len() ==> (#[trigger] self.stake@[i]).amount > 0
        &&& self.total_stake == ledger_sum(self.stake@)
        &&& keys_unique(self.validator_set@, validator_key())
        &&& self.validators_match_ledger()
    }

    pub open spec fn checkpoints_wf(&self) -> bool {
        &&& keys_unique(self.window_checks@, votes_key())
        &&& forall|i: int|
            0 <= i < self.window_checks@.len() ==> (#[trigger] self.window_checks@[i]).validators@.len()
                > 0 && no_dups(self.window_checks@[i].validators@)
        &&& keys_unique(self.committed_checkpoints@, epoch_key())
        &&& chain_linked(self.committed_checkpoints@, self.check_period)
        &&& opt_bytes(self.prev_checkpoint) == last_cid(self.committed_checkpoints@)
    }

    /// The invariant but for what ties the status to the stake.
    pub open spec fn wf_but_status(&self) -> bool {
        &&& self.ledger_wf()
        &&& self.checkpoints_wf()
        &&& self.check_period > 0
        &&& (self.status == Status::Killed ==> self.total_stake == 0)
    }

    /// The invariant that every method keeps.
    pub open spec fn wf(&self) -> bool {
        &&& self.wf_but_status()
        &&& status_follows_stake(*self)
    }

    /// Fields fixed at construction.
    pub open spec fn same_config(&self, o: &State) -> bool {
        &&& self.parent@ == o.parent@
        &&& self.name@ == o.name@
        &&& self.consensus == o.consensus
        &&& self.min_validator_stake == o.min_validator_stake
        &&& self.min_validators == o.min_validators
        &&& self.finality_threshold == o.finality_threshold
        &&& self.check_period == o.check_period
        &&& self.genesis@ == o.genesis@
        &&& self.testing == o.testing
    }

    /// Fields of the checkpoint protocol.
    pub open spec fn same_checkpoints(&self, o: &State) -> bool {
        &&& self.window_checks == o.window_checks
        &&& self.committed_checkpoints == o.committed_checkpoints
        &&& self.prev_checkpoint == o.prev_checkpoint
    }

    /// Fields of the stake ledger and the lifecycle.
    pub open spec fn same_stake(&self, o: &State) -> bool {
        &&& self.ledger() == o.ledger()
        &&& self.total_stake == o.total_stake
        &&& self.validators() == o.validators()
        &&& self.status == o.status
    }
}

pub proof fn lemma_sum_ge(s: Seq<StakeEntry>, i: int)
    requires
        0 <= i < s.len(),
    ensures
        ledger_sum(s) >= s[i].amount,
    decreases s.len(),
{
    if i != s.len() - 1 {
        assert(s.drop_last()[i] == s[i]);
        lemma_sum_ge(s.drop_last(), i);
    }
}

proof fn lemma_sum_update(s: Seq<StakeEntry>, i: int, e: StakeEntry)
    requires
        0 <= i < s.len(),
    ensures
        ledger_sum(s.update(i, e)) + s[i].amount == ledger_sum(s) + e.amount,
    decreases s.len(),
{
    let u = s.update(i, e);
    if i == s.len() - 1 {
        assert(u.drop_last() =~= s.drop_last());
    } else {
        assert(u.drop_last() =~= s.drop_last().update(i, e));
        assert(s.drop_last()[i] == s[i]);
        lemma_sum_update(s.drop_last(), i, e);
    }
}

proof fn lemma_sum_remove(s: Seq<StakeEntry>, i: int)
    requires
        0 <= i < s.len(),
    ensures
        ledger_sum(s.remove(i)) + s[i].amount == ledger_sum(s),
    decreases s.len(),
{
    let r = s.remove(i);
    if i == s.len() - 1 {
        assert(r =~= s.drop_last());
    } else {
        assert(r.drop_last() =~= s.drop_last().remove(i));
        assert(r.last() == s.last());
        assert(s.drop_last()[i] == s[i]);
        lemma_sum_remove(s.drop_last(), i);
    }
}

/// The validator set still matches the ledger in a state with the same
/// ledger, validator set and minimum stake.
pub proof fn lemma_validators_frame(pre: State, post: State)
    requires
        pre.validators_match_ledger(),
        post.stake == pre.stake,
        post.validator_set == pre.validator_set,
        post.min_validator_stake == pre.min_validator_stake,
    ensures
        post.validators_match_ledger(),
{
    assert forall|a: ActorId| #[trigger]
        post.is_validator(a) <==> (post.stake_of(a) > 0 && post.stake_of(a) >= post.min_validator_stake) by {
        assert(pre.is_validator(a) <==> (pre.stake_of(a) > 0 && pre.stake_of(a) >= pre.min_validator_stake));
    }
}

fn find_stake(s: &Vec<StakeEntry>, a: ActorId) -> (r: Option<usize>)
    ensures
        match r {
            Some(i) => i < s@.len() && s@[i as int].addr == a,
            None => forall|i: int| 0 <= i < s@.len() ==> (#[trigger] s@[i]).addr != a,
        },
{
    let mut i: usize = 0;
    while i < s.len()
        invariant
            i <= s@.len(),
            forall|k: int| 0 <= k < i ==> (#[trigger] s@[k]).addr != a,
        decreases s@.len() - i,
    {
        if s[i].addr == a {
            return Some(i);
        }
        i = i + 1;
    }
    None
}

fn find_validator(s: &Vec<Validator>, a: ActorId) -> (r: Option<usize>)
    ensures
        match r {
            Some(i) => i < s@.len() && s@[i as int].addr == a,
            None => forall|i: int| 0 <= i < s@.len() ==> (#[trigger] s@[i]).addr != a,
        },
{
    let mut i: usize = 0;
    while i < s.len()
        invariant
            i <= s@.len(),
            forall|k: int| 0 <= k < i ==> (#[trigger] s@[k]).addr != a,
        decreases s@.len() - i,
    {
        if s[i].addr == a {
            return Some(i);
        }
        i = i + 1;
    }
    None
}

impl State {
    /// Collateral that `addr` holds in the ledger, zero if none.
    pub fn get_stake(&self, addr: ActorId) -> (r: TokenAmount)
        requires
            self.ledger_wf(),
        ensures
            r == self.stake_of(addr),
    {
        match find_stake(&self.stake, addr) {
            Some(i) => {
                proof {
                    lemma_keyed_index(self.stake@, stake_key(), stake_val(), i as int);
                }
                self.stake[i].amount
            },
            None => {
                proof {
                    lemma_keyed_absent(self.stake@, stake_key(), stake_val(), addr);
                }
                0
            },
        }
    }

    /// Credits `amount` to `addr`; the address becomes a validator, under
    /// `net_addr`, once its collateral reaches the minimum.
    pub fn add_stake(&mut self, addr: ActorId, net_addr: String, amount: TokenAmount) -> (r: TokenAmount)
        requires
            old(self).ledger_wf(),
            amount > 0,
            old(self).total_stake + amount <= u128::MAX,
        ensures
            final(self).ledger_wf(),
            r == old(self).stake_of(addr) + amount,
            final(self).ledger() == old(self).ledger().insert(addr, r as nat),
            final(self).total_stake == old(self).total_stake + amount,
            final(self).validators() == if old(self).is_validator(addr) || r < old(self).min_validator_stake {
                old(self).validators()
            } else {
                old(self).validators().insert(addr, net_addr@)
            },
            final(self).same_config(old(self)),
            final(self).same_checkpoints(old(self)),
            final(self).status == old(self).status,
    {
        let ghost pre = *self;
        let new_amount: TokenAmount;
        match find_stake(&self.stake, addr) {
            Some(i) => {
                proof {
                    lemma_keyed_index(self.stake@, stake_key(), stake_val(), i as int);
                    lemma_sum_ge(self.stake@, i as int);
                }
                new_amount = self.stake[i].amount + amount;
                let e = StakeEntry { addr, amount: new_amount };
                proof {
                    lemma_keyed_update(self.stake@, stake_key(), stake_val(), i as int, e);
                    lemma_sum_update(self.stake@, i as int, e);
                }
                self.stake[i] = e;
            },
            None => {
                proof {
                    lemma_keyed_absent(self.stake@, stake_key(), stake_val(), addr);
                }
                new_amount = amount;
                let e = StakeEntry { addr, amount };
                proof {
                    lemma_keyed_push(self.stake@, stake_key(), stake_val(), e);
                    assert(self.stake@.push(e).drop_last() =~= self.stake@);
                    assert forall|a: int, b: int|
                        0 <= a < self.stake@.len() + 1 && 0 <= b < self.stake@.len() + 1 && a != b implies #[trigger] self.stake@.push(e)[a].addr
                        != #[trigger] self.stake@.push(e)[b].addr by {
                        if a < self.stake@.len() && b < self.stake@.len() {
                            assert(stake_key()(self.stake@[a]) != stake_key()(self.stake@[b]));
                        }
                    }
                }
                self.stake.push(e);
            },
        }
        self.total_stake = self.total_stake + amount;
        proof {
            assert(self.ledger() == pre.ledger().insert(addr, new_amount as nat));
        }
        if new_amount >= self.min_validator_stake {
            match find_validator(&self.validator_set, addr) {
                Some(j) => {
                    proof {
                        lemma_keyed_present(self.validator_set@, validator_key(), validator_val(), addr);
                    }
                },
                None => {
                    proof {
                        lemma_keyed_absent(self.validator_set@, validator_key(), validator_val(), addr);
                    }
                    let v = Validator { addr, net_addr };
                    proof {
                        lemma_keyed_push(self.validator_set@, validator_key(), validator_val(), v);
                    }
                    self.validator_set.push(v);
                },
            }
        }
        proof {
            assert forall|a: ActorId| #[trigger]
                self.is_validator(a) <==> (self.stake_of(a) > 0 && self.stake_of(a)
                    >= self.min_validator_stake) by {
                if a != addr {
                    assert(self.stake_of(a) == pre.stake_of(a));
                    assert(self.is_validator(a) == pre.is_validator(a));
                    assert(pre.is_validator(a) <==> (pre.stake_of(a) > 0 && pre.stake_of(a)
                        >= pre.min_validator_stake));
                } else {
                    assert(pre.is_validator(a) <==> (pre.stake_of(a) > 0 && pre.stake_of(a)
                        >= pre.min_validator_stake));
                }
            }
        }
        new_amount
    }

    /// Withdraws the whole collateral `amount` of `addr` and drops it from the validator set.
    pub fn rm_stake(&mut self, addr: ActorId, amount: TokenAmount)
        requires
            old(self).ledger_wf(),
            old(self).stake_of(addr) == amount,
            amount > 0,
        ensures
            final(self).ledger_wf(),
            final(self).ledger() == old(self).ledger().remove(addr),
            final(self).total_stake == old(self).total_stake - amount,
            final(self).validators() == old(self).validators().remove(addr),
            final(self).same_config(old(self)),
            final(self).same_checkpoints(old(self)),
            final(self).status == old(self).status,
    {
        let ghost pre = *self;
        match find_stake(&self.stake, addr) {
            Some(i) => {
                proof {
                    lemma_keyed_index(self.stake@, stake_key(), stake_val(), i as int);
                    lemma_keyed_remove(self.stake@, stake_key(), stake_val(), i as int);
                    lemma_sum_remove(self.stake@, i as int);
                }
                self.stake.remove(i);
                self.total_stake = self.total_stake - amount;
            },
            None => {
                proof {
                    lemma_keyed_absent(self.stake@, stake_key(), stake_val(), addr);
                }
            },
        }
        match find_validator(&self.validator_set, addr) {
            Some(j) => {
                proof {
                    lemma_keyed_remove(self.validator_set@, validator_key(), validator_val(), j as int);
                }
                self.validator_set.remove(j);
            },
            None => {
                proof {
                    lemma_keyed_absent(self.validator_set@, validator_key(), validator_val(), addr);
                    assert(pre.validators().remove(addr) =~= pre.validators());
                }
            },
        }
        proof {
            assert forall|a: ActorId| #[trigger]
                self.is_validator(a) <==> (self.stake_of(a) > 0 && self.stake_of(a)
                    >= self.min_validator_stake) by {
                assert(pre.is_validator(a) <==> (pre.stake_of(a) > 0 && pre.stake_of(a)
                    >= pre.min_validator_stake));
            }
        }
    }

    /// Whether `addr` is in the validator set.
    pub fn has_validator(&self, addr: ActorId) -> (r: bool)
        requires
            keys_unique(self.validator_set@, validator_key()),
        ensures
            r == self.is_validator(addr),
    {
        match find_validator(&self.validator_set, addr) {
            Some(j) => {
                proof {
                    lemma_keyed_present(self.validator_set@, validator_key(), validator_val(), addr);
                }
                true
            },
            None => {
                proof {
                    lemma_keyed_absent(self.validator_set@, validator_key(), validator_val(), addr);
                }
                false
            },
        }
    }

    /// Moves the status on once funds have moved.
    pub fn mutate_state(&mut self)
        ensures
            final(self).status == next_status(
                old(self).status,
                old(self).total_stake as nat,
                old(self).validator_set@.len(),
                old(self).min_validators as nat,
            ),
            final(self).stake == old(self).stake,
            final(self).total_stake == old(self).total_stake,
            final(self).validator_set == old(self).validator_set,
            final(self).same_config(old(self)),
            final(self).same_checkpoints(old(self)),
            old(self).wf_but_status() ==> final(self).wf(),
    {
        let ghost pre = *self;
        let ready = self.total_stake >= MIN_COLLATERAL_AMOUNT && self.validator_set.len() as u64
            >= self.min_validators;
        self.status =
        match self.status {
            Status::Instantiated => if ready {
                Status::Active
            } else {
                Status::Instantiated
            },
            Status::Active | Status::Inactive => if ready {
                Status::Active
            } else {
                Status::Inactive
            },
            Status::Terminating => if self.total_stake == 0 {
                Status::Killed
            } else {
                Status::Terminating
            },
            Status::Killed => Status::Killed,
        };
        proof {
            if pre.wf_but_status() {
                lemma_validators_frame(pre, *self);
                lemma_keyed_len(self.validator_set@, validator_key(), validator_val());
            }
        }
    }
}

} // verus!
