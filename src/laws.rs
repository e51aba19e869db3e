//! Properties of the actor's state that hold after every method.
use vstd::prelude::*;

use crate::keyed::lemma_keyed_value;
use crate::state::{chain_linked, lemma_sum_ge, majority, next_status, no_dups, opt_bytes, votes_key, votes_val, State};
use crate::types::{ActorId, MIN_COLLATERAL_AMOUNT, Status};

verus! {

/// The total stake is the sum of the collateral in the ledger.
pub proof fn lemma_total_stake_is_sum(st: State)
    requires
        st.wf(),
    ensures
        st.total_stake == crate::state::ledger_sum(st.stake@),
{
}

/// A killed subnet holds no collateral: its total is zero and its ledger empty.
pub proof fn lemma_killed_holds_nothing(st: State)
    requires
        st.wf(),
        st.status == Status::Killed,
    ensures
        st.total_stake == 0,
        st.ledger() == Map::<ActorId, nat>::empty(),
        forall|a: ActorId| st.stake_of(a) == 0,
{
    if st.stake@.len() > 0 {
        lemma_sum_ge(st.stake@, 0);
        assert(st.stake@[0].amount > 0);
    }
    assert(st.ledger() =~= Map::<ActorId, nat>::empty());
}

/// Every vote set on record is non-empty and names each validator at most once.
pub proof fn lemma_votes_distinct(st: State, cid: Seq<u8>)
    requires
        st.wf(),
        st.window().contains_key(cid),
    ensures
        st.window()[cid].len() > 0,
        no_dups(st.window()[cid]),
{
    lemma_keyed_value(st.window_checks@, votes_key(), votes_val(), cid);
}

proof fn lemma_chain_epochs(st: State, k: int)
    requires
        st.wf(),
        0 <= k < st.committed_checkpoints@.len(),
    ensures
        st.committed_checkpoints@[k].epoch == st.committed_checkpoints@[0].epoch + k * st.check_period,
    decreases k,
{
    let c = st.committed_checkpoints@;
    if k > 0 {
        lemma_chain_epochs(st, k - 1);
        assert(c[k].epoch == c[k - 1].epoch + st.check_period);
        assert((k - 1) * st.check_period + st.check_period == k * st.check_period) by (nonlinear_arith);
    }
}

/// Each committed checkpoint links to the checkpoint committed at its epoch
/// less the checkpoint period, and to none where nothing is committed there;
/// the last one committed is the one that the next checkpoint must link to.
pub proof fn lemma_checkpoint_chain(st: State, i: int)
    requires
        st.wf(),
        0 <= i < st.committed_checkpoints@.len(),
    ensures
        forall|j: int|
            0 <= j < st.committed_checkpoints@.len() && (#[trigger] st.committed_checkpoints@[j]).epoch
                + st.check_period == st.committed_checkpoints@[i].epoch ==> opt_bytes(
                st.committed_checkpoints@[i].prev_check,
            ) == Some(st.committed_checkpoints@[j].cid@),
        (forall|j: int|
            0 <= j < st.committed_checkpoints@.len() ==> (#[trigger] st.committed_checkpoints@[j]).epoch
                + st.check_period != st.committed_checkpoints@[i].epoch) ==> opt_bytes(
            st.committed_checkpoints@[i].prev_check,
        ) == None::<Seq<u8>>,
        i == st.committed_checkpoints@.len() - 1 ==> opt_bytes(st.prev_checkpoint) == Some(
            st.committed_checkpoints@[i].cid@,
        ),
{
    let c = st.committed_checkpoints@;
    let p = st.check_period as int;
    assert(chain_linked(c, st.check_period));
    lemma_chain_epochs(st, i);
    assert forall|j: int| 0 <= j < c.len() && (#[trigger] c[j]).epoch + p == c[i].epoch implies opt_bytes(
        c[i].prev_check,
    ) == Some(c[j].cid@) by {
        lemma_chain_epochs(st, j);
        assert(j * p + p == i * p);
        assert(j + 1 == i) by (nonlinear_arith)
            requires
                j * p + p == i * p,
                p > 0,
        ;
    }
    if i > 0 {
        assert(c[i - 1].epoch + p == c[i].epoch);
    }
}

/// Once funds have moved, a subnet that is neither terminating nor killed is
/// active exactly when it holds the activation collateral and at least the
/// configured number of validators.
pub proof fn lemma_activation(status: Status, total_stake: nat, n_validators: nat, min_validators: nat)
    requires
        status != Status::Terminating,
        status != Status::Killed,
    ensures
        next_status(status, total_stake, n_validators, min_validators) == Status::Active <==> (total_stake
            >= MIN_COLLATERAL_AMOUNT && n_validators >= min_validators),
{
}

/// In every state the methods leave, a subnet that is neither terminating nor
/// killed is active exactly when it holds the activation collateral and at
/// least the configured number of validators.
pub proof fn lemma_status_matches_stake(st: State)
    requires
        st.wf(),
        st.status != Status::Terminating,
        st.status != Status::Killed,
    ensures
        st.status == Status::Active <==> (st.total_stake >= MIN_COLLATERAL_AMOUNT && st.validators().len()
            >= st.min_validators),
{
}

/// The majority test asks for at least the ceiling of two thirds of the validators.
pub proof fn lemma_majority_is_ceiling(votes: nat, n_validators: nat)
    ensures
        majority(votes, n_validators) <==> votes >= (2 * n_validators + 2) / 3,
{
}

} // verus!
