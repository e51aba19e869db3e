//! Checkpoint verification and the two-thirds vote rule.
use vstd::prelude::*;

use crate::state::{follows_chain, majority, opt_bytes, State};
use crate::types::{ActorError, ActorId, ChainEpoch, Checkpoint, CommittedCheckpoint, Votes};

verus! {

/// Whether two byte strings are equal.
pub fn bytes_eq(a: &Vec<u8>, b: &Vec<u8>) -> (r: bool)
    ensures
        r == (a@ == b@),
{
    if a.len() != b.len() {
        return false;
    }
    let mut i: usize = 0;
    while i < a.len()
        invariant
            a@.len() == b@.len(),
            i <= a@.len(),
            forall|k: int| 0 <= k < i ==> a@[k] == b@[k],
        decreases a@.len() - i,
    {
        if a[i] != b[i] {
            return false;
        }
        i = i + 1;
    }
    assert(a@ =~= b@);
    true
}

/// Whether two optional content ids are equal.
pub fn opt_bytes_eq(a: &Option<Vec<u8>>, b: &Option<Vec<u8>>) -> (r: bool)
    ensures
        r == (opt_bytes(*a) == opt_bytes(*b)),
{
    match (a, b) {
        (Some(x), Some(y)) => bytes_eq(x, y),
        (None, None) => true,
        _ => false,
    }
}

pub fn copy_bytes(a: &Vec<u8>) -> (r: Vec<u8>)
    ensures
        r@ == a@,
{
    let mut r: Vec<u8> = Vec::new();
    let mut i: usize = 0;
    while i < a.len()
        invariant
            i <= a@.len(),
            r@ == a@.subrange(0, i as int),
        decreases a@.len() - i,
    {
        r.push(a[i]);
        i = i + 1;
        assert(r@ =~= a@.subrange(0, i as int));
    }
    assert(a@.subrange(0, a@.len() as int) =~= a@);
    r
}

pub fn copy_opt_bytes(a: &Option<Vec<u8>>) -> (r: Option<Vec<u8>>)
    ensures
        opt_bytes(r) == opt_bytes(*a),
{
    match a {
        Some(x) => Some(copy_bytes(x)),
        None => None,
    }
}

/// Whether `a` is among `s`.
pub fn contains_addr(s: &Vec<ActorId>, a: ActorId) -> (r: bool)
    ensures
        r == s@.contains(a),
{
    let mut i: usize = 0;
    while i < s.len()
        invariant
            i <= s@.len(),
            forall|k: int| 0 <= k < i ==> s@[k] != a,
        decreases s@.len() - i,
    {
        if s[i] == a {
            return true;
        }
        i = i + 1;
    }
    false
}

/// Position of the votes for `cid`, if any were gathered.
pub fn find_votes(w: &Vec<Votes>, cid: &Vec<u8>) -> (r: Option<usize>)
    ensures
        match r {
            Some(i) => i < w@.len() && w@[i as int].cid@ == cid@,
            None => forall|i: int| 0 <= i < w@.len() ==> (#[trigger] w@[i]).cid@ != cid@,
        },
{
    let mut i: usize = 0;
    while i < w.len()
        invariant
            i <= w@.len(),
            forall|k: int| 0 <= k < i ==> (#[trigger] w@[k]).cid@ != cid@,
        decreases w@.len() - i,
    {
        if bytes_eq(&w[i].cid, cid) {
            return Some(i);
        }
        i = i + 1;
    }
    None
}

/// Whether a checkpoint was committed at `epoch`.
pub fn epoch_committed(c: &Vec<CommittedCheckpoint>, epoch: ChainEpoch) -> (r: bool)
    ensures
        r == exists|i: int| 0 <= i < c@.len() && (#[trigger] c@[i]).epoch == epoch,
{
    let mut i: usize = 0;
    while i < c.len()
        invariant
            i <= c@.len(),
            forall|k: int| 0 <= k < i ==> (#[trigger] c@[k]).epoch != epoch,
        decreases c@.len() - i,
    {
        if c[i].epoch == epoch {
            return true;
        }
        i = i + 1;
    }
    false
}

/// Whether `votes` out of `n_validators` reach the two-thirds supermajority,
/// that is at least the ceiling of two thirds of the validators.
pub fn has_majority_vote(votes: usize, n_validators: usize) -> (r: bool)
    ensures
        r == majority(votes as nat, n_validators as nat),
{
    3 * (votes as u128) >= 2 * (n_validators as u128)
}

/// What a checkpoint must satisfy before a vote on it counts.
pub open spec fn checkpoint_ok(st: State, caller: ActorId, this_subnet: Seq<char>, ch: Checkpoint) -> bool {
    &&& ch.source@ == this_subnet
    &&& st.is_validator(caller)
    &&& ch.epoch > 0
    &&& ch.epoch % st.check_period == 0
    &&& !st.committed_at(ch.epoch)
    &&& follows_chain(st.committed_checkpoints@, st.check_period, ch.epoch)
    &&& opt_bytes(ch.prev_check) == opt_bytes(st.prev_checkpoint)
}

impl State {
    /// Checks that `ch` comes from this subnet, from a validator, at an unused
    /// epoch of the checkpoint period one period after the last commit, and
    /// links to the checkpoint committed there (to none before the first commit).
    pub fn verify_checkpoint(&self, caller: ActorId, this_subnet: &String, ch: &Checkpoint) -> (r: Result<
        (),
        ActorError,
    >)
        requires
            self.wf(),
        ensures
            r is Ok <==> checkpoint_ok(*self, caller, this_subnet@, *ch),
            r is Err ==> r == Err::<(), ActorError>(ActorError::IllegalState),
    {
        if ch.source != *this_subnet {
            return Err(ActorError::IllegalState);
        }
        if !self.has_validator(caller) {
            return Err(ActorError::IllegalState);
        }
        if ch.epoch == 0 || ch.epoch % self.check_period != 0 {
            return Err(ActorError::IllegalState);
        }
        if epoch_committed(&self.committed_checkpoints, ch.epoch) {
            return Err(ActorError::IllegalState);
        }
        let n = self.committed_checkpoints.len();
        if n > 0 {
            let last = self.committed_checkpoints[n - 1].epoch;
            if last > u64::MAX - self.check_period || ch.epoch != last + self.check_period {
                return Err(ActorError::IllegalState);
            }
        }
        if !opt_bytes_eq(&ch.prev_check, &self.prev_checkpoint) {
            return Err(ActorError::IllegalState);
        }
        Ok(())
    }
}

} // verus!
