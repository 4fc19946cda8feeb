use vstd::prelude::*;

use rand::Rng;

use crate::circuit::values_of;
use crate::field::FieldValue;

verus! {

/// Relies on rand's `thread_rng` and `Rng::gen_range`, which panics only on
/// an empty range: a number drawn from `[0, bound)`.
#[verifier::external_body]
fn random_below(bound: u64) -> (r: u64)
    requires
        bound > 0,
    ensures
        r < bound,
{
    rand::thread_rng().gen_range(0..bound)
}

/// A fresh challenge of `len` numbers, each drawn from `[0, bound)`.
pub fn generate_challenge_vector(len: usize, bound: u64) -> (r: Vec<u64>)
    requires
        bound > 0,
    ensures
        r@.len() == len,
        forall|i: int| 0 <= i < len ==> #[trigger] r@[i] < bound,
{
    let mut v: Vec<u64> = Vec::new();
    let mut i: usize = 0;
    while i < len
        invariant
            i <= len,
            bound > 0,
            v@.len() == i,
            forall|k: int| 0 <= k < i ==> #[trigger] v@[k] < bound,
        decreases len - i,
    {
        v.push(random_below(bound));
        i = i + 1;
    }
    v
}

/// Whether a rotation happened.
#[derive(Clone, Copy, Debug, PartialEq, Eq, Structural)]
pub enum Rotation {
    /// The proof answered the current challenge, which is now replaced.
    Rotated,
    /// The proof answered an earlier or a wrong challenge; nothing changed.
    Stale,
}

/// The challenge after a proof of `proved`, and whether it rotated: it is
/// replaced by `fresh` exactly when `proved` is the current challenge.
pub open spec fn rotate_spec(current: Seq<u64>, proved: Seq<u64>, fresh: Seq<u64>) -> (Seq<u64>, Rotation) {
    if proved == current {
        (fresh, Rotation::Rotated)
    } else {
        (current, Rotation::Stale)
    }
}

/// The numbers that the first `len` public inputs carry, when there are that
/// many and each fits in 64 bits.
pub open spec fn challenge_prefix(values: Seq<nat>, len: nat) -> Option<Seq<u64>> {
    if len <= values.len() && forall|i: int| 0 <= i < len ==> #[trigger] values[i] < 0x1_0000_0000_0000_0000 {
        Some(Seq::new(len, |i: int| values[i] as u64))
    } else {
        None
    }
}

/// What the client must currently prove to have operated on.
pub struct ChallengeState {
    current: Vec<u64>,
}

impl ChallengeState {
    pub closed spec fn view(&self) -> Seq<u64> {
        self.current@
    }

    pub fn new(initial: Vec<u64>) -> (r: ChallengeState)
        ensures
            r.view() == initial@,
    {
        ChallengeState { current: initial }
    }

    /// A snapshot of the current challenge.
    pub fn current(&self) -> (r: Vec<u64>)
        ensures
            r@ == self.view(),
    {
        self.current.clone()
    }

    /// Replaces the challenge by `fresh` when `proved` is the current one;
    /// a proof of any other value leaves the state as it was.
    pub fn rotate_if(&mut self, proved: &Vec<u64>, fresh: Vec<u64>) -> (r: Rotation)
        ensures
            (final(self).view(), r) == rotate_spec(old(self).view(), proved@, fresh@),
    {
        if same_numbers(proved, &self.current) {
            self.current = fresh;
            Rotation::Rotated
        } else {
            Rotation::Stale
        }
    }

    /// Rotates on a valid proof whose first public inputs are the challenge
    /// it answered; inputs too few, or too large for a challenge number,
    /// answer no challenge.
    pub fn rotate_if_proved(&mut self, public_inputs: &Vec<FieldValue>, fresh: Vec<u64>) -> (r: Rotation)
        ensures
            challenge_prefix(values_of(public_inputs@), old(self).view().len()) matches Some(p)
                ==> (final(self).view(), r) == rotate_spec(old(self).view(), p, fresh@),
            challenge_prefix(values_of(public_inputs@), old(self).view().len()) is None
                ==> final(self).view() == old(self).view() && r == Rotation::Stale,
    {
        match challenge_numbers(public_inputs, self.current.len()) {
            Some(p) => self.rotate_if(&p, fresh),
            None => Rotation::Stale,
        }
    }
}

fn same_numbers(a: &Vec<u64>, b: &Vec<u64>) -> (r: bool)
    ensures
        r == (a@ == b@),
{
    if a.len() != b.len() {
        return false;
    }
    let mut i: usize = 0;
    while i < a.len()
        invariant
            a@.len() == b@.len(),
            i <= a@.len(),
            forall|k: int| 0 <= k < i ==> a@[k] == b@[k],
        decreases a.len() - i,
    {
        if a[i] != b[i] {
            return false;
        }
        i = i + 1;
    }
    assert(a@ =~= b@);
    true
}

/// The first `len` public inputs as challenge numbers.
pub fn challenge_numbers(public_inputs: &Vec<FieldValue>, len: usize) -> (r: Option<Vec<u64>>)
    ensures
        r matches Some(v) ==> challenge_prefix(values_of(public_inputs@), len as nat) == Some(v@),
        r is None ==> challenge_prefix(values_of(public_inputs@), len as nat) is None,
{
    let ghost vals = values_of(public_inputs@);
    assert(vals.len() == public_inputs@.len());
    if len > public_inputs.len() {
        return None;
    }
    let mut out: Vec<u64> = Vec::new();
    let mut i: usize = 0;
    while i < len
        invariant
            len <= public_inputs@.len(),
            vals == values_of(public_inputs@),
            vals.len() == public_inputs@.len(),
            i <= len,
            out@.len() == i,
            forall|k: int| 0 <= k < i ==> #[trigger] out@[k] as nat == vals[k],
        decreases len - i,
    {
        proof {
            assert(vals[i as int] == public_inputs@[i as int].value());
        }
        let n = match public_inputs[i].to_u64() {
            Some(n) => n,
            None => {
                proof {
                    assert(!(vals[i as int] < 0x1_0000_0000_0000_0000));
                }
                return None;
            },
        };
        let ghost prev = out@;
        out.push(n);
        proof {
            assert(vals[i as int] == n as nat);
            assert forall|k: int| 0 <= k < i + 1 implies #[trigger] out@[k] as nat == vals[k] by {
                if k < i {
                    assert(out@[k] == prev[k]);
                } else {
                    assert(out@[k] == n);
                }
            }
        }
        i = i + 1;
    }
    assert forall|k: int| 0 <= k < len implies #[trigger] vals[k] < 0x1_0000_0000_0000_0000 by {
        assert(out@[k] as nat == vals[k]);
    }
    assert(out@ =~= Seq::new(len as nat, |k: int| vals[k] as u64));
    Some(out)
}

/// Two clients race on one challenge `c`: the first valid proof rotates it to
/// `fresh`, and the second proof of `c`, now stale, rotates nothing more and
/// is told apart as stale.
pub proof fn lemma_replay_rotates_once(c: Seq<u64>, fresh: Seq<u64>, later: Seq<u64>)
    requires
        fresh != c,
    ensures
        rotate_spec(c, c, fresh) == (fresh, Rotation::Rotated),
        rotate_spec(fresh, c, later) == (fresh, Rotation::Stale),
{
}

} // verus!
