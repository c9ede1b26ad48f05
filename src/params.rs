//! Parameter sets of one Poseidon instantiation.
use vstd::prelude::*;
use crate::field::FieldElement;

verus! {

/// The integer values of a sequence of field elements.
pub open spec fn vals<F: FieldElement>(s: Seq<F>) -> Seq<int> {
    s.map_values(|x: F| x.value())
}

/// Why a hash request was rejected before any round ran.
#[derive(Clone, Copy, Debug, PartialEq, Eq, Structural)]
pub enum HashError {
    /// The number of round constants is not the state width times the
    /// number of rounds, the MDS matrix is not square of the state width,
    /// or the state width is zero.
    MalformedParameters,
    /// The rate is zero or larger than the state width.
    InvalidRate,
    /// Zero output elements were requested.
    InvalidOutputLength,
}

/// The round constants, MDS matrix, state width, round counts and S-box
/// exponent of one Poseidon instantiation.
#[derive(Clone, Debug)]
pub struct Constants<F> {
    /// Round constants, `t` of them per round, in round order.
    pub c: Vec<F>,
    /// The MDS matrix, row by row.
    pub m: Vec<Vec<F>>,
    /// Width of the state.
    pub t: usize,
    /// Number of partial rounds.
    pub partial_rounds: u32,
    /// Number of full rounds.
    pub full_rounds: u32,
    /// Exponent of the S-box.
    pub alpha: u32,
}

impl<F: FieldElement> Constants<F> {
    /// Total number of rounds of the permutation.
    pub open spec fn num_rounds(&self) -> nat {
        self.full_rounds as nat + self.partial_rounds as nat
    }

    /// The round constants as integers.
    pub open spec fn round_constants(&self) -> Seq<int> {
        vals(self.c@)
    }

    /// The MDS matrix as integers, row by row.
    pub open spec fn mds(&self) -> Seq<Seq<int>> {
        self.m@.map_values(|row: Vec<F>| vals(row@))
    }

    /// The invariants of a parameter set: a positive width, exactly one
    /// constant per slot and round, and a square matrix of the width.
    pub open spec fn wf(&self) -> bool {
        &&& self.t >= 1
        &&& self.c@.len() == self.t * self.num_rounds()
        &&& self.m@.len() == self.t
        &&& forall|i: int| 0 <= i < self.t ==> #[trigger] self.m@[i]@.len() == self.t
    }

    /// Whether the parameter set meets its invariants.
    pub fn is_valid(&self) -> (r: bool)
        ensures
            r == self.wf(),
    {
        if self.t == 0 {
            return false;
        }
        let n_constants: usize = self.c.len();
        let rounds: u64 = self.full_rounds as u64 + self.partial_rounds as u64;
        match (self.t as u64).checked_mul(rounds) {
            None => {
                proof {
                    assert(rounds == self.num_rounds());
                    assert(self.c@.len() == n_constants);
                    assert(usize::MAX <= u64::MAX);
                }
                return false;
            },
            Some(n) => {
                if n != n_constants as u64 {
                    return false;
                }
            },
        }
        if self.m.len() != self.t {
            return false;
        }
        let mut i: usize = 0;
        while i < self.t
            invariant
                i <= self.t,
                self.m@.len() == self.t,
                forall|k: int| 0 <= k < i ==> #[trigger] self.m@[k]@.len() == self.t,
            decreases self.t - i,
        {
            if self.m[i].len() != self.t {
                return false;
            }
            i = i + 1;
        }
        true
    }

    /// A parameter set from its parts, or `MalformedParameters` when the
    /// parts break the invariants.
    pub fn new(
        c: Vec<F>,
        m: Vec<Vec<F>>,
        t: usize,
        partial_rounds: u32,
        full_rounds: u32,
        alpha: u32,
    ) -> (r: Result<Constants<F>, HashError>)
        ensures
            ({
                let k = Constants { c, m, t, partial_rounds, full_rounds, alpha };
                match r {
                    Ok(p) => k.wf() && p == k,
                    Err(e) => !k.wf() && e == HashError::MalformedParameters,
                }
            }),
    {
        let k = Constants { c, m, t, partial_rounds, full_rounds, alpha };
        if k.is_valid() {
            Ok(k)
        } else {
            Err(HashError::MalformedParameters)
        }
    }
}

} // verus!
