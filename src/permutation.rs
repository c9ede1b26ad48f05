//! The Poseidon permutation: add-round-key, S-box and MDS layer per round.
use vstd::prelude::*;
use vstd::arithmetic::div_mod::lemma_fundamental_div_mod;
use crate::field::{FieldElement, fadd, fmul, fpow};
use crate::params::{Constants, vals};

verus! {

/// Whether round `i` applies the partial S-box: the rounds from half the
/// full rounds on, as many as there are partial rounds.
pub open spec fn in_partial_window(full_rounds: u32, partial_rounds: u32, i: int) -> bool {
    full_rounds / 2 <= i < full_rounds / 2 + partial_rounds
}

/// The index of the round constant added to slot `j` in round `i`.
pub open spec fn constant_index(t: int, i: int, j: int) -> int {
    t * i + j
}

/// Whether index `x` is the constant of some slot in some of the `n` rounds.
pub open spec fn used_in_some_round(t: int, n: int, x: int) -> bool {
    exists|i: int, j: int| 0 <= i < n && 0 <= j < t && #[trigger] constant_index(t, i, j) == x
}

/// The add-round-key step of round `i`.
pub open spec fn ark_spec<F: FieldElement>(k: Constants<F>, s: Seq<int>, i: int) -> Seq<int> {
    Seq::new(s.len(), |j: int| fadd(F::modulus(), s[j], k.round_constants()[constant_index(k.t as int, i, j)]))
}

/// The S-box step of round `i`: every slot raised to `alpha`, or only slot
/// zero inside the partial window.
pub open spec fn sbox_spec<F: FieldElement>(k: Constants<F>, s: Seq<int>, i: int) -> Seq<int> {
    Seq::new(
        s.len(),
        |j: int|
            if j != 0 && in_partial_window(k.full_rounds, k.partial_rounds, i) {
                s[j]
            } else {
                fpow(F::modulus(), s[j], k.alpha as nat)
            },
    )
}

/// The sum modulo `p` of `s[j] * row[j]` over the first `n` slots, added
/// from slot zero up.
pub open spec fn dot(p: int, row: Seq<int>, s: Seq<int>, n: nat) -> int
    decreases n,
{
    if n == 0 {
        0
    } else {
        fadd(p, dot(p, row, s, (n - 1) as nat), fmul(p, s[n - 1], row[n - 1]))
    }
}

/// The linear layer: the MDS matrix times the state.
pub open spec fn mds_spec<F: FieldElement>(k: Constants<F>, s: Seq<int>) -> Seq<int> {
    Seq::new(k.t as nat, |i: int| dot(F::modulus(), k.mds()[i], s, k.t as nat))
}

/// One full round `i`.
pub open spec fn round_spec<F: FieldElement>(k: Constants<F>, s: Seq<int>, i: int) -> Seq<int> {
    mds_spec(k, sbox_spec(k, ark_spec(k, s, i), i))
}

/// The state after the first `n` rounds.
pub open spec fn rounds_spec<F: FieldElement>(k: Constants<F>, s: Seq<int>, n: nat) -> Seq<int>
    decreases n,
{
    if n == 0 {
        s
    } else {
        round_spec(k, rounds_spec(k, s, (n - 1) as nat), n - 1)
    }
}

/// The Poseidon permutation: all rounds in order.
pub open spec fn permutation_spec<F: FieldElement>(k: Constants<F>, s: Seq<int>) -> Seq<int> {
    rounds_spec(k, s, k.num_rounds())
}

/// Adds the round constants of round `round_number` to the state.
pub fn ark<F: FieldElement>(state: &mut Vec<F>, constants: &Constants<F>, round_number: usize)
    requires
        old(state)@.len() == constants.t,
        constants.t * (round_number + 1) <= constants.c@.len(),
    ensures
        final(state)@.len() == old(state)@.len(),
        vals(final(state)@) == ark_spec(*constants, vals(old(state)@), round_number as int),
{
    let t = constants.t;
    let n_constants: usize = constants.c.len();
    proof {
        assert(t * (round_number + 1) == t * round_number + t) by (nonlinear_arith);
    }
    let base: usize = t * round_number;
    let ghost s0 = state@;
    let mut i: usize = 0;
    while i < t
        invariant
            i <= t,
            t == constants.t,
            base == t * round_number,
            base + t <= constants.c@.len(),
            n_constants == constants.c@.len(),
            state@.len() == t,
            s0.len() == t,
            forall|j: int| 0 <= j < i ==> #[trigger] state@[j].value() == fadd(F::modulus(), s0[j].value(), constants.c@[base + j].value()),
            forall|j: int| i <= j < t ==> #[trigger] state@[j] == s0[j],
        decreases t - i,
    {
        let x = state[i].add(&constants.c[base + i]);
        state.set(i, x);
        i = i + 1;
    }
    assert(vals(state@) =~= ark_spec(*constants, vals(s0), round_number as int));
}

/// Raises the state to the power `alpha`: every slot, or only slot zero in
/// the rounds of the partial window.
pub fn sbox<F: FieldElement>(state: &mut Vec<F>, constants: &Constants<F>, round_number: usize)
    requires
        old(state)@.len() >= 1,
    ensures
        final(state)@.len() == old(state)@.len(),
        vals(final(state)@) == sbox_spec(*constants, vals(old(state)@), round_number as int),
{
    let ghost s0 = state@;
    let half: u64 = (constants.full_rounds / 2) as u64;
    let i: u64 = round_number as u64;
    if i >= half && i < half + constants.partial_rounds as u64 {
        let x = state[0].pow(constants.alpha);
        state.set(0, x);
    } else {
        let n = state.len();
        let mut j: usize = 0;
        while j < n
            invariant
                j <= n,
                state@.len() == n,
                s0.len() == n,
                forall|l: int| 0 <= l < j ==> #[trigger] state@[l].value() == fpow(F::modulus(), s0[l].value(), constants.alpha as nat),
                forall|l: int| j <= l < n ==> #[trigger] state@[l] == s0[l],
            decreases n - j,
        {
            let x = state[j].pow(constants.alpha);
            state.set(j, x);
            j = j + 1;
        }
    }
    assert(vals(state@) =~= sbox_spec(*constants, vals(s0), round_number as int));
}

/// Replaces the state by the MDS matrix times the state.
pub fn linear_layer<F: FieldElement>(state: &mut Vec<F>, constants: &Constants<F>)
    requires
        old(state)@.len() == constants.t,
        constants.m@.len() == constants.t,
        forall|i: int| 0 <= i < constants.t ==> #[trigger] constants.m@[i]@.len() == constants.t,
    ensures
        final(state)@.len() == old(state)@.len(),
        vals(final(state)@) == mds_spec(*constants, vals(old(state)@)),
{
    let t = constants.t;
    let ghost s = vals(state@);
    let mut result: Vec<F> = Vec::new();
    let mut i: usize = 0;
    while i < t
        invariant
            i <= t,
            t == constants.t,
            state@.len() == t,
            s == vals(state@),
            constants.m@.len() == t,
            forall|l: int| 0 <= l < t ==> #[trigger] constants.m@[l]@.len() == t,
            result@.len() == i,
            forall|l: int| 0 <= l < i ==> #[trigger] result@[l].value() == dot(F::modulus(), constants.mds()[l], s, t as nat),
        decreases t - i,
    {
        let row = &constants.m[i];
        let ghost mrow = constants.mds()[i as int];
        assert(mrow == vals(row@));
        let mut acc = F::zero();
        let mut j: usize = 0;
        while j < t
            invariant
                j <= t,
                i < t,
                t == constants.t,
                state@.len() == t,
                s == vals(state@),
                row@.len() == t,
                mrow == vals(row@),
                acc.value() == dot(F::modulus(), mrow, s, j as nat),
            decreases t - j,
        {
            let p = state[j].mul(&row[j]);
            acc = acc.add(&p);
            assert(s[j as int] == state@[j as int].value() && mrow[j as int] == row@[j as int].value());
            j = j + 1;
        }
        result.push(acc);
        assert(mrow == constants.mds()[i as int]);
        i = i + 1;
    }
    assert(vals(result@) =~= mds_spec(*constants, s));
    *state = result;
}

/// Applies the Poseidon permutation to the state in place.
pub fn poseidon_permutation<F: FieldElement>(state: &mut Vec<F>, constants: &Constants<F>)
    requires
        constants.wf(),
        old(state)@.len() == constants.t,
    ensures
        final(state)@.len() == constants.t,
        vals(final(state)@) == permutation_spec(*constants, vals(old(state)@)),
{
    let ghost s0 = vals(state@);
    let n_constants: usize = constants.c.len();
    let rounds: u64 = constants.full_rounds as u64 + constants.partial_rounds as u64;
    proof {
        assert(rounds <= constants.t * rounds) by (nonlinear_arith)
            requires
                constants.t >= 1,
        ;
    }
    let n = rounds as usize;
    let mut i: usize = 0;
    while i < n
        invariant
            i <= n,
            n == constants.num_rounds(),
            constants.wf(),
            state@.len() == constants.t,
            vals(state@) == rounds_spec(*constants, s0, i as nat),
        decreases n - i,
    {
        proof {
            assert(constants.t * (i + 1) <= constants.t * n) by (nonlinear_arith)
                requires
                    i + 1 <= n,
            ;
        }
        ark(state, constants, i);
        sbox(state, constants, i);
        linear_layer(state, constants);
        i = i + 1;
    }
}

/// Every round keeps the state at the width of the parameter set.
pub proof fn lemma_rounds_len<F: FieldElement>(k: Constants<F>, s: Seq<int>, n: nat)
    requires
        s.len() == k.t,
    ensures
        rounds_spec(k, s, n).len() == k.t,
    decreases n,
{
    if n > 0 {
        lemma_rounds_len(k, s, (n - 1) as nat);
    }
}

/// The permutation maps a state of the parameter set's width to one of the
/// same width.
pub proof fn lemma_permutation_len<F: FieldElement>(k: Constants<F>, s: Seq<int>)
    requires
        s.len() == k.t,
    ensures
        permutation_spec(k, s).len() == k.t,
{
    lemma_rounds_len(k, s, k.num_rounds());
}

/// Over `n` rounds of width `t`, the round constant added to slot `j` in
/// round `i` lies below `t * n`, the indices strictly increase with
/// (round, slot) taken in order, and every index below `t * n` is reached:
/// the permutation uses each of its `t * n` constants exactly once, in
/// ascending order.
pub proof fn lemma_constants_used_once_in_order(t: int, n: int)
    requires
        t >= 1,
        n >= 0,
    ensures
        forall|i: int, j: int|
            0 <= i < n && 0 <= j < t ==> 0 <= #[trigger] constant_index(t, i, j) < t * n,
        forall|i1: int, j1: int, i2: int, j2: int|
            0 <= i1 < n && 0 <= j1 < t && 0 <= i2 < n && 0 <= j2 < t && (i1 < i2 || (i1 == i2
                && j1 < j2)) ==> #[trigger] constant_index(t, i1, j1) < #[trigger] constant_index(
                t,
                i2,
                j2,
            ),
        forall|x: int| 0 <= x < t * n ==> #[trigger] used_in_some_round(t, n, x),
{
    assert forall|i: int, j: int| 0 <= i < n && 0 <= j < t implies 0 <= #[trigger] constant_index(
        t,
        i,
        j,
    ) < t * n by {
        assert(0 <= t * i + j < t * n) by (nonlinear_arith)
            requires
                0 <= i < n,
                0 <= j < t,
        ;
    }
    assert forall|i1: int, j1: int, i2: int, j2: int|
        0 <= i1 < n && 0 <= j1 < t && 0 <= i2 < n && 0 <= j2 < t && (i1 < i2 || (i1 == i2 && j1
            < j2)) implies #[trigger] constant_index(t, i1, j1) < #[trigger] constant_index(
        t,
        i2,
        j2,
    ) by {
        if i1 < i2 {
            assert(t * i1 + j1 < t * i2 + j2) by (nonlinear_arith)
                requires
                    i1 + 1 <= i2,
                    0 <= j1 < t,
                    0 <= j2,
            ;
        }
    }
    assert forall|x: int| 0 <= x < t * n implies #[trigger] used_in_some_round(t, n, x) by {
        lemma_fundamental_div_mod(x, t);
        let i = x / t;
        let j = x % t;
        assert(0 <= i < n) by (nonlinear_arith)
            requires
                x == t * i + j,
                0 <= j < t,
                0 <= x < t * n,
        ;
        assert(constant_index(t, i, j) == x);
    }
}

/// In round zero the add-round-key step adds `c[j]` to slot `j`.
pub proof fn lemma_ark_first_round<F: FieldElement>(k: Constants<F>, s: Seq<int>)
    requires
        s.len() == k.t,
    ensures
        forall|j: int|
            0 <= j < k.t ==> #[trigger] ark_spec(k, s, 0)[j] == fadd(F::modulus(), 
                s[j],
                k.round_constants()[j],
            ),
{
}

/// With eight full and fifty-six partial rounds, rounds four up to sixty
/// raise only slot zero to `alpha`, and every other round raises every slot.
pub proof fn lemma_sbox_window<F: FieldElement>(k: Constants<F>, s: Seq<int>, i: int)
    requires
        k.full_rounds == 8,
        k.partial_rounds == 56,
        s.len() >= 1,
    ensures
        4 <= i < 60 ==> sbox_spec(k, s, i) == s.update(0, fpow(F::modulus(), s[0], k.alpha as nat)),
        !(4 <= i < 60) ==> sbox_spec(k, s, i) == s.map_values(|x: int| fpow(F::modulus(), x, k.alpha as nat)),
{
    if 4 <= i < 60 {
        assert(sbox_spec(k, s, i) =~= s.update(0, fpow(F::modulus(), s[0], k.alpha as nat)));
    } else {
        assert(sbox_spec(k, s, i) =~= s.map_values(|x: int| fpow(F::modulus(), x, k.alpha as nat)));
    }
}

} // verus!
