//! The sponge construction over the Poseidon permutation: padding,
//! absorbing, squeezing and the hash entry point.
use vstd::prelude::*;
use vstd::arithmetic::div_mod::{lemma_fundamental_div_mod, lemma_fundamental_div_mod_converse};
use crate::field::{FieldElement, fadd};
use crate::params::{Constants, HashError, vals};
use crate::permutation::{lemma_permutation_len, permutation_spec, poseidon_permutation};

verus! {

/// `n` zero elements.
pub open spec fn zeros(n: nat) -> Seq<int> {
    Seq::new(n, |i: int| 0)
}

/// How many zeros padding appends to an input of `len` elements.
pub open spec fn pad_len(len: nat, r: nat) -> nat {
    if r == 0 || len % r == 0 {
        0
    } else {
        (r - len % r) as nat
    }
}

/// The input followed by zeros up to the next multiple of `r`.
pub open spec fn pad_spec(input: Seq<int>, r: nat) -> Seq<int> {
    input + zeros(pad_len(input.len(), r))
}

/// Adds a block element-wise into the first `r` slots of the state.
pub open spec fn add_block_spec(p: int, s: Seq<int>, block: Seq<int>, r: nat) -> Seq<int> {
    Seq::new(s.len(), |j: int| if j < r { fadd(p, s[j], block[j]) } else { s[j] })
}

/// The state after absorbing the first `n` blocks of `padded`, starting
/// from the all-zero state.
pub open spec fn absorb_blocks<F: FieldElement>(k: Constants<F>, padded: Seq<int>, r: nat, n: nat) -> Seq<int>
    decreases n,
{
    if n == 0 {
        zeros(k.t as nat)
    } else {
        let prev = absorb_blocks(k, padded, r, (n - 1) as nat);
        permutation_spec(k, add_block_spec(F::modulus(), prev, padded.subrange((n - 1) * r, (n * r) as int), r))
    }
}

/// The state after absorbing the whole padded input.
pub open spec fn absorb_spec<F: FieldElement>(k: Constants<F>, input: Seq<int>, r: nat) -> Seq<int> {
    let padded = pad_spec(input, r);
    absorb_blocks(k, padded, r, padded.len() / r)
}

/// The elements squeezed out of state `s` while fewer than `need` more
/// are wanted: the first `r` slots, then the same of the permuted state.
pub open spec fn squeeze_blocks<F: FieldElement>(k: Constants<F>, s: Seq<int>, r: nat, need: int) -> Seq<int>
    decreases if need > 0 { need } else { 0 },
{
    if need <= 0 || r == 0 {
        Seq::empty()
    } else {
        s.take(r as int) + squeeze_blocks(k, permutation_spec(k, s), r, need - r)
    }
}

/// The state left behind by `squeeze_blocks`.
pub open spec fn squeeze_state<F: FieldElement>(k: Constants<F>, s: Seq<int>, r: nat, need: int) -> Seq<int>
    decreases if need > 0 { need } else { 0 },
{
    if need <= 0 || r == 0 {
        s
    } else {
        squeeze_state(k, permutation_spec(k, s), r, need - r)
    }
}

/// How many squeezed elements are kept: one when at most one is asked
/// for, else the largest multiple of the requested length.
pub open spec fn kept_len(len: nat, output_length: nat) -> nat {
    if output_length <= 1 {
        1
    } else {
        (len - len % output_length) as nat
    }
}

/// The output of squeezing `output_length` elements from state `s`.
pub open spec fn squeeze_spec<F: FieldElement>(k: Constants<F>, s: Seq<int>, output_length: nat, r: nat) -> Seq<int> {
    let out = squeeze_blocks(k, s, r, output_length as int);
    out.take(kept_len(out.len(), output_length) as int)
}

/// The Poseidon sponge hash of `input`.
pub open spec fn hash_spec<F: FieldElement>(k: Constants<F>, input: Seq<int>, output_length: nat, r: nat) -> Seq<int> {
    squeeze_spec(k, absorb_spec(k, input, r), output_length, r)
}

/// The padded length is the next multiple of `r`.
proof fn lemma_pad_len(len: nat, r: nat)
    requires
        r >= 1,
    ensures
        (len + pad_len(len, r)) % r == 0,
        (len + pad_len(len, r)) / r == if len % r == 0 { len / r } else { len / r + 1 },
{
    lemma_fundamental_div_mod(len as int, r as int);
    if len % r != 0 {
        assert(len + pad_len(len, r) == (len / r + 1) * r) by (nonlinear_arith)
            requires
                len == r * (len / r) + len % r,
                pad_len(len, r) == r - len % r,
        ;
        lemma_fundamental_div_mod_converse(
            (len + pad_len(len, r)) as int,
            r as int,
            len as int / r as int + 1,
            0,
        );
    }
}

/// Resets the state to `t` zero elements.
fn init_state<F: FieldElement>(state: &mut Vec<F>, t: usize)
    ensures
        final(state)@.len() == t,
        vals(final(state)@) == zeros(t as nat),
{
    state.clear();
    let mut i: usize = 0;
    while i < t
        invariant
            i <= t,
            state@.len() == i,
            forall|j: int| 0 <= j < i ==> #[trigger] state@[j].value() == 0,
        decreases t - i,
    {
        state.push(F::zero());
        i = i + 1;
    }
    assert(vals(state@) =~= zeros(t as nat));
}

/// The input followed by zero elements up to the next multiple of `r`;
/// an input whose length is already a multiple of `r` is returned as is.
pub fn pad<F: FieldElement>(input: &Vec<F>, r: usize) -> (out: Vec<F>)
    requires
        r >= 1,
    ensures
        vals(out@) == pad_spec(vals(input@), r as nat),
        out@.len() % (r as nat) == 0,
{
    let mut out: Vec<F> = Vec::new();
    let mut k: usize = 0;
    while k < input.len()
        invariant
            k <= input@.len(),
            out@.len() == k,
            forall|j: int| 0 <= j < k ==> #[trigger] out@[j] == input@[j],
        decreases input@.len() - k,
    {
        out.push(input[k]);
        k = k + 1;
    }
    let rem = input.len() % r;
    let extra: usize = if rem == 0 { 0 } else { r - rem };
    let mut i: usize = 0;
    while i < extra
        invariant
            i <= extra,
            extra == pad_len(input@.len(), r as nat),
            out@.len() == input@.len() + i,
            forall|j: int| 0 <= j < input@.len() ==> #[trigger] out@[j].value() == input@[j].value(),
            forall|j: int| input@.len() <= j < out@.len() ==> #[trigger] out@[j].value() == 0,
        decreases extra - i,
    {
        out.push(F::zero());
        i = i + 1;
    }
    assert(vals(out@) =~= pad_spec(vals(input@), r as nat));
    proof {
        lemma_pad_len(input@.len(), r as nat);
    }
    out
}

/// Adds `padded[start..start + r]` element-wise into the first `r` slots of
/// the state.
fn add_block<F: FieldElement>(padded: &Vec<F>, start: usize, state: &mut Vec<F>, r: usize)
    requires
        start + r <= padded@.len(),
        r <= old(state)@.len(),
    ensures
        final(state)@.len() == old(state)@.len(),
        vals(final(state)@) == add_block_spec(
            F::modulus(),
            vals(old(state)@),
            vals(padded@).subrange(start as int, start + r),
            r as nat,
        ),
{
    let ghost s0 = state@;
    let n_padded: usize = padded.len();
    let mut i: usize = 0;
    while i < r
        invariant
            i <= r,
            n_padded == padded@.len(),
            start + r <= padded@.len(),
            r <= s0.len(),
            state@.len() == s0.len(),
            forall|j: int| 0 <= j < i ==> #[trigger] state@[j].value() == fadd(F::modulus(), s0[j].value(), padded@[start + j].value()),
            forall|j: int| i <= j < s0.len() ==> #[trigger] state@[j] == s0[j],
        decreases r - i,
    {
        let x = state[i].add(&padded[start + i]);
        state.set(i, x);
        i = i + 1;
    }
    assert(vals(state@) =~= add_block_spec(
        F::modulus(),
        vals(s0),
        vals(padded@).subrange(start as int, start + r),
        r as nat,
    ));
}

/// Pads the input, then from the all-zero state adds each block of `r`
/// elements into the first `r` slots and permutes; returns the final state.
pub fn absorb<F: FieldElement>(input: &Vec<F>, constants: &Constants<F>, r: usize) -> (state: Vec<F>)
    requires
        constants.wf(),
        1 <= r <= constants.t,
    ensures
        state@.len() == constants.t,
        vals(state@) == absorb_spec(*constants, vals(input@), r as nat),
{
    let mut state: Vec<F> = Vec::new();
    let padded = pad(input, r);
    init_state(&mut state, constants.t);
    let ghost p = vals(padded@);
    let ghost nb: nat = p.len() / (r as nat);
    proof {
        lemma_fundamental_div_mod(p.len() as int, r as int);
        assert(p.len() == nb * r) by (nonlinear_arith)
            requires
                p.len() == r * nb + p.len() % (r as nat),
                p.len() % (r as nat) == 0,
        ;
    }
    let mut i: usize = 0;
    let ghost mut n: nat = 0;
    while i < padded.len()
        invariant
            constants.wf(),
            1 <= r <= constants.t,
            p == vals(padded@),
            p.len() == padded@.len(),
            p == pad_spec(vals(input@), r as nat),
            nb == p.len() / (r as nat),
            p.len() == nb * r,
            i == n * r,
            n <= nb,
            state@.len() == constants.t,
            vals(state@) == absorb_blocks(*constants, p, r as nat, n),
        decreases padded@.len() - i,
    {
        proof {
            assert(i + r <= padded@.len() && i + r == (n + 1) * r) by (nonlinear_arith)
                requires
                    i == n * r,
                    i < nb * r,
                    padded@.len() == nb * r,
                    r >= 1,
            ;
        }
        add_block(&padded, i, &mut state, r);
        poseidon_permutation(&mut state, constants);
        proof {
            n = n + 1;
        }
        i = i + r;
    }
    proof {
        assert(n == nb) by (nonlinear_arith)
            requires
                i == n * r,
                i >= nb * r,
                n <= nb,
                r >= 1,
        ;
    }
    state
}

/// Squeezes `output_length` elements out of the state: takes the first `r`
/// slots and permutes until at least that many were taken, then drops
/// trailing elements down to one element when at most one was asked for,
/// else down to a multiple of `output_length`.
pub fn squeeze<F: FieldElement>(
    state: &mut Vec<F>,
    constants: &Constants<F>,
    output_length: u32,
    r: usize,
) -> (output: Vec<F>)
    requires
        constants.wf(),
        1 <= r <= constants.t,
        old(state)@.len() == constants.t,
        output_length >= 1,
    ensures
        final(state)@.len() == constants.t,
        vals(final(state)@) == squeeze_state(
            *constants,
            vals(old(state)@),
            r as nat,
            output_length as int,
        ),
        vals(output@) == squeeze_spec(
            *constants,
            vals(old(state)@),
            output_length as nat,
            r as nat,
        ),
{
    let ghost s0 = vals(state@);
    let ghost need = output_length as int;
    let mut output: Vec<F> = Vec::new();
    assert(vals(output@) + squeeze_blocks(*constants, s0, r as nat, need) =~= squeeze_blocks(
        *constants,
        s0,
        r as nat,
        need,
    ));
    while (output.len() as u64) < output_length as u64
        invariant
            constants.wf(),
            1 <= r <= constants.t,
            need == output_length as int,
            state@.len() == constants.t,
            vals(output@) + squeeze_blocks(*constants, vals(state@), r as nat, need - output@.len())
                == squeeze_blocks(*constants, s0, r as nat, need),
            squeeze_state(*constants, vals(state@), r as nat, need - output@.len())
                == squeeze_state(*constants, s0, r as nat, need),
        decreases if output@.len() < output_length { output_length - output@.len() } else { 0 },
    {
        assert(output@.len() < need);
        let ghost before = vals(output@);
        let ghost st = vals(state@);
        let ghost rest = need - output@.len();
        let n0 = output.len();
        let mut j: usize = 0;
        while j < r
            invariant
                j <= r,
                r <= state@.len(),
                st == vals(state@),
                output@.len() == n0 + j,
                n0 == before.len(),
                forall|l: int| 0 <= l < n0 ==> #[trigger] output@[l].value() == before[l],
                forall|l: int| n0 <= l < n0 + j ==> #[trigger] output@[l].value() == st[l - n0],
            decreases r - j,
        {
            output.push(state[j]);
            j = j + 1;
        }
        assert(vals(output@) =~= before + st.take(r as int));
        poseidon_permutation(state, constants);
        let ghost tail = squeeze_blocks(*constants, vals(state@), r as nat, rest - r);
        assert(before + (st.take(r as int) + tail) =~= (before + st.take(r as int)) + tail);
        assert(output@.len() == n0 + r);
        assert(need - output@.len() == rest - r);
    }
    let ghost full = vals(output@);
    assert(full + squeeze_blocks(*constants, vals(state@), r as nat, need - output@.len()) =~= full);
    if output_length <= 1 {
        while output.len() > 1
            invariant
                1 <= output@.len() <= full.len(),
                vals(output@) == full.take(output@.len() as int),
            decreases output@.len(),
        {
            output.pop();
            assert(vals(output@) =~= full.take(output@.len() as int));
        }
        assert(vals(output@) =~= full.take(1));
    } else {
        let len: usize = output_length as usize;
        let ghost q = full.len() / (len as nat);
        let ghost target = kept_len(full.len(), len as nat);
        proof {
            lemma_fundamental_div_mod(full.len() as int, len as int);
            assert(target == q * len) by (nonlinear_arith)
                requires
                    full.len() == len * q + full.len() % (len as nat),
                    target == full.len() - full.len() % (len as nat),
            ;
        }
        assert(vals(output@) =~= full.take(output@.len() as int));
        while output.len() % len != 0
            invariant
                len >= 2,
                target == q * len,
                target <= output@.len() <= full.len(),
                output@.len() - target == output@.len() % (len as nat),
                vals(output@) == full.take(output@.len() as int),
            decreases output@.len(),
        {
            output.pop();
            assert(vals(output@) =~= full.take(output@.len() as int));
            proof {
                lemma_fundamental_div_mod_converse(
                    output@.len() as int,
                    len as int,
                    q as int,
                    output@.len() - target,
                );
            }
        }
    }
    output
}

/// The Poseidon sponge hash of `input`: absorbs it into the all-zero state
/// with rate `r`, then squeezes `output_length` elements. Rejects a
/// malformed parameter set, a rate outside `1..=t`, and a request for
/// zero elements, in that order of precedence.
pub fn hash<F: FieldElement>(
    input: &Vec<F>,
    constants: &Constants<F>,
    output_length: u32,
    r: usize,
) -> (res: Result<Vec<F>, HashError>)
    ensures
        !constants.wf() ==> res == Err::<Vec<F>, HashError>(HashError::MalformedParameters),
        constants.wf() && !(1 <= r <= constants.t) ==> res == Err::<Vec<F>, HashError>(
            HashError::InvalidRate,
        ),
        constants.wf() && 1 <= r <= constants.t && output_length == 0 ==> res == Err::<
            Vec<F>,
            HashError,
        >(HashError::InvalidOutputLength),
        res is Ok <==> constants.wf() && 1 <= r <= constants.t && output_length >= 1,
        res matches Ok(out) ==> vals(out@) == hash_spec(
            *constants,
            vals(input@),
            output_length as nat,
            r as nat,
        ),
{
    if !constants.is_valid() {
        return Err(HashError::MalformedParameters);
    }
    if r == 0 || r > constants.t {
        return Err(HashError::InvalidRate);
    }
    if output_length == 0 {
        return Err(HashError::InvalidOutputLength);
    }
    let mut state = absorb(input, constants, r);
    Ok(squeeze(&mut state, constants, output_length, r))
}

/// Padding appends nothing to an input whose length is a multiple of `r`,
/// and exactly `r - len % r` zeros to any other; the padded length is a
/// multiple of `r`.
pub proof fn lemma_padding(input: Seq<int>, r: nat)
    requires
        r >= 1,
    ensures
        input.len() % r == 0 ==> pad_spec(input, r) == input,
        input.len() % r != 0 ==> pad_spec(input, r) == input + zeros((r - input.len() % r) as nat),
        pad_spec(input, r).len() % r == 0,
{
    lemma_pad_len(input.len(), r);
    if input.len() % r == 0 {
        assert(pad_spec(input, r) =~= input);
    }
}

/// Hashing is a function of its arguments: equal arguments give equal
/// outputs.
pub proof fn lemma_hash_deterministic<F: FieldElement>(
    k1: Constants<F>,
    k2: Constants<F>,
    input1: Seq<int>,
    input2: Seq<int>,
    output_length: nat,
    r: nat,
)
    requires
        k1 == k2,
        input1 == input2,
    ensures
        hash_spec(k1, input1, output_length, r) == hash_spec(k2, input2, output_length, r),
{
}

/// Squeezing until `need` elements were taken takes a multiple of `r`
/// elements, at least `need` and fewer than `need + r`.
pub proof fn lemma_squeeze_blocks_len<F: FieldElement>(k: Constants<F>, s: Seq<int>, r: nat, need: int)
    requires
        1 <= r <= k.t,
        s.len() == k.t,
        need >= 1,
    ensures
        squeeze_blocks(k, s, r, need).len() % r == 0,
        need <= squeeze_blocks(k, s, r, need).len() < need + r,
    decreases need,
{
    lemma_permutation_len(k, s);
    let rest = squeeze_blocks(k, permutation_spec(k, s), r, need - r);
    let len = squeeze_blocks(k, s, r, need).len();
    assert(len == r + rest.len());
    if need - r <= 0 {
        lemma_fundamental_div_mod_converse(r as int, r as int, 1, 0);
    } else {
        lemma_squeeze_blocks_len(k, permutation_spec(k, s), r, need - r);
        lemma_fundamental_div_mod(rest.len() as int, r as int);
        let q = rest.len() as int / r as int;
        assert(len == (q + 1) * r) by (nonlinear_arith)
            requires
                rest.len() == r * q,
                len == r + rest.len(),
        ;
        lemma_fundamental_div_mod_converse(len as int, r as int, q + 1, 0);
    }
}

/// Asking for one element gives exactly one; asking for `L > 1` gives a
/// positive multiple of `L`: the largest one within what the squeeze loop
/// took.
pub proof fn lemma_output_length<F: FieldElement>(k: Constants<F>, s: Seq<int>, output_length: nat, r: nat)
    requires
        1 <= r <= k.t,
        s.len() == k.t,
        output_length >= 1,
    ensures
        output_length == 1 ==> squeeze_spec(k, s, output_length, r).len() == 1,
        output_length > 1 ==> ({
            let out = squeeze_spec(k, s, output_length, r);
            let taken = squeeze_blocks(k, s, r, output_length as int).len();
            &&& out.len() % output_length == 0
            &&& output_length <= out.len() <= taken
            &&& taken < out.len() + output_length
        }),
{
    lemma_squeeze_blocks_len(k, s, r, output_length as int);
    let taken = squeeze_blocks(k, s, r, output_length as int).len();
    if output_length > 1 {
        let l = output_length;
        lemma_fundamental_div_mod(taken as int, l as int);
        let q = taken as int / l as int;
        let kept = kept_len(taken, l);
        assert(kept == q * l && q >= 1) by (nonlinear_arith)
            requires
                taken == l * q + taken % l,
                0 <= taken % l < l,
                taken >= l,
                kept == taken - taken % l,
        ;
        lemma_fundamental_div_mod_converse(kept as int, l as int, q, 0);
        assert(kept >= l) by (nonlinear_arith)
            requires
                kept == q * l,
                q >= 1,
                l >= 1,
        ;
    }
}

} // verus!
