use vstd::prelude::*;

verus! {

/// How many indices below `len` are multiples of `step` (for `step > 0`):
/// the ceiling of `len / step`.
pub open spec fn sampled_len(len: nat, step: nat) -> nat
    recommends
        step > 0,
{
    ((len + step - 1) / (step as int)) as nat
}

/// The elements of `s` whose index is a multiple of `step`, in order.
pub open spec fn every_nth_samples<T>(s: Seq<T>, step: nat) -> Seq<T>
    recommends
        step > 0,
{
    Seq::new(sampled_len(s.len(), step), |k: int| s[k * step])
}

/// Going from `i` to `i + 1` indices adds one sample exactly when `i` is a
/// multiple of `step`, and that sample is the one at index `i`.
proof fn lemma_sampled_len_step(i: nat, step: nat)
    requires
        step > 0,
    ensures
        i % step == 0 ==> sampled_len(i + 1, step) == sampled_len(i, step) + 1
            && sampled_len(i, step) * step == i,
        i % step != 0 ==> sampled_len(i + 1, step) == sampled_len(i, step),
{
    let n = step as int;
    let q = (i as int) / n;
    let r = (i as int) % n;
    vstd::arithmetic::div_mod::lemma_fundamental_div_mod(i as int, n);
    assert(i as int == n * q + r);
    assert(q * n == n * q) by (nonlinear_arith);
    assert((q + 1) * n == q * n + n) by (nonlinear_arith);
    if r == 0 {
        vstd::arithmetic::div_mod::lemma_fundamental_div_mod_converse(i + n - 1, n, q, n - 1);
        vstd::arithmetic::div_mod::lemma_fundamental_div_mod_converse(i + n, n, q + 1, 0);
    } else {
        vstd::arithmetic::div_mod::lemma_fundamental_div_mod_converse(i + n - 1, n, q + 1, r - 1);
        vstd::arithmetic::div_mod::lemma_fundamental_div_mod_converse(i + n, n, q + 1, r);
    }
}

/// Keeps every `every_nth`-th element of `vec` (indices 0, n, 2n, ...), in order.
/// A step of zero has no meaning (it would be a division by zero), so it is excluded.
pub fn simplify_trajectory<T: Copy>(vec: &[T], every_nth: usize) -> (out: Vec<T>)
    requires
        every_nth > 0,
    ensures
        out@ == every_nth_samples(vec@, every_nth as nat),
        out@.len() == sampled_len(vec@.len(), every_nth as nat),
{
    let len = vec.len();
    let mut out: Vec<T> = Vec::new();
    let mut i: usize = 0;
    proof {
        vstd::arithmetic::div_mod::lemma_fundamental_div_mod_converse(
            every_nth - 1,
            every_nth as int,
            0,
            every_nth - 1,
        );
        assert(every_nth_samples(vec@.take(0), every_nth as nat) =~= out@);
    }
    while i < len
        invariant
            every_nth > 0,
            len == vec@.len(),
            i <= len,
            out@ == every_nth_samples(vec@.take(i as int), every_nth as nat),
        decreases len - i,
    {
        proof {
            lemma_sampled_len_step(i as nat, every_nth as nat);
        }
        let ghost before = out@;
        if i % every_nth == 0 {
            out.push(vec[i]);
        }
        assert(out@ =~= every_nth_samples(vec@.take(i + 1), every_nth as nat)) by {
            let after = every_nth_samples(vec@.take(i + 1), every_nth as nat);
            assert forall|k: int| 0 <= k < before.len() implies after[k] == before[k] by {
                assert(k * every_nth < i) by (nonlinear_arith)
                    requires
                        0 <= k < before.len(),
                        before.len() == sampled_len(i as nat, every_nth as nat),
                        every_nth > 0,
                        sampled_len(i as nat, every_nth as nat) == ((i + every_nth - 1) / (every_nth as int)),
                {
                    assert(k + 1 <= (i + every_nth - 1) / (every_nth as int));
                    vstd::arithmetic::div_mod::lemma_fundamental_div_mod(i + every_nth - 1, every_nth as int);
                };
            }
        }
        i = i + 1;
    }
    assert(vec@.take(len as int) =~= vec@);
    out
}

/// Decimation keeps exactly the elements whose index is a multiple of the step:
/// the element at such an index `i` is sample number `i / step`, and every sample
/// comes from an index that is a multiple of the step and lies inside the input.
pub proof fn lemma_simplify_keeps_multiples<T>(s: Seq<T>, step: nat, i: int, k: int)
    requires
        step > 0,
    ensures
        0 <= i < s.len() && i % (step as int) == 0 ==> i / (step as int) < every_nth_samples(s, step).len()
            && every_nth_samples(s, step)[i / (step as int)] == s[i],
        0 <= k < every_nth_samples(s, step).len() ==> 0 <= k * step < s.len()
            && every_nth_samples(s, step)[k] == s[k * step],
{
    let n = step as int;
    let len = s.len() as int;
    vstd::arithmetic::div_mod::lemma_fundamental_div_mod(len + n - 1, n);
    if 0 <= i < len && i % n == 0 {
        let q = i / n;
        vstd::arithmetic::div_mod::lemma_fundamental_div_mod(i, n);
        assert(q * n == i) by (nonlinear_arith)
            requires
                i == n * q + i % n,
                i % n == 0,
        ;
        assert(q < (len + n - 1) / n) by (nonlinear_arith)
            requires
                n > 0,
                q * n == i,
                i < len,
                len + n - 1 == n * ((len + n - 1) / n) + (len + n - 1) % n,
                (len + n - 1) % n < n,
        ;
    }
    if 0 <= k < every_nth_samples(s, step).len() {
        assert(0 <= k * n < len) by (nonlinear_arith)
            requires
                n > 0,
                0 <= k < (len + n - 1) / n,
                len + n - 1 == n * ((len + n - 1) / n) + (len + n - 1) % n,
                0 <= (len + n - 1) % n,
        ;
    }
}

/// With a step of one, decimation keeps the whole trajectory.
pub proof fn lemma_simplify_step_one<T>(s: Seq<T>)
    ensures
        every_nth_samples(s, 1) == s,
{
    assert(sampled_len(s.len(), 1) == s.len());
    assert(every_nth_samples(s, 1) =~= s);
}

} // verus!
