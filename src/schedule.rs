//! Integer arithmetic of the recording cadence: which step indices are
//! recording boundaries and how many snapshots a run of `steps` steps emits.
use vstd::prelude::*;

verus! {

/// A snapshot is taken before integrating each step whose index is a
/// multiple of `record_steps`.
pub open spec fn is_boundary(step: int, record_steps: int) -> bool {
    step % record_steps == 0
}

/// Number of recording boundaries in `[0, steps)`, that is `ceil(steps / record_steps)`.
pub open spec fn snapshot_count_spec(steps: int, record_steps: int) -> int {
    (steps + record_steps - 1) / record_steps
}

/// The step indices of the snapshots of a run, in increasing order.
pub open spec fn recorded_steps_spec(steps: int, record_steps: int) -> Seq<int> {
    Seq::new(snapshot_count_spec(steps, record_steps) as nat, |k: int| k * record_steps)
}

/// The `k`-th boundary lies inside the run exactly when `k` is below the snapshot count.
pub proof fn lemma_boundary_in_run(steps: int, record_steps: int, k: int)
    requires
        steps >= 0,
        record_steps > 0,
        k >= 0,
    ensures
        k * record_steps < steps <==> k < snapshot_count_spec(steps, record_steps),
{
    let c = snapshot_count_spec(steps, record_steps);
    let n = steps + record_steps - 1;
    vstd::arithmetic::div_mod::lemma_fundamental_div_mod(n, record_steps);
    let m = n % record_steps;
    assert(0 <= m < record_steps) by {
        vstd::arithmetic::div_mod::lemma_mod_bound(n, record_steps);
    }
    assert(n == record_steps * c + m);
    if k < c {
        assert(k * record_steps <= (c - 1) * record_steps) by (nonlinear_arith)
            requires
                k < c,
                record_steps > 0,
        ;
        assert((c - 1) * record_steps == record_steps * c - record_steps) by (nonlinear_arith);
    } else {
        assert(k * record_steps >= c * record_steps) by (nonlinear_arith)
            requires
                k >= c,
                record_steps > 0,
        ;
        assert(c * record_steps == record_steps * c) by (nonlinear_arith);
    }
}

/// Every step index of the run that is a boundary is among the recorded steps,
/// and every recorded step is a boundary inside the run.
pub proof fn lemma_recorded_steps_are_boundaries(steps: int, record_steps: int)
    requires
        steps >= 0,
        record_steps > 0,
    ensures
        forall|s: int|
            0 <= s < steps && is_boundary(s, record_steps) ==> recorded_steps_spec(
                steps,
                record_steps,
            ).contains(s),
        forall|k: int|
            0 <= k < recorded_steps_spec(steps, record_steps).len() ==> {
                let s = #[trigger] recorded_steps_spec(steps, record_steps)[k];
                0 <= s < steps && is_boundary(s, record_steps)
            },
{
    let r = recorded_steps_spec(steps, record_steps);
    assert forall|s: int| 0 <= s < steps && is_boundary(s, record_steps) implies r.contains(s) by {
        let k = s / record_steps;
        vstd::arithmetic::div_mod::lemma_fundamental_div_mod(s, record_steps);
        assert(s == k * record_steps) by (nonlinear_arith)
            requires
                s == record_steps * k + s % record_steps,
                s % record_steps == 0,
        ;
        vstd::arithmetic::div_mod::lemma_div_pos_is_pos(s, record_steps);
        lemma_boundary_in_run(steps, record_steps, k);
        assert(r[k] == s);
    }
    assert forall|k: int| 0 <= k < r.len() implies {
        let s = #[trigger] r[k];
        0 <= s < steps && is_boundary(s, record_steps)
    } by {
        lemma_boundary_in_run(steps, record_steps, k);
        assert(k * record_steps >= 0) by (nonlinear_arith)
            requires
                k >= 0,
                record_steps > 0,
        ;
        vstd::arithmetic::div_mod::lemma_mod_multiples_basic(k, record_steps);
    }
}

/// Whether a snapshot is taken before integrating step `step`.
pub fn is_recording_step(step: u64, record_steps: u64) -> (r: bool)
    requires
        record_steps > 0,
    ensures
        r == is_boundary(step as int, record_steps as int),
{
    step % record_steps == 0
}

/// Number of snapshots that a run of `steps` steps emits, `ceil(steps / record_steps)`.
pub fn snapshot_count(steps: u64, record_steps: u64) -> (r: u64)
    requires
        record_steps > 0,
    ensures
        r == snapshot_count_spec(steps as int, record_steps as int),
{
    let q = steps / record_steps;
    let m = steps % record_steps;
    proof {
        let s = steps as int;
        let rs = record_steps as int;
        vstd::arithmetic::div_mod::lemma_fundamental_div_mod(s, rs);
        let n = s + rs - 1;
        if m == 0 {
            assert(n == q * rs + (rs - 1)) by (nonlinear_arith)
                requires
                    s == rs * q + m,
                    m == 0,
                    n == s + rs - 1,
            ;
            vstd::arithmetic::div_mod::lemma_fundamental_div_mod_converse(n, rs, q as int, rs - 1);
        } else {
            assert(n == (q + 1) * rs + (m - 1)) by (nonlinear_arith)
                requires
                    s == rs * q + m,
                    n == s + rs - 1,
            ;
            vstd::arithmetic::div_mod::lemma_fundamental_div_mod_converse(n, rs, q + 1, m - 1);
        }
        if m != 0 {
            assert(q * 2 <= s) by (nonlinear_arith)
                requires
                    s == rs * q + m,
                    0 < m < rs,
                    q >= 0,
            ;
        }
    }
    if m == 0 {
        q
    } else {
        q + 1
    }
}

/// The step indices at which snapshots are taken, in increasing order.
pub fn recorded_steps(steps: u64, record_steps: u64) -> (r: Vec<u64>)
    requires
        record_steps > 0,
    ensures
        r@.len() == snapshot_count_spec(steps as int, record_steps as int),
        forall|k: int| 0 <= k < r@.len() ==> r@[k] == recorded_steps_spec(steps as int, record_steps as int)[k],
{
    let count = snapshot_count(steps, record_steps);
    let mut r: Vec<u64> = Vec::new();
    let mut k: u64 = 0;
    while k < count
        invariant
            record_steps > 0,
            count == snapshot_count_spec(steps as int, record_steps as int),
            k <= count,
            r@.len() == k,
            forall|j: int| 0 <= j < k ==> r@[j] == j * record_steps,
        decreases count - k,
    {
        proof {
            lemma_boundary_in_run(steps as int, record_steps as int, k as int);
        }
        r.push(k * record_steps);
        k = k + 1;
    }
    r
}

/// One-based number of the recording interval that step `step` belongs to.
pub fn interval_number(step: u64, record_steps: u64) -> (r: u64)
    requires
        record_steps > 0,
        step as int / record_steps as int + 1 <= u64::MAX,
    ensures
        r == step as int / record_steps as int + 1,
{
    step / record_steps + 1
}

} // verus!
