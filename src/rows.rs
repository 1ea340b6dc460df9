//! The row layout of recorded output: one row per body per snapshot, rows of
//! one snapshot contiguous and in the order of the body collection. This
//! module holds the integer and text columns (`time`, `name`) of that layout.
use vstd::prelude::*;

verus! {

/// The `time` column of one snapshot of `n` bodies: the step index, once per body.
pub open spec fn time_column_spec(time: u64, n: nat) -> Seq<u64> {
    Seq::new(n, |_i: int| time)
}

/// The `time` column of the snapshots taken at `times`, each of `width` bodies.
pub open spec fn times_of(times: Seq<u64>, width: nat) -> Seq<u64>
    decreases times.len(),
{
    if times.len() == 0 {
        Seq::empty()
    } else {
        times_of(times.drop_last(), width) + time_column_spec(times.last(), width)
    }
}

/// The `name` column of `count` snapshots of the bodies named `names`.
pub open spec fn names_of(names: Seq<Seq<char>>, count: nat) -> Seq<Seq<char>>
    decreases count,
{
    if count == 0 {
        Seq::empty()
    } else {
        names_of(names, (count - 1) as nat) + names
    }
}

/// Adding a snapshot to a log that holds the rows of earlier snapshots gives
/// the rows of all of them.
pub proof fn lemma_add_extends(times: Seq<u64>, names: Seq<Seq<char>>, time: u64)
    ensures
        times_of(times.push(time), names.len()) == times_of(times, names.len())
            + time_column_spec(time, names.len()),
        names_of(names, times.len() + 1) == names_of(names, times.len()) + names,
{
    assert(times.push(time).drop_last() =~= times);
}

/// Writing snapshots at step indices `times`, each of the bodies named
/// `names`, gives `times.len() * names.len()` rows. Row `k` belongs to
/// snapshot `k / names.len()` and to body `k % names.len()`, so rows come
/// grouped by snapshot, each group in the order of the bodies, and the `time`
/// column is non-decreasing when the snapshots were taken in that order.
pub proof fn lemma_round_trip(times: Seq<u64>, names: Seq<Seq<char>>)
    ensures
        times_of(times, names.len()).len() == times.len() * names.len(),
        names_of(names, times.len()).len() == times.len() * names.len(),
        forall|k: int|
            0 <= k < times.len() * names.len() ==> #[trigger] times_of(times, names.len())[k]
                == times[k / names.len() as int],
        forall|k: int|
            0 <= k < times.len() * names.len() ==> #[trigger] names_of(names, times.len())[k]
                == names[k % names.len() as int],
        (forall|i: int, j: int| 0 <= i <= j < times.len() ==> times[i] <= times[j]) ==> (forall|
            a: int,
            b: int,
        |
            0 <= a <= b < times.len() * names.len() ==> times_of(times, names.len())[a]
                <= times_of(times, names.len())[b]),
    decreases times.len(),
{
    let m = names.len() as int;
    let n = times.len() as int;
    if n == 0 {
        return;
    }
    let prev = times.drop_last();
    lemma_round_trip(prev, names);
    assert(names_of(names, times.len()) == names_of(names, prev.len()) + names);
    let tt = times_of(times, names.len());
    let nn = names_of(names, times.len());
    assert((n - 1) * m + m == n * m) by (nonlinear_arith);
    assert forall|k: int| 0 <= k < n * m implies tt[k] == times[k / m] && nn[k] == names[k % m] by {
        assert(m > 0) by (nonlinear_arith)
            requires
                0 <= k < n * m,
                m >= 0,
        ;
        vstd::arithmetic::div_mod::lemma_div_pos_is_pos(k, m);
        if k < (n - 1) * m {
            assert(tt[k] == times_of(prev, names.len())[k]);
            assert(k < m * (n - 1)) by (nonlinear_arith)
                requires
                    k < (n - 1) * m,
            ;
            vstd::arithmetic::div_mod::lemma_multiply_divide_lt(k, m, n - 1);
            assert(prev[k / m] == times[k / m]);
        } else {
            let j = k - (n - 1) * m;
            assert(k == (n - 1) * m + j);
            vstd::arithmetic::div_mod::lemma_fundamental_div_mod_converse(k, m, n - 1, j);
        }
    }
    if forall|i: int, j: int| 0 <= i <= j < times.len() ==> times[i] <= times[j] {
        assert forall|a: int, b: int| 0 <= a <= b < n * m implies tt[a] <= tt[b] by {
            assert(m > 0) by (nonlinear_arith)
                requires
                    0 <= b < n * m,
                    m >= 0,
            ;
            assert(b < m * n) by (nonlinear_arith)
                requires
                    b < n * m,
            ;
            vstd::arithmetic::div_mod::lemma_multiply_divide_lt(b, m, n);
            assert(tt[a] == times[a / m]);
            assert(tt[b] == times[b / m]);
            vstd::arithmetic::div_mod::lemma_div_is_ordered(a, b, m);
            vstd::arithmetic::div_mod::lemma_div_pos_is_pos(a, m);
        }
    }
}

/// Builds the `time` column of a snapshot of `n` bodies.
pub fn time_column(time: u64, n: usize) -> (r: Vec<u64>)
    ensures
        r@ == time_column_spec(time, n as nat),
{
    let mut r: Vec<u64> = Vec::new();
    let mut i: usize = 0;
    while i < n
        invariant
            i <= n,
            r@ == time_column_spec(time, i as nat),
        decreases n - i,
    {
        r.push(time);
        i = i + 1;
        assert(r@ =~= time_column_spec(time, i as nat));
    }
    r
}

/// The `time` and `name` columns of the snapshots recorded so far.
pub struct RowLog {
    times: Vec<u64>,
    names: Vec<String>,
}

/// The abstract content of a `RowLog`: its two columns, row by row.
pub struct RowLogView {
    pub times: Seq<u64>,
    pub names: Seq<Seq<char>>,
}

impl View for RowLog {
    type V = RowLogView;

    closed spec fn view(&self) -> RowLogView {
        RowLogView { times: self.times@, names: self.names@.map_values(|s: String| s@) }
    }
}

impl RowLog {
    /// A log with no rows.
    pub fn new() -> (r: RowLog)
        ensures
            r@.times == Seq::<u64>::empty(),
            r@.names == Seq::<Seq<char>>::empty(),
    {
        let r = RowLog { times: Vec::new(), names: Vec::new() };
        assert(r@.names =~= Seq::<Seq<char>>::empty());
        r
    }

    /// Appends the rows of one snapshot taken at step `time` of the bodies
    /// named `names`, in their order.
    pub fn add(&mut self, time: u64, names: &Vec<String>)
        ensures
            final(self)@.times == old(self)@.times + time_column_spec(time, names@.len()),
            final(self)@.names == old(self)@.names + names@.map_values(|s: String| s@),
    {
        let ghost old_names = self@.names;
        let col = time_column(time, names.len());
        let mut i: usize = 0;
        while i < names.len()
            invariant
                i <= names@.len(),
                col@ == time_column_spec(time, names@.len()),
                self.times@ == old(self)@.times + col@.take(i as int),
                self@.names == old_names + names@.map_values(|s: String| s@).take(i as int),
            decreases names@.len() - i,
        {
            self.times.push(col[i]);
            let name = names[i].clone();
            let ghost before = self.names@;
            self.names.push(name);
            assert(self.names@ == before.push(name));
            assert(self.names@.map_values(|s: String| s@) =~= before.map_values(|s: String| s@).push(
                name@,
            ));
            assert(names@.map_values(|s: String| s@).take(i + 1) =~= names@.map_values(
                |s: String| s@,
            ).take(i as int).push(name@));
            assert(col@.take(i + 1) =~= col@.take(i as int).push(col@[i as int]));
            assert(self.times@ =~= old(self)@.times + col@.take(i + 1));
            assert(self@.names =~= old_names + names@.map_values(|s: String| s@).take(i + 1));
            i = i + 1;
        }
        assert(col@.take(i as int) =~= col@);
        assert(names@.map_values(|s: String| s@).take(i as int) =~= names@.map_values(
            |s: String| s@,
        ));
    }

    /// Number of rows recorded.
    pub fn len(&self) -> (r: usize)
        ensures
            r == self@.times.len(),
    {
        self.times.len()
    }

    /// The `time` of row `k`.
    pub fn time_at(&self, k: usize) -> (r: u64)
        requires
            k < self@.times.len(),
        ensures
            r == self@.times[k as int],
    {
        self.times[k]
    }

    /// The `name` of row `k`.
    pub fn name_at(&self, k: usize) -> (r: String)
        requires
            k < self@.names.len(),
        ensures
            r@ == self@.names[k as int],
    {
        self.names[k].clone()
    }
}

} // verus!
