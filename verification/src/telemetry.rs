//! Control-loop latency statistics: average and rank (percentile) of a set of
//! latency samples.
use vstd::prelude::*;

verus! {

/// Nanoseconds in one second.
pub const NANOS_PER_SEC: u128 = 1_000_000_000;

/// A span of time with nanosecond resolution, as long as the standard
/// library's: whole seconds fit in a `u64`.
#[derive(Debug, Clone, Copy)]
pub struct Duration {
    nanos: u128,
}

impl View for Duration {
    type V = nat;

    /// The length of the span in nanoseconds.
    closed spec fn view(&self) -> nat {
        self.nanos as nat
    }
}

/// Largest number of nanoseconds a `Duration` holds: whole seconds up to
/// `u64::MAX`, plus less than one second.
pub open spec fn max_duration_nanos() -> nat {
    18_446_744_073_709_551_615_999_999_999nat
}

impl Duration {
    #[verifier::type_invariant]
    closed spec fn fits(self) -> bool {
        self.nanos as nat <= max_duration_nanos()
    }

    /// The empty span.
    pub fn zero() -> (d: Self)
        ensures
            d@ == 0,
    {
        Duration { nanos: 0 }
    }

    /// A span of `nanos` nanoseconds.
    pub fn from_nanos(nanos: u64) -> (d: Self)
        ensures
            d@ == nanos,
    {
        Duration { nanos: nanos as u128 }
    }

    /// A span of `secs` seconds and `subsec_nanos` nanoseconds.
    pub fn new(secs: u64, subsec_nanos: u32) -> (d: Self)
        requires
            subsec_nanos < NANOS_PER_SEC,
        ensures
            d@ == secs * NANOS_PER_SEC + subsec_nanos,
    {
        assert(secs * 1_000_000_000 <= 0xffff_ffff_ffff_ffff * 1_000_000_000) by (nonlinear_arith)
            requires
                secs <= 0xffff_ffff_ffff_ffffu64,
        ;
        Duration { nanos: secs as u128 * NANOS_PER_SEC + subsec_nanos as u128 }
    }

    /// The span in nanoseconds.
    pub fn as_nanos(&self) -> (n: u128)
        ensures
            n == self@,
    {
        self.nanos
    }

    /// The whole seconds of the span.
    pub fn as_secs(&self) -> (s: u64)
        ensures
            s == self@ / 1_000_000_000,
    {
        proof {
            use_type_invariant(self);
        }
        assert(self.nanos / 1_000_000_000 <= 0xffff_ffff_ffff_ffff) by (nonlinear_arith)
            requires
                self.nanos <= 18_446_744_073_709_551_615_999_999_999u128,
        ;
        (self.nanos / NANOS_PER_SEC) as u64
    }

    /// The nanoseconds of the span beyond its whole seconds.
    pub fn subsec_nanos(&self) -> (n: u32)
        ensures
            n == self@ % 1_000_000_000,
            n < 1_000_000_000,
    {
        (self.nanos % NANOS_PER_SEC) as u32
    }
}

/// The total length, in nanoseconds, of the spans in `s`.
pub open spec fn sum_nanos(s: Seq<Duration>) -> nat
    decreases s.len(),
{
    if s.len() == 0 {
        0
    } else {
        sum_nanos(s.drop_last()) + s.last()@
    }
}

/// The mean of the samples in nanoseconds, rounded down.
pub open spec fn mean_nanos(s: Seq<Duration>) -> nat
    recommends
        s.len() > 0,
{
    sum_nanos(s) / s.len()
}

/// The average of the samples: zero for no samples; otherwise the mean rounded
/// down to whole nanoseconds and, like the conversion it goes through, reduced
/// modulo 2^64 nanoseconds.
pub fn average_duration(samples: &[Duration]) -> (avg: Duration)
    requires
        sum_nanos(samples@) <= u128::MAX,
    ensures
        samples@.len() == 0 ==> avg@ == 0,
        samples@.len() > 0 ==> avg@ == mean_nanos(samples@) % 0x1_0000_0000_0000_0000,
        samples@.len() > 0 ==> avg@ == (sum_nanos(samples@) / samples@.len())
            % 0x1_0000_0000_0000_0000,
{
    if samples.len() == 0 {
        return Duration::zero();
    }
    let n = samples.len();
    let mut total: u128 = 0;
    let mut i: usize = 0;
    while i < n
        invariant
            n == samples@.len(),
            0 <= i <= n,
            total == sum_nanos(samples@.take(i as int)),
            sum_nanos(samples@) <= u128::MAX,
        decreases n - i,
    {
        proof {
            assert(samples@.take(i + 1).drop_last() =~= samples@.take(i as int));
            lemma_sum_prefix_bounded(samples@, i + 1);
        }
        total = total + samples[i].as_nanos();
        i = i + 1;
    }
    assert(samples@.take(n as int) =~= samples@);
    let mean = total / (n as u128);
    let truncated = mean as u64;
    assert(truncated == mean % 0x1_0000_0000_0000_0000) by (bit_vector)
        requires
            truncated == mean as u64,
    ;
    Duration::from_nanos(truncated)
}

/// The sum over a prefix is at most the sum over the whole sequence.
proof fn lemma_sum_prefix_bounded(s: Seq<Duration>, k: int)
    requires
        0 <= k <= s.len(),
    ensures
        sum_nanos(s.take(k)) <= sum_nanos(s),
    decreases s.len(),
{
    if k < s.len() {
        assert(s.drop_last().take(k) =~= s.take(k));
        lemma_sum_prefix_bounded(s.drop_last(), k);
    } else {
        assert(s.take(k) =~= s);
    }
}

/// How many samples are strictly shorter than `x` nanoseconds.
pub open spec fn count_below(s: Seq<Duration>, x: nat) -> nat
    decreases s.len(),
{
    if s.len() == 0 {
        0
    } else {
        count_below(s.drop_last(), x) + if s.last()@ < x { 1nat } else { 0nat }
    }
}

/// How many samples are at most `x` nanoseconds long.
pub open spec fn count_at_most(s: Seq<Duration>, x: nat) -> nat
    decreases s.len(),
{
    if s.len() == 0 {
        0
    } else {
        count_at_most(s.drop_last(), x) + if s.last()@ <= x { 1nat } else { 0nat }
    }
}

/// `x` is the value at position `k` (from 0) of the samples sorted in
/// ascending order: it is one of the samples, at most `k` samples are shorter,
/// and more than `k` are at most as long.
pub open spec fn is_ranked_value(s: Seq<Duration>, k: int, x: nat) -> bool {
    &&& exists|i: int| 0 <= i < s.len() && s[i]@ == x
    &&& count_below(s, x) <= k
    &&& k < count_at_most(s, x)
}

/// The position that a rank falls on: ranks past the last sample fall on it.
pub open spec fn clamped_rank(len: nat, rank: int) -> int {
    if rank < len { rank } else { len - 1 }
}

/// The sample at position `rank` of the samples sorted in ascending order, or
/// the last (largest) one when `rank` is past the end; zero for no samples.
pub fn duration_at_rank(samples: &[Duration], rank: usize) -> (d: Duration)
    ensures
        samples@.len() == 0 ==> d@ == 0,
        samples@.len() > 0 ==> is_ranked_value(
            samples@,
            clamped_rank(samples@.len(), rank as int),
            d@,
        ),
        rank < samples@.len() ==> is_ranked_value(samples@, rank as int, d@),
        samples@.len() > 0 && rank >= samples@.len() ==> is_ranked_value(
            samples@,
            samples@.len() - 1,
            d@,
        ),
{
    let n = samples.len();
    if n == 0 {
        return Duration::zero();
    }
    let k: usize = if rank < n { rank } else { n - 1 };
    let ghost s = samples@;
    // Start from the shortest sample: no sample is below it.
    let mut ci: usize = index_of_min(samples);
    proof {
        lemma_count_below_min(s, s[ci as int]@);
    }
    loop
        invariant
            n == s.len(),
            s == samples@,
            k < n,
            k as int == clamped_rank(n as nat, rank as int),
            ci < n,
            count_below(s, s[ci as int]@) <= k,
        decreases n - count_below(s, s[ci as int]@),
    {
        let c = samples[ci].as_nanos();
        let at_most = count_at_most_exec(samples, c);
        if k < at_most {
            return samples[ci];
        }
        // Every sample up to `c` lies below position `k`: step to the next
        // larger value, which sits right after them.
        proof {
            lemma_count_at_most_all(s, c as nat);
            lemma_count_below_lt_at_most(s, ci as int);
        }
        let next = index_of_next_above(samples, c);
        proof {
            lemma_count_below_after_gap(s, c as nat, s[next as int]@);
        }
        ci = next;
    }
}

/// Index of a shortest sample.
fn index_of_min(samples: &[Duration]) -> (i: usize)
    requires
        samples@.len() > 0,
    ensures
        i < samples@.len(),
        forall|j: int| 0 <= j < samples@.len() ==> samples@[i as int]@ <= #[trigger] samples@[j]@,
{
    let mut best: usize = 0;
    let mut j: usize = 1;
    while j < samples.len()
        invariant
            1 <= j <= samples@.len(),
            best < j,
            forall|t: int| 0 <= t < j ==> samples@[best as int]@ <= #[trigger] samples@[t]@,
        decreases samples@.len() - j,
    {
        if samples[j].as_nanos() < samples[best].as_nanos() {
            best = j;
        }
        j = j + 1;
    }
    best
}

/// Index of a shortest sample among those longer than `c` nanoseconds.
fn index_of_next_above(samples: &[Duration], c: u128) -> (i: usize)
    requires
        exists|j: int| 0 <= j < samples@.len() && samples@[j]@ > c,
    ensures
        i < samples@.len(),
        samples@[i as int]@ > c,
        forall|j: int|
            0 <= j < samples@.len() && #[trigger] samples@[j]@ > c ==> samples@[i as int]@
                <= samples@[j]@,
{
    let mut found: Option<usize> = None;
    let mut j: usize = 0;
    while j < samples.len()
        invariant
            0 <= j <= samples@.len(),
            match found {
                Some(b) => b < j && samples@[b as int]@ > c && forall|t: int|
                    0 <= t < j && #[trigger] samples@[t]@ > c ==> samples@[b as int]@
                        <= samples@[t]@,
                None => forall|t: int| 0 <= t < j ==> #[trigger] samples@[t]@ <= c,
            },
        decreases samples@.len() - j,
    {
        let v = samples[j].as_nanos();
        if v > c {
            match found {
                Some(b) => {
                    if v < samples[b].as_nanos() {
                        found = Some(j);
                    }
                },
                None => {
                    found = Some(j);
                },
            }
        }
        j = j + 1;
    }
    match found {
        Some(b) => b,
        None => {
            proof {
                let w = choose|w: int| 0 <= w < samples@.len() && samples@[w]@ > c;
                assert(samples@[w]@ <= c);
            }
            0
        },
    }
}

/// How many samples are at most `x` nanoseconds long.
fn count_at_most_exec(samples: &[Duration], x: u128) -> (count: usize)
    ensures
        count == count_at_most(samples@, x as nat),
{
    let mut count: usize = 0;
    let mut i: usize = 0;
    while i < samples.len()
        invariant
            0 <= i <= samples@.len(),
            count == count_at_most(samples@.take(i as int), x as nat),
            count <= i,
        decreases samples@.len() - i,
    {
        assert(samples@.take(i + 1).drop_last() =~= samples@.take(i as int));
        if samples[i].as_nanos() <= x {
            count = count + 1;
        }
        i = i + 1;
    }
    assert(samples@.take(samples@.len() as int) =~= samples@);
    count
}

/// No sample lies below a value that no sample undercuts.
proof fn lemma_count_below_min(s: Seq<Duration>, m: nat)
    requires
        forall|j: int| 0 <= j < s.len() ==> m <= #[trigger] s[j]@,
    ensures
        count_below(s, m) == 0,
    decreases s.len(),
{
    if s.len() > 0 {
        assert(m <= s[s.len() - 1]@);
        lemma_count_below_min(s.drop_last(), m);
    }
}

/// When every sample is at most `x`, all of them are counted.
proof fn lemma_count_at_most_all(s: Seq<Duration>, x: nat)
    ensures
        count_at_most(s, x) <= s.len(),
        (forall|j: int| 0 <= j < s.len() ==> #[trigger] s[j]@ <= x) ==> count_at_most(s, x)
            == s.len(),
    decreases s.len(),
{
    if s.len() > 0 {
        lemma_count_at_most_all(s.drop_last(), x);
        if forall|j: int| 0 <= j < s.len() ==> #[trigger] s[j]@ <= x {
            assert forall|j: int| 0 <= j < s.drop_last().len() implies #[trigger] s.drop_last()[j]@
                <= x by {
                assert(s.drop_last()[j] == s[j]);
            }
            assert(s[s.len() - 1]@ <= x);
        }
    }
}

/// Samples below a sample's value are strictly fewer than those at most it.
proof fn lemma_count_below_lt_at_most(s: Seq<Duration>, i: int)
    requires
        0 <= i < s.len(),
    ensures
        count_below(s, s[i]@) < count_at_most(s, s[i]@),
    decreases s.len(),
{
    lemma_count_below_le_at_most(s.drop_last(), s[i]@);
    if i < s.len() - 1 {
        assert(s.drop_last()[i] == s[i]);
        lemma_count_below_lt_at_most(s.drop_last(), i);
    }
}

/// Samples below `x` are never more than those at most `x`.
proof fn lemma_count_below_le_at_most(s: Seq<Duration>, x: nat)
    ensures
        count_below(s, x) <= count_at_most(s, x),
    decreases s.len(),
{
    if s.len() > 0 {
        lemma_count_below_le_at_most(s.drop_last(), x);
    }
}

/// When no sample lies strictly between `c` and `d`, the samples below `d`
/// are exactly those at most `c`.
proof fn lemma_count_below_after_gap(s: Seq<Duration>, c: nat, d: nat)
    requires
        c < d,
        forall|j: int| 0 <= j < s.len() && #[trigger] s[j]@ > c ==> d <= s[j]@,
    ensures
        count_below(s, d) == count_at_most(s, c),
    decreases s.len(),
{
    if s.len() > 0 {
        assert forall|j: int| 0 <= j < s.drop_last().len() && #[trigger] s.drop_last()[j]@ > c implies d
            <= s.drop_last()[j]@ by {
            assert(s.drop_last()[j] == s[j]);
        }
        lemma_count_below_after_gap(s.drop_last(), c, d);
        let l = s[s.len() - 1]@;
        assert(l > c ==> d <= l);
    }
}

/// Samples at most `x` are among those below any longer `y`.
proof fn lemma_count_at_most_le_below(s: Seq<Duration>, x: nat, y: nat)
    requires
        x < y,
    ensures
        count_at_most(s, x) <= count_below(s, y),
    decreases s.len(),
{
    if s.len() > 0 {
        lemma_count_at_most_le_below(s.drop_last(), x, y);
    }
}

/// Ranked values grow with the rank: the value at a lower position of the
/// sorted samples is never longer than the value at a higher one (so the 95th
/// percentile never exceeds the 99th).
pub proof fn lemma_ranked_value_monotone(s: Seq<Duration>, k1: int, x1: nat, k2: int, x2: nat)
    requires
        k1 <= k2,
        is_ranked_value(s, k1, x1),
        is_ranked_value(s, k2, x2),
    ensures
        x1 <= x2,
{
    if x2 < x1 {
        lemma_count_at_most_le_below(s, x2, x1);
    }
}

/// A position of the sorted samples holds exactly one value.
pub proof fn lemma_ranked_value_unique(s: Seq<Duration>, k: int, x: nat, y: nat)
    requires
        is_ranked_value(s, k, x),
        is_ranked_value(s, k, y),
    ensures
        x == y,
{
    lemma_ranked_value_monotone(s, k, x, k, y);
    lemma_ranked_value_monotone(s, k, y, k, x);
}

/// The total of samples that are all at most `b` is at most `len * b`, and
/// of samples that are all at least `b` at least `len * b`.
proof fn lemma_sum_bounds(s: Seq<Duration>, b: nat)
    ensures
        (forall|j: int| 0 <= j < s.len() ==> #[trigger] s[j]@ <= b) ==> sum_nanos(s) <= s.len() * b,
        (forall|j: int| 0 <= j < s.len() ==> #[trigger] s[j]@ >= b) ==> sum_nanos(s) >= s.len() * b,
    decreases s.len(),
{
    if s.len() > 0 {
        lemma_sum_bounds(s.drop_last(), b);
        let l = s[s.len() - 1]@;
        assert(s.len() * b == (s.len() - 1) * b + b) by (nonlinear_arith);
        assert forall|j: int| 0 <= j < s.drop_last().len() implies #[trigger] s.drop_last()[j] == s[j] by {}
    }
}

/// The mean lies within every bound that all samples respect: it is at most
/// the longest sample and at least the shortest.
pub proof fn lemma_mean_within_bounds(s: Seq<Duration>, lo: nat, hi: nat)
    requires
        s.len() > 0,
        forall|j: int| 0 <= j < s.len() ==> lo <= #[trigger] s[j]@ <= hi,
    ensures
        lo <= mean_nanos(s) <= hi,
{
    lemma_sum_bounds(s, lo);
    lemma_sum_bounds(s, hi);
    let n = s.len() as int;
    let t = sum_nanos(s) as int;
    assert(t / n <= hi) by {
        vstd::arithmetic::div_mod::lemma_div_is_ordered(t, n * hi, n);
        vstd::arithmetic::div_mod::lemma_div_by_multiple(hi as int, n);
        assert(n * hi == hi * n) by (nonlinear_arith);
    }
    assert(t / n >= lo) by {
        vstd::arithmetic::div_mod::lemma_div_is_ordered(n * lo, t, n);
        vstd::arithmetic::div_mod::lemma_div_by_multiple(lo as int, n);
        assert(n * lo == lo * n) by (nonlinear_arith);
    }
}

/// Removing one sample removes its contribution to both counts.
proof fn lemma_counts_remove(s: Seq<Duration>, j: int, x: nat)
    requires
        0 <= j < s.len(),
    ensures
        count_below(s, x) == count_below(s.remove(j), x) + if s[j]@ < x { 1nat } else { 0nat },
        count_at_most(s, x) == count_at_most(s.remove(j), x) + if s[j]@ <= x { 1nat } else { 0nat },
    decreases s.len(),
{
    if j == s.len() - 1 {
        assert(s.remove(j) =~= s.drop_last());
    } else {
        let r = s.remove(j);
        assert(r.drop_last() =~= s.drop_last().remove(j));
        assert(r.last() == s.last());
        assert(s.drop_last()[j] == s[j]);
        lemma_counts_remove(s.drop_last(), j, x);
    }
}

/// Samples holding the same values in any order give the same counts.
proof fn lemma_counts_permutation(s1: Seq<Duration>, s2: Seq<Duration>, x: nat)
    requires
        s1.to_multiset() =~= s2.to_multiset(),
    ensures
        count_below(s1, x) == count_below(s2, x),
        count_at_most(s1, x) == count_at_most(s2, x),
    decreases s1.len(),
{
    broadcast use vstd::seq_lib::group_to_multiset_ensures;

    if s1.len() == 0 {
        assert(s1.to_multiset().len() == 0);
        assert(s2.to_multiset().len() == 0);
    } else {
        let a = s1.last();
        let rest = s1.drop_last();
        assert(rest.push(a) =~= s1);
        assert(s1.to_multiset().count(a) > 0);
        assert(s2.contains(a));
        let j = choose|j: int| 0 <= j < s2.len() && s2[j] == a;
        assert(s2.remove(j).to_multiset() =~= rest.to_multiset());
        lemma_counts_permutation(rest, s2.remove(j), x);
        lemma_counts_remove(s2, j, x);
    }
}

/// The value at a position of the sorted samples does not depend on the order
/// in which the samples were taken: any rearrangement of the same samples
/// ranks the same values.
pub proof fn lemma_ranked_value_order_free(s1: Seq<Duration>, s2: Seq<Duration>, k: int, x: nat)
    requires
        s1.to_multiset() =~= s2.to_multiset(),
    ensures
        is_ranked_value(s1, k, x) == is_ranked_value(s2, k, x),
{
    broadcast use vstd::seq_lib::group_to_multiset_ensures;

    lemma_counts_permutation(s1, s2, x);
    if exists|i: int| 0 <= i < s1.len() && s1[i]@ == x {
        let i = choose|i: int| 0 <= i < s1.len() && s1[i]@ == x;
        assert(s1.contains(s1[i]));
        assert(s1.to_multiset().count(s1[i]) > 0);
        assert(s2.to_multiset().count(s1[i]) > 0);
        assert(s2.contains(s1[i]));
    }
    if exists|i: int| 0 <= i < s2.len() && s2[i]@ == x {
        let i = choose|i: int| 0 <= i < s2.len() && s2[i]@ == x;
        assert(s2.contains(s2[i]));
        assert(s2.to_multiset().count(s2[i]) > 0);
        assert(s1.to_multiset().count(s2[i]) > 0);
        assert(s1.contains(s2[i]));
    }
}

/// The total of a concatenation is the sum of the totals; one sample totals
/// its own length and no samples total zero.
pub proof fn lemma_sum_nanos_additive(s: Seq<Duration>, t: Seq<Duration>)
    ensures
        sum_nanos(s + t) == sum_nanos(s) + sum_nanos(t),
        sum_nanos(Seq::<Duration>::empty()) == 0,
        t.len() == 1 ==> sum_nanos(t) == t[0]@,
    decreases t.len(),
{
    if t.len() == 1 {
        assert(t.drop_last() =~= Seq::<Duration>::empty());
    }
    if t.len() == 0 {
        assert(s + t =~= s);
    } else {
        assert((s + t).drop_last() =~= s + t.drop_last());
        lemma_sum_nanos_additive(s, t.drop_last());
    }
}

/// The mean is the total divided by the count, rounded down: the mean times
/// the count is at most the total, and one more than the mean times the count
/// exceeds it.
pub proof fn lemma_mean_is_floor_of_total(s: Seq<Duration>)
    requires
        s.len() > 0,
    ensures
        mean_nanos(s) * s.len() <= sum_nanos(s) < (mean_nanos(s) + 1) * s.len(),
{
    let n = s.len() as int;
    let t = sum_nanos(s) as int;
    vstd::arithmetic::div_mod::lemma_fundamental_div_mod(t, n);
    assert(mean_nanos(s) == t / n);
    assert((t / n) * n == n * (t / n)) by (nonlinear_arith);
    assert((t / n + 1) * n == n * (t / n) + n) by (nonlinear_arith);
}

/// Counting is additive: the samples of a concatenation that are below (at
/// most) `x` are those of each part; a single sample counts exactly when it is
/// below (at most) `x`, and no samples count zero.
pub proof fn lemma_counts_additive(s: Seq<Duration>, t: Seq<Duration>, x: nat)
    ensures
        count_below(s + t, x) == count_below(s, x) + count_below(t, x),
        count_at_most(s + t, x) == count_at_most(s, x) + count_at_most(t, x),
        count_below(Seq::<Duration>::empty(), x) == 0,
        count_at_most(Seq::<Duration>::empty(), x) == 0,
        t.len() == 1 ==> count_below(t, x) == (if t[0]@ < x { 1nat } else { 0nat }),
        t.len() == 1 ==> count_at_most(t, x) == (if t[0]@ <= x { 1nat } else { 0nat }),
    decreases t.len(),
{
    if t.len() == 1 {
        assert(t.drop_last() =~= Seq::<Duration>::empty());
    }
    if t.len() == 0 {
        assert(s + t =~= s);
    } else {
        assert((s + t).drop_last() =~= s + t.drop_last());
        lemma_counts_additive(s, t.drop_last(), x);
    }
}

/// Counts never exceed the number of samples; when every sample is below (at
/// most) `x` all of them count, and when none is, none counts.
proof fn lemma_count_extremes(s: Seq<Duration>, x: nat)
    ensures
        count_below(s, x) <= s.len(),
        count_at_most(s, x) <= s.len(),
        (forall|j: int| 0 <= j < s.len() ==> #[trigger] s[j]@ < x) ==> count_below(s, x) == s.len(),
        (forall|j: int| 0 <= j < s.len() ==> #[trigger] s[j]@ <= x) ==> count_at_most(s, x) == s.len(),
        (forall|j: int| 0 <= j < s.len() ==> #[trigger] s[j]@ >= x) ==> count_below(s, x) == 0,
    decreases s.len(),
{
    if s.len() > 0 {
        lemma_count_extremes(s.drop_last(), x);
        assert forall|j: int| 0 <= j < s.drop_last().len() implies #[trigger] s.drop_last()[j] == s[j] by {}
        assert(s[s.len() - 1] == s.last());
    }
}

/// On samples already in ascending order, the ranked value at position `k` is
/// the sample at index `k`.
pub proof fn lemma_ranked_value_of_sorted(s: Seq<Duration>, k: int)
    requires
        0 <= k < s.len(),
        forall|i: int, j: int| 0 <= i <= j < s.len() ==> s[i]@ <= s[j]@,
    ensures
        is_ranked_value(s, k, s[k]@),
{
    let x = s[k]@;
    let lo = s.take(k);
    let mid = s.take(k + 1);
    let hi = s.skip(k);
    let rest = s.skip(k + 1);
    assert(lo + hi =~= s);
    assert(mid + rest =~= s);
    lemma_counts_additive(lo, hi, x);
    lemma_counts_additive(mid, rest, x);
    assert forall|j: int| 0 <= j < hi.len() implies #[trigger] hi[j]@ >= x by {
        assert(hi[j] == s[k + j]);
    }
    assert forall|j: int| 0 <= j < mid.len() implies #[trigger] mid[j]@ <= x by {
        assert(mid[j] == s[j]);
    }
    lemma_count_extremes(lo, x);
    lemma_count_extremes(hi, x);
    lemma_count_extremes(mid, x);
    assert(s[k]@ == x);
}

} // verus!
