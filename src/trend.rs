use vstd::prelude::*;
use crate::arith::{lemma_floor_div_negative, lemma_mul_le_iff_le_div};
use crate::grouping::{
    group_hours, group_sessions, hours_in, labels_in_order, sum_ints, Group, Grouping,
};
use crate::session::{
    total_hours, total_retention, total_understanding, valid_sessions, StudySession,
};

verus! {

/// Aggregate study metrics over one snapshot, each in hundredths.
#[derive(Debug, PartialEq, Eq)]
pub struct StudyTrend {
    /// Hours per week, treating each run of seven sessions as one week.
    pub weekly_hours: u64,
    /// Retention points per hour studied.
    pub efficiency_score: u64,
    /// `100 / (1 + sigma)`, sigma the spread of hours over time-of-day buckets.
    pub consistency_score: u64,
    /// Relative change of mean retention between the two halves, in percent.
    pub improvement_rate: i64,
}

/// `sum(hours) / max(1, n / 7)`, in hundredths of an hour.
pub open spec fn weekly_hours_of(s: Seq<StudySession>) -> int {
    if s.len() < 7 {
        total_hours(s)
    } else {
        7 * total_hours(s) / (s.len() as int)
    }
}

/// `sum(retention) / max(1, sum(hours))`, in hundredths.
pub open spec fn efficiency_of(s: Seq<StudySession>) -> int {
    let t = total_hours(s);
    if t < 100 {
        100 * total_retention(s)
    } else {
        10000 * total_retention(s) / t
    }
}

/// Hours per time-of-day bucket, in order of first appearance.
pub open spec fn bucket_hours(s: Seq<StudySession>) -> Seq<int> {
    labels_in_order(s, Grouping::TimeOfDay).map_values(
        |l: Seq<char>| hours_in(s, Grouping::TimeOfDay, l),
    )
}

/// Sum of the squares of a sequence of integers.
pub open spec fn sum_squares(q: Seq<int>) -> int
    decreases q.len(),
{
    if q.len() == 0 {
        0
    } else {
        sum_squares(q.drop_last()) + q.last() * q.last()
    }
}

/// The population variance of the bucket hours, in square hours, is
/// `spread_num(s) / spread_den(s)`.
pub open spec fn spread_num(s: Seq<StudySession>) -> int {
    let q = bucket_hours(s);
    q.len() * sum_squares(q) - sum_ints(q) * sum_ints(q)
}

/// See `spread_num`.
pub open spec fn spread_den(s: Seq<StudySession>) -> int {
    let m = bucket_hours(s).len() as int;
    m * m * 10000
}

/// `k / 100 <= 100 / (1 + sigma)`, where `sigma * sigma == num / den`.
pub open spec fn consistency_allows(k: int, num: int, den: int) -> bool {
    k * k * num <= (10000 - k) * (10000 - k) * den
}

/// The largest `j` in `0..=k` that `consistency_allows`, or 0.
pub open spec fn largest_allowed(k: int, num: int, den: int) -> int
    decreases k,
{
    if k <= 0 {
        0
    } else if consistency_allows(k, num, den) {
        k
    } else {
        largest_allowed(k - 1, num, den)
    }
}

/// `min(100, 100 / (1 + sigma))` in hundredths, rounded down, sigma the
/// population standard deviation of the hours per time-of-day bucket.
pub open spec fn consistency_of(s: Seq<StudySession>) -> int {
    largest_allowed(10000, spread_num(s), spread_den(s))
}

/// `((second_mean - first_mean) / max(1, first_mean)) * 100` in hundredths,
/// rounded down, the halves split at `n / 2`; 0 below two sessions.
pub open spec fn improvement_rate_of(s: Seq<StudySession>) -> int {
    let n = s.len() as int;
    if n < 2 {
        0
    } else {
        let h1 = n / 2;
        let h2 = n - h1;
        let first = total_retention(s.subrange(0, h1));
        let second = total_retention(s.subrange(h1, n));
        let diff = second * h1 - first * h2;
        let den = if first < h1 {
            h1 * h2
        } else {
            first * h2
        };
        10000 * diff / den
    }
}

/// `clamp(100 - |mean understanding - mean retention|, 0, 100)` in
/// hundredths, rounded down.
pub open spec fn correlation_of(s: Seq<StudySession>) -> int {
    let n = s.len() as int;
    let d = total_understanding(s) - total_retention(s);
    let gap = if d < 0 {
        -d
    } else {
        d
    };
    let v = 10000 - (100 * gap + n - 1) / n;
    if v < 0 {
        0
    } else if v > 10000 {
        10000
    } else {
        v
    }
}

/// The totals of hours, retention and understanding over
/// `sessions[lo..hi]`.
pub fn sum_range(sessions: &Vec<StudySession>, lo: usize, hi: usize) -> (r: (u64, u64, u64))
    requires
        lo <= hi <= sessions.len(),
        valid_sessions(sessions@),
    ensures
        r.0 == total_hours(sessions@.subrange(lo as int, hi as int)),
        r.1 == total_retention(sessions@.subrange(lo as int, hi as int)),
        r.2 == total_understanding(sessions@.subrange(lo as int, hi as int)),
        r.0 <= 0xFFFF_FFFF * (hi - lo),
        r.1 <= 100 * (hi - lo),
        r.2 <= 100 * (hi - lo),
{
    let mut hours: u64 = 0;
    let mut retention: u64 = 0;
    let mut understanding: u64 = 0;
    let mut i: usize = lo;
    while i < hi
        invariant
            lo <= i <= hi <= sessions.len(),
            valid_sessions(sessions@),
            hours == total_hours(sessions@.subrange(lo as int, i as int)),
            retention == total_retention(sessions@.subrange(lo as int, i as int)),
            understanding == total_understanding(sessions@.subrange(lo as int, i as int)),
            hours <= 0xFFFF_FFFF * (i - lo),
            retention <= 100 * (i - lo),
            understanding <= 100 * (i - lo),
        decreases hi - i,
    {
        let ghost next = sessions@.subrange(lo as int, i + 1);
        assert(next.drop_last() =~= sessions@.subrange(lo as int, i as int));
        assert(sessions@[i as int].wf());
        let x = &sessions[i];
        hours = hours + x.hours_studied_x100 as u64;
        retention = retention + x.retention_score as u64;
        understanding = understanding + x.understanding_score as u64;
        i = i + 1;
    }
    (hours, retention, understanding)
}

/// Weekly study hours, in hundredths.
pub fn weekly_hours(sessions: &Vec<StudySession>) -> (r: u64)
    requires
        valid_sessions(sessions@),
    ensures
        r == weekly_hours_of(sessions@),
{
    let n = sessions.len();
    let (hours, _, _) = sum_range(sessions, 0, n);
    assert(sessions@.subrange(0, n as int) =~= sessions@);
    if n < 7 {
        hours
    } else {
        7 * hours / (n as u64)
    }
}

/// Retention points per hour, in hundredths.
pub fn efficiency_score(sessions: &Vec<StudySession>) -> (r: u64)
    requires
        valid_sessions(sessions@),
    ensures
        r == efficiency_of(sessions@),
{
    let n = sessions.len();
    let (hours, retention, _) = sum_range(sessions, 0, n);
    assert(sessions@.subrange(0, n as int) =~= sessions@);
    if hours < 100 {
        100 * retention
    } else {
        10000 * retention / hours
    }
}

/// Percent change of mean retention from the first half of the sessions
/// to the second, in hundredths.
pub fn improvement_rate(sessions: &Vec<StudySession>) -> (r: i64)
    requires
        valid_sessions(sessions@),
    ensures
        r == improvement_rate_of(sessions@),
{
    let n = sessions.len();
    if n < 2 {
        return 0;
    }
    let h1 = n / 2;
    let (_, first, _) = sum_range(sessions, 0, h1);
    let (_, second, _) = sum_range(sessions, h1, n);
    let a = h1 as u64;
    let b = (n - h1) as u64;
    assert(second * a <= 100 * b * a) by (nonlinear_arith)
        requires
            second <= 100 * b,
    ;
    assert(first * b <= 100 * a * b) by (nonlinear_arith)
        requires
            first <= 100 * a,
    ;
    assert(second * a <= 100 * 1048576 * 1048576 && first * b <= 100 * 1048576 * 1048576 && a
        * b <= 1048576 * 1048576) by (nonlinear_arith)
        requires
            a <= 1048576,
            b <= 1048576,
            second <= 100 * b,
            first <= 100 * a,
    ;
    let gain = second * a;
    let loss = first * b;
    let den = if first < a {
        a * b
    } else {
        first * b
    };
    assert(den > 0) by (nonlinear_arith)
        requires
            a >= 1,
            b >= 1,
            den == a * b || (den == first * b && first >= a),
    ;
    if gain >= loss {
        let m = 10000 * (gain - loss);
        let q = m / den;
        proof {
            lemma_quotient_le(m as int, den as int);
        }
        q as i64
    } else {
        let m = 10000 * (loss - gain);
        proof {
            lemma_floor_div_negative(m as int, den as int);
            lemma_quotient_le((m + den - 1) as int, den as int);
        }
        let q = (m + den - 1) / den;
        -(q as i64)
    }
}

proof fn lemma_quotient_le(x: int, d: int)
    requires
        x >= 0,
        d >= 1,
    ensures
        0 <= x / d <= x,
{
    let q = x / d;
    lemma_mul_le_iff_le_div(q, d, x);
    lemma_mul_le_iff_le_div(0, d, x);
    assert(q <= q * d) by (nonlinear_arith)
        requires
            q >= 0,
            d >= 1,
    ;
}

/// How closely understanding tracks retention, in hundredths of a point
/// on the 0..=100 scale.
pub fn correlation(sessions: &Vec<StudySession>) -> (r: u64)
    requires
        valid_sessions(sessions@),
        sessions.len() >= 1,
    ensures
        r == correlation_of(sessions@),
        r <= 10000,
{
    let n = sessions.len();
    let (_, retention, understanding) = sum_range(sessions, 0, n);
    assert(sessions@.subrange(0, n as int) =~= sessions@);
    let gap = if understanding >= retention {
        understanding - retention
    } else {
        retention - understanding
    };
    let nn = n as u64;
    let c = (100 * gap + nn - 1) / nn;
    if c <= 10000 {
        10000 - c
    } else {
        0
    }
}

/// `k / 100 <= 100 / (1 + sigma)`, where `sigma * sigma == num / den`.
fn allows(k: u128, num: u128, den: u128) -> (r: bool)
    requires
        k <= 10000,
        den <= 0x1_0000_0000_0000_0000,
    ensures
        r == consistency_allows(k as int, num as int, den as int),
{
    if k == 0 {
        assert(consistency_allows(0, num as int, den as int)) by (nonlinear_arith)
            requires
                num >= 0,
                den >= 0,
        ;
        return true;
    }
    let room = 10000 - k;
    assert(room * room <= 100000000 && room * room * den <= 100000000 * 0x1_0000_0000_0000_0000
        && k * k >= 1 && k * k <= 100000000) by (nonlinear_arith)
        requires
            room <= 10000,
            1 <= k <= 10000,
            den <= 0x1_0000_0000_0000_0000,
    ;
    let rhs = room * room * den;
    proof {
        lemma_mul_le_iff_le_div(num as int, (k * k) as int, rhs as int);
        assert(k * k * num == num * (k * k)) by (nonlinear_arith);
    }
    num <= rhs / (k * k)
}

proof fn lemma_allows_monotone(a: int, b: int, num: int, den: int)
    requires
        0 <= a <= b <= 10000,
        num >= 0,
        den >= 0,
        consistency_allows(b, num, den),
    ensures
        consistency_allows(a, num, den),
{
    assert(a * a * num <= b * b * num) by (nonlinear_arith)
        requires
            0 <= a <= b,
            num >= 0,
    ;
    assert((10000 - b) * (10000 - b) * den <= (10000 - a) * (10000 - a) * den) by (nonlinear_arith)
        requires
            0 <= 10000 - b <= 10000 - a,
            den >= 0,
    ;
}

proof fn lemma_largest_allowed(k: int, lo: int, num: int, den: int)
    requires
        0 <= lo <= k <= 10000,
        consistency_allows(lo, num, den),
        forall|j: int| lo < j <= k ==> !#[trigger] consistency_allows(j, num, den),
    ensures
        largest_allowed(k, num, den) == lo,
    decreases k,
{
    if k > lo {
        lemma_largest_allowed(k - 1, lo, num, den);
    }
}

proof fn lemma_prefix_sum_le(q: Seq<int>, j: int)
    requires
        0 <= j <= q.len(),
        forall|k: int| 0 <= k < q.len() ==> q[k] >= 0,
    ensures
        sum_ints(q.take(j)) <= sum_ints(q),
    decreases q.len(),
{
    if j < q.len() {
        lemma_prefix_sum_le(q.drop_last(), j);
        assert(q.drop_last().take(j) =~= q.take(j));
    } else {
        assert(q.take(j) =~= q);
    }
}

/// Consistency of study hours across time-of-day buckets, in hundredths.
pub fn consistency_score(sessions: &Vec<StudySession>) -> (r: u64)
    requires
        valid_sessions(sessions@),
        sessions.len() >= 1,
    ensures
        r == consistency_of(sessions@),
        r <= 10000,
{
    let n = sessions.len();
    let (total, _, _) = sum_range(sessions, 0, n);
    assert(sessions@.subrange(0, n as int) =~= sessions@);
    let groups = group_by_day(sessions);
    let m = groups.len();
    let ghost q = bucket_hours(sessions@);
    assert(q =~= group_hours(groups@));
    let t = total as u128;
    let mut s1: u128 = 0;
    let mut s2: u128 = 0;
    let mut j: usize = 0;
    while j < m
        invariant
            0 <= j <= m,
            m == groups.len(),
            q == group_hours(groups@),
            sum_ints(q) == t,
            t <= 0xFFFF_FFFF * 1048576,
            s1 == sum_ints(q.take(j as int)),
            s2 == sum_squares(q.take(j as int)),
            s1 <= t,
            s2 <= s1 * t,
        decreases m - j,
    {
        let h = groups[j].hours_total as u128;
        proof {
            let next = q.take(j + 1);
            assert(next.drop_last() =~= q.take(j as int));
            assert(next.last() == h);
            lemma_prefix_sum_le(q, j + 1);
            assert(h * h + s2 <= (s1 + h) * t) by (nonlinear_arith)
                requires
                    s2 <= s1 * t,
                    s1 + h <= t,
                    h >= 0,
                    s1 >= 0,
            ;
            assert((s1 + h) * t <= 0xFFFF_FFFF * 1048576 * (0xFFFF_FFFF * 1048576)) by (nonlinear_arith)
                requires
                    s1 + h <= t,
                    t <= 0xFFFF_FFFF * 1048576,
            ;
        }
        s1 = s1 + h;
        s2 = s2 + h * h;
        j = j + 1;
    }
    assert(q.take(m as int) =~= q);
    let mm = m as u128;
    assert(mm * s2 <= 1048576 * (0xFFFF_FFFF * 1048576 * (0xFFFF_FFFF * 1048576))) by (nonlinear_arith)
        requires
            mm <= 1048576,
            s2 <= s1 * t,
            s1 <= t,
            t <= 0xFFFF_FFFF * 1048576,
    ;
    assert(s1 * s1 <= 0xFFFF_FFFF * 1048576 * (0xFFFF_FFFF * 1048576)) by (nonlinear_arith)
        requires
            s1 <= 0xFFFF_FFFF * 1048576,
    ;
    let spread = mm * s2;
    let square = s1 * s1;
    let ghost num = spread_num(sessions@);
    let ghost den = spread_den(sessions@);
    if spread <= square {
        assert(consistency_allows(10000, num, den)) by (nonlinear_arith)
            requires
                num <= 0,
                den >= 0,
        ;
        return 10000;
    }
    let excess = spread - square;
    assert(mm * mm <= 1048576 * 1048576) by (nonlinear_arith)
        requires
            mm <= 1048576,
    ;
    let scale = mm * mm * 10000;
    let mut lo: u128 = 0;
    let mut hi: u128 = 10001;
    assert(consistency_allows(0, num, den)) by (nonlinear_arith)
        requires
            den == scale,
    ;
    while hi - lo > 1
        invariant
            lo < hi <= 10001,
            excess == num,
            scale == den,
            num > 0,
            den >= 0,
            den <= 0x1_0000_0000_0000_0000,
            consistency_allows(lo as int, num, den),
            hi == 10001 || !consistency_allows(hi as int, num, den),
        decreases hi - lo,
    {
        let mid = lo + (hi - lo) / 2;
        if allows(mid, excess, scale) {
            lo = mid;
        } else {
            hi = mid;
        }
    }
    proof {
        assert forall|k: int| lo < k <= 10000 implies !#[trigger] consistency_allows(k, num, den) by {
            if consistency_allows(k, num, den) {
                lemma_allows_monotone(hi as int, k, num, den);
            }
        }
        lemma_largest_allowed(10000, lo as int, num, den);
    }
    lo as u64
}

/// Sessions grouped by time of day, the stand-in this analysis uses for a
/// day of study.
pub fn group_by_day(sessions: &Vec<StudySession>) -> (r: Vec<Group>)
    requires
        valid_sessions(sessions@),
    ensures
        crate::grouping::describes(r@, sessions@, Grouping::TimeOfDay),
        sum_ints(group_hours(r@)) == total_hours(sessions@),
        r.len() <= sessions.len(),
{
    group_sessions(sessions, Grouping::TimeOfDay)
}

/// All four trend metrics of a non-empty snapshot.
pub fn calculate_weekly_trend(sessions: &Vec<StudySession>) -> (r: StudyTrend)
    requires
        valid_sessions(sessions@),
        sessions.len() >= 1,
    ensures
        r.weekly_hours == weekly_hours_of(sessions@),
        r.efficiency_score == efficiency_of(sessions@),
        r.consistency_score == consistency_of(sessions@),
        r.improvement_rate == improvement_rate_of(sessions@),
        r.consistency_score <= 10000,
{
    StudyTrend {
        weekly_hours: weekly_hours(sessions),
        efficiency_score: efficiency_score(sessions),
        consistency_score: consistency_score(sessions),
        improvement_rate: improvement_rate(sessions),
    }
}

proof fn lemma_totals_nonnegative(s: Seq<StudySession>)
    ensures
        total_hours(s) >= 0,
        total_retention(s) >= 0,
    decreases s.len(),
{
    if s.len() > 0 {
        lemma_totals_nonnegative(s.drop_last());
    }
}

proof fn lemma_largest_allowed_range(k: int, num: int, den: int)
    requires
        k >= 0,
    ensures
        0 <= largest_allowed(k, num, den) <= k,
    decreases k,
{
    if k > 0 {
        lemma_largest_allowed_range(k - 1, num, den);
    }
}

/// On every non-empty snapshot consistency lies in 0..=100, and efficiency
/// and weekly hours are non-negative.
pub proof fn lemma_trend_bounds(s: Seq<StudySession>)
    requires
        valid_sessions(s),
        s.len() >= 1,
    ensures
        0 <= consistency_of(s) <= 10000,
        efficiency_of(s) >= 0,
        weekly_hours_of(s) >= 0,
{
    lemma_totals_nonnegative(s);
    lemma_largest_allowed_range(10000, spread_num(s), spread_den(s));
    let t = total_hours(s);
    if t >= 100 {
        assert(10000 * total_retention(s) / t >= 0) by (nonlinear_arith)
            requires
                total_retention(s) >= 0,
                t >= 100,
        ;
    }
    if s.len() >= 7 {
        assert(7 * t / (s.len() as int) >= 0) by (nonlinear_arith)
            requires
                t >= 0,
                s.len() >= 7,
        ;
    }
}

/// When mean understanding equals mean retention, the correlation signal
/// is full.
pub proof fn lemma_equal_means_full_correlation(s: Seq<StudySession>)
    requires
        s.len() >= 1,
        total_understanding(s) == total_retention(s),
    ensures
        correlation_of(s) == 10000,
{
    let n = s.len() as int;
    vstd::arithmetic::div_mod::lemma_fundamental_div_mod_converse(n - 1, n, 0, n - 1);
}

} // verus!
