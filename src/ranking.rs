use vstd::prelude::*;
use crate::grouping::{
    count_in, describes, group_sessions, labels_in_order, lemma_group_bounds, retention_in, Group,
    Grouping,
};
use crate::session::{valid_sessions, StudySession};

verus! {

/// Time-of-day bucket `i` (an index into its first-appearance order) ranks
/// strictly before bucket `j`: its mean retention is higher, or the means
/// are equal and `i` appeared first.
pub open spec fn ranks_before(s: Seq<StudySession>, i: int, j: int) -> bool {
    let labels = labels_in_order(s, Grouping::TimeOfDay);
    let ri = retention_in(s, Grouping::TimeOfDay, labels[i]);
    let ci = count_in(s, Grouping::TimeOfDay, labels[i]);
    let rj = retention_in(s, Grouping::TimeOfDay, labels[j]);
    let cj = count_in(s, Grouping::TimeOfDay, labels[j]);
    ri * cj > rj * ci || (ri * cj == rj * ci && i < j)
}

/// Number of distinct time-of-day buckets in `s`.
pub open spec fn bucket_count(s: Seq<StudySession>) -> int {
    labels_in_order(s, Grouping::TimeOfDay).len() as int
}

/// Bucket `i` ranks before every other bucket.
pub open spec fn ranks_first(s: Seq<StudySession>, i: int) -> bool {
    &&& 0 <= i < bucket_count(s)
    &&& forall|j: int| 0 <= j < bucket_count(s) && j != i ==> #[trigger] ranks_before(s, i, j)
}

/// Bucket `i` ranks before every bucket but the first.
pub open spec fn ranks_second(s: Seq<StudySession>, i: int) -> bool {
    &&& 0 <= i < bucket_count(s)
    &&& exists|f: int|
        #[trigger] ranks_first(s, f) && f != i && forall|j: int|
            0 <= j < bucket_count(s) && j != i && j != f ==> #[trigger] ranks_before(s, i, j)
}

proof fn lemma_ratio_order(r1: int, c1: int, r2: int, c2: int, r3: int, c3: int)
    requires
        c1 > 0,
        c2 > 0,
        c3 > 0,
        r1 * c2 >= r2 * c1,
        r2 * c3 >= r3 * c2,
    ensures
        r1 * c3 >= r3 * c1,
        (r1 * c2 > r2 * c1 || r2 * c3 > r3 * c2) ==> r1 * c3 > r3 * c1,
{
    assert(r1 * c2 * c3 >= r2 * c1 * c3) by (nonlinear_arith)
        requires
            r1 * c2 >= r2 * c1,
            c3 > 0,
    ;
    assert(r2 * c3 * c1 >= r3 * c2 * c1) by (nonlinear_arith)
        requires
            r2 * c3 >= r3 * c2,
            c1 > 0,
    ;
    assert(c2 * (r1 * c3 - r3 * c1) >= 0) by (nonlinear_arith)
        requires
            r1 * c2 * c3 >= r2 * c1 * c3,
            r2 * c3 * c1 >= r3 * c2 * c1,
    ;
    assert(r1 * c3 - r3 * c1 >= 0) by (nonlinear_arith)
        requires
            c2 * (r1 * c3 - r3 * c1) >= 0,
            c2 > 0,
    ;
    if r1 * c2 > r2 * c1 || r2 * c3 > r3 * c2 {
        assert(r1 * c2 * c3 + r2 * c3 * c1 > r2 * c1 * c3 + r3 * c2 * c1) by (nonlinear_arith)
            requires
                r1 * c2 >= r2 * c1,
                r2 * c3 >= r3 * c2,
                r1 * c2 > r2 * c1 || r2 * c3 > r3 * c2,
                c1 > 0,
                c3 > 0,
        ;
        assert(c2 * (r1 * c3 - r3 * c1) > 0) by (nonlinear_arith)
            requires
                r1 * c2 * c3 + r2 * c3 * c1 > r2 * c1 * c3 + r3 * c2 * c1,
        ;
        assert(r1 * c3 - r3 * c1 > 0) by (nonlinear_arith)
            requires
                c2 * (r1 * c3 - r3 * c1) > 0,
                c2 > 0,
        ;
    }
}

/// Ranking before is transitive.
pub proof fn lemma_ranks_before_transitive(s: Seq<StudySession>, i: int, j: int, k: int)
    requires
        0 <= i < bucket_count(s),
        0 <= j < bucket_count(s),
        0 <= k < bucket_count(s),
        forall|b: int|
            0 <= b < bucket_count(s) ==> count_in(
                s,
                Grouping::TimeOfDay,
                #[trigger] labels_in_order(s, Grouping::TimeOfDay)[b],
            ) > 0,
        ranks_before(s, i, j),
        ranks_before(s, j, k),
    ensures
        ranks_before(s, i, k),
{
    let labels = labels_in_order(s, Grouping::TimeOfDay);
    let g = Grouping::TimeOfDay;
    assert(count_in(s, g, labels[i]) > 0);
    assert(count_in(s, g, labels[j]) > 0);
    assert(count_in(s, g, labels[k]) > 0);
    lemma_ratio_order(
        retention_in(s, g, labels[i]),
        count_in(s, g, labels[i]),
        retention_in(s, g, labels[j]),
        count_in(s, g, labels[j]),
        retention_in(s, g, labels[k]),
        count_in(s, g, labels[k]),
    );
}

/// Whether group `i` ranks before group `j`.
fn group_before(groups: &Vec<Group>, i: usize, j: usize) -> (r: bool)
    requires
        i < groups.len(),
        j < groups.len(),
        groups[i as int].count <= 1048576,
        groups[j as int].count <= 1048576,
        groups[i as int].retention_total <= 100 * 1048576,
        groups[j as int].retention_total <= 100 * 1048576,
    ensures
        r == ({
            let ri = groups[i as int].retention_total as int;
            let ci = groups[i as int].count as int;
            let rj = groups[j as int].retention_total as int;
            let cj = groups[j as int].count as int;
            ri * cj > rj * ci || (ri * cj == rj * ci && i < j)
        }),
{
    let gi = &groups[i];
    let gj = &groups[j];
    assert(gi.retention_total * gj.count <= 100 * 1048576 * 1048576) by (nonlinear_arith)
        requires
            gi.retention_total <= 100 * 1048576,
            gj.count <= 1048576,
    ;
    assert(gj.retention_total * gi.count <= 100 * 1048576 * 1048576) by (nonlinear_arith)
        requires
            gj.retention_total <= 100 * 1048576,
            gi.count <= 1048576,
    ;
    let a = gi.retention_total * gj.count;
    let b = gj.retention_total * gi.count;
    a > b || (a == b && i < j)
}

/// The index of the group that ranks before all others but `skip`, which
/// is `groups.len()` when nothing is skipped.
fn best_group(groups: &Vec<Group>, skip: usize, Ghost(s): Ghost<Seq<StudySession>>) -> (r: usize)
    requires
        describes(groups@, s, Grouping::TimeOfDay),
        valid_sessions(s),
        skip <= groups.len(),
        groups.len() >= 1 + if skip < groups.len() { 1int } else { 0int },
    ensures
        r < groups.len(),
        r != skip,
        forall|k: int|
            0 <= k < groups.len() && k != r && k != skip ==> #[trigger] ranks_before(s, r as int, k),
{
    let ghost labels = labels_in_order(s, Grouping::TimeOfDay);
    proof {
        assert forall|k: int| 0 <= k < groups.len() implies {
            &&& (#[trigger] groups[k]).count <= 1048576
            &&& groups[k].retention_total <= 100 * 1048576
        } by {
            lemma_group_bounds(s, Grouping::TimeOfDay, labels[k]);
        }
        assert forall|b: int| 0 <= b < bucket_count(s) implies count_in(
            s,
            Grouping::TimeOfDay,
            #[trigger] labels[b],
        ) > 0 by {
            assert(groups[b].count >= 1);
        }
    }
    let mut best: usize = if skip == 0 { 1 } else { 0 };
    let mut j: usize = best + 1;
    while j < groups.len()
        invariant
            describes(groups@, s, Grouping::TimeOfDay),
            labels == labels_in_order(s, Grouping::TimeOfDay),
            skip <= groups.len(),
            best < j <= groups.len(),
            best != skip,
            forall|k: int| 0 <= k < groups.len() ==> {
                &&& (#[trigger] groups[k]).count <= 1048576
                &&& groups[k].retention_total <= 100 * 1048576
            },
            forall|b: int| 0 <= b < bucket_count(s) ==> count_in(
                s,
                Grouping::TimeOfDay,
                #[trigger] labels[b],
            ) > 0,
            forall|k: int| 0 <= k < j && k != best && k != skip ==> #[trigger] ranks_before(s, best as int, k),
        decreases groups.len() - j,
    {
        if j != skip {
            if group_before(groups, j, best) {
                proof {
                    assert forall|k: int| 0 <= k < j + 1 && k != j && k != skip implies #[trigger] ranks_before(s, j as int, k) by {
                        if k != best {
                            lemma_ranks_before_transitive(s, j as int, best as int, k);
                        }
                    }
                }
                best = j;
            }
        }
        j = j + 1;
    }
    best
}

/// `r` lists the best and second-best time-of-day buckets of `s`, or all
/// of them when there are fewer than two.
pub open spec fn top_times(r: Seq<String>, s: Seq<StudySession>) -> bool {
    let labels = labels_in_order(s, Grouping::TimeOfDay);
    &&& r.len() == if bucket_count(s) < 2 {
        bucket_count(s)
    } else {
        2
    }
    &&& r.len() >= 1 ==> exists|i: int| #[trigger] ranks_first(s, i) && r[0]@ == labels[i]
    &&& r.len() >= 2 ==> exists|i: int| #[trigger] ranks_second(s, i) && r[1]@ == labels[i]
}

/// At most one bucket ranks first, and at most one second.
pub proof fn lemma_rank_unique(s: Seq<StudySession>, i: int, j: int)
    ensures
        ranks_first(s, i) && ranks_first(s, j) ==> i == j,
        ranks_second(s, i) && ranks_second(s, j) ==> i == j,
{
    if ranks_first(s, i) && ranks_first(s, j) && i != j {
        assert(ranks_before(s, i, j));
        assert(ranks_before(s, j, i));
    }
    if ranks_second(s, i) && ranks_second(s, j) && i != j {
        let f = choose|f: int|
            #[trigger] ranks_first(s, f) && f != i && forall|k: int|
                0 <= k < bucket_count(s) && k != i && k != f ==> #[trigger] ranks_before(s, i, k);
        let f2 = choose|f: int|
            #[trigger] ranks_first(s, f) && f != j && forall|k: int|
                0 <= k < bucket_count(s) && k != j && k != f ==> #[trigger] ranks_before(s, j, k);
        if f != f2 {
            assert(ranks_before(s, f, f2));
            assert(ranks_before(s, f2, f));
        }
        assert(ranks_before(s, i, j));
        assert(ranks_before(s, j, i));
    }
}

/// The labels of the best and second-best time-of-day buckets by mean
/// retention, ties going to the bucket that appeared first; fewer when
/// fewer buckets exist.
pub fn find_optimal_study_times(sessions: &Vec<StudySession>) -> (r: Vec<String>)
    requires
        valid_sessions(sessions@),
    ensures
        top_times(r@, sessions@),
{
    let ghost s = sessions@;
    let groups = group_sessions(sessions, Grouping::TimeOfDay);
    let m = groups.len();
    let mut r: Vec<String> = Vec::new();
    if m == 0 {
        return r;
    }
    let first = best_group(&groups, m, Ghost(s));
    r.push(groups[first].label.clone());
    assert(ranks_first(s, first as int));
    if m >= 2 {
        let second = best_group(&groups, first, Ghost(s));
        r.push(groups[second].label.clone());
        assert(ranks_second(s, second as int));
    }
    r
}

} // verus!
