use vstd::prelude::*;
use crate::session::{StudySession, total_hours, valid_sessions, MAX_SESSIONS};

verus! {

/// The field that sessions are grouped by.
#[derive(Clone, Copy, PartialEq, Eq, Structural)]
pub enum Grouping {
    Subject,
    TimeOfDay,
}

/// The label of session `x` under grouping `g`.
pub open spec fn label_of(x: StudySession, g: Grouping) -> Seq<char> {
    match g {
        Grouping::Subject => x.subject@,
        Grouping::TimeOfDay => x.time_of_day@,
    }
}

/// The distinct labels of `s`, in order of first appearance.
pub open spec fn labels_in_order(s: Seq<StudySession>, g: Grouping) -> Seq<Seq<char>>
    decreases s.len(),
{
    if s.len() == 0 {
        Seq::empty()
    } else {
        let prev = labels_in_order(s.drop_last(), g);
        let l = label_of(s.last(), g);
        if prev.contains(l) {
            prev
        } else {
            prev.push(l)
        }
    }
}

/// Number of sessions of `s` labelled `l`.
pub open spec fn count_in(s: Seq<StudySession>, g: Grouping, l: Seq<char>) -> int
    decreases s.len(),
{
    if s.len() == 0 {
        0
    } else {
        count_in(s.drop_last(), g, l) + if label_of(s.last(), g) == l { 1int } else { 0int }
    }
}

/// Total retention of the sessions of `s` labelled `l`.
pub open spec fn retention_in(s: Seq<StudySession>, g: Grouping, l: Seq<char>) -> int
    decreases s.len(),
{
    if s.len() == 0 {
        0
    } else {
        retention_in(s.drop_last(), g, l) + if label_of(s.last(), g) == l {
            s.last().retention_score as int
        } else {
            0int
        }
    }
}

/// Total hours, in hundredths, of the sessions of `s` labelled `l`.
pub open spec fn hours_in(s: Seq<StudySession>, g: Grouping, l: Seq<char>) -> int
    decreases s.len(),
{
    if s.len() == 0 {
        0
    } else {
        hours_in(s.drop_last(), g, l) + if label_of(s.last(), g) == l {
            s.last().hours_studied_x100 as int
        } else {
            0int
        }
    }
}

/// Sum of a sequence of integers.
pub open spec fn sum_ints(q: Seq<int>) -> int
    decreases q.len(),
{
    if q.len() == 0 {
        0
    } else {
        sum_ints(q.drop_last()) + q.last()
    }
}

/// The totals of one group of sessions that share a label.
#[derive(Debug, PartialEq, Eq)]
pub struct Group {
    pub label: String,
    pub count: u64,
    pub retention_total: u64,
    /// In hundredths of an hour.
    pub hours_total: u64,
}

/// The hour totals of a list of groups.
pub open spec fn group_hours(r: Seq<Group>) -> Seq<int> {
    r.map_values(|x: Group| x.hours_total as int)
}

/// `r` holds one group per distinct label of `s`, in order of first
/// appearance, with that label's exact totals.
pub open spec fn describes(r: Seq<Group>, s: Seq<StudySession>, g: Grouping) -> bool {
    let labels = labels_in_order(s, g);
    &&& r.len() == labels.len()
    &&& forall|i: int|
        0 <= i < r.len() ==> {
            &&& (#[trigger] r[i]).label@ == labels[i]
            &&& r[i].count == count_in(s, g, labels[i])
            &&& r[i].count >= 1
            &&& r[i].retention_total == retention_in(s, g, labels[i])
            &&& r[i].hours_total == hours_in(s, g, labels[i])
        }
}

proof fn lemma_sum_update(q: Seq<int>, j: int, v: int)
    requires
        0 <= j < q.len(),
    ensures
        sum_ints(q.update(j, v)) == sum_ints(q) - q[j] + v,
    decreases q.len(),
{
    let u = q.update(j, v);
    if j == q.len() - 1 {
        assert(u.drop_last() =~= q.drop_last());
    } else {
        lemma_sum_update(q.drop_last(), j, v);
        assert(u.drop_last() =~= q.drop_last().update(j, v));
    }
}

proof fn lemma_sum_push(q: Seq<int>, v: int)
    ensures
        sum_ints(q.push(v)) == sum_ints(q) + v,
{
    assert(q.push(v).drop_last() =~= q);
}

fn label_ref(x: &StudySession, g: Grouping) -> (r: &String)
    ensures
        r@ == label_of(*x, g),
{
    match g {
        Grouping::Subject => &x.subject,
        Grouping::TimeOfDay => &x.time_of_day,
    }
}

/// Groups `sessions` by `g`: one group per distinct label, in order of
/// first appearance, with the count, retention total and hour total of
/// each; the hour totals add up to the snapshot's total hours.
pub fn group_sessions(sessions: &Vec<StudySession>, g: Grouping) -> (r: Vec<Group>)
    requires
        valid_sessions(sessions@),
    ensures
        describes(r@, sessions@, g),
        sum_ints(group_hours(r@)) == total_hours(sessions@),
        r.len() <= sessions.len(),
{
    let n = sessions.len();
    let mut r: Vec<Group> = Vec::new();
    let mut total: u64 = 0;
    let mut i: usize = 0;
    while i < n
        invariant
            n == sessions.len(),
            n <= MAX_SESSIONS,
            valid_sessions(sessions@),
            0 <= i <= n,
            r.len() <= i,
            describes(r@, sessions@.subrange(0, i as int), g),
            total == total_hours(sessions@.subrange(0, i as int)),
            total <= 0xFFFF_FFFF * i,
            sum_ints(group_hours(r@)) == total,
            forall|k: int|
                0 <= k < r.len() ==> {
                    &&& (#[trigger] r[k]).count <= i
                    &&& r[k].retention_total <= 100 * i
                    &&& r[k].hours_total <= total
                },
        decreases n - i,
    {
        let ghost prev = sessions@.subrange(0, i as int);
        let ghost next = sessions@.subrange(0, i as int + 1);
        assert(next.drop_last() =~= prev);
        assert(next.last() == sessions@[i as int]);
        let x = &sessions[i];
        assert(x.wf());
        let key = label_ref(x, g);
        let ghost labels = labels_in_order(prev, g);
        let mut j: usize = 0;
        let mut found = false;
        while j < r.len()
            invariant
                0 <= j <= r.len(),
                describes(r@, prev, g),
                labels == labels_in_order(prev, g),
                forall|k: int| 0 <= k < j ==> (#[trigger] r[k]).label@ != key@,
                found ==> j < r.len() && r[j as int].label@ == key@,
        ensures
            found ==> j < r.len() && r[j as int].label@ == key@,
            !found ==> forall|k: int| 0 <= k < r.len() ==> (#[trigger] r[k]).label@ != key@,
        decreases r.len() - j,
        {
            if r[j].label == *key {
                found = true;
                break;
            }
            j = j + 1;
        }
        let hours = x.hours_studied_x100 as u64;
        if found {
            assert(labels[j as int] == key@);
            assert(labels.contains(key@));
            assert(labels_in_order(next, g) == labels);
            let ghost old_r = r@;
            let old_group = &r[j];
            let updated = Group {
                label: old_group.label.clone(),
                count: old_group.count + 1,
                retention_total: old_group.retention_total + x.retention_score as u64,
                hours_total: old_group.hours_total + hours,
            };
            r.set(j, updated);
            proof {
                lemma_sum_update(group_hours(old_r), j as int, updated.hours_total as int);
                assert(group_hours(r@) =~= group_hours(old_r).update(
                    j as int,
                    updated.hours_total as int,
                ));
                lemma_labels_distinct(prev, g);
                assert forall|k: int| 0 <= k < r.len() implies {
                    &&& (#[trigger] r[k]).label@ == labels[k]
                    &&& r[k].count == count_in(next, g, labels[k])
                    &&& r[k].retention_total == retention_in(next, g, labels[k])
                    &&& r[k].hours_total == hours_in(next, g, labels[k])
                } by {
                    if k != j {
                        assert(r[k] == old_r[k]);
                        assert(labels[k] != labels[j as int]);
                    }
                }
            }
        } else {
            proof {
                assert forall|k: int| 0 <= k < labels.len() implies labels[k] != key@ by {
                    assert(r[k].label@ == labels[k]);
                }
                assert(!labels.contains(key@));
                assert(labels_in_order(next, g) == labels.push(key@));
                assert(count_in(prev, g, key@) == 0) by {
                    lemma_absent_label(prev, g, key@);
                }
            }
            let ghost old_r = r@;
            let fresh = Group {
                label: key.clone(),
                count: 1,
                retention_total: x.retention_score as u64,
                hours_total: hours,
            };
            r.push(fresh);
            proof {
                lemma_sum_push(group_hours(old_r), hours as int);
                assert(group_hours(r@) =~= group_hours(old_r).push(hours as int));
                let labels2 = labels.push(key@);
                assert forall|k: int| 0 <= k < r.len() implies {
                    &&& (#[trigger] r[k]).label@ == labels2[k]
                    &&& r[k].count == count_in(next, g, labels2[k])
                    &&& r[k].retention_total == retention_in(next, g, labels2[k])
                    &&& r[k].hours_total == hours_in(next, g, labels2[k])
                } by {
                    if k < old_r.len() {
                        assert(r[k] == old_r[k]);
                        assert(labels2[k] == labels[k]);
                    } else {
                        lemma_absent_label(prev, g, key@);
                    }
                }
            }
        }
        total = total + hours;
        i = i + 1;
    }
    assert(sessions@.subrange(0, n as int) =~= sessions@);
    r
}

/// A label that `labels_in_order` does not list has no sessions.
pub proof fn lemma_absent_label(s: Seq<StudySession>, g: Grouping, l: Seq<char>)
    requires
        !labels_in_order(s, g).contains(l),
    ensures
        count_in(s, g, l) == 0,
        retention_in(s, g, l) == 0,
        hours_in(s, g, l) == 0,
    decreases s.len(),
{
    if s.len() > 0 {
        let prev = labels_in_order(s.drop_last(), g);
        if prev.contains(l) {
            let a = choose|a: int| 0 <= a < prev.len() && prev[a] == l;
            assert(labels_in_order(s, g)[a] == l);
        }
        lemma_absent_label(s.drop_last(), g, l);
        if label_of(s.last(), g) == l {
            assert(labels_in_order(s, g).last() == l);
        }
    }
}

/// The labels listed by `labels_in_order` are pairwise distinct.
pub proof fn lemma_labels_distinct(s: Seq<StudySession>, g: Grouping)
    ensures
        forall|a: int, b: int|
            0 <= a < b < labels_in_order(s, g).len() ==> labels_in_order(s, g)[a]
                != labels_in_order(s, g)[b],
    decreases s.len(),
{
    if s.len() > 0 {
        lemma_labels_distinct(s.drop_last(), g);
        let prev = labels_in_order(s.drop_last(), g);
        let l = label_of(s.last(), g);
        if !prev.contains(l) {
            assert forall|a: int| 0 <= a < prev.len() implies prev[a] != l by {
                if prev[a] == l {
                    assert(prev.contains(l));
                }
            }
        }
    }
}

/// Group sizes and totals stay within what one snapshot can hold.
pub proof fn lemma_group_bounds(s: Seq<StudySession>, g: Grouping, l: Seq<char>)
    requires
        valid_sessions(s),
    ensures
        0 <= count_in(s, g, l) <= s.len(),
        0 <= retention_in(s, g, l) <= 100 * s.len(),
        retention_in(s, g, l) <= 100 * count_in(s, g, l),
    decreases s.len(),
{
    if s.len() > 0 {
        assert(s.drop_last() =~= s.subrange(0, s.len() - 1));
        assert(s.last().wf());
        assert forall|i: int| 0 <= i < s.drop_last().len() implies #[trigger] s.drop_last()[i].wf() by {
            assert(s.drop_last()[i] == s[i]);
        }
        lemma_group_bounds(s.drop_last(), g, l);
    }
}

/// A non-empty snapshot has at least one label.
pub proof fn lemma_labels_nonempty(s: Seq<StudySession>, g: Grouping)
    requires
        s.len() > 0,
    ensures
        labels_in_order(s, g).len() > 0,
{
    let prev = labels_in_order(s.drop_last(), g);
    let l = label_of(s.last(), g);
    if prev.len() == 0 {
        assert(!prev.contains(l));
    }
}

} // verus!
