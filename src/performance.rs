use vstd::prelude::*;
use crate::arith::lemma_div_le_bound;
use crate::grouping::{
    count_in, describes, group_sessions, labels_in_order, lemma_group_bounds, retention_in, Grouping,
};
use crate::session::{valid_sessions, StudySession};

verus! {

/// Mean retention of the sessions of `s` labelled `l`, in hundredths,
/// rounded down.
pub open spec fn mean_retention(s: Seq<StudySession>, g: Grouping, l: Seq<char>) -> int {
    100 * retention_in(s, g, l) / count_in(s, g, l)
}

/// The rule-of-thumb forecast for a subject: its current mean plus five
/// points, capped at 95 (in hundredths).
pub open spec fn capped_forecast(mean: int) -> int {
    if mean + 500 < 9500 {
        mean + 500
    } else {
        9500
    }
}

/// `r` lists each distinct subject of `s` once, in order of first
/// appearance, paired with `f` of its mean retention.
pub open spec fn per_subject(r: Seq<(String, u64)>, s: Seq<StudySession>, f: spec_fn(int) -> int) -> bool {
    let labels = labels_in_order(s, Grouping::Subject);
    &&& r.len() == labels.len()
    &&& forall|i: int|
        0 <= i < r.len() ==> (#[trigger] r[i]).0@ == labels[i] && r[i].1 == f(
            mean_retention(s, Grouping::Subject, labels[i]),
        )
}

/// Mean retention per subject, in hundredths.
pub fn analyze_subject_performance(sessions: &Vec<StudySession>) -> (r: Vec<(String, u64)>)
    requires
        valid_sessions(sessions@),
    ensures
        per_subject(r@, sessions@, |m: int| m),
        forall|i: int| 0 <= i < r.len() ==> (#[trigger] r[i]).1 <= 10000,
{
    let ghost s = sessions@;
    let ghost labels = labels_in_order(s, Grouping::Subject);
    let groups = group_sessions(sessions, Grouping::Subject);
    let mut r: Vec<(String, u64)> = Vec::new();
    let mut i: usize = 0;
    while i < groups.len()
        invariant
            describes(groups@, s, Grouping::Subject),
            labels == labels_in_order(s, Grouping::Subject),
            i <= groups.len(),
            r.len() == i,
            valid_sessions(s),
            forall|k: int|
                0 <= k < i ==> (#[trigger] r[k]).0@ == labels[k] && r[k].1 == mean_retention(
                    s,
                    Grouping::Subject,
                    labels[k],
                ) && r[k].1 <= 10000,
        decreases groups.len() - i,
    {
        proof {
            lemma_group_bounds(s, Grouping::Subject, labels[i as int]);
        }
        let g = &groups[i];
        assert(100 * g.retention_total <= 10000 * g.count);
        let mean = 100 * g.retention_total / g.count;
        proof {
            lemma_div_le_bound((100 * g.retention_total) as int, g.count as int, 10000);
        }
        r.push((g.label.clone(), mean));
        i = i + 1;
    }
    r
}

/// Forecast scores per subject: the current mean plus five points, capped
/// at 95, in hundredths.
pub fn predict_future_scores(sessions: &Vec<StudySession>) -> (r: Vec<(String, u64)>)
    requires
        valid_sessions(sessions@),
    ensures
        per_subject(r@, sessions@, |m: int| capped_forecast(m)),
        forall|i: int| 0 <= i < r.len() ==> (#[trigger] r[i]).1 <= 9500,
{
    let current = analyze_subject_performance(sessions);
    let ghost labels = labels_in_order(sessions@, Grouping::Subject);
    let mut r: Vec<(String, u64)> = Vec::new();
    let mut i: usize = 0;
    while i < current.len()
        invariant
            per_subject(current@, sessions@, |m: int| m),
            labels == labels_in_order(sessions@, Grouping::Subject),
            forall|k: int| 0 <= k < current.len() ==> (#[trigger] current[k]).1 <= 10000,
            i <= current.len(),
            r.len() == i,
            forall|k: int|
                0 <= k < i ==> (#[trigger] r[k]).0@ == labels[k] && r[k].1 == capped_forecast(
                    mean_retention(sessions@, Grouping::Subject, labels[k]),
                ) && r[k].1 <= 9500,
        decreases current.len() - i,
    {
        let (subject, mean) = (&current[i].0, current[i].1);
        let forecast = if mean + 500 < 9500 {
            mean + 500
        } else {
            9500
        };
        r.push((subject.clone(), forecast));
        i = i + 1;
    }
    r
}

} // verus!
