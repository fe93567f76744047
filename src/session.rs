use vstd::prelude::*;

verus! {

/// Largest number of sessions one analysis accepts; the totals it computes
/// are sized for this bound.
pub const MAX_SESSIONS: usize = 1048576;

/// One observed study event.
#[derive(Debug, PartialEq, Eq)]
pub struct StudySession {
    pub subject: String,
    /// Hours studied, in hundredths of an hour.
    pub hours_studied_x100: u32,
    pub time_of_day: String,
    /// Self-reported understanding, 0 to 100.
    pub understanding_score: u32,
    /// Measured retention, 0 to 100.
    pub retention_score: u32,
}

impl Clone for StudySession {
    fn clone(&self) -> (r: Self)
        ensures
            r == *self,
    {
        StudySession {
            subject: self.subject.clone(),
            hours_studied_x100: self.hours_studied_x100,
            time_of_day: self.time_of_day.clone(),
            understanding_score: self.understanding_score,
            retention_score: self.retention_score,
        }
    }
}

impl StudySession {
    /// Both scores lie in 0..=100.
    pub open spec fn wf(&self) -> bool {
        self.understanding_score <= 100 && self.retention_score <= 100
    }

    /// Effectiveness `(0.4 * understanding + 0.6 * retention) / 100`, in
    /// ten-thousandths (so 1.0 is `10000`).
    pub fn effectiveness_score(&self) -> (r: u32)
        requires
            self.wf(),
        ensures
            r == 40 * self.understanding_score + 60 * self.retention_score,
            r <= 10000,
    {
        40 * self.understanding_score + 60 * self.retention_score
    }
}

/// Every session of `s` is well formed.
pub open spec fn all_wf(s: Seq<StudySession>) -> bool {
    forall|i: int| 0 <= i < s.len() ==> #[trigger] s[i].wf()
}

/// A snapshot one analysis accepts: well formed and within the size bound.
pub open spec fn valid_sessions(s: Seq<StudySession>) -> bool {
    all_wf(s) && s.len() <= MAX_SESSIONS
}

/// Sum of the hours of `s`, in hundredths.
pub open spec fn total_hours(s: Seq<StudySession>) -> int
    decreases s.len(),
{
    if s.len() == 0 {
        0
    } else {
        total_hours(s.drop_last()) + s.last().hours_studied_x100
    }
}

/// Sum of the retention scores of `s`.
pub open spec fn total_retention(s: Seq<StudySession>) -> int
    decreases s.len(),
{
    if s.len() == 0 {
        0
    } else {
        total_retention(s.drop_last()) + s.last().retention_score
    }
}

/// Sum of the understanding scores of `s`.
pub open spec fn total_understanding(s: Seq<StudySession>) -> int
    decreases s.len(),
{
    if s.len() == 0 {
        0
    } else {
        total_understanding(s.drop_last()) + s.last().understanding_score
    }
}

} // verus!
