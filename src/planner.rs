use vstd::prelude::*;
use crate::predictor::{what_if_score, StudyPredictor};

verus! {

/// One slot of the weekly plan.
#[derive(Debug, PartialEq, Eq)]
pub struct PlanEntry {
    /// Day of the week, 1 to 7.
    pub day: u32,
    pub subject: String,
    pub time_of_day: String,
    /// In hundredths of an hour.
    pub hours_x100: u32,
    /// Forecast retention, in hundredths.
    pub predicted_retention: u64,
}

/// The subjects the plan covers, in order.
pub open spec fn plan_subject(i: int) -> Seq<char> {
    if i == 0 {
        "Math"@
    } else if i == 1 {
        "Physics"@
    } else if i == 2 {
        "Programming"@
    } else if i == 3 {
        "History"@
    } else {
        "English"@
    }
}

/// The time-of-day slots, in rotation order.
pub open spec fn plan_time(j: int) -> Seq<char> {
    if j == 0 {
        "morning"@
    } else if j == 1 {
        "afternoon"@
    } else {
        "evening"@
    }
}

/// `e` is slot `k` of the plan that `p` makes: day `1 + k / 5`, subject
/// `k % 5`, time of day rotating with day and subject, `1.5 + 0.5 * subject`
/// hours, forecast at 75 understanding.
pub open spec fn is_plan_slot(e: PlanEntry, k: int, p: StudyPredictor) -> bool {
    let day = 1 + k / 5;
    let i = k % 5;
    &&& e.day == day
    &&& e.subject@ == plan_subject(i)
    &&& e.time_of_day@ == plan_time((day + i) % 3)
    &&& e.hours_x100 == 150 + 50 * i
    &&& e.predicted_retention == what_if_score(
        p.avg_retention as int,
        150 + 50 * i,
        plan_time((day + i) % 3) == p.best_time@,
        75,
    )
}

fn subject_name(i: usize) -> (r: &'static str)
    ensures
        r@ == plan_subject(i as int),
{
    if i == 0 {
        "Math"
    } else if i == 1 {
        "Physics"
    } else if i == 2 {
        "Programming"
    } else if i == 3 {
        "History"
    } else {
        "English"
    }
}

fn time_name(j: usize) -> (r: &'static str)
    ensures
        r@ == plan_time(j as int),
{
    if j == 0 {
        "morning"
    } else if j == 1 {
        "afternoon"
    } else {
        "evening"
    }
}

/// Builds a week of study slots with forecast retention.
pub struct StudyPlanner {
    pub predictor: StudyPredictor,
}

impl StudyPlanner {
    pub fn new(predictor: StudyPredictor) -> (r: Self)
        ensures
            r.predictor == predictor,
    {
        StudyPlanner { predictor }
    }

    /// Seven days of five subjects each, in day then subject order.
    pub fn generate_weekly_plan(&self) -> (r: Vec<PlanEntry>)
        requires
            self.predictor.wf(),
        ensures
            r.len() == 35,
            forall|k: int| 0 <= k < 35 ==> is_plan_slot(#[trigger] r[k], k, self.predictor),
    {
        let mut plan: Vec<PlanEntry> = Vec::new();
        let mut day: usize = 1;
        while day <= 7
            invariant
                1 <= day <= 8,
                self.predictor.wf(),
                plan.len() == 5 * (day - 1),
                forall|k: int| 0 <= k < plan.len() ==> is_plan_slot(#[trigger] plan[k], k, self.predictor),
            decreases 8 - day,
        {
            let mut i: usize = 0;
            while i < 5
                invariant
                    1 <= day <= 7,
                    i <= 5,
                    self.predictor.wf(),
                    plan.len() == 5 * (day - 1) + i,
                    forall|k: int| 0 <= k < plan.len() ==> is_plan_slot(#[trigger] plan[k], k, self.predictor),
                decreases 5 - i,
            {
                let time = time_name((day + i) % 3);
                let hours = (150 + 50 * i) as u32;
                let predicted = self.predictor.predict_retention(hours, time, 75);
                let entry = PlanEntry {
                    day: day as u32,
                    subject: subject_name(i).to_string(),
                    time_of_day: time.to_string(),
                    hours_x100: hours,
                    predicted_retention: predicted,
                };
                let ghost k = plan.len() as int;
                assert(k / 5 == day - 1 && k % 5 == i) by (nonlinear_arith)
                    requires
                        k == 5 * (day - 1) + i,
                        i < 5,
                ;
                plan.push(entry);
                assert(is_plan_slot(plan[k], k, self.predictor));
                i = i + 1;
            }
            day = day + 1;
        }
        plan
    }
}

} // verus!
