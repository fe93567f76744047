use vstd::prelude::*;

verus! {

/// One piece of advice. Confidence and impact are in hundredths
/// (confidence 0..=100, impact 0..=1000).
#[derive(Debug, PartialEq, Eq)]
pub struct Recommendation {
    pub category: String,
    pub message: String,
    pub confidence: u64,
    pub impact_score: u64,
}

/// The four threshold rules, in the order they are checked.
#[derive(Clone, Copy, PartialEq, Eq, Structural)]
pub enum Advice {
    /// Fewer than 10 hours a week.
    Duration,
    /// Fewer than 30 retention points per hour.
    Efficiency,
    /// Consistency below 70.
    Consistency,
    /// Understanding and retention more than 20 points apart.
    Learning,
}

pub open spec fn category_of(a: Advice) -> Seq<char> {
    match a {
        Advice::Duration => "duration"@,
        Advice::Efficiency => "efficiency"@,
        Advice::Consistency => "consistency"@,
        Advice::Learning => "learning"@,
    }
}

pub open spec fn message_of(a: Advice) -> Seq<char> {
    match a {
        Advice::Duration => "Consider increasing study time to 10+ hours weekly for better results"@,
        Advice::Efficiency => "Focus on active recall techniques to improve retention per study hour"@,
        Advice::Consistency => "Try studying at consistent times each day to build better habits"@,
        Advice::Learning => "Work on converting understanding to long-term retention through spaced repetition"@,
    }
}

/// Confidence in hundredths.
pub open spec fn confidence_of(a: Advice) -> int {
    match a {
        Advice::Duration => 80,
        Advice::Efficiency => 70,
        Advice::Consistency => 90,
        Advice::Learning => 75,
    }
}

/// Expected impact in hundredths.
pub open spec fn impact_of(a: Advice) -> int {
    match a {
        Advice::Duration => 750,
        Advice::Efficiency => 800,
        Advice::Consistency => 650,
        Advice::Learning => 700,
    }
}

/// `r` is the recommendation that rule `a` emits.
pub open spec fn is_advice(r: Recommendation, a: Advice) -> bool {
    &&& r.category@ == category_of(a)
    &&& r.message@ == message_of(a)
    &&& r.confidence == confidence_of(a)
    &&& r.impact_score == impact_of(a)
}

/// `r` is, in order, the recommendations that the rules `a` emit.
pub open spec fn advises(r: Seq<Recommendation>, a: Seq<Advice>) -> bool {
    r.len() == a.len() && forall|i: int| 0 <= i < r.len() ==> is_advice(#[trigger] r[i], a[i])
}

/// The rules that fire, in order, for the given metrics (all in
/// hundredths).
pub open spec fn advice_for(weekly_hours: int, efficiency: int, consistency: int, correlation: int) -> Seq<Advice> {
    let a = if weekly_hours < 1000 { seq![Advice::Duration] } else { Seq::empty() };
    let b = if efficiency < 3000 { seq![Advice::Efficiency] } else { Seq::empty() };
    let c = if consistency < 7000 { seq![Advice::Consistency] } else { Seq::empty() };
    let d = if correlation < 8000 { seq![Advice::Learning] } else { Seq::empty() };
    a + b + c + d
}

/// With every metric at or above its threshold, no rule fires.
pub proof fn lemma_no_advice_above_thresholds(
    weekly_hours: int,
    efficiency: int,
    consistency: int,
    correlation: int,
)
    requires
        weekly_hours >= 1000,
        efficiency >= 3000,
        consistency >= 7000,
        correlation >= 8000,
    ensures
        advice_for(weekly_hours, efficiency, consistency, correlation).len() == 0,
{
}

fn make(a: Advice) -> (r: Recommendation)
    ensures
        is_advice(r, a),
{
    match a {
        Advice::Duration => Recommendation {
            category: "duration".to_string(),
            message: "Consider increasing study time to 10+ hours weekly for better results".to_string(),
            confidence: 80,
            impact_score: 750,
        },
        Advice::Efficiency => Recommendation {
            category: "efficiency".to_string(),
            message: "Focus on active recall techniques to improve retention per study hour".to_string(),
            confidence: 70,
            impact_score: 800,
        },
        Advice::Consistency => Recommendation {
            category: "consistency".to_string(),
            message: "Try studying at consistent times each day to build better habits".to_string(),
            confidence: 90,
            impact_score: 650,
        },
        Advice::Learning => Recommendation {
            category: "learning".to_string(),
            message: "Work on converting understanding to long-term retention through spaced repetition".to_string(),
            confidence: 75,
            impact_score: 700,
        },
    }
}

/// Applies the four threshold rules, in order, to the given metrics (all
/// in hundredths).
pub fn generate_recommendations(
    weekly_hours: u64,
    efficiency: u64,
    consistency: u64,
    correlation: u64,
) -> (r: Vec<Recommendation>)
    ensures
        advises(
            r@,
            advice_for(weekly_hours as int, efficiency as int, consistency as int, correlation as int),
        ),
{
    let ghost expected = advice_for(
        weekly_hours as int,
        efficiency as int,
        consistency as int,
        correlation as int,
    );
    let mut fired: Vec<Advice> = Vec::new();
    if weekly_hours < 1000 {
        fired.push(Advice::Duration);
    }
    if efficiency < 3000 {
        fired.push(Advice::Efficiency);
    }
    if consistency < 7000 {
        fired.push(Advice::Consistency);
    }
    if correlation < 8000 {
        fired.push(Advice::Learning);
    }
    assert(fired@ =~= expected);
    let mut r: Vec<Recommendation> = Vec::new();
    let mut i: usize = 0;
    while i < fired.len()
        invariant
            fired@ == expected,
            i <= fired.len(),
            r.len() == i,
            forall|k: int| 0 <= k < i ==> is_advice(#[trigger] r[k], expected[k]),
        decreases fired.len() - i,
    {
        r.push(make(fired[i]));
        i = i + 1;
    }
    r
}

} // verus!
