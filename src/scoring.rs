use vstd::prelude::*;

use crate::policy::{opt_text, GoalType, PolicyModel, ScoringMethod, ScoringPolicy, TierRule};

verus! {

/// A completion percentage as an exact fraction: the percentage is
/// `100 * part / whole`. `whole` is always positive.
pub struct Ratio {
    pub part: i128,
    pub whole: i128,
}

/// The score that a policy gives to `completed` reported goals and a reported
/// current value. A percentage score is `100 * completed / total_goals`
/// rounded to the nearest integer (halves round up), capped at `i32::MAX`.
pub open spec fn score_of(p: PolicyModel, completed: nat, current_value: i32) -> int {
    match p.method {
        ScoringMethod::Count => completed as int,
        ScoringMethod::Percentage => if p.total_goals > 0 {
            let s = (200 * completed + p.total_goals) / (2 * p.total_goals);
            if s > i32::MAX {
                i32::MAX as int
            } else {
                s as int
            }
        } else {
            0
        },
        ScoringMethod::Points => current_value as int,
    }
}

/// The (part, whole) fraction of the completion percentage. It depends on the
/// goal type only, not on the scoring method.
pub open spec fn percentage_of(p: PolicyModel, completed: nat, current_value: i32) -> (int, int) {
    match p.goal_type {
        GoalType::Collection => if p.total_goals > 0 {
            (completed as int, p.total_goals as int)
        } else {
            (0, 1)
        },
        GoalType::Cumulative => if p.target_value > 0 {
            (current_value as int, p.target_value as int)
        } else {
            (0, 1)
        },
        GoalType::Other => (0, 1),
    }
}

/// The id of the last tier, in list order, whose threshold is at most `score`.
pub open spec fn tier_for(tiers: Seq<(i64, Option<Seq<char>>)>, score: int) -> Option<Seq<char>>
    decreases tiers.len(),
{
    if tiers.len() == 0 {
        None
    } else if tiers.last().0 <= score {
        tiers.last().1
    } else {
        tier_for(tiers.drop_last(), score)
    }
}

impl ScoringPolicy {
    /// The score for a report of `completed_goals` and `current_value`.
    /// Duplicate goal identifiers count as reported.
    pub fn score(&self, completed_goals: &Vec<String>, current_value: i32) -> (r: i32)
        requires
            completed_goals@.len() <= i32::MAX,
        ensures
            r == score_of(self@, completed_goals@.len(), current_value),
            self.method == ScoringMethod::Count ==> r == completed_goals@.len(),
            self.method == ScoringMethod::Points ==> r == current_value,
            self.method == ScoringMethod::Percentage && self.total_goals == 0 ==> r == 0,
    {
        let n = completed_goals.len();
        match self.method {
            ScoringMethod::Count => n as i32,
            ScoringMethod::Percentage => {
                if self.total_goals > 0 {
                    let t = self.total_goals as u128;
                    let s: u128 = (200 * (n as u128) + t) / (2 * t);
                    if s > i32::MAX as u128 {
                        i32::MAX
                    } else {
                        s as i32
                    }
                } else {
                    0
                }
            },
            ScoringMethod::Points => current_value,
        }
    }

    /// The completion percentage for a report, as a fraction.
    pub fn percentage(&self, completed_goals: &Vec<String>, current_value: i32) -> (r: Ratio)
        ensures
            (r.part as int, r.whole as int) == percentage_of(self@, completed_goals@.len(), current_value),
            r.whole > 0,
    {
        match self.goal_type {
            GoalType::Collection => if self.total_goals > 0 {
                Ratio { part: completed_goals.len() as i128, whole: self.total_goals as i128 }
            } else {
                Ratio { part: 0, whole: 1 }
            },
            GoalType::Cumulative => if self.target_value > 0 {
                Ratio { part: current_value as i128, whole: self.target_value as i128 }
            } else {
                Ratio { part: 0, whole: 1 }
            },
            GoalType::Other => Ratio { part: 0, whole: 1 },
        }
    }

    /// The tier reached with `score`: the last tier in list order whose
    /// threshold is at most `score`. The list is not sorted first.
    pub fn tier(&self, score: i32) -> (r: Option<String>)
        ensures
            opt_text(r) == tier_for(self@.tiers, score as int),
    {
        let ghost tiers = self@.tiers;
        let mut found: Option<usize> = None;
        let mut i: usize = 0;
        while i < self.tiers.len()
            invariant
                i <= self.tiers@.len(),
                tiers == self.tiers@.map_values(|t: TierRule| t@),
                match found {
                    Some(k) => k < i && tier_for(tiers.take(i as int), score as int) == tiers[k as int].1,
                    None => tier_for(tiers.take(i as int), score as int) is None,
                },
            decreases self.tiers@.len() - i,
        {
            assert(tiers.take(i + 1).drop_last() =~= tiers.take(i as int));
            if self.tiers[i].threshold <= score as i64 {
                found = Some(i);
            }
            i = i + 1;
        }
        assert(tiers.take(i as int) =~= tiers);
        match found {
            Some(k) => match &self.tiers[k].id {
                Some(s) => Some(s.clone()),
                None => None,
            },
            None => None,
        }
    }
}

} // verus!
