use vstd::prelude::*;

use crate::json::{field, field_of, int_of, items_of, text_eq, text_of, JsonValue};

verus! {

/// How a participant's score is computed.
#[derive(PartialEq, Eq, Structural, Clone, Copy, Debug)]
pub enum ScoringMethod {
    /// The number of reported completed goals.
    Count,
    /// The share of the challenge's goals that were completed, in percent.
    Percentage,
    /// The reported current value, as is.
    Points,
}

/// How the completion percentage is computed.
#[derive(PartialEq, Eq, Structural, Clone, Copy, Debug)]
pub enum GoalType {
    /// Completed goals out of the listed goal items.
    Collection,
    /// Current value out of a target value.
    Cumulative,
    /// Any other goal type: the percentage is always zero.
    Other,
}

/// One tier: reached once the score is at least `threshold`.
pub struct TierRule {
    pub threshold: i64,
    pub id: Option<String>,
}

/// The interpreted form of a challenge's configuration document.
pub struct ScoringPolicy {
    pub method: ScoringMethod,
    pub goal_type: GoalType,
    pub total_goals: usize,
    pub target_value: i64,
    /// Tiers in the order the configuration lists them.
    pub tiers: Vec<TierRule>,
}

/// The mathematical content of a `ScoringPolicy`.
pub struct PolicyModel {
    pub method: ScoringMethod,
    pub goal_type: GoalType,
    pub total_goals: nat,
    pub target_value: i64,
    pub tiers: Seq<(i64, Option<Seq<char>>)>,
}

/// The characters of an optional string.
pub open spec fn opt_text(o: Option<String>) -> Option<Seq<char>> {
    match o {
        Some(s) => Some(s@),
        None => None,
    }
}

impl View for TierRule {
    type V = (i64, Option<Seq<char>>);

    open spec fn view(&self) -> (i64, Option<Seq<char>>) {
        (self.threshold, opt_text(self.id))
    }
}

impl View for ScoringPolicy {
    type V = PolicyModel;

    open spec fn view(&self) -> PolicyModel {
        PolicyModel {
            method: self.method,
            goal_type: self.goal_type,
            total_goals: self.total_goals as nat,
            target_value: self.target_value,
            tiers: self.tiers@.map_values(|t: TierRule| t@),
        }
    }
}

/// `scoring.method`: "percentage" and "points" are recognised; anything else,
/// a missing value included, scores by count.
pub open spec fn method_of(config: JsonValue) -> ScoringMethod {
    match text_of(field_of(field(config, "scoring"@), "method"@)) {
        Some(m) => if m == "percentage"@ {
            ScoringMethod::Percentage
        } else if m == "points"@ {
            ScoringMethod::Points
        } else {
            ScoringMethod::Count
        },
        None => ScoringMethod::Count,
    }
}

/// `goals.type`, "collection" when missing.
pub open spec fn goal_type_of(config: JsonValue) -> GoalType {
    match text_of(field_of(field(config, "goals"@), "type"@)) {
        Some(t) => if t == "collection"@ {
            GoalType::Collection
        } else if t == "cumulative"@ {
            GoalType::Cumulative
        } else {
            GoalType::Other
        },
        None => GoalType::Collection,
    }
}

/// The length of `goals.items`, 0 when it is missing or not an array.
pub open spec fn total_goals_of(config: JsonValue) -> nat {
    match items_of(field_of(field(config, "goals"@), "items"@)) {
        Some(items) => items.len(),
        None => 0,
    }
}

/// `goals.targetValue`, 100 when it is missing or not an integer.
pub open spec fn target_value_of(config: JsonValue) -> i64 {
    match int_of(field_of(field(config, "goals"@), "targetValue"@)) {
        Some(n) => n,
        None => 100,
    }
}

/// The threshold of one tier entry.
pub open spec fn threshold_of(t: JsonValue) -> Option<i64> {
    int_of(field(t, "threshold"@))
}

/// The (threshold, id) pair of a tier entry whose threshold is an integer.
pub open spec fn tier_entry(t: JsonValue) -> (i64, Option<Seq<char>>) {
    (threshold_of(t)->0, text_of(field(t, "id"@)))
}

/// `tiers`, in list order. A missing list, one that is not an array, or one
/// with an entry whose threshold is not an integer gives no tiers.
pub open spec fn tiers_of(config: JsonValue) -> Seq<(i64, Option<Seq<char>>)> {
    match items_of(field(config, "tiers"@)) {
        Some(items) => if forall|i: int| 0 <= i < items.len() ==> (#[trigger] threshold_of(items[i])) is Some {
            items.map_values(|t: JsonValue| tier_entry(t))
        } else {
            Seq::empty()
        },
        None => Seq::empty(),
    }
}

/// The policy that a configuration document describes.
pub open spec fn policy_of(config: JsonValue) -> PolicyModel {
    PolicyModel {
        method: method_of(config),
        goal_type: goal_type_of(config),
        total_goals: total_goals_of(config),
        target_value: target_value_of(config),
        tiers: tiers_of(config),
    }
}

fn clone_text(o: &Option<String>) -> (r: Option<String>)
    ensures
        opt_text(r) == opt_text(*o),
{
    match o {
        Some(s) => Some(s.clone()),
        None => None,
    }
}

fn read_method(config: &JsonValue) -> (r: ScoringMethod)
    ensures
        r == method_of(*config),
{
    let m = match config.get("scoring") {
        Some(s) => match s.get("method") {
            Some(m) => m.as_str(),
            None => None,
        },
        None => None,
    };
    match m {
        Some(m) => if text_eq(m, "percentage") {
            ScoringMethod::Percentage
        } else if text_eq(m, "points") {
            ScoringMethod::Points
        } else {
            ScoringMethod::Count
        },
        None => ScoringMethod::Count,
    }
}

fn read_goal_type(config: &JsonValue) -> (r: GoalType)
    ensures
        r == goal_type_of(*config),
{
    let t = match config.get("goals") {
        Some(g) => match g.get("type") {
            Some(t) => t.as_str(),
            None => None,
        },
        None => None,
    };
    match t {
        Some(t) => if text_eq(t, "collection") {
            GoalType::Collection
        } else if text_eq(t, "cumulative") {
            GoalType::Cumulative
        } else {
            GoalType::Other
        },
        None => GoalType::Collection,
    }
}

/// The number of goal items the configuration lists under `goals.items`.
pub fn get_total_goals(config: &JsonValue) -> (r: usize)
    ensures
        r == total_goals_of(*config),
{
    match config.get("goals") {
        Some(g) => match g.get("items") {
            Some(items) => match items.as_array() {
                Some(a) => a.len(),
                None => 0,
            },
            None => 0,
        },
        None => 0,
    }
}

fn read_target_value(config: &JsonValue) -> (r: i64)
    ensures
        r == target_value_of(*config),
{
    match config.get("goals") {
        Some(g) => match g.get("targetValue") {
            Some(t) => match t.as_i64() {
                Some(n) => n,
                None => 100,
            },
            None => 100,
        },
        None => 100,
    }
}

fn read_tiers(config: &JsonValue) -> (r: Vec<TierRule>)
    ensures
        r@.map_values(|t: TierRule| t@) == tiers_of(*config),
{
    let items = match config.get("tiers") {
        Some(t) => match t.as_array() {
            Some(a) => a,
            None => {
                let r: Vec<TierRule> = Vec::new();
                assert(r@.map_values(|t: TierRule| t@) =~= Seq::empty());
                return r;
            },
        },
        None => {
            let r: Vec<TierRule> = Vec::new();
            assert(r@.map_values(|t: TierRule| t@) =~= Seq::empty());
            return r;
        },
    };
    let mut rules: Vec<TierRule> = Vec::new();
    let mut i: usize = 0;
    while i < items.len()
        invariant
            i <= items@.len(),
            items_of(field(*config, "tiers"@)) == Some(items@),
            rules@.len() == i,
            forall|j: int| 0 <= j < i ==> (#[trigger] threshold_of(items@[j])) is Some,
            forall|j: int| 0 <= j < i ==> #[trigger] rules@[j]@ == tier_entry(items@[j]),
        decreases items@.len() - i,
    {
        let item = &items[i];
        let threshold = match item.get("threshold") {
            Some(t) => t.as_i64(),
            None => None,
        };
        match threshold {
            Some(threshold) => {
                let id = match item.get("id") {
                    Some(v) => match v.as_str() {
                        Some(s) => Some(s.to_owned()),
                        None => None,
                    },
                    None => None,
                };
                rules.push(TierRule { threshold, id });
            },
            None => {
                assert(threshold_of(items@[i as int]) is None);
                let r: Vec<TierRule> = Vec::new();
                assert(r@.map_values(|t: TierRule| t@) =~= Seq::empty());
                return r;
            },
        }
        i = i + 1;
    }
    assert(rules@.map_values(|t: TierRule| t@) =~= items@.map_values(|t: JsonValue| tier_entry(t)));
    rules
}

/// Reads a challenge's configuration document into a scoring policy. Never
/// fails: every missing or malformed part takes its default.
pub fn interpret(config: &JsonValue) -> (p: ScoringPolicy)
    ensures
        p@ == policy_of(*config),
{
    ScoringPolicy {
        method: read_method(config),
        goal_type: read_goal_type(config),
        total_goals: get_total_goals(config),
        target_value: read_target_value(config),
        tiers: read_tiers(config),
    }
}

} // verus!
