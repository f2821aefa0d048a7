use challenge_scoring::json::JsonValue;
use challenge_scoring::policy::{get_total_goals, interpret, GoalType, ScoringMethod};
use challenge_scoring::report::{calculate_percentage, calculate_score, determine_tier};
use challenge_scoring::store::ReportProgressRequest;

fn s(t: &str) -> JsonValue {
    JsonValue::Str(t.to_string())
}

fn obj(fields: Vec<(&str, JsonValue)>) -> JsonValue {
    JsonValue::Object(fields.into_iter().map(|(k, v)| (k.to_string(), v)).collect())
}

fn items(n: usize) -> JsonValue {
    JsonValue::Array((0..n).map(|i| s(&format!("goal{}", i))).collect())
}

fn config(method: Option<&str>, goal_type: Option<&str>, n_items: usize) -> JsonValue {
    let mut fields = vec![];
    if let Some(m) = method {
        fields.push(("scoring", obj(vec![("method", s(m))])));
    }
    let mut goals = vec![("items", items(n_items))];
    if let Some(t) = goal_type {
        goals.push(("type", s(t)));
    }
    fields.push(("goals", obj(goals)));
    obj(fields)
}

fn tiers(list: &[(i64, &str)]) -> JsonValue {
    obj(vec![(
        "tiers",
        JsonValue::Array(
            list.iter()
                .map(|(t, id)| obj(vec![("threshold", JsonValue::Int(*t)), ("id", s(id))]))
                .collect(),
        ),
    )])
}

fn req(goals: &[&str], value: i32) -> ReportProgressRequest {
    ReportProgressRequest {
        completed_goals: goals.iter().map(|g| g.to_string()).collect(),
        current_value: value,
        qualifying_qso_count: 0,
        last_qso_date: None,
    }
}

#[test]
fn count_score_is_number_of_goals() {
    let c = config(Some("count"), None, 10);
    assert_eq!(calculate_score(&c, &req(&["a", "b", "c"], 99)), 3);
    assert_eq!(calculate_score(&c, &req(&[], 99)), 0);
}

#[test]
fn count_score_counts_duplicates() {
    let c = config(Some("count"), None, 10);
    assert_eq!(calculate_score(&c, &req(&["a", "a", "b", "a"], 0)), 4);
}

#[test]
fn missing_or_unknown_method_scores_by_count() {
    assert_eq!(calculate_score(&config(None, None, 2), &req(&["x", "y"], 50)), 2);
    assert_eq!(calculate_score(&config(Some("weird"), None, 2), &req(&["x"], 50)), 1);
    assert_eq!(calculate_score(&JsonValue::Null, &req(&["x", "y", "z"], 7)), 3);
}

#[test]
fn percentage_score_three_of_five_is_sixty() {
    let c = config(Some("percentage"), None, 5);
    assert_eq!(calculate_score(&c, &req(&["a", "b", "c"], 0)), 60);
}

#[test]
fn percentage_score_without_items_is_zero() {
    let c = config(Some("percentage"), None, 0);
    assert_eq!(calculate_score(&c, &req(&["a", "b", "c"], 0)), 0);
}

#[test]
fn percentage_score_rounds_to_nearest() {
    let c = config(Some("percentage"), None, 3);
    assert_eq!(calculate_score(&c, &req(&["a", "b"], 0)), 67);
    assert_eq!(calculate_score(&c, &req(&["a"], 0)), 33);
    let c7 = config(Some("percentage"), None, 7);
    assert_eq!(calculate_score(&c7, &req(&["a"], 0)), 14);
    let c8 = config(Some("percentage"), None, 8);
    assert_eq!(calculate_score(&c8, &req(&["a"], 0)), 13);
    let c200 = config(Some("percentage"), None, 200);
    assert_eq!(calculate_score(&c200, &req(&["a"], 0)), 1);
}

#[test]
fn points_score_is_current_value() {
    let c = config(Some("points"), None, 5);
    assert_eq!(calculate_score(&c, &req(&["a", "b"], 1234)), 1234);
    assert_eq!(calculate_score(&c, &req(&[], -5)), -5);
    assert_eq!(calculate_score(&c, &req(&["a", "b", "c", "d"], 1234)), 1234);
}

#[test]
fn tier_ascending_list_resolves_highest_reached() {
    let c = tiers(&[(0, "bronze"), (50, "silver"), (100, "gold")]);
    assert_eq!(determine_tier(&c, 75), Some("silver".to_string()));
    assert_eq!(determine_tier(&c, 100), Some("gold".to_string()));
    assert_eq!(determine_tier(&c, -1), None);
}

#[test]
fn tier_out_of_order_list_takes_last_match() {
    let c = tiers(&[(100, "gold"), (0, "bronze")]);
    assert_eq!(determine_tier(&c, 75), Some("bronze".to_string()));
    assert_eq!(determine_tier(&c, 150), Some("bronze".to_string()));
}

#[test]
fn tier_with_malformed_threshold_gives_none() {
    let c = obj(vec![(
        "tiers",
        JsonValue::Array(vec![
            obj(vec![("threshold", JsonValue::Int(0)), ("id", s("bronze"))]),
            obj(vec![("threshold", s("ten")), ("id", s("silver"))]),
        ]),
    )]);
    assert_eq!(determine_tier(&c, 75), None);
    assert_eq!(determine_tier(&JsonValue::Null, 75), None);
}

#[test]
fn tier_without_id_gives_none() {
    let c = obj(vec![(
        "tiers",
        JsonValue::Array(vec![
            obj(vec![("threshold", JsonValue::Int(0)), ("id", s("bronze"))]),
            obj(vec![("threshold", JsonValue::Int(10))]),
        ]),
    )]);
    assert_eq!(determine_tier(&c, 75), None);
    assert_eq!(determine_tier(&c, 5), Some("bronze".to_string()));
}

#[test]
fn percentage_follows_goal_type() {
    let c = config(Some("points"), Some("collection"), 4);
    let p = calculate_percentage(&c, &req(&["a"], 900));
    assert_eq!((p.part, p.whole), (1, 4));
    let cum = obj(vec![(
        "goals",
        obj(vec![("type", s("cumulative")), ("targetValue", JsonValue::Int(200))]),
    )]);
    let p = calculate_percentage(&cum, &req(&["a"], 50));
    assert_eq!((p.part, p.whole), (50, 200));
    let cum_default = obj(vec![("goals", obj(vec![("type", s("cumulative"))]))]);
    let p = calculate_percentage(&cum_default, &req(&[], 30));
    assert_eq!((p.part, p.whole), (30, 100));
    let cum_zero = obj(vec![(
        "goals",
        obj(vec![("type", s("cumulative")), ("targetValue", JsonValue::Int(0))]),
    )]);
    let p = calculate_percentage(&cum_zero, &req(&[], 30));
    assert_eq!(p.part, 0);
    let other = config(None, Some("streak"), 4);
    let p = calculate_percentage(&other, &req(&["a"], 30));
    assert_eq!(p.part, 0);
    let empty = config(None, None, 0);
    let p = calculate_percentage(&empty, &req(&["a"], 30));
    assert_eq!(p.part, 0);
    assert!(p.whole > 0);
}

#[test]
fn interpret_reads_defaults() {
    let p = interpret(&JsonValue::Null);
    assert_eq!(p.method, ScoringMethod::Count);
    assert_eq!(p.goal_type, GoalType::Collection);
    assert_eq!(p.total_goals, 0);
    assert_eq!(p.target_value, 100);
    assert!(p.tiers.is_empty());
    assert_eq!(get_total_goals(&config(None, None, 6)), 6);
}

#[test]
fn interpret_reads_configuration() {
    let mut c = config(Some("percentage"), Some("cumulative"), 3);
    if let JsonValue::Object(fields) = &mut c {
        fields.push(("tiers".to_string(), JsonValue::Array(vec![obj(vec![("threshold", JsonValue::Int(5)), ("id", s("a"))])])));
    }
    let p = interpret(&c);
    assert_eq!(p.method, ScoringMethod::Percentage);
    assert_eq!(p.goal_type, GoalType::Cumulative);
    assert_eq!(p.total_goals, 3);
    assert_eq!(p.tiers.len(), 1);
    assert_eq!(p.tiers[0].threshold, 5);
    assert_eq!(p.tiers[0].id.as_deref(), Some("a"));
}
