use challenge_scoring::json::JsonValue;
use challenge_scoring::leaderboard::{find_entry, leaderboard_view, LeaderboardQuery};
use challenge_scoring::report::{progress_summary, report_progress, try_report_progress};
use challenge_scoring::store::{ProgressRow, ProgressTable, ReportProgressRequest};
use challenge_scoring::error::AppError;

const CH: u128 = 7;

fn req(goals: &[&str], value: i32) -> ReportProgressRequest {
    ReportProgressRequest {
        completed_goals: goals.iter().map(|g| g.to_string()).collect(),
        current_value: value,
        qualifying_qso_count: 0,
        last_qso_date: None,
    }
}

fn put(t: &mut ProgressTable, callsign: &str, score: i32, now: i64) {
    t.upsert_progress(CH, callsign, &req(&[], score), score, None, now);
}

fn query(limit: Option<i64>, offset: Option<i64>, around: Option<&str>) -> LeaderboardQuery {
    LeaderboardQuery { limit, offset, around: around.map(|s| s.to_string()) }
}

#[test]
fn same_report_twice_keeps_one_row_with_latest_payload() {
    let mut t = ProgressTable::new();
    let first = t.upsert_progress(CH, "K1ABC", &req(&["a", "b"], 5), 2, Some("bronze".to_string()), 100);
    let second = t.upsert_progress(CH, "K1ABC", &req(&["a", "b"], 5), 2, Some("bronze".to_string()), 200);
    assert_eq!(t.len(), 1);
    assert_eq!(first.id, second.id);
    let row = t.get_progress(CH, "K1ABC").unwrap();
    assert_eq!(row.completed_goals, vec!["a".to_string(), "b".to_string()]);
    assert_eq!(row.current_value, 5);
    assert_eq!(row.score, 2);
    assert_eq!(row.current_tier.as_deref(), Some("bronze"));
    assert_eq!(row.updated_at, 200);
}

#[test]
fn second_report_replaces_not_merges() {
    let mut t = ProgressTable::new();
    t.upsert_progress(CH, "K1ABC", &req(&["a", "b"], 5), 2, Some("bronze".to_string()), 100);
    let mut r2 = req(&["c"], 9);
    r2.last_qso_date = Some(42);
    t.upsert_progress(CH, "K1ABC", &r2, 1, None, 300);
    assert_eq!(t.len(), 1);
    let row = t.get_progress(CH, "k1abc").unwrap();
    assert_eq!(row.completed_goals, vec!["c".to_string()]);
    assert_eq!(row.current_value, 9);
    assert_eq!(row.score, 1);
    assert_eq!(row.current_tier, None);
    assert_eq!(row.last_qso_date, Some(42));
    assert_eq!(row.updated_at, 300);
}

#[test]
fn callsign_lookup_ignores_case() {
    let mut t = ProgressTable::new();
    let written = t.upsert_progress(CH, "ab1cd", &req(&["x"], 3), 1, None, 10);
    assert_eq!(written.callsign, "AB1CD");
    let found = t.get_progress(CH, "AB1CD").unwrap();
    assert_eq!(found.id, written.id);
    assert_eq!(found.completed_goals, vec!["x".to_string()]);
    t.upsert_progress(CH, "Ab1Cd", &req(&["y"], 4), 1, None, 20);
    assert_eq!(t.len(), 1);
    assert!(t.get_progress(CH, "zz9zz").is_none());
    assert!(t.get_progress(CH + 1, "AB1CD").is_none());
}

#[test]
fn ranks_share_on_tie_and_skip_after() {
    let mut t = ProgressTable::new();
    put(&mut t, "A", 100, 10);
    put(&mut t, "B", 100, 10);
    put(&mut t, "C", 50, 5);
    let board = t.standings(CH);
    let ranks: Vec<i64> = board.iter().map(|e| e.rank).collect();
    assert_eq!(ranks, vec![1, 1, 3]);
    assert_eq!(board[2].callsign, "C");
    assert_eq!(t.get_rank(CH, "a"), Some(1));
    assert_eq!(t.get_rank(CH, "c"), Some(3));
    assert_eq!(t.get_rank(CH, "nobody"), None);
}

#[test]
fn earlier_update_ranks_first_on_equal_score() {
    let mut t = ProgressTable::new();
    put(&mut t, "LATE", 100, 20);
    put(&mut t, "EARLY", 100, 10);
    put(&mut t, "LOW", 50, 1);
    let board = t.standings(CH);
    let names: Vec<&str> = board.iter().map(|e| e.callsign.as_str()).collect();
    assert_eq!(names, vec!["EARLY", "LATE", "LOW"]);
    let ranks: Vec<i64> = board.iter().map(|e| e.rank).collect();
    assert_eq!(ranks, vec![1, 2, 3]);
}

#[test]
fn completed_at_only_for_positive_scores() {
    let mut t = ProgressTable::new();
    put(&mut t, "A", 10, 77);
    put(&mut t, "B", 0, 88);
    let board = t.standings(CH);
    assert_eq!(board[0].completed_at, Some(77));
    assert_eq!(board[1].completed_at, None);
}

fn five() -> ProgressTable {
    let mut t = ProgressTable::new();
    put(&mut t, "P1", 500, 1);
    put(&mut t, "P2", 400, 1);
    put(&mut t, "P3", 300, 1);
    put(&mut t, "P4", 200, 1);
    put(&mut t, "P5", 100, 1);
    put_other(&mut t);
    t
}

fn put_other(t: &mut ProgressTable) {
    t.upsert_progress(CH + 1, "P3", &req(&[], 999), 999, None, 1);
}

#[test]
fn around_window_one_returns_neighbours() {
    let t = five();
    let w = t.get_leaderboard_around(CH, "p3", 1);
    let ranks: Vec<i64> = w.iter().map(|e| e.rank).collect();
    assert_eq!(ranks, vec![2, 3, 4]);
    let names: Vec<&str> = w.iter().map(|e| e.callsign.as_str()).collect();
    assert_eq!(names, vec!["P2", "P3", "P4"]);
}

#[test]
fn around_unknown_callsign_is_empty() {
    let t = five();
    assert!(t.get_leaderboard_around(CH, "NOBODY", 5).is_empty());
}

#[test]
fn page_slices_and_counts() {
    let t = five();
    let (page, total) = t.get_leaderboard(CH, &query(Some(2), Some(1), None)).ok().unwrap();
    assert_eq!(total, 5);
    let names: Vec<&str> = page.iter().map(|e| e.callsign.as_str()).collect();
    assert_eq!(names, vec!["P2", "P3"]);
    let (page, _) = t.get_leaderboard(CH, &query(None, None, None)).ok().unwrap();
    assert_eq!(page.len(), 5);
    let (page, _) = t.get_leaderboard(CH, &query(Some(1000), Some(4), None)).ok().unwrap();
    assert_eq!(page.len(), 1);
    let (page, total) = t.get_leaderboard(CH, &query(Some(3), Some(10), None)).ok().unwrap();
    assert!(page.is_empty());
    assert_eq!(total, 5);
}

#[test]
fn negative_paging_is_refused() {
    let t = five();
    assert!(matches!(t.get_leaderboard(CH, &query(Some(-1), None, None)), Err(AppError::Validation { .. })));
    assert!(matches!(t.get_leaderboard(CH, &query(None, Some(-3), None)), Err(AppError::Validation { .. })));
}

#[test]
fn view_with_around_uses_window_and_position() {
    let t = five();
    let v = leaderboard_view(&t, CH, &query(Some(1), Some(3), Some("p1"))).ok().unwrap();
    assert_eq!(v.total, 5);
    assert_eq!(v.leaderboard.len(), 5);
    let pos = v.user_position.unwrap();
    assert_eq!(pos.callsign, "P1");
    assert_eq!(pos.rank, 1);
    let v = leaderboard_view(&t, CH, &query(Some(1), Some(3), None)).ok().unwrap();
    assert_eq!(v.leaderboard.len(), 1);
    assert_eq!(v.leaderboard[0].callsign, "P4");
    assert!(v.user_position.is_none());
    assert!(find_entry(&v.leaderboard, "p4").is_some());
    assert!(find_entry(&v.leaderboard, "p5").is_none());
}

#[test]
fn from_rows_rejects_duplicate_keys() {
    let row = |cs: &str, score: i32| ProgressRow {
        id: 1,
        challenge_id: CH,
        callsign: cs.to_string(),
        completed_goals: vec![],
        current_value: 0,
        score,
        current_tier: None,
        last_qso_date: None,
        updated_at: 0,
    };
    assert!(ProgressTable::from_rows(&vec![row("A", 1), row("A", 2)]).is_none());
    let t = ProgressTable::from_rows(&vec![row("A", 1), row("B", 2)]).unwrap();
    assert_eq!(t.get_rank(CH, "B"), Some(1));
    assert_eq!(t.row(0).callsign, "A");
}

fn scoring_config() -> JsonValue {
    JsonValue::Object(vec![
        (
            "scoring".to_string(),
            JsonValue::Object(vec![("method".to_string(), JsonValue::Str("percentage".to_string()))]),
        ),
        (
            "goals".to_string(),
            JsonValue::Object(vec![(
                "items".to_string(),
                JsonValue::Array((0..4).map(|_| JsonValue::Null).collect()),
            )]),
        ),
        (
            "tiers".to_string(),
            JsonValue::Array(vec![JsonValue::Object(vec![
                ("threshold".to_string(), JsonValue::Int(50)),
                ("id".to_string(), JsonValue::Str("silver".to_string())),
            ])]),
        ),
    ])
}

#[test]
fn report_then_summary() {
    let mut t = ProgressTable::new();
    let c = scoring_config();
    let r = report_progress(&mut t, &c, CH, "w1aw", req(&["a", "b", "c"], 0), 5);
    assert_eq!(r.score, 75);
    assert_eq!(r.current_tier.as_deref(), Some("silver"));
    assert_eq!(r.rank, 1);
    assert_eq!((r.percentage.part, r.percentage.whole), (3, 4));
    let s = progress_summary(&t, &c, CH, "W1AW").ok().unwrap();
    assert_eq!(s.score, 75);
    assert_eq!(s.completed_goals.len(), 3);
    assert!(matches!(progress_summary(&t, &c, CH, "N0NE"), Err(AppError::NotParticipating)));
}

#[test]
fn try_variants_record_when_there_is_room() {
    let mut t = ProgressTable::new();
    assert!(t.has_room_for(CH, "k1abc"));
    let row = t.try_upsert_progress(CH, "k1abc", &req(&["a"], 1), 1, None, 9).unwrap();
    assert_eq!(row.callsign, "K1ABC");
    let c = scoring_config();
    let r = try_report_progress(&mut t, &c, CH, "K1ABC", req(&["a", "b"], 0), 10).unwrap();
    assert_eq!(r.score, 50);
    assert_eq!(t.len(), 1);
}

#[test]
fn ties_on_both_keys_keep_table_order() {
    let mut t = ProgressTable::new();
    put(&mut t, "SECOND", 10, 5);
    put(&mut t, "FIRST", 20, 1);
    put(&mut t, "THIRD", 10, 5);
    let names: Vec<String> = t.standings(CH).into_iter().map(|e| e.callsign).collect();
    assert_eq!(names, vec!["FIRST", "SECOND", "THIRD"]);
}
