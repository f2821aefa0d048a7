use vstd::prelude::*;

use crate::error::AppError;
use crate::json::JsonValue;
use crate::policy::{interpret, method_of, opt_text, policy_of, total_goals_of, ScoringMethod};
use crate::scoring::{percentage_of, score_of, tier_for, Ratio};
use crate::store::{
    clone_texts, key_index, lookup, payload_of, rank_of, texts, upper_of, upserted, ProgressModel, ProgressRow,
    ProgressTable, ReportProgressRequest,
};

verus! {

/// A participant's progress as the service reports it back.
pub struct ProgressResponse {
    pub completed_goals: Vec<String>,
    pub current_value: i32,
    pub percentage: Ratio,
    pub score: i32,
    /// 0 when the participant has no rank.
    pub rank: i64,
    pub current_tier: Option<String>,
}

/// The score a configuration gives to a report.
pub fn calculate_score(config: &JsonValue, req: &ReportProgressRequest) -> (r: i32)
    requires
        req.completed_goals@.len() <= i32::MAX,
    ensures
        r == score_of(policy_of(*config), req.completed_goals@.len(), req.current_value),
{
    interpret(config).score(&req.completed_goals, req.current_value)
}

/// The completion percentage a configuration gives to a report.
pub fn calculate_percentage(config: &JsonValue, req: &ReportProgressRequest) -> (r: Ratio)
    ensures
        (r.part as int, r.whole as int) == percentage_of(policy_of(*config), req.completed_goals@.len(), req.current_value),
        r.whole > 0,
{
    interpret(config).percentage(&req.completed_goals, req.current_value)
}

/// The completion percentage a configuration gives to a stored row.
pub fn calculate_percentage_from_progress(config: &JsonValue, progress: &ProgressRow) -> (r: Ratio)
    ensures
        (r.part as int, r.whole as int) == percentage_of(
            policy_of(*config),
            progress.completed_goals@.len(),
            progress.current_value,
        ),
        r.whole > 0,
{
    interpret(config).percentage(&progress.completed_goals, progress.current_value)
}

/// The tier a configuration gives to `score`.
pub fn determine_tier(config: &JsonValue, score: i32) -> (r: Option<String>)
    ensures
        opt_text(r) == tier_for(policy_of(*config).tiers, score as int),
{
    interpret(config).tier(score)
}

/// Records a report of `callsign` in a challenge whose configuration is
/// `config`, at time `now`: computes its score and tier, replaces the stored
/// progress of that callsign, and returns what the participant is shown.
pub fn report_progress(
    table: &mut ProgressTable,
    config: &JsonValue,
    challenge_id: u128,
    callsign: &str,
    req: ReportProgressRequest,
    now: i64,
) -> (r: ProgressResponse)
    requires
        old(table).wf(),
        key_index(old(table)@, challenge_id, upper_of(callsign@)) is None ==> old(table)@.len() + 1
            < i64::MAX,
        req.completed_goals@.len() <= i32::MAX,
    ensures
        final(table).wf(),
        r.score == score_of(policy_of(*config), req.completed_goals@.len(), req.current_value),
        opt_text(r.current_tier) == tier_for(policy_of(*config).tiers, r.score as int),
        (r.percentage.part as int, r.percentage.whole as int) == percentage_of(
            policy_of(*config),
            req.completed_goals@.len(),
            req.current_value,
        ),
        texts(r.completed_goals@) == texts(req.completed_goals@),
        r.current_value == req.current_value,
        exists|id: u128|
            final(table)@ == #[trigger] upserted(
                old(table)@,
                id,
                challenge_id,
                upper_of(callsign@),
                payload_of(req, r.score, r.current_tier),
                now,
            ),
        lookup(final(table)@, challenge_id, upper_of(callsign@)) matches Some(row) && r.rank == rank_of(
            final(table)@,
            challenge_id,
            row,
        ),
{
    let policy = interpret(config);
    let score = policy.score(&req.completed_goals, req.current_value);
    let current_tier = policy.tier(score);
    let tier_copy = match &current_tier {
        Some(s) => Some(s.clone()),
        None => None,
    };
    let row = table.upsert_progress(challenge_id, callsign, &req, score, tier_copy, now);
    let rank = match table.get_rank(challenge_id, callsign) {
        Some(n) => n,
        None => 0,
    };
    let percentage = policy.percentage(&req.completed_goals, req.current_value);
    ProgressResponse {
        completed_goals: req.completed_goals,
        current_value: req.current_value,
        percentage,
        score,
        rank,
        current_tier,
    }
}

/// `report_progress` where the report can be recorded: `None`, with the
/// table unchanged, when the report lists more than `i32::MAX` goals or the
/// table has no room for a new row.
pub fn try_report_progress(
    table: &mut ProgressTable,
    config: &JsonValue,
    challenge_id: u128,
    callsign: &str,
    req: ReportProgressRequest,
    now: i64,
) -> (r: Option<ProgressResponse>)
    requires
        old(table).wf(),
    ensures
        final(table).wf(),
        match r {
            Some(resp) => {
                &&& resp.score == score_of(policy_of(*config), req.completed_goals@.len(), req.current_value)
                &&& opt_text(resp.current_tier) == tier_for(policy_of(*config).tiers, resp.score as int)
                &&& (resp.percentage.part as int, resp.percentage.whole as int) == percentage_of(
                    policy_of(*config),
                    req.completed_goals@.len(),
                    req.current_value,
                )
                &&& exists|id: u128|
                    final(table)@ == #[trigger] upserted(
                        old(table)@,
                        id,
                        challenge_id,
                        upper_of(callsign@),
                        payload_of(req, resp.score, resp.current_tier),
                        now,
                    )
                &&& lookup(final(table)@, challenge_id, upper_of(callsign@)) matches Some(row)
                    && resp.rank == rank_of(final(table)@, challenge_id, row)
            },
            None => {
                &&& final(table)@ == old(table)@
                &&& req.completed_goals@.len() > i32::MAX || (key_index(
                    old(table)@,
                    challenge_id,
                    upper_of(callsign@),
                ) is None && old(table)@.len() + 1 >= i64::MAX)
            },
        },
{
    if req.completed_goals.len() as u64 > i32::MAX as u64 || !table.has_room_for(challenge_id, callsign) {
        return None;
    }
    Some(report_progress(table, config, challenge_id, callsign, req, now))
}

/// The stored progress of `callsign` in a challenge, with its rank and its
/// completion percentage under the current configuration; `NotParticipating`
/// when the callsign has no progress there.
pub fn progress_summary(table: &ProgressTable, config: &JsonValue, challenge_id: u128, callsign: &str) -> (r: Result<
    ProgressResponse,
    AppError,
>)
    requires
        table.wf(),
    ensures
        match lookup(table@, challenge_id, upper_of(callsign@)) {
            Some(row) => match r {
                Ok(resp) => {
                    &&& texts(resp.completed_goals@) == row.completed_goals
                    &&& resp.current_value == row.current_value
                    &&& resp.score == row.score
                    &&& opt_text(resp.current_tier) == row.current_tier
                    &&& resp.rank == rank_of(table@, challenge_id, row)
                    &&& (resp.percentage.part as int, resp.percentage.whole as int) == percentage_of(
                        policy_of(*config),
                        row.completed_goals.len(),
                        row.current_value,
                    )
                },
                Err(_) => false,
            },
            None => r matches Err(AppError::NotParticipating),
        },
{
    let row = match table.get_progress(challenge_id, callsign) {
        Some(row) => row,
        None => {
            return Err(AppError::NotParticipating);
        },
    };
    let rank = match table.get_rank(challenge_id, callsign) {
        Some(n) => n,
        None => 0,
    };
    let percentage = calculate_percentage_from_progress(config, &row);
    Ok(
        ProgressResponse {
            completed_goals: row.completed_goals,
            current_value: row.current_value,
            percentage,
            score: row.score,
            rank,
            current_tier: row.current_tier,
        },
    )
}

/// Under `scoring.method` "count" (or no method, or one not recognised) the
/// score is the number of reported goals, duplicates included.
pub proof fn lemma_count_scoring(config: JsonValue, completed: nat, current_value: i32)
    requires
        method_of(config) == ScoringMethod::Count,
    ensures
        score_of(policy_of(config), completed, current_value) == completed,
{
}

/// Under `scoring.method` "points" the score is the reported current value,
/// whatever goals are reported.
pub proof fn lemma_points_scoring(config: JsonValue, completed: nat, current_value: i32)
    requires
        method_of(config) == ScoringMethod::Points,
    ensures
        score_of(policy_of(config), completed, current_value) == current_value,
{
}

/// Under `scoring.method` "percentage" with no goal items the score is 0.
pub proof fn lemma_percentage_without_goals(config: JsonValue, completed: nat, current_value: i32)
    requires
        method_of(config) == ScoringMethod::Percentage,
        total_goals_of(config) == 0,
    ensures
        score_of(policy_of(config), completed, current_value) == 0,
{
}

} // verus!
