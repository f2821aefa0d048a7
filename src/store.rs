use vstd::prelude::*;

use crate::policy::opt_text;

verus! {

/// Names what `str::to_uppercase` returns: the upper-case form of a callsign.
pub uninterp spec fn upper_of(s: Seq<char>) -> Seq<char>;

/// Relies on `str::to_uppercase`: the result depends on the characters alone.
#[verifier::external_body]
pub(crate) fn to_upper(s: &str) -> (r: String)
    ensures
        r@ == upper_of(s@),
{
    s.to_uppercase()
}

/// Relies on `uuid::Uuid::new_v4`: a random identifier, of which nothing is promised.
#[verifier::external_body]
fn fresh_id() -> (r: u128) {
    uuid::Uuid::new_v4().as_u128()
}

/// The characters of each string of a list.
pub open spec fn texts(v: Seq<String>) -> Seq<Seq<char>> {
    v.map_values(|s: String| s@)
}

pub(crate) fn clone_texts(v: &Vec<String>) -> (r: Vec<String>)
    ensures
        texts(r@) == texts(v@),
{
    let mut r: Vec<String> = Vec::new();
    let mut i: usize = 0;
    while i < v.len()
        invariant
            i <= v@.len(),
            r@.len() == i,
            forall|j: int| 0 <= j < i ==> #[trigger] r@[j]@ == v@[j]@,
        decreases v@.len() - i,
    {
        r.push(v[i].clone());
        i = i + 1;
    }
    assert(texts(r@) =~= texts(v@));
    r
}

pub(crate) fn clone_opt_text(o: &Option<String>) -> (r: Option<String>)
    ensures
        opt_text(r) == opt_text(*o),
{
    match o {
        Some(s) => Some(s.clone()),
        None => None,
    }
}

/// A participant's progress report. Times are microseconds since the Unix epoch.
pub struct ReportProgressRequest {
    pub completed_goals: Vec<String>,
    pub current_value: i32,
    pub qualifying_qso_count: i32,
    pub last_qso_date: Option<i64>,
}

/// The stored progress of one callsign in one challenge. Identifiers are the
/// 128-bit values of UUIDs; times are microseconds since the Unix epoch.
pub struct ProgressRow {
    pub id: u128,
    pub challenge_id: u128,
    pub callsign: String,
    pub completed_goals: Vec<String>,
    pub current_value: i32,
    pub score: i32,
    pub current_tier: Option<String>,
    pub last_qso_date: Option<i64>,
    pub updated_at: i64,
}

/// The mathematical content of a `ProgressRow`.
pub struct ProgressModel {
    pub id: u128,
    pub challenge_id: u128,
    pub callsign: Seq<char>,
    pub completed_goals: Seq<Seq<char>>,
    pub current_value: i32,
    pub score: i32,
    pub current_tier: Option<Seq<char>>,
    pub last_qso_date: Option<i64>,
    pub updated_at: i64,
}

impl View for ProgressRow {
    type V = ProgressModel;

    open spec fn view(&self) -> ProgressModel {
        ProgressModel {
            id: self.id,
            challenge_id: self.challenge_id,
            callsign: self.callsign@,
            completed_goals: texts(self.completed_goals@),
            current_value: self.current_value,
            score: self.score,
            current_tier: opt_text(self.current_tier),
            last_qso_date: self.last_qso_date,
            updated_at: self.updated_at,
        }
    }
}

impl ProgressRow {
    /// A copy of the row.
    pub fn duplicate(&self) -> (r: ProgressRow)
        ensures
            r@ == self@,
    {
        ProgressRow {
            id: self.id,
            challenge_id: self.challenge_id,
            callsign: self.callsign.clone(),
            completed_goals: clone_texts(&self.completed_goals),
            current_value: self.current_value,
            score: self.score,
            current_tier: clone_opt_text(&self.current_tier),
            last_qso_date: self.last_qso_date,
            updated_at: self.updated_at,
        }
    }
}

/// Whether row `r` is the one of `(challenge_id, callsign)`.
pub open spec fn has_key(r: ProgressModel, challenge_id: u128, callsign: Seq<char>) -> bool {
    r.challenge_id == challenge_id && r.callsign == callsign
}

/// The position of the first row of `(challenge_id, callsign)`.
pub open spec fn key_index(rows: Seq<ProgressModel>, challenge_id: u128, callsign: Seq<char>) -> Option<int>
    decreases rows.len(),
{
    if rows.len() == 0 {
        None
    } else {
        match key_index(rows.drop_last(), challenge_id, callsign) {
            Some(i) => Some(i),
            None => if has_key(rows.last(), challenge_id, callsign) {
                Some(rows.len() - 1)
            } else {
                None
            },
        }
    }
}

/// The row of `(challenge_id, callsign)`, if there is one.
pub open spec fn lookup(rows: Seq<ProgressModel>, challenge_id: u128, callsign: Seq<char>) -> Option<ProgressModel> {
    match key_index(rows, challenge_id, callsign) {
        Some(i) => Some(rows[i]),
        None => None,
    }
}

/// The fields that a report writes into a row.
pub struct ProgressPayload {
    pub completed_goals: Seq<Seq<char>>,
    pub current_value: i32,
    pub score: i32,
    pub current_tier: Option<Seq<char>>,
    pub last_qso_date: Option<i64>,
}

/// What a report writes, with the score and tier computed for it.
pub open spec fn payload_of(req: ReportProgressRequest, score: i32, tier: Option<String>) -> ProgressPayload {
    ProgressPayload {
        completed_goals: texts(req.completed_goals@),
        current_value: req.current_value,
        score,
        current_tier: opt_text(tier),
        last_qso_date: req.last_qso_date,
    }
}

/// Row `old` after a report: every mutable field is replaced, none is merged.
pub open spec fn replaced(old: ProgressModel, p: ProgressPayload, now: i64) -> ProgressModel {
    ProgressModel {
        completed_goals: p.completed_goals,
        current_value: p.current_value,
        score: p.score,
        current_tier: p.current_tier,
        last_qso_date: p.last_qso_date,
        updated_at: now,
        ..old
    }
}

/// Whether row `r` holds exactly what payload `p` wrote at time `now`.
pub open spec fn holds_payload(r: ProgressModel, p: ProgressPayload, now: i64) -> bool {
    &&& r.completed_goals == p.completed_goals
    &&& r.current_value == p.current_value
    &&& r.score == p.score
    &&& r.current_tier == p.current_tier
    &&& r.last_qso_date == p.last_qso_date
    &&& r.updated_at == now
}

/// The table after a report for `(challenge_id, callsign)`: the row of that
/// key is replaced, or a new row with identifier `id` is appended.
pub open spec fn upserted(
    rows: Seq<ProgressModel>,
    id: u128,
    challenge_id: u128,
    callsign: Seq<char>,
    p: ProgressPayload,
    now: i64,
) -> Seq<ProgressModel> {
    match key_index(rows, challenge_id, callsign) {
        Some(i) => rows.update(i, replaced(rows[i], p, now)),
        None => rows.push(
            replaced(
                ProgressModel {
                    id,
                    challenge_id,
                    callsign,
                    completed_goals: Seq::empty(),
                    current_value: 0,
                    score: 0,
                    current_tier: None,
                    last_qso_date: None,
                    updated_at: 0,
                },
                p,
                now,
            ),
        ),
    }
}

/// Rows are unique per `(challenge_id, callsign)`.
pub open spec fn keys_unique(rows: Seq<ProgressModel>) -> bool {
    forall|i: int, j: int|
        0 <= i < j < rows.len() ==> !has_key(#[trigger] rows[i], rows[j].challenge_id, #[trigger] rows[j].callsign)
}

/// Whether `a` stands ahead of `b` on a leaderboard: a higher score, or the
/// same score reached earlier.
pub open spec fn ahead(a: ProgressModel, b: ProgressModel) -> bool {
    a.score > b.score || (a.score == b.score && a.updated_at < b.updated_at)
}

/// The number of rows of `challenge_id` that stand ahead of `r`.
pub open spec fn count_ahead(rows: Seq<ProgressModel>, challenge_id: u128, r: ProgressModel) -> nat
    decreases rows.len(),
{
    if rows.len() == 0 {
        0
    } else {
        count_ahead(rows.drop_last(), challenge_id, r) + if rows.last().challenge_id == challenge_id
            && ahead(rows.last(), r) {
            1nat
        } else {
            0nat
        }
    }
}

/// The standard competition rank of `r` among the rows of `challenge_id`:
/// one more than the number of rows ahead of it, so rows that tie share a
/// rank and the next rank skips.
pub open spec fn rank_of(rows: Seq<ProgressModel>, challenge_id: u128, r: ProgressModel) -> int {
    1 + count_ahead(rows, challenge_id, r) as int
}

/// Ranking is standard competition ranking: rows with the same score and
/// update time share a rank, and a row of the challenge that stands ahead of
/// another has a strictly smaller rank (so a tie of two at rank 1 is followed
/// by rank 3).
pub proof fn lemma_rank_ties_and_order(rows: Seq<ProgressModel>, challenge_id: u128, a: ProgressModel, b: ProgressModel)
    ensures
        a.score == b.score && a.updated_at == b.updated_at ==> rank_of(rows, challenge_id, a) == rank_of(
            rows,
            challenge_id,
            b,
        ),
        ahead(a, b) ==> rank_of(rows, challenge_id, a) <= rank_of(rows, challenge_id, b),
        ahead(a, b) && a.challenge_id == challenge_id && rows.contains(a) ==> rank_of(rows, challenge_id, a) < rank_of(
            rows,
            challenge_id,
            b,
        ),
    decreases rows.len(),
{
    if rows.len() > 0 {
        let rest = rows.drop_last();
        lemma_rank_ties_and_order(rest, challenge_id, a, b);
        if ahead(a, b) && a.challenge_id == challenge_id && rows.contains(a) {
            if rows.last() != a {
                let k = choose|k: int| 0 <= k < rows.len() && rows[k] == a;
                assert(k < rows.len() - 1);
                assert(rest[k] == a);
                assert(rest.contains(a));
            }
        }
    }
}

/// The progress rows of all challenges, at most one per challenge and callsign.
pub struct ProgressTable {
    rows: Vec<ProgressRow>,
}

impl View for ProgressTable {
    type V = Seq<ProgressModel>;

    closed spec fn view(&self) -> Seq<ProgressModel> {
        self.rows@.map_values(|r: ProgressRow| r@)
    }
}

impl ProgressTable {
    /// The table is well formed: one row per key, and few enough rows that a
    /// rank fits in an `i64`.
    pub open spec fn wf(&self) -> bool {
        &&& keys_unique(self@)
        &&& self@.len() < i64::MAX
    }

    /// An empty table.
    pub fn new() -> (t: ProgressTable)
        ensures
            t.wf(),
            t@ == Seq::<ProgressModel>::empty(),
    {
        let t = ProgressTable { rows: Vec::new() };
        assert(t@ =~= Seq::<ProgressModel>::empty());
        t
    }

    /// A table holding `rows` in that order; `None` when two rows share a
    /// challenge and callsign, or when there are too many rows to rank.
    pub fn from_rows(rows: &Vec<ProgressRow>) -> (r: Option<ProgressTable>)
        ensures
            match r {
                Some(t) => t.wf() && t@ == rows@.map_values(|x: ProgressRow| x@),
                None => !(keys_unique(rows@.map_values(|x: ProgressRow| x@)) && rows@.len() < i64::MAX),
            },
    {
        let ghost all = rows@.map_values(|x: ProgressRow| x@);
        if rows.len() as u64 >= i64::MAX as u64 {
            return None;
        }
        let mut t = ProgressTable::new();
        let mut i: usize = 0;
        while i < rows.len()
            invariant
                i <= rows@.len(),
                rows@.len() < i64::MAX,
                all == rows@.map_values(|x: ProgressRow| x@),
                t@ == all.take(i as int),
                keys_unique(t@),
            decreases rows@.len() - i,
        {
            let row = &rows[i];
            match t.find(row.challenge_id, &row.callsign) {
                Some(j) => {
                    proof {
                        lemma_key_index_found(t@, row.challenge_id, row.callsign@);
                        assert(all[j as int] == t@[j as int]);
                        assert(all[i as int] == row@);
                        assert(has_key(all[j as int], all[i as int].challenge_id, all[i as int].callsign));
                    }
                    return None;
                },
                None => {
                    let ghost before = t@;
                    let copy = row.duplicate();
                    proof {
                        lemma_key_index_push(before, copy@, copy.challenge_id, copy.callsign@);
                    }
                    t.rows.push(copy);
                    assert(t@ =~= before.push(copy@));
                    assert(all.take(i + 1) =~= all.take(i as int).push(all[i as int]));
                },
            }
            i = i + 1;
        }
        assert(all.take(i as int) =~= all);
        Some(t)
    }

    /// The number of rows.
    pub fn len(&self) -> (n: usize)
        ensures
            n == self@.len(),
    {
        self.rows.len()
    }

    /// The row at position `i`.
    pub fn row(&self, i: usize) -> (r: &ProgressRow)
        requires
            i < self@.len(),
        ensures
            r@ == self@[i as int],
    {
        &self.rows[i]
    }

    pub(crate) fn find(&self, challenge_id: u128, callsign: &String) -> (r: Option<usize>)
        ensures
            match r {
                Some(i) => i < self@.len() && key_index(self@, challenge_id, callsign@) == Some(i as int),
                None => key_index(self@, challenge_id, callsign@) is None,
            },
    {
        let ghost rows = self@;
        let mut i: usize = 0;
        while i < self.rows.len()
            invariant
                i <= self.rows@.len(),
                rows == self@,
                rows.len() == self.rows@.len(),
                key_index(rows.take(i as int), challenge_id, callsign@) is None,
            decreases self.rows@.len() - i,
        {
            assert(rows.take(i + 1).drop_last() =~= rows.take(i as int));
            assert(rows[i as int] == self.rows@[i as int]@);
            if self.rows[i].challenge_id == challenge_id && self.rows[i].callsign == *callsign {
                proof { lemma_key_index_prefix(rows, i as int + 1, challenge_id, callsign@); }
                return Some(i);
            }
            i = i + 1;
        }
        assert(rows.take(i as int) =~= rows);
        None
    }

    /// The progress of `callsign` in a challenge; the callsign is compared in
    /// upper case.
    pub fn get_progress(&self, challenge_id: u128, callsign: &str) -> (r: Option<ProgressRow>)
        ensures
            match r {
                Some(row) => lookup(self@, challenge_id, upper_of(callsign@)) == Some(row@),
                None => lookup(self@, challenge_id, upper_of(callsign@)) is None,
            },
    {
        let key = to_upper(callsign);
        match self.find(challenge_id, &key) {
            Some(i) => {
                assert(self@[i as int] == self.rows@[i as int]@);
                Some(self.rows[i].duplicate())
            },
            None => None,
        }
    }

    pub(crate) fn rank_at(&self, challenge_id: u128, i: usize) -> (n: i64)
        requires
            self.wf(),
            i < self@.len(),
        ensures
            n == rank_of(self@, challenge_id, self@[i as int]),
    {
        let ghost rows = self@;
        let ghost target = rows[i as int];
        let score = self.rows[i].score;
        let updated_at = self.rows[i].updated_at;
        let mut n: i64 = 1;
        let mut j: usize = 0;
        while j < self.rows.len()
            invariant
                j <= self.rows@.len(),
                rows == self@,
                rows.len() == self.rows@.len(),
                rows.len() < i64::MAX,
                i < rows.len(),
                target == rows[i as int],
                score == target.score,
                updated_at == target.updated_at,
                n == 1 + count_ahead(rows.take(j as int), challenge_id, target),
                count_ahead(rows.take(j as int), challenge_id, target) <= j,
            decreases self.rows@.len() - j,
        {
            assert(rows.take(j + 1).drop_last() =~= rows.take(j as int));
            assert(rows[j as int] == self.rows@[j as int]@);
            let r = &self.rows[j];
            if r.challenge_id == challenge_id && (r.score > score || (r.score == score
                && r.updated_at < updated_at)) {
                n = n + 1;
            }
            j = j + 1;
        }
        assert(rows.take(j as int) =~= rows);
        n
    }

    /// The standard competition rank of `callsign` in a challenge, ordered by
    /// score descending, then by time of last update ascending; `None` when the
    /// callsign has no progress there.
    pub fn get_rank(&self, challenge_id: u128, callsign: &str) -> (r: Option<i64>)
        requires
            self.wf(),
        ensures
            match lookup(self@, challenge_id, upper_of(callsign@)) {
                Some(row) => r matches Some(n) && n == rank_of(self@, challenge_id, row),
                None => r is None,
            },
    {
        let key = to_upper(callsign);
        match self.find(challenge_id, &key) {
            Some(i) => Some(self.rank_at(challenge_id, i)),
            None => None,
        }
    }

    /// Whether a report of `callsign` in a challenge fits: its row exists
    /// already, or there is room for one more row.
    pub fn has_room_for(&self, challenge_id: u128, callsign: &str) -> (r: bool)
        requires
            self.wf(),
        ensures
            r == (key_index(self@, challenge_id, upper_of(callsign@)) is Some || self@.len() + 1 < i64::MAX),
    {
        let key = to_upper(callsign);
        match self.find(challenge_id, &key) {
            Some(_) => true,
            None => (self.rows.len() as u64) < (i64::MAX as u64) - 1,
        }
    }

    /// `upsert_progress` where the report fits (see `has_room_for`); `None`,
    /// with the table unchanged, where it does not.
    pub fn try_upsert_progress(
        &mut self,
        challenge_id: u128,
        callsign: &str,
        req: &ReportProgressRequest,
        score: i32,
        current_tier: Option<String>,
        now: i64,
    ) -> (r: Option<ProgressRow>)
        requires
            old(self).wf(),
        ensures
            final(self).wf(),
            match r {
                Some(row) => {
                    &&& final(self)@ == upserted(
                        old(self)@,
                        row.id,
                        challenge_id,
                        upper_of(callsign@),
                        payload_of(*req, score, current_tier),
                        now,
                    )
                    &&& lookup(final(self)@, challenge_id, upper_of(callsign@)) == Some(row@)
                },
                None => {
                    &&& final(self)@ == old(self)@
                    &&& key_index(old(self)@, challenge_id, upper_of(callsign@)) is None
                    &&& old(self)@.len() + 1 >= i64::MAX
                },
            },
    {
        if self.has_room_for(challenge_id, callsign) {
            Some(self.upsert_progress(challenge_id, callsign, req, score, current_tier, now))
        } else {
            None
        }
    }

    /// Records a report of `callsign` (upper-cased) in a challenge. The row of
    /// that key has every mutable field replaced and its update time set to
    /// `now`; if there is none, a new row is added. Returns the resulting row.
    pub fn upsert_progress(
        &mut self,
        challenge_id: u128,
        callsign: &str,
        req: &ReportProgressRequest,
        score: i32,
        current_tier: Option<String>,
        now: i64,
    ) -> (r: ProgressRow)
        requires
            old(self).wf(),
            key_index(old(self)@, challenge_id, upper_of(callsign@)) is None ==> old(self)@.len() + 1
                < i64::MAX,
        ensures
            final(self).wf(),
            final(self)@ == upserted(
                old(self)@,
                r.id,
                challenge_id,
                upper_of(callsign@),
                payload_of(*req, score, current_tier),
                now,
            ),
            lookup(final(self)@, challenge_id, upper_of(callsign@)) == Some(r@),
    {
        let key = to_upper(callsign);
        let ghost payload = payload_of(*req, score, current_tier);
        let ghost old_rows = self@;
        match self.find(challenge_id, &key) {
            Some(i) => {
                let ghost old_row = old_rows[i as int];
                let row = ProgressRow {
                    id: self.rows[i].id,
                    challenge_id: self.rows[i].challenge_id,
                    callsign: self.rows[i].callsign.clone(),
                    completed_goals: clone_texts(&req.completed_goals),
                    current_value: req.current_value,
                    score,
                    current_tier,
                    last_qso_date: req.last_qso_date,
                    updated_at: now,
                };
                let out = row.duplicate();
                self.rows.set(i, row);
                proof {
                    assert(self@ =~= old_rows.update(
                        i as int,
                        replaced(old_row, payload, now),
                    ));
                    lemma_key_index_update(old_rows, i as int, self@[i as int]);
                }
                out
            },
            None => {
                let row = ProgressRow {
                    id: fresh_id(),
                    challenge_id,
                    callsign: key,
                    completed_goals: clone_texts(&req.completed_goals),
                    current_value: req.current_value,
                    score,
                    current_tier,
                    last_qso_date: req.last_qso_date,
                    updated_at: now,
                };
                let out = row.duplicate();
                self.rows.push(row);
                proof {
                    assert(self@ =~= old_rows.push(out@));
                    lemma_key_index_push(old_rows, out@, challenge_id, upper_of(callsign@));
                }
                out
            },
        }
    }
}

proof fn lemma_key_index_prefix(rows: Seq<ProgressModel>, n: int, challenge_id: u128, callsign: Seq<char>)
    requires
        0 < n <= rows.len(),
        key_index(rows.take(n - 1), challenge_id, callsign) is None,
        has_key(rows[n - 1], challenge_id, callsign),
    ensures
        key_index(rows, challenge_id, callsign) == Some(n - 1),
    decreases rows.len(),
{
    assert(rows.take(n).drop_last() =~= rows.take(n - 1));
    if n == rows.len() {
        assert(rows.take(n) =~= rows);
    } else {
        assert(rows.drop_last().take(n) =~= rows.take(n));
        assert(rows.drop_last().take(n - 1) =~= rows.take(n - 1));
        lemma_key_index_prefix(rows.drop_last(), n, challenge_id, callsign);
    }
}

/// The first matching position is below the length, and matches.
proof fn lemma_key_index_found(rows: Seq<ProgressModel>, challenge_id: u128, callsign: Seq<char>)
    ensures
        match key_index(rows, challenge_id, callsign) {
            Some(i) => 0 <= i < rows.len() && has_key(rows[i], challenge_id, callsign)
                && key_index(rows.take(i), challenge_id, callsign) is None,
            None => forall|j: int| 0 <= j < rows.len() ==> !has_key(#[trigger] rows[j], challenge_id, callsign),
        },
    decreases rows.len(),
{
    if rows.len() > 0 {
        lemma_key_index_found(rows.drop_last(), challenge_id, callsign);
        match key_index(rows.drop_last(), challenge_id, callsign) {
            Some(i) => {
                assert(rows.drop_last().take(i) =~= rows.take(i));
            },
            None => {
                assert(rows.take(rows.len() - 1) =~= rows.drop_last());
                assert forall|j: int| 0 <= j < rows.len() - 1 implies !has_key(#[trigger] rows[j], challenge_id, callsign) by {
                    assert(rows.drop_last()[j] == rows[j]);
                }
            },
        }
    }
}

/// Whether positions of a key are determined by the rows' keys alone.
proof fn lemma_key_index_same_keys(a: Seq<ProgressModel>, b: Seq<ProgressModel>, challenge_id: u128, callsign: Seq<char>)
    requires
        a.len() == b.len(),
        forall|j: int| 0 <= j < a.len() ==> (#[trigger] a[j]).challenge_id == b[j].challenge_id
            && a[j].callsign == b[j].callsign,
    ensures
        key_index(a, challenge_id, callsign) == key_index(b, challenge_id, callsign),
    decreases a.len(),
{
    if a.len() > 0 {
        lemma_key_index_same_keys(a.drop_last(), b.drop_last(), challenge_id, callsign);
    }
}

proof fn lemma_key_index_update(rows: Seq<ProgressModel>, i: int, r: ProgressModel)
    requires
        0 <= i < rows.len(),
        r.challenge_id == rows[i].challenge_id,
        r.callsign == rows[i].callsign,
        keys_unique(rows),
    ensures
        keys_unique(rows.update(i, r)),
        forall|c: u128, s: Seq<char>| key_index(rows.update(i, r), c, s) == #[trigger] key_index(rows, c, s),
{
    let u = rows.update(i, r);
    assert forall|c: u128, s: Seq<char>| key_index(u, c, s) == #[trigger] key_index(rows, c, s) by {
        lemma_key_index_same_keys(u, rows, c, s);
    }
    assert forall|a: int, b: int| 0 <= a < b < u.len() implies !has_key(#[trigger] u[a], u[b].challenge_id, #[trigger] u[b].callsign) by {
        assert(!has_key(rows[a], rows[b].challenge_id, rows[b].callsign));
    }
}

proof fn lemma_key_index_push(rows: Seq<ProgressModel>, r: ProgressModel, challenge_id: u128, callsign: Seq<char>)
    requires
        keys_unique(rows),
        key_index(rows, r.challenge_id, r.callsign) is None,
        r.challenge_id == challenge_id,
        r.callsign == callsign,
    ensures
        keys_unique(rows.push(r)),
        key_index(rows.push(r), challenge_id, callsign) == Some(rows.len() as int),
{
    let u = rows.push(r);
    assert(u.drop_last() =~= rows);
    lemma_key_index_found(rows, challenge_id, callsign);
    assert forall|a: int, b: int| 0 <= a < b < u.len() implies !has_key(#[trigger] u[a], u[b].challenge_id, #[trigger] u[b].callsign) by {
        if b == rows.len() {
            assert(u[a] == rows[a]);
        } else {
            assert(!has_key(rows[a], rows[b].challenge_id, rows[b].callsign));
        }
    }
}

/// After a report for a key, that key has exactly one row, and it holds what
/// the report wrote.
pub proof fn lemma_report_then_lookup(
    rows: Seq<ProgressModel>,
    id: u128,
    challenge_id: u128,
    callsign: Seq<char>,
    p: ProgressPayload,
    now: i64,
)
    requires
        keys_unique(rows),
    ensures
        keys_unique(upserted(rows, id, challenge_id, callsign, p, now)),
        key_index(upserted(rows, id, challenge_id, callsign, p, now), challenge_id, callsign)
            == match key_index(rows, challenge_id, callsign) {
            Some(i) => Some(i),
            None => Some(rows.len() as int),
        },
        lookup(upserted(rows, id, challenge_id, callsign, p, now), challenge_id, callsign) matches Some(r)
            && holds_payload(r, p, now),
{
    lemma_key_index_found(rows, challenge_id, callsign);
    let u = upserted(rows, id, challenge_id, callsign, p, now);
    match key_index(rows, challenge_id, callsign) {
        Some(i) => {
            lemma_key_index_update(rows, i, replaced(rows[i], p, now));
        },
        None => {
            lemma_key_index_push(rows, u[rows.len() as int], challenge_id, callsign);
        },
    }
}

/// Reporting twice for the same challenge and callsign leaves the table as a
/// single report of the second payload would: the last write wins, nothing of
/// the first is merged in. With equal payloads this is idempotence.
pub proof fn lemma_report_twice(
    rows: Seq<ProgressModel>,
    id1: u128,
    id2: u128,
    challenge_id: u128,
    callsign: Seq<char>,
    p1: ProgressPayload,
    p2: ProgressPayload,
    now1: i64,
    now2: i64,
)
    requires
        keys_unique(rows),
    ensures
        upserted(upserted(rows, id1, challenge_id, callsign, p1, now1), id2, challenge_id, callsign, p2, now2)
            == upserted(rows, id1, challenge_id, callsign, p2, now2),
        upserted(upserted(rows, id1, challenge_id, callsign, p1, now1), id2, challenge_id, callsign, p2, now2).len()
            == upserted(rows, id1, challenge_id, callsign, p1, now1).len(),
        lookup(
            upserted(upserted(rows, id1, challenge_id, callsign, p1, now1), id2, challenge_id, callsign, p2, now2),
            challenge_id,
            callsign,
        ) matches Some(r) && holds_payload(r, p2, now2),
{
    let once = upserted(rows, id1, challenge_id, callsign, p1, now1);
    lemma_report_then_lookup(rows, id1, challenge_id, callsign, p1, now1);
    lemma_report_then_lookup(once, id2, challenge_id, callsign, p2, now2);
    let twice = upserted(once, id2, challenge_id, callsign, p2, now2);
    let direct = upserted(rows, id1, challenge_id, callsign, p2, now2);
    lemma_key_index_found(rows, challenge_id, callsign);
    match key_index(rows, challenge_id, callsign) {
        Some(i) => {
            assert(key_index(once, challenge_id, callsign) == Some(i));
            assert(twice =~= direct);
        },
        None => {
            let n = rows.len() as int;
            assert(key_index(once, challenge_id, callsign) == Some(n));
            assert(twice =~= direct);
        },
    }
}

/// Callsigns are compared in upper case: after a report under one spelling,
/// a lookup under any spelling with the same upper-case form finds the row
/// that the report wrote.
pub proof fn lemma_callsign_case_insensitive(
    rows: Seq<ProgressModel>,
    id: u128,
    challenge_id: u128,
    reported: Seq<char>,
    queried: Seq<char>,
    p: ProgressPayload,
    now: i64,
)
    requires
        keys_unique(rows),
        upper_of(reported) == upper_of(queried),
    ensures
        lookup(upserted(rows, id, challenge_id, upper_of(reported), p, now), challenge_id, upper_of(queried))
            matches Some(r) && holds_payload(r, p, now) && r.callsign == upper_of(queried),
{
    lemma_report_then_lookup(rows, id, challenge_id, upper_of(reported), p, now);
    lemma_key_index_found(upserted(rows, id, challenge_id, upper_of(reported), p, now), challenge_id, upper_of(reported));
}

} // verus!
