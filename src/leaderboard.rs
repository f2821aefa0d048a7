use vstd::prelude::*;
use vstd::relations::{sorted_by, total_ordering};

use crate::error::AppError;
use crate::json::text_eq;
use crate::policy::opt_text;
use crate::store::{
    ahead, clone_opt_text, lookup, rank_of, to_upper, upper_of, ProgressModel, ProgressTable,
};

verus! {

broadcast use vstd::seq_lib::group_to_multiset_ensures;

/// One line of a leaderboard. `completed_at` is the time of the last update
/// when the score is positive.
pub struct LeaderboardEntry {
    pub rank: i64,
    pub callsign: String,
    pub score: i32,
    pub current_tier: Option<String>,
    pub completed_at: Option<i64>,
}

/// The mathematical content of a `LeaderboardEntry`.
pub struct EntryModel {
    pub rank: int,
    pub callsign: Seq<char>,
    pub score: i32,
    pub current_tier: Option<Seq<char>>,
    pub completed_at: Option<i64>,
}

impl View for LeaderboardEntry {
    type V = EntryModel;

    open spec fn view(&self) -> EntryModel {
        EntryModel {
            rank: self.rank as int,
            callsign: self.callsign@,
            score: self.score,
            current_tier: opt_text(self.current_tier),
            completed_at: self.completed_at,
        }
    }
}

/// Paging of a leaderboard request.
pub struct LeaderboardQuery {
    pub limit: Option<i64>,
    pub offset: Option<i64>,
    pub around: Option<String>,
}

/// The entries of a list.
pub open spec fn entries(v: Seq<LeaderboardEntry>) -> Seq<EntryModel> {
    v.map_values(|e: LeaderboardEntry| e@)
}

/// The leaderboard line of row `r` of challenge `challenge_id`.
pub open spec fn entry_of(rows: Seq<ProgressModel>, challenge_id: u128, r: ProgressModel) -> EntryModel {
    EntryModel {
        rank: rank_of(rows, challenge_id, r),
        callsign: r.callsign,
        score: r.score,
        current_tier: r.current_tier,
        completed_at: if r.score > 0 {
            Some(r.updated_at)
        } else {
            None
        },
    }
}

/// The rows of one challenge, in table order.
pub open spec fn members(rows: Seq<ProgressModel>, challenge_id: u128) -> Seq<ProgressModel>
    decreases rows.len(),
{
    if rows.len() == 0 {
        Seq::empty()
    } else if rows.last().challenge_id == challenge_id {
        members(rows.drop_last(), challenge_id).push(rows.last())
    } else {
        members(rows.drop_last(), challenge_id)
    }
}

/// Whether `a` and `b` tie on both ranking keys.
pub open spec fn level(a: ProgressModel, b: ProgressModel) -> bool {
    a.score == b.score && a.updated_at == b.updated_at
}

/// Whether table row `i` comes before table row `j` on a leaderboard: it
/// stands ahead, or ties on both keys and comes earlier in the table.
pub open spec fn before(rows: Seq<ProgressModel>, i: int, j: int) -> bool {
    ahead(rows[i], rows[j]) || (level(rows[i], rows[j]) && i < j)
}

/// The table positions of the rows of one challenge, in table order.
pub open spec fn member_positions(rows: Seq<ProgressModel>, challenge_id: u128) -> Seq<int>
    decreases rows.len(),
{
    if rows.len() == 0 {
        Seq::empty()
    } else if rows.last().challenge_id == challenge_id {
        member_positions(rows.drop_last(), challenge_id).push(rows.len() - 1)
    } else {
        member_positions(rows.drop_last(), challenge_id)
    }
}

/// Whether `pos` lists the table positions of the challenge's rows, each
/// once, in leaderboard order.
pub open spec fn is_board_order(pos: Seq<int>, rows: Seq<ProgressModel>, challenge_id: u128) -> bool {
    &&& pos.to_multiset() == member_positions(rows, challenge_id).to_multiset()
    &&& forall|q: int| 0 <= q < pos.len() ==> 0 <= #[trigger] pos[q] < rows.len()
    &&& forall|q: int, r: int| 0 <= q < r < pos.len() ==> before(rows, #[trigger] pos[q], #[trigger] pos[r])
}

/// Whether `board` is the full leaderboard of a challenge: its rows, best
/// first (by score descending, then update time ascending, then table
/// order), each with its standard competition rank.
pub open spec fn is_board(board: Seq<EntryModel>, rows: Seq<ProgressModel>, challenge_id: u128) -> bool {
    exists|pos: Seq<int>|
        #[trigger] is_board_order(pos, rows, challenge_id) && board == pos.map_values(
            |p: int| entry_of(rows, challenge_id, rows[p]),
        )
}

/// The entries of `board` whose rank lies in `[lo, hi]`, in board order.
pub open spec fn window(board: Seq<EntryModel>, lo: int, hi: int) -> Seq<EntryModel>
    decreases board.len(),
{
    if board.len() == 0 {
        Seq::empty()
    } else if lo <= board.last().rank <= hi {
        window(board.drop_last(), lo, hi).push(board.last())
    } else {
        window(board.drop_last(), lo, hi)
    }
}

/// The page size a query asks for: at most 100, 100 by default.
pub open spec fn page_limit(q: LeaderboardQuery) -> int {
    match q.limit {
        Some(l) => if l < 100 {
            l as int
        } else {
            100
        },
        None => 100,
    }
}

/// The number of entries a query skips, 0 by default.
pub open spec fn page_offset(q: LeaderboardQuery) -> int {
    match q.offset {
        Some(o) => o as int,
        None => 0,
    }
}

/// The smaller of two integers.
pub open spec fn min_int(a: int, b: int) -> int {
    if a < b {
        a
    } else {
        b
    }
}

/// The first entry of `board` whose callsign is `callsign`.
pub open spec fn entry_for(board: Seq<EntryModel>, callsign: Seq<char>) -> Option<EntryModel>
    decreases board.len(),
{
    if board.len() == 0 {
        None
    } else if board[0].callsign == callsign {
        Some(board[0])
    } else {
        entry_for(board.drop_first(), callsign)
    }
}

proof fn lemma_member_positions_len(rows: Seq<ProgressModel>, challenge_id: u128)
    ensures
        member_positions(rows, challenge_id).len() == members(rows, challenge_id).len(),
    decreases rows.len(),
{
    if rows.len() > 0 {
        lemma_member_positions_len(rows.drop_last(), challenge_id);
    }
}

pub proof fn lemma_members_len(rows: Seq<ProgressModel>, challenge_id: u128)
    ensures
        members(rows, challenge_id).len() <= rows.len(),
    decreases rows.len(),
{
    if rows.len() > 0 {
        lemma_members_len(rows.drop_last(), challenge_id);
    }
}

impl ProgressTable {
    fn is_ahead(&self, a: usize, b: usize) -> (r: bool)
        requires
            a < self@.len(),
            b < self@.len(),
        ensures
            r == ahead(self@[a as int], self@[b as int]),
    {
        let x = self.row(a);
        let y = self.row(b);
        x.score > y.score || (x.score == y.score && x.updated_at < y.updated_at)
    }

    /// Positions of the challenge's rows, best first.
    fn board_positions(&self, challenge_id: u128) -> (r: (Vec<usize>, Ghost<Seq<int>>))
        requires
            self.wf(),
        ensures
            r.1@.len() == r.0@.len(),
            forall|q: int| 0 <= q < r.0@.len() ==> #[trigger] r.1@[q] == r.0@[q] as int,
            is_board_order(r.1@, self@, challenge_id),
    {
        let ghost rows = self@;
        let mut idx: Vec<usize> = Vec::new();
        let ghost mut pos: Seq<int> = Seq::empty();
        let n = self.len();
        let mut i: usize = 0;
        while i < n
            invariant
                i <= n,
                n == rows.len(),
                rows == self@,
                pos.len() == idx@.len(),
                forall|q: int| 0 <= q < idx@.len() ==> #[trigger] pos[q] == idx@[q] as int,
                forall|q: int| 0 <= q < pos.len() ==> 0 <= #[trigger] pos[q] < i,
                pos.to_multiset() == member_positions(rows.take(i as int), challenge_id).to_multiset(),
                forall|q: int, r: int| 0 <= q < r < pos.len() ==> before(rows, #[trigger] pos[q], #[trigger] pos[r]),
            decreases n - i,
        {
            assert(rows.take(i + 1).drop_last() =~= rows.take(i as int));
            let row = self.row(i);
            if row.challenge_id == challenge_id {
                let ghost x = rows[i as int];
                assert forall|q: int| 0 <= q < idx@.len() implies (#[trigger] idx@[q]) < i by {
                    assert(pos[q] == idx@[q] as int);
                }
                let mut k: usize = 0;
                while k < idx.len() && !self.is_ahead(i, idx[k])
                    invariant
                        k <= idx@.len(),
                        pos.len() == idx@.len(),
                        forall|q: int| 0 <= q < idx@.len() ==> #[trigger] pos[q] == idx@[q] as int,
                        forall|q: int| 0 <= q < pos.len() ==> 0 <= #[trigger] pos[q] < i,
                        forall|q: int| 0 <= q < k ==> !ahead(x, rows[#[trigger] pos[q]]),
                        forall|q: int| 0 <= q < idx@.len() ==> (#[trigger] idx@[q]) < i,
                        x == rows[i as int],
                        rows == self@,
                        i < rows.len(),
                    decreases idx@.len() - k,
                {
                    k = k + 1;
                }
                assert(k < idx@.len() ==> ahead(x, rows[pos[k as int]]));
                proof {
                    let p2 = pos.insert(k as int, i as int);
                    assert forall|a: int, b: int| 0 <= a < b < p2.len() implies before(rows, #[trigger] p2[a], #[trigger] p2[b]) by {
                        if b < k {
                        } else if b == k {
                            assert(p2[a] == pos[a]);
                        } else if a == k {
                            assert(p2[b] == pos[b - 1]);
                            if b - 1 > k {
                                assert(before(rows, pos[k as int], pos[b - 1]));
                            }
                        } else if a < k {
                            assert(p2[a] == pos[a] && p2[b] == pos[b - 1]);
                        } else {
                            assert(p2[a] == pos[a - 1] && p2[b] == pos[b - 1]);
                        }
                    }
                    pos = p2;
                }
                idx.insert(k, i);
            }
            i = i + 1;
        }
        assert(rows.take(n as int) =~= rows);
        (idx, Ghost(pos))
    }

    /// The full leaderboard of a challenge.
    pub fn standings(&self, challenge_id: u128) -> (r: Vec<LeaderboardEntry>)
        requires
            self.wf(),
        ensures
            is_board(entries(r@), self@, challenge_id),
    {
        let (idx, Ghost(pos)) = self.board_positions(challenge_id);
        let mut out: Vec<LeaderboardEntry> = Vec::new();
        let mut q: usize = 0;
        while q < idx.len()
            invariant
                q <= idx@.len(),
                pos.len() == idx@.len(),
                forall|p: int| 0 <= p < idx@.len() ==> #[trigger] pos[p] == idx@[p] as int,
                is_board_order(pos, self@, challenge_id),
                self.wf(),
                entries(out@) == pos.take(q as int).map_values(|p: int| entry_of(self@, challenge_id, self@[p])),
            decreases idx@.len() - q,
        {
            let k = idx[q];
            let row = self.row(k);
            let rank = self.rank_at(challenge_id, k);
            let e = LeaderboardEntry {
                rank,
                callsign: row.callsign.clone(),
                score: row.score,
                current_tier: clone_opt_text(&row.current_tier),
                completed_at: if row.score > 0 {
                    Some(row.updated_at)
                } else {
                    None
                },
            };
            assert(pos[q as int] == k as int);
            assert(e@ == entry_of(self@, challenge_id, self@[pos[q as int]]));
            let ghost prev = out@;
            out.push(e);
            assert(out@ == prev.push(e));
            assert(entries(out@) =~= entries(prev).push(e@));
            assert(pos.take(q + 1).map_values(|p: int| entry_of(self@, challenge_id, self@[p]))
                =~= pos.take(q as int).map_values(|p: int| entry_of(self@, challenge_id, self@[p])).push(
                entry_of(self@, challenge_id, self@[pos[q as int]]),
            ));
            assert(entries(out@) =~= pos.take(q + 1).map_values(|p: int| entry_of(self@, challenge_id, self@[p])));
            q = q + 1;
        }
        assert(pos.take(q as int) =~= pos);
        out
    }
}

impl LeaderboardEntry {
    /// A copy of the entry.
    pub fn duplicate(&self) -> (r: LeaderboardEntry)
        ensures
            r@ == self@,
    {
        LeaderboardEntry {
            rank: self.rank,
            callsign: self.callsign.clone(),
            score: self.score,
            current_tier: clone_opt_text(&self.current_tier),
            completed_at: self.completed_at,
        }
    }
}

/// The entry of `callsign` (compared in upper case) in a list of entries:
/// the position of the participant a leaderboard was centred on.
pub fn find_entry(board: &Vec<LeaderboardEntry>, callsign: &str) -> (r: Option<LeaderboardEntry>)
    ensures
        match r {
            Some(e) => entry_for(entries(board@), upper_of(callsign@)) == Some(e@),
            None => entry_for(entries(board@), upper_of(callsign@)) is None,
        },
{
    let key = to_upper(callsign);
    let ghost all = entries(board@);
    let mut i: usize = 0;
    assert(all.skip(0) =~= all);
    while i < board.len()
        invariant
            i <= board@.len(),
            all == entries(board@),
            key@ == upper_of(callsign@),
            entry_for(all, key@) == entry_for(all.skip(i as int), key@),
        decreases board@.len() - i,
    {
        assert(all.skip(i as int).drop_first() =~= all.skip(i + 1));
        assert(all.skip(i as int)[0] == board@[i as int]@);
        if text_eq(board[i].callsign.as_str(), key.as_str()) {
            return Some(board[i].duplicate());
        }
        i = i + 1;
    }
    None
}

proof fn lemma_board_len(board: Seq<EntryModel>, rows: Seq<ProgressModel>, challenge_id: u128)
    requires
        is_board(board, rows, challenge_id),
    ensures
        board.len() == members(rows, challenge_id).len(),
{
    let pos = choose|pos: Seq<int>|
        #[trigger] is_board_order(pos, rows, challenge_id) && board == pos.map_values(
            |p: int| entry_of(rows, challenge_id, rows[p]),
        );
    assert(pos.to_multiset().len() == member_positions(rows, challenge_id).to_multiset().len());
    lemma_member_positions_len(rows, challenge_id);
}

/// A challenge has one leaderboard: two boards of the same table are equal,
/// so repeated queries on an unchanged table agree, ties included.
pub proof fn lemma_board_unique(b1: Seq<EntryModel>, b2: Seq<EntryModel>, rows: Seq<ProgressModel>, challenge_id: u128)
    requires
        is_board(b1, rows, challenge_id),
        is_board(b2, rows, challenge_id),
    ensures
        b1 == b2,
{
    let p1 = choose|pos: Seq<int>|
        #[trigger] is_board_order(pos, rows, challenge_id) && b1 == pos.map_values(
            |p: int| entry_of(rows, challenge_id, rows[p]),
        );
    let p2 = choose|pos: Seq<int>|
        #[trigger] is_board_order(pos, rows, challenge_id) && b2 == pos.map_values(
            |p: int| entry_of(rows, challenge_id, rows[p]),
        );
    let leq = |i: int, j: int| i == j || before(rows, i, j);
    assert(total_ordering(leq));
    assert(sorted_by(p1, leq));
    assert(sorted_by(p2, leq));
    vstd::seq_lib::lemma_sorted_unique(p1, p2, leq);
    assert(p1 == p2);
}

/// A narrower window around the same centre is the wider window with the
/// entries outside the narrower range left out, in the same order.
pub proof fn lemma_window_nested(board: Seq<EntryModel>, lo1: int, hi1: int, lo2: int, hi2: int)
    requires
        lo2 <= lo1,
        hi1 <= hi2,
    ensures
        window(board, lo1, hi1) == window(window(board, lo2, hi2), lo1, hi1),
    decreases board.len(),
{
    if board.len() > 0 {
        lemma_window_nested(board.drop_last(), lo1, hi1, lo2, hi2);
        let w2 = window(board, lo2, hi2);
        if lo2 <= board.last().rank <= hi2 {
            assert(w2.drop_last() == window(board.drop_last(), lo2, hi2));
            assert(w2.last() == board.last());
        }
    }
}

/// Two window queries around the same participant on an unchanged table
/// agree: the narrower answer is the wider one with the entries outside the
/// narrower range left out, in the same order.
pub proof fn lemma_around_windows_nest(
    rows: Seq<ProgressModel>,
    challenge_id: u128,
    b1: Seq<EntryModel>,
    b2: Seq<EntryModel>,
    center: int,
    w1: int,
    w2: int,
)
    requires
        is_board(b1, rows, challenge_id),
        is_board(b2, rows, challenge_id),
        0 <= w1 <= w2,
    ensures
        window(b1, center - w1, center + w1) == window(window(b2, center - w2, center + w2), center - w1, center + w1),
{
    lemma_board_unique(b1, b2, rows, challenge_id);
    lemma_window_nested(b1, center - w1, center + w1, center - w2, center + w2);
}

impl ProgressTable {
    /// One page of a challenge's leaderboard and the number of its rows. The
    /// page holds up to `limit` entries (at most 100, 100 by default) after
    /// skipping `offset` (0 by default); a negative limit or offset is refused.
    pub fn get_leaderboard(&self, challenge_id: u128, query: &LeaderboardQuery) -> (r: Result<
        (Vec<LeaderboardEntry>, i64),
        AppError,
    >)
        requires
            self.wf(),
        ensures
            match r {
                Ok((page, total)) => {
                    &&& page_limit(*query) >= 0 && page_offset(*query) >= 0
                    &&& total == members(self@, challenge_id).len()
                    &&& exists|board: Seq<EntryModel>|
                        #[trigger] is_board(board, self@, challenge_id) && entries(page@) == board.subrange(
                            min_int(page_offset(*query), board.len() as int),
                            min_int(page_offset(*query) + page_limit(*query), board.len() as int),
                        )
                },
                Err(e) => {
                    &&& page_limit(*query) < 0 || page_offset(*query) < 0
                    &&& e is Validation
                },
            },
    {
        let limit: i64 = match query.limit {
            Some(l) => if l < 100 {
                l
            } else {
                100
            },
            None => 100,
        };
        let offset: i64 = match query.offset {
            Some(o) => o,
            None => 0,
        };
        if limit < 0 {
            return Err(AppError::Validation { message: String::from_str("limit must not be negative") });
        }
        if offset < 0 {
            return Err(AppError::Validation { message: String::from_str("offset must not be negative") });
        }
        let board = self.standings(challenge_id);
        let ghost all = entries(board@);
        proof {
            lemma_board_len(all, self@, challenge_id);
            lemma_members_len(self@, challenge_id);
        }
        let n = board.len();
        let lo: usize = if (offset as u128) < (n as u128) {
            offset as usize
        } else {
            n
        };
        let end: u128 = offset as u128 + limit as u128;
        let hi: usize = if end < (n as u128) {
            end as usize
        } else {
            n
        };
        let mut page: Vec<LeaderboardEntry> = Vec::new();
        let mut q: usize = lo;
        while q < hi
            invariant
                lo <= hi <= n,
                lo <= q <= hi,
                n == board@.len(),
                all == entries(board@),
                entries(page@) == all.subrange(lo as int, q as int),
            decreases hi - q,
        {
            let ghost prev = page@;
            page.push(board[q].duplicate());
            assert(entries(page@) =~= entries(prev).push(board@[q as int]@));
            assert(all.subrange(lo as int, q + 1) =~= all.subrange(lo as int, q as int).push(all[q as int]));
            q = q + 1;
        }
        assert(is_board(all, self@, challenge_id));
        Ok((page, n as i64))
    }

    /// The entries of a challenge's leaderboard whose rank is within `range`
    /// of the rank of `callsign` (compared in upper case), in rank order.
    /// Empty when the callsign has no progress in the challenge.
    pub fn get_leaderboard_around(&self, challenge_id: u128, callsign: &str, range: i64) -> (r: Vec<
        LeaderboardEntry,
    >)
        requires
            self.wf(),
        ensures
            match lookup(self@, challenge_id, upper_of(callsign@)) {
                Some(row) => exists|board: Seq<EntryModel>|
                    #[trigger] is_board(board, self@, challenge_id) && entries(r@) == window(
                        board,
                        rank_of(self@, challenge_id, row) - range,
                        rank_of(self@, challenge_id, row) + range,
                    ),
                None => r@.len() == 0,
            },
    {
        let key = to_upper(callsign);
        let i = match self.find(challenge_id, &key) {
            Some(i) => i,
            None => {
                return Vec::new();
            },
        };
        let center = self.rank_at(challenge_id, i);
        let lo: i128 = center as i128 - range as i128;
        let hi: i128 = center as i128 + range as i128;
        let board = self.standings(challenge_id);
        let ghost all = entries(board@);
        let mut out: Vec<LeaderboardEntry> = Vec::new();
        let mut q: usize = 0;
        while q < board.len()
            invariant
                q <= board@.len(),
                all == entries(board@),
                entries(out@) == window(all.take(q as int), lo as int, hi as int),
            decreases board@.len() - q,
        {
            assert(all.take(q + 1).drop_last() =~= all.take(q as int));
            let rank = board[q].rank as i128;
            if lo <= rank && rank <= hi {
                let ghost prev = out@;
                out.push(board[q].duplicate());
                assert(entries(out@) =~= entries(prev).push(board@[q as int]@));
            }
            q = q + 1;
        }
        assert(all.take(q as int) =~= all);
        assert(is_board(all, self@, challenge_id));
        out
    }
}

/// The rank distance on each side of the participant when a leaderboard is
/// centred on one.
pub const AROUND_WINDOW: i64 = 5;

/// A leaderboard as the service answers it.
pub struct LeaderboardResponse {
    pub leaderboard: Vec<LeaderboardEntry>,
    pub total: i64,
    pub user_position: Option<LeaderboardEntry>,
}

/// Answers a leaderboard request. With `around`, paging is ignored: the
/// entries are those within `AROUND_WINDOW` ranks of that callsign, and
/// `user_position` is its entry among them. Without it, the requested page is
/// returned and there is no user position.
pub fn leaderboard_view(table: &ProgressTable, challenge_id: u128, query: &LeaderboardQuery) -> (r: Result<
    LeaderboardResponse,
    AppError,
>)
    requires
        table.wf(),
    ensures
        match query.around {
            Some(cs) => r matches Ok(resp) && {
                &&& resp.total == members(table@, challenge_id).len()
                &&& match lookup(table@, challenge_id, upper_of(cs@)) {
                    Some(row) => exists|board: Seq<EntryModel>|
                        #[trigger] is_board(board, table@, challenge_id) && entries(resp.leaderboard@)
                            == window(
                            board,
                            rank_of(table@, challenge_id, row) - AROUND_WINDOW,
                            rank_of(table@, challenge_id, row) + AROUND_WINDOW,
                        ),
                    None => resp.leaderboard@.len() == 0,
                }
                &&& match resp.user_position {
                    Some(e) => entry_for(entries(resp.leaderboard@), upper_of(cs@)) == Some(e@),
                    None => entry_for(entries(resp.leaderboard@), upper_of(cs@)) is None,
                }
            },
            None => match r {
                Ok(resp) => {
                    &&& page_limit(*query) >= 0 && page_offset(*query) >= 0
                    &&& resp.total == members(table@, challenge_id).len()
                    &&& resp.user_position is None
                    &&& exists|board: Seq<EntryModel>|
                        #[trigger] is_board(board, table@, challenge_id) && entries(resp.leaderboard@)
                            == board.subrange(
                            min_int(page_offset(*query), board.len() as int),
                            min_int(page_offset(*query) + page_limit(*query), board.len() as int),
                        )
                },
                Err(e) => {
                    &&& page_limit(*query) < 0 || page_offset(*query) < 0
                    &&& e is Validation
                },
            },
        },
{
    match &query.around {
        Some(cs) => {
            let leaderboard = table.get_leaderboard_around(challenge_id, cs.as_str(), AROUND_WINDOW);
            let total = table.count_members(challenge_id);
            let user_position = find_entry(&leaderboard, cs.as_str());
            Ok(LeaderboardResponse { leaderboard, total, user_position })
        },
        None => {
            let (leaderboard, total) = match table.get_leaderboard(challenge_id, query) {
                Ok(v) => v,
                Err(e) => {
                    return Err(e);
                },
            };
            Ok(LeaderboardResponse { leaderboard, total, user_position: None })
        },
    }
}

impl ProgressTable {
    /// The number of rows of a challenge.
    pub fn count_members(&self, challenge_id: u128) -> (n: i64)
        requires
            self.wf(),
        ensures
            n == members(self@, challenge_id).len(),
    {
        let ghost rows = self@;
        let mut n: i64 = 0;
        let mut i: usize = 0;
        while i < self.len()
            invariant
                i <= rows.len(),
                rows == self@,
                self.wf(),
                n == members(rows.take(i as int), challenge_id).len(),
            decreases rows.len() - i,
        {
            assert(rows.take(i + 1).drop_last() =~= rows.take(i as int));
            proof {
                lemma_members_len(rows.take(i as int), challenge_id);
            }
            if self.row(i).challenge_id == challenge_id {
                n = n + 1;
            }
            i = i + 1;
        }
        assert(rows.take(i as int) =~= rows);
        n
    }
}

} // verus!
