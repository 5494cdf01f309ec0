//! The per-category pipeline: list the games from the team table, build the
//! category's weight table, and for every game score its records and feed
//! the accumulator, then rank. A game whose lines are missing or malformed
//! contributes nothing and is reported; a malformed weight table aborts the
//! category.

use vstd::prelude::*;
use vstd::string::*;
use crate::agg::ScoreAccumulator;
use crate::agg::acc_insert;
use crate::rank::RankedEntry;
use crate::rank::entry_views;
use crate::rank::rank;
use crate::rank::ranked_input;
use crate::rank::sort_desc;
use crate::records::AttackRecord;
use crate::records::DefenseRecord;
use crate::records::PassingRecord;
use crate::records::RowError;
use crate::records::StatRecord;
use crate::records::row_error_ok;
use crate::records::row_ok;
use crate::score::lemma_score_from_row;
use crate::score::row_score;
use crate::score::score_record;
use crate::text::seq_views;
use crate::text::split_commas;
use crate::text::split_fields;
use crate::weights::WeightError;
use crate::weights::WeightTable;
use crate::weights::build_weight_table;
use crate::weights::table_upto;
use crate::weights::weight_row_ok;

verus! {

/// How many players each category's ranking reports.
pub const DEFENSE_TOP_N: usize = 4;

pub const ATTACK_TOP_N: usize = 3;

pub const PASSING_TOP_N: usize = 3;

/// A team-table row too short to hold the game identifier column.
#[derive(Debug, PartialEq, Clone)]
pub enum TeamError {
    ShortRow { row: usize },
}

/// A team-table row names its game in the fourth column.
pub open spec fn team_row_ok(line: Seq<char>) -> bool {
    split_commas(line).len() >= 4
}

pub open spec fn game_of(line: Seq<char>) -> Seq<char> {
    split_commas(line)[3]
}

/// The game identifiers of the team table, one per row past the header,
/// taken verbatim from the fourth column.
pub fn extract_game_ids(lines: &Vec<String>) -> (r: Result<Vec<String>, TeamError>)
    ensures
        ({
            let lv = seq_views(lines@);
            match r {
                Ok(ids) => {
                    &&& forall|i: int| 1 <= i < lv.len() ==> team_row_ok(lv[i])
                    &&& ids@.len() == if lv.len() == 0 {
                        0int
                    } else {
                        lv.len() - 1
                    }
                    &&& forall|i: int| 0 <= i < ids@.len() ==> ids@[i]@ == game_of(lv[i + 1])
                },
                Err(TeamError::ShortRow { row }) => {
                    &&& 1 <= row < lv.len()
                    &&& !team_row_ok(lv[row as int])
                    &&& forall|i: int| 1 <= i < row ==> team_row_ok(lv[i])
                },
            }
        }),
{
    let ghost lv = seq_views(lines@);
    let mut ids: Vec<String> = Vec::new();
    let mut row: usize = 1;
    while row < lines.len()
        invariant
            lv == seq_views(lines@),
            lv.len() == lines@.len(),
            1 <= row <= lines@.len() || (row == 1 && lines@.len() == 0),
            ids@.len() == row - 1,
            forall|i: int| 1 <= i < row ==> team_row_ok(lv[i]),
            forall|i: int| 0 <= i < ids@.len() ==> ids@[i]@ == game_of(lv[i + 1]),
        decreases lines@.len() - row,
    {
        let cols = split_fields(lines[row].as_str());
        proof {
            assert(lv[row as int] == lines@[row as int]@);
            assert(seq_views(cols@) == split_commas(lv[row as int]));
        }
        if cols.len() < 4 {
            return Err(TeamError::ShortRow { row });
        }
        proof {
            assert(cols@[3]@ == game_of(lv[row as int]));
        }
        let id = cols[3].clone();
        ids.push(id);
        row += 1;
    }
    Ok(ids)
}

/// Every row past the header parses per the category's schema.
pub open spec fn rows_all_ok<R: StatRecord>(lines: Seq<Seq<char>>) -> bool {
    forall|i: int| 1 <= i < lines.len() ==> row_ok::<R>(#[trigger] split_commas(lines[i]))
}

/// The first failing row of one game's statistic file, with the failing
/// column's text.
#[derive(Debug)]
pub struct StatFileError {
    pub row: usize,
    pub err: RowError,
}

/// Parse one game's statistic file: one record per row past the header, or
/// the first failing row; a failing row discards the whole file.
pub fn parse_stat_rows<R: StatRecord>(lines: &Vec<String>) -> (r: Result<Vec<R>, StatFileError>)
    ensures
        ({
            let lv = seq_views(lines@);
            match r {
                Ok(recs) => {
                    &&& rows_all_ok::<R>(lv)
                    &&& recs@.len() == if lv.len() == 0 {
                        0int
                    } else {
                        lv.len() - 1
                    }
                    &&& forall|i: int|
                        0 <= i < recs@.len() ==> (#[trigger] recs@[i]).matches_row(
                            split_commas(lv[i + 1]),
                        )
                },
                Err(e) => {
                    &&& 1 <= e.row < lv.len()
                    &&& row_error_ok::<R>(e.err, split_commas(lv[e.row as int]))
                    &&& forall|i: int| 1 <= i < e.row ==> row_ok::<R>(#[trigger] split_commas(lv[i]))
                },
            }
        }),
{
    let ghost lv = seq_views(lines@);
    let mut recs: Vec<R> = Vec::new();
    let mut row: usize = 1;
    while row < lines.len()
        invariant
            lv == seq_views(lines@),
            lv.len() == lines@.len(),
            1 <= row <= lines@.len() || (row == 1 && lines@.len() == 0),
            recs@.len() == row - 1,
            forall|i: int| 1 <= i < row ==> row_ok::<R>(#[trigger] split_commas(lv[i])),
            forall|i: int|
                0 <= i < recs@.len() ==> (#[trigger] recs@[i]).matches_row(split_commas(lv[i + 1])),
        decreases lines@.len() - row,
    {
        let cols = split_fields(lines[row].as_str());
        proof {
            assert(lv[row as int] == lines@[row as int]@);
            assert(seq_views(cols@) == split_commas(lv[row as int]));
        }
        match R::parse_row(&cols) {
            Ok(rec) => {
                recs.push(rec);
            },
            Err(err) => {
                return Err(StatFileError { row, err });
            },
        }
        row += 1;
    }
    Ok(recs)
}

/// One game's input to a category pass: its identifier and, when its file
/// could be read, the file's lines.
#[derive(Debug)]
pub struct GameInput {
    pub game: String,
    pub lines: Option<Vec<String>>,
}

/// Why a game contributed nothing: its file could not be read, or its
/// first bad row.
#[derive(Debug, PartialEq, Clone)]
pub enum GameIssue {
    Unreadable,
    BadRow { row: usize, err: RowError },
}

#[derive(Debug)]
pub struct GameFailure {
    pub game: String,
    pub issue: GameIssue,
}

/// One category's outcome: the ranking, and one reported failure per game
/// that contributed nothing.
#[derive(Debug)]
pub struct CategoryReport {
    pub ranking: Vec<RankedEntry>,
    pub failures: Vec<GameFailure>,
}

pub open spec fn game_view(g: GameInput) -> (Seq<char>, Option<Seq<Seq<char>>>) {
    (
        g.game@,
        match g.lines {
            Option::Some(v) => Option::Some(seq_views(v@)),
            Option::None => Option::None,
        },
    )
}

pub open spec fn games_views(gs: Seq<GameInput>) -> Seq<(Seq<char>, Option<Seq<Seq<char>>>)> {
    Seq::new(gs.len(), |i: int| game_view(gs[i]))
}

/// The accumulator after feeding rows `1..k` of one game's file, in order.
pub open spec fn acc_after_rows<R: StatRecord>(
    a: Seq<(Seq<char>, (u64, u64))>,
    lines: Seq<Seq<char>>,
    t: Seq<(Seq<char>, u64)>,
    k: int,
) -> Seq<(Seq<char>, (u64, u64))>
    decreases k,
{
    if k <= 1 {
        a
    } else {
        let prev = acc_after_rows::<R>(a, lines, t, k - 1);
        let cols = split_commas(lines[k - 1]);
        acc_insert(prev, cols[1], row_score::<R>(cols, t))
    }
}

/// What one game does to the accumulator: a readable, fully parsing file
/// feeds every row; any other game leaves the accumulator untouched.
pub open spec fn game_result_acc<R: StatRecord>(
    a: Seq<(Seq<char>, (u64, u64))>,
    g: (Seq<char>, Option<Seq<Seq<char>>>),
    t: Seq<(Seq<char>, u64)>,
) -> Seq<(Seq<char>, (u64, u64))> {
    match g.1 {
        Option::Some(lines) => if rows_all_ok::<R>(lines) {
            acc_after_rows::<R>(a, lines, t, lines.len() as int)
        } else {
            a
        },
        Option::None => a,
    }
}

/// The accumulator after the first `k` games, starting empty.
pub open spec fn category_acc<R: StatRecord>(
    games: Seq<(Seq<char>, Option<Seq<Seq<char>>>)>,
    t: Seq<(Seq<char>, u64)>,
    k: int,
) -> Seq<(Seq<char>, (u64, u64))>
    decreases k,
{
    if k <= 0 {
        Seq::empty()
    } else {
        game_result_acc::<R>(category_acc::<R>(games, t, k - 1), games[k - 1], t)
    }
}

pub open spec fn is_failed_game<R: StatRecord>(g: (Seq<char>, Option<Seq<Seq<char>>>)) -> bool {
    match g.1 {
        Option::Some(lines) => !rows_all_ok::<R>(lines),
        Option::None => true,
    }
}

/// The positions of the games that contributed nothing, in order.
pub open spec fn failed_indices<R: StatRecord>(
    games: Seq<(Seq<char>, Option<Seq<Seq<char>>>)>,
    k: int,
) -> Seq<int>
    decreases k,
{
    if k <= 0 {
        Seq::empty()
    } else {
        let p = failed_indices::<R>(games, k - 1);
        if is_failed_game::<R>(games[k - 1]) {
            p.push(k - 1)
        } else {
            p
        }
    }
}

/// A reported issue tells the truth about its game: unreadable, or the
/// first bad row with its reason.
pub open spec fn issue_matches<R: StatRecord>(
    issue: GameIssue,
    g: (Seq<char>, Option<Seq<Seq<char>>>),
) -> bool {
    match issue {
        GameIssue::Unreadable => g.1 is None,
        GameIssue::BadRow { row, err } => match g.1 {
            Option::Some(lines) => {
                &&& 1 <= row < lines.len()
                &&& row_error_ok::<R>(err, split_commas(lines[row as int]))
                &&& forall|i: int| 1 <= i < row ==> row_ok::<R>(#[trigger] split_commas(lines[i]))
            },
            Option::None => false,
        },
    }
}

/// The whole contract of one category pass over the given weight-table
/// lines and game inputs, reporting the top `top_n` players.
pub open spec fn category_outcome_ok<R: StatRecord>(
    wl: Seq<Seq<char>>,
    games: Seq<(Seq<char>, Option<Seq<Seq<char>>>)>,
    top_n: int,
    r: Result<CategoryReport, WeightError>,
) -> bool {
    match r {
        Ok(rep) => {
            &&& (forall|i: int| 1 <= i < wl.len() ==> weight_row_ok(wl[i]))
            &&& ({
                let t = table_upto(wl, wl.len() as int);
                let accv = category_acc::<R>(games, t, games.len() as int);
                let full = sort_desc(ranked_input(accv));
                let fi = failed_indices::<R>(games, games.len() as int);
                &&& entry_views(rep.ranking@) == if top_n < full.len() {
                    full.take(top_n)
                } else {
                    full
                }
                &&& rep.failures@.len() == fi.len()
                &&& forall|k: int|
                    0 <= k < fi.len() ==> (#[trigger] rep.failures@[k]).game@ == games[fi[k]].0
                        && issue_matches::<R>(rep.failures@[k].issue, games[fi[k]])
            })
        },
        Err(WeightError::MalformedWeight { row }) => {
            &&& 1 <= row < wl.len()
            &&& !weight_row_ok(wl[row as int])
            &&& forall|i: int| 1 <= i < row ==> weight_row_ok(wl[i])
        },
    }
}

/// Run one category: build its weight table, score and accumulate every
/// readable, well-formed game, and rank the top `top_n` players. Games that
/// contribute nothing are reported in order; a malformed weight table
/// aborts the category instead.
pub fn run_category<R: StatRecord>(
    weight_lines: &Vec<String>,
    games: &Vec<GameInput>,
    top_n: usize,
) -> (r: Result<CategoryReport, WeightError>)
    ensures
        category_outcome_ok::<R>(seq_views(weight_lines@), games_views(games@), top_n as int, r),
{
    let ghost wl = seq_views(weight_lines@);
    let ghost gv = games_views(games@);
    let table = match build_weight_table(weight_lines) {
        Ok(t) => t,
        Err(e) => {
            return Err(e);
        },
    };
    let ghost tv = table@;
    let mut acc = ScoreAccumulator::new();
    let mut failures: Vec<GameFailure> = Vec::new();
    let mut gi: usize = 0;
    proof {
        assert(failed_indices::<R>(gv, 0) =~= Seq::<int>::empty());
    }
    while gi < games.len()
        invariant
            wl == seq_views(weight_lines@),
            gv == games_views(games@),
            gv.len() == games@.len(),
            gi <= games@.len(),
            tv == table@,
            tv == table_upto(wl, wl.len() as int),
            acc.wf(),
            acc@ == category_acc::<R>(gv, tv, gi as int),
            ({
                let fi = failed_indices::<R>(gv, gi as int);
                &&& failures@.len() == fi.len()
                &&& forall|k: int|
                    0 <= k < fi.len() ==> (#[trigger] failures@[k]).game@ == gv[fi[k]].0
                        && issue_matches::<R>(failures@[k].issue, gv[fi[k]])
            }),
        decreases games@.len() - gi,
    {
        let ghost fi0 = failed_indices::<R>(gv, gi as int);
        proof {
            assert(gv[gi as int] == game_view(games@[gi as int]));
        }
        let g = &games[gi];
        match &g.lines {
            Option::None => {
                failures.push(GameFailure { game: g.game.clone(), issue: GameIssue::Unreadable });
                proof {
                    assert(failed_indices::<R>(gv, gi + 1) =~= fi0.push(gi as int));
                }
            },
            Option::Some(lines) => {
                let ghost lv = seq_views(lines@);
                match parse_stat_rows::<R>(lines) {
                    Err(e) => {
                        failures.push(
                            GameFailure {
                                game: g.game.clone(),
                                issue: GameIssue::BadRow { row: e.row, err: e.err },
                            },
                        );
                        proof {
                            assert(!row_ok::<R>(split_commas(lv[e.row as int])));
                            assert(!rows_all_ok::<R>(lv));
                            assert(failed_indices::<R>(gv, gi + 1) =~= fi0.push(gi as int));
                        }
                    },
                    Ok(recs) => {
                        proof {
                            assert(rows_all_ok::<R>(lv));
                            assert(!is_failed_game::<R>(gv[gi as int]));
                            assert(failed_indices::<R>(gv, gi + 1) =~= fi0);
                        }
                        let ghost a0 = acc@;
                        let mut ri: usize = 0;
                        while ri < recs.len()
                            invariant
                                tv == table@,
                                acc.wf(),
                                rows_all_ok::<R>(lv),
                                recs@.len() == if lv.len() == 0 {
                                    0int
                                } else {
                                    lv.len() - 1
                                },
                                forall|i: int|
                                    0 <= i < recs@.len() ==> (#[trigger] recs@[i]).matches_row(
                                        split_commas(lv[i + 1]),
                                    ),
                                ri <= recs@.len(),
                                acc@ == acc_after_rows::<R>(a0, lv, tv, ri + 1),
                            decreases recs@.len() - ri,
                        {
                            let s = score_record(&recs[ri], &table);
                            proof {
                                let cols = split_commas(lv[ri + 1]);
                                assert(row_ok::<R>(cols));
                                lemma_score_from_row(recs@[ri as int], cols, tv);
                                recs@[ri as int].lemma_fields_from_row(cols);
                            }
                            acc.accumulate(recs[ri].player(), s);
                            ri += 1;
                        }
                        proof {
                            assert(acc@ == acc_after_rows::<R>(a0, lv, tv, lv.len() as int));
                            assert(acc@ == game_result_acc::<R>(a0, gv[gi as int], tv));
                        }
                    },
                }
            },
        }
        gi += 1;
    }
    let ranking = rank(&acc, top_n);
    Ok(CategoryReport { ranking, failures })
}

/// The defense pass: top four players.
pub fn run_defense(weight_lines: &Vec<String>, games: &Vec<GameInput>) -> (r: Result<
    CategoryReport,
    WeightError,
>)
    ensures
        category_outcome_ok::<DefenseRecord>(
            seq_views(weight_lines@),
            games_views(games@),
            DEFENSE_TOP_N as int,
            r,
        ),
{
    run_category::<DefenseRecord>(weight_lines, games, DEFENSE_TOP_N)
}

/// The attack pass: top three players.
pub fn run_attack(weight_lines: &Vec<String>, games: &Vec<GameInput>) -> (r: Result<
    CategoryReport,
    WeightError,
>)
    ensures
        category_outcome_ok::<AttackRecord>(
            seq_views(weight_lines@),
            games_views(games@),
            ATTACK_TOP_N as int,
            r,
        ),
{
    run_category::<AttackRecord>(weight_lines, games, ATTACK_TOP_N)
}

/// The passing pass: top three players.
pub fn run_passing(weight_lines: &Vec<String>, games: &Vec<GameInput>) -> (r: Result<
    CategoryReport,
    WeightError,
>)
    ensures
        category_outcome_ok::<PassingRecord>(
            seq_views(weight_lines@),
            games_views(games@),
            PASSING_TOP_N as int,
            r,
        ),
{
    run_category::<PassingRecord>(weight_lines, games, PASSING_TOP_N)
}

} // verus!
