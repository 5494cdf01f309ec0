use stat_rank::agg::PlayerTotal;
use stat_rank::agg::ScoreAccumulator;
use stat_rank::pipeline::extract_game_ids;
use stat_rank::pipeline::run_defense;
use stat_rank::pipeline::run_passing;
use stat_rank::pipeline::GameInput;
use stat_rank::pipeline::GameIssue;
use stat_rank::pipeline::TeamError;
use stat_rank::rank::rank;
use stat_rank::rank::render_ranking_line;
use stat_rank::records::AttackRecord;
use stat_rank::records::DefenseRecord;
use stat_rank::records::PassingRecord;
use stat_rank::records::RowError;
use stat_rank::records::StatRecord;
use stat_rank::numparse::parse_i64;
use stat_rank::numparse::parse_u32;
use stat_rank::text::split_fields;
use stat_rank::weights::build_weight_table;
use stat_rank::weights::WeightError;
use stat_rank::weights::WeightTable;

fn bits(x: f64) -> u64 {
    x.to_bits()
}

fn lines(texts: &[&str]) -> Vec<String> {
    texts.iter().map(|s| s.to_string()).collect()
}

fn table(pairs: &[(&str, f64)]) -> WeightTable {
    let mut t = WeightTable::new();
    for (name, w) in pairs {
        t.insert_weight(name.to_string(), w.to_bits());
    }
    t
}

fn defense_record(player: &str, tkl: u32, att: u32) -> DefenseRecord {
    DefenseRecord {
        player: player.to_string(),
        tkl,
        tklw: 0,
        def3rd: 0,
        mid3rd: 0,
        att3rd: 0,
        att,
        lost: 0,
        blocks: 0,
        sh: 0,
        pass: 0,
    }
}

#[test]
fn test_calculate_score() {
    let weights = table(&[("tkl", 1.0), ("att", 2.0)]);
    let player_stat = defense_record("Test Player", 10, 20);
    let score = player_stat.calculate_score(&weights);
    assert_eq!(score, bits(50.0));
}

#[test]
fn score_of_empty_table_is_zero() {
    let weights = WeightTable::new();
    let rec = defense_record("A", 7, 9);
    assert_eq!(rec.calculate_score(&weights), bits(0.0));
}

#[test]
fn score_of_unmatched_keys_is_zero() {
    let weights = table(&[("goals", 3.0), ("assists", 4.0)]);
    let rec = defense_record("A", 7, 9);
    assert_eq!(rec.calculate_score(&weights), bits(0.0));
}

#[test]
fn score_is_linear_in_a_single_weight() {
    let rec = defense_record("A", 10, 0);
    let w1 = 1.5;
    let w2 = 2.25;
    let both = rec.calculate_score(&table(&[("tkl", w1 + w2)]));
    let s1 = rec.calculate_score(&table(&[("tkl", w1)]));
    let s2 = rec.calculate_score(&table(&[("tkl", w2)]));
    assert_eq!(f64::from_bits(both), f64::from_bits(s1) + f64::from_bits(s2));
}

#[test]
fn accumulation_is_order_independent_here() {
    let scores = [50.0, 30.0, 20.0];
    let mut forward = ScoreAccumulator::new();
    for s in scores {
        forward.accumulate(&"A".to_string(), bits(s));
    }
    let mut backward = ScoreAccumulator::new();
    for s in scores.iter().rev() {
        backward.accumulate(&"A".to_string(), bits(*s));
    }
    assert_eq!(forward.totals_for("A"), Some((bits(100.0), 3)));
    assert_eq!(forward.totals_for("A"), backward.totals_for("A"));
}

#[test]
fn accumulate_two_games_sums_and_counts() {
    let mut acc = ScoreAccumulator::new();
    acc.accumulate(&"A".to_string(), bits(50.0));
    acc.accumulate(&"A".to_string(), bits(30.0));
    assert_eq!(acc.totals_for("A"), Some((bits(80.0), 2)));
    assert_eq!(acc.totals_for("B"), None);
}

#[test]
fn rank_returns_at_most_n_sorted() {
    let mut acc = ScoreAccumulator::new();
    acc.accumulate(&"P1".to_string(), bits(1.0));
    acc.accumulate(&"P2".to_string(), bits(3.0));
    acc.accumulate(&"P3".to_string(), bits(2.0));
    acc.accumulate(&"P4".to_string(), bits(5.0));
    let top2 = rank(&acc, 2);
    assert_eq!(top2.len(), 2);
    assert_eq!(top2[0].player, "P4");
    assert_eq!(top2[0].score, bits(5.0));
    assert_eq!(top2[1].player, "P2");
    let full = rank(&acc, 4);
    assert_eq!(full.len(), 4);
    for w in full.windows(2) {
        assert!(f64::from_bits(w[0].score) >= f64::from_bits(w[1].score));
    }
}

#[test]
fn rank_of_full_map_has_every_player_once() {
    let mut acc = ScoreAccumulator::new();
    for (p, s) in [("A", 2.0), ("B", -1.0), ("C", 7.5)] {
        acc.accumulate(&p.to_string(), bits(s));
    }
    assert_eq!(acc.player_count(), 3);
    let full = rank(&acc, 3);
    let mut players: Vec<&str> = full.iter().map(|e| e.player.as_str()).collect();
    players.sort();
    assert_eq!(players, vec!["A", "B", "C"]);
}

#[test]
fn rank_with_fewer_players_than_requested() {
    let mut acc = ScoreAccumulator::new();
    acc.accumulate(&"A".to_string(), bits(1.0));
    acc.accumulate(&"B".to_string(), bits(2.0));
    let top3 = rank(&acc, 3);
    assert_eq!(top3.len(), 2);
    assert_eq!(top3[0].player, "B");
    assert_eq!(top3[1].player, "A");
}

#[test]
fn rank_puts_nan_totals_last() {
    let acc = ScoreAccumulator {
        entries: vec![
            PlayerTotal { player: "N".to_string(), total: f64::NAN.to_bits(), count: 1 },
            PlayerTotal { player: "B".to_string(), total: bits(1.0), count: 1 },
            PlayerTotal { player: "C".to_string(), total: bits(-5.0), count: 1 },
        ],
    };
    let full = rank(&acc, 3);
    assert_eq!(full[0].player, "B");
    assert_eq!(full[1].player, "C");
    assert_eq!(full[2].player, "N");
}

#[test]
fn rank_breaks_ties_by_first_contribution_order() {
    let mut acc = ScoreAccumulator::new();
    acc.accumulate(&"First".to_string(), bits(2.0));
    acc.accumulate(&"Second".to_string(), bits(2.0));
    acc.accumulate(&"Third".to_string(), bits(9.0));
    let full = rank(&acc, 3);
    assert_eq!(full[0].player, "Third");
    assert_eq!(full[1].player, "First");
    assert_eq!(full[2].player, "Second");
}

#[test]
fn weight_table_built_from_lines() {
    let t = build_weight_table(&lines(&["Feature,Average_Weight", "tkl,1.5", "att,2.0"])).unwrap();
    assert_eq!(t.lookup_weight("tkl"), Some(bits(1.5)));
    assert_eq!(t.lookup_weight("att"), Some(bits(2.0)));
    assert_eq!(t.lookup_weight("sh"), None);
}

#[test]
fn weight_table_duplicate_feature_last_wins() {
    let t = build_weight_table(&lines(&["h", "k,1.0", "k,2.0"])).unwrap();
    assert_eq!(t.lookup_weight("k"), Some(bits(2.0)));
}

#[test]
fn weight_table_malformed_weight_fails_whole_load() {
    let r = build_weight_table(&lines(&["h", "a,1.0", "k,abc", "b,2.0"]));
    assert_eq!(r.unwrap_err(), WeightError::MalformedWeight { row: 2 });
    let short = build_weight_table(&lines(&["h", "konly"]));
    assert_eq!(short.unwrap_err(), WeightError::MalformedWeight { row: 1 });
}

#[test]
fn weight_table_header_is_skipped_unchecked() {
    let t = build_weight_table(&lines(&["not,a,real,header"])).unwrap();
    assert_eq!(t.lookup_weight("not"), None);
    let empty = build_weight_table(&lines(&[])).unwrap();
    assert_eq!(empty.lookup_weight("tkl"), None);
}

#[test]
fn split_fields_on_commas() {
    let cut = |s: &str| -> Vec<String> { split_fields(s) };
    assert_eq!(cut("a,b,c"), vec!["a", "b", "c"]);
    assert_eq!(cut("a,,b"), vec!["a", "", "b"]);
    assert_eq!(cut(""), vec![""]);
    assert_eq!(cut(",x"), vec!["", "x"]);
    assert_eq!(cut("x,"), vec!["x", ""]);
}

#[test]
fn parse_u32_accepts_plain_decimals() {
    assert_eq!(parse_u32("0"), Some(0));
    assert_eq!(parse_u32("007"), Some(7));
    assert_eq!(parse_u32("+42"), Some(42));
    assert_eq!(parse_u32("4294967295"), Some(u32::MAX));
}

#[test]
fn parse_u32_rejects_bad_text() {
    assert_eq!(parse_u32("4294967296"), None);
    assert_eq!(parse_u32("-1"), None);
    assert_eq!(parse_u32(""), None);
    assert_eq!(parse_u32("+"), None);
    assert_eq!(parse_u32("1a"), None);
    assert_eq!(parse_u32("1.5"), None);
    assert_eq!(parse_u32(" 1"), None);
}

#[test]
fn parse_i64_handles_signs_and_limits() {
    assert_eq!(parse_i64("-9223372036854775808"), Some(i64::MIN));
    assert_eq!(parse_i64("9223372036854775807"), Some(i64::MAX));
    assert_eq!(parse_i64("-9223372036854775809"), None);
    assert_eq!(parse_i64("9223372036854775808"), None);
    assert_eq!(parse_i64("+5"), Some(5));
    assert_eq!(parse_i64("-0"), Some(0));
    assert_eq!(parse_i64("--1"), None);
    assert_eq!(parse_i64("-"), None);
}

#[test]
fn defense_row_parses_by_fixed_columns() {
    let cols = split_fields("0,Alice,10,1,2,3,4,20,5,6,7,8");
    let rec = DefenseRecord::parse_row(&cols).unwrap();
    assert_eq!(rec.player, "Alice");
    assert_eq!(rec.tkl, 10);
    assert_eq!(rec.att, 20);
    assert_eq!(rec.pass, 8);
}

#[test]
fn defense_row_errors_name_the_value() {
    let short = DefenseRecord::parse_row(&split_fields("0,Alice,10,1"));
    assert_eq!(short.unwrap_err(), RowError::TooShort);
    let bad = DefenseRecord::parse_row(&split_fields("0,Alice,10,1,2,x9,4,20,5,6,7,8"));
    assert_eq!(bad.unwrap_err(), RowError::BadValue { column: 5, value: "x9".to_string() });
}

#[test]
fn attack_row_parses_doubles_in_expected_goal_columns() {
    let cols = split_fields("0,P,1,2,3,4,5,6,7,8,9,10,11,12,0.5,1.5,2.5,13,14,15,16,17,18,19,20");
    let rec = AttackRecord::parse_row(&cols).unwrap();
    assert_eq!(rec.player, "P");
    assert_eq!(rec.gls, 1);
    assert_eq!(rec.xg, bits(0.5));
    assert_eq!(rec.npxg, bits(1.5));
    assert_eq!(rec.xag, bits(2.5));
    assert_eq!(rec.succ, 20);
    let score = rec.calculate_score(&table(&[("xg", 2.0), ("gls", 1.0)]));
    assert_eq!(score, bits(0.5 * 2.0 + 1.0));
}

#[test]
fn passing_row_parses_and_scores_signed_fields() {
    let cols = split_fields("0,Q,-3,40,500,60");
    let rec = PassingRecord::parse_row(&cols).unwrap();
    assert_eq!(rec.cmp, -3);
    assert_eq!(rec.prgdist, 60);
    let score = rec.calculate_score(&table(&[("cmp", 2.0)]));
    assert_eq!(score, bits(-6.0));
}

#[test]
fn extract_game_ids_reads_fourth_column() {
    let ids = extract_game_ids(&lines(&["h1,h2,h3,h4", "a,b,c,game1", "d,e,f,game2"])).unwrap();
    assert_eq!(ids, vec!["game1", "game2"]);
    let bad = extract_game_ids(&lines(&["h1,h2,h3,h4", "a,b,c,game1", "d,e"]));
    assert_eq!(bad.unwrap_err(), TeamError::ShortRow { row: 2 });
}

#[test]
fn missing_game_file_is_reported_and_skipped() {
    let weight_lines = lines(&["h", "tkl,1.0", "att,2.0"]);
    let games = vec![
        GameInput {
            game: "g1".to_string(),
            lines: Some(lines(&["h", "0,A,10,0,0,0,0,20,0,0,0,0"])),
        },
        GameInput { game: "g2".to_string(), lines: None },
    ];
    let rep = run_defense(&weight_lines, &games).unwrap();
    assert_eq!(rep.failures.len(), 1);
    assert_eq!(rep.failures[0].game, "g2");
    assert_eq!(rep.failures[0].issue, GameIssue::Unreadable);
    assert_eq!(rep.ranking.len(), 1);
    assert_eq!(rep.ranking[0].player, "A");
    assert_eq!(rep.ranking[0].score, bits(50.0));
}

#[test]
fn malformed_game_file_discards_that_file_only() {
    let weight_lines = lines(&["h", "tkl,1.0"]);
    let games = vec![
        GameInput {
            game: "g1".to_string(),
            lines: Some(lines(&[
                "h",
                "0,A,1,0,0,0,0,0,0,0,0,0",
                "0,B,bad,0,0,0,0,0,0,0,0,0",
            ])),
        },
        GameInput {
            game: "g2".to_string(),
            lines: Some(lines(&["h", "0,C,4,0,0,0,0,0,0,0,0,0"])),
        },
    ];
    let rep = run_defense(&weight_lines, &games).unwrap();
    assert_eq!(rep.failures.len(), 1);
    assert_eq!(rep.failures[0].game, "g1");
    assert_eq!(
        rep.failures[0].issue,
        GameIssue::BadRow { row: 2, err: RowError::BadValue { column: 2, value: "bad".to_string() } },
    );
    assert_eq!(rep.ranking.len(), 1);
    assert_eq!(rep.ranking[0].player, "C");
    assert_eq!(rep.ranking[0].score, bits(4.0));
}

#[test]
fn two_games_accumulate_through_the_pipeline() {
    let weight_lines = lines(&["h", "tkl,1.0", "att,2.0"]);
    let games = vec![
        GameInput {
            game: "g1".to_string(),
            lines: Some(lines(&["h", "0,A,10,0,0,0,0,20,0,0,0,0"])),
        },
        GameInput {
            game: "g2".to_string(),
            lines: Some(lines(&["h", "0,A,30,0,0,0,0,0,0,0,0,0"])),
        },
    ];
    let rep = run_defense(&weight_lines, &games).unwrap();
    assert!(rep.failures.is_empty());
    assert_eq!(rep.ranking.len(), 1);
    assert_eq!(rep.ranking[0].player, "A");
    assert_eq!(rep.ranking[0].score, bits(80.0));
}

#[test]
fn malformed_weight_table_aborts_the_category() {
    let weight_lines = lines(&["h", "cmp,nope"]);
    let games: Vec<GameInput> = Vec::new();
    let r = run_passing(&weight_lines, &games);
    assert_eq!(r.unwrap_err(), WeightError::MalformedWeight { row: 1 });
}

#[test]
fn ranking_line_is_rendered_with_tag_and_trailing_separators() {
    let mut acc = ScoreAccumulator::new();
    acc.accumulate(&"A".to_string(), bits(2.0));
    acc.accumulate(&"B".to_string(), bits(1.0));
    let ranking = rank(&acc, 4);
    let line = render_ranking_line("def:", &ranking);
    assert_eq!(line, "def:A, B, ");
    let empty = render_ranking_line("att:", &Vec::new());
    assert_eq!(empty, "att:");
}
