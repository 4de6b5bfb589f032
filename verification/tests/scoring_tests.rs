use lang_detect::lang::Language;
use lang_detect::profile::load_all;
use lang_detect::score::{lookup, score_normalized, select_best};
use lang_detect::text::{fold, script_of_cp, to_code_points, tokenize};

#[test]
fn lookup_first_match_or_zero() {
    let table = vec![
        (to_code_points("th"), 60u64),
        (to_code_points("he"), 45u64),
    ];
    assert_eq!(lookup(&table, &to_code_points("th")), 60);
    assert_eq!(lookup(&table, &to_code_points("he")), 45);
    assert_eq!(lookup(&table, &to_code_points("xx")), 0);
    assert_eq!(lookup(&table, &to_code_points("")), 0);
}

#[test]
fn tokenize_strips_and_folds() {
    let cps = to_code_points("Hello, World! 42");
    let ws = tokenize(&cps);
    assert_eq!(ws.len(), 2);
    assert_eq!(ws[0], to_code_points("hello"));
    assert_eq!(ws[1], to_code_points("world"));
}

#[test]
fn fold_archaic_pairs() {
    // Greek archaic capital/lowercase pairs.
    assert_eq!(fold(0x3CF), 0x3D7);
    assert_eq!(fold(0x3D8), 0x3D9);
    assert_eq!(fold(0x3D9), 0x3D9);
    assert_eq!(fold(0x3EE), 0x3EF);
    assert_eq!(fold(0x3F4), 0x3B8);
    assert_eq!(fold(0x3F9), 0x3F2);
    assert_eq!(fold(0x3FD), 0x37B);
    // Cyrillic: the 0x4C0 row pairs capitals on odd code points.
    assert_eq!(fold(0x4C0), 0x4CF);
    assert_eq!(fold(0x4C1), 0x4C2);
    assert_eq!(fold(0x4C2), 0x4C2);
    assert_eq!(fold(0x4CD), 0x4CE);
    assert_eq!(fold(0x4D0), 0x4D1);
    assert_eq!(fold(0x4D1), 0x4D1);
    // Lowercase letters of the supported alphabets stay themselves.
    assert_eq!(fold(0x61), 0x61);
    assert_eq!(fold(0x3B1), 0x3B1);
    assert_eq!(fold(0x430), 0x430);
}

#[test]
fn block_punctuation_is_not_a_letter() {
    // Greek question mark, tonos marks, ano teleia.
    assert!(script_of_cp(0x37E).is_none());
    assert!(script_of_cp(0x384).is_none());
    assert!(script_of_cp(0x385).is_none());
    assert!(script_of_cp(0x387).is_none());
    // Cyrillic thousands sign and combining marks.
    assert!(script_of_cp(0x482).is_none());
    assert!(script_of_cp(0x489).is_none());
    // Letters on both sides of the gaps still classify.
    assert!(script_of_cp(0x3B1).is_some());
    assert!(script_of_cp(0x481).is_some());
    assert!(script_of_cp(0x48A).is_some());
}

#[test]
fn tokenize_empty_and_whitespace() {
    assert_eq!(tokenize(&to_code_points("")).len(), 0);
    assert_eq!(tokenize(&to_code_points("  \t  ")).len(), 0);
}

// The word "the" against the English profile: unigrams t, h, e are
// unseen (1 each), bigrams th and he weigh 60 and 45, the trigram the
// is unseen (1), and the whole word weighs 800.  The total is 909 over
// 3 meaningful characters: a normalized score of 303.
#[test]
fn english_score_of_the_exact() {
    let all = load_all();
    let en = &all[2];
    assert_eq!(en.lang, Language::En);
    let ws = tokenize(&to_code_points("the"));
    assert_eq!(score_normalized(en, &ws), 303);
}

// An unseen word scores exactly its n-gram count in penalties: for a
// three-letter word, 3 + 2 + 1 = 6 over 3 characters, normalized 2.
#[test]
fn unseen_word_scores_penalties_only() {
    let all = load_all();
    let en = &all[2];
    let ws = tokenize(&to_code_points("qqq"));
    assert_eq!(score_normalized(en, &ws), 2);
}

#[test]
fn tie_break_picks_earliest_entry() {
    let board = vec![(Language::En, 50u64), (Language::Fr, 50u64)];
    let first = select_best(&board);
    assert_eq!(first, Some((Language::En, 50)));
    // Repeated ranking of the same tied board is stable.
    let again = select_best(&board);
    assert_eq!(first, again);
}

#[test]
fn best_prefers_higher_score() {
    let board = vec![(Language::De, 10u64), (Language::Ru, 90u64), (Language::En, 40u64)];
    assert_eq!(select_best(&board), Some((Language::Ru, 90)));
}

#[test]
fn best_of_empty_board_is_none() {
    let board: Vec<(Language, u64)> = vec![];
    assert_eq!(select_best(&board), None);
}
