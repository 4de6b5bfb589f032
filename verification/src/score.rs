//! The scoring engine: n-gram and whole-word scores per candidate
//! language, normalization, and deterministic ranking.
//!
//! All scores are integers.  Sums saturate at `u64::MAX`, so scoring is
//! total over every input; the normalized score of a candidate is its
//! total score divided by the number of meaningful characters.

use vstd::prelude::*;

use crate::lang::Language;
use crate::profile::LanguageProfile;

verus! {

/// The score one unseen n-gram contributes: a small fixed penalty
/// instead of zero, so that one unseen token never eliminates a
/// candidate entirely.
pub const UNSEEN_UNIT: u64 = 1;

/// Addition on scores, saturating at `u64::MAX`.
pub open spec fn sat_add(a: u64, b: u64) -> u64 {
    if a + b > u64::MAX {
        u64::MAX
    } else {
        (a + b) as u64
    }
}

/// The weight a table assigns to a key: the weight of the first entry
/// whose key matches, or `0` when no entry matches.
pub open spec fn spec_lookup(table: Seq<(Vec<u32>, u64)>, key: Seq<u32>) -> u64
    decreases table.len(),
{
    if table.len() == 0 {
        0
    } else if table[0].0@ == key {
        table[0].1
    } else {
        spec_lookup(table.drop_first(), key)
    }
}

/// Whether two code-point vectors hold the same sequence.
fn vec_eq(a: &Vec<u32>, b: &Vec<u32>) -> (r: bool)
    ensures
        r == (a@ == b@),
{
    if a.len() != b.len() {
        return false;
    }
    let n: usize = a.len();
    let mut i: usize = 0;
    #[verifier::loop_isolation(false)]
    while i < n
        invariant
            0 <= i <= n,
            forall|j: int| 0 <= j < i ==> a@[j] == b@[j],
        decreases n - i,
    {
        if a[i] != b[i] {
            return false;
        }
        i = i + 1;
    }
    proof {
        assert(a@ =~= b@);
    }
    true
}

/// The weight a table assigns to a key, or `0` when absent.
pub fn lookup(table: &Vec<(Vec<u32>, u64)>, key: &Vec<u32>) -> (r: u64)
    ensures
        r == spec_lookup(table@, key@),
{
    let n: usize = table.len();
    let mut i: usize = 0;
    proof {
        assert(table@.skip(0) =~= table@);
    }
    #[verifier::loop_isolation(false)]
    while i < n
        invariant
            0 <= i <= n,
            spec_lookup(table@, key@) == spec_lookup(table@.skip(i as int), key@),
        decreases n - i,
    {
        proof {
            assert(table@.skip(i as int).drop_first() =~= table@.skip(i + 1));
            assert(table@.skip(i as int)[0] == table@[i as int]);
        }
        if vec_eq(&table[i].0, key) {
            return table[i].1;
        }
        i = i + 1;
    }
    0
}

/// The score one n-gram contributes for a candidate: its weight in the
/// gram table, or the fixed penalty when it is unseen there.
pub open spec fn gram_unit(table: Seq<(Vec<u32>, u64)>, g: Seq<u32>) -> u64 {
    let w = spec_lookup(table, g);
    if w == 0 {
        UNSEEN_UNIT
    } else {
        w
    }
}

/// The saturating sum of the scores of the first `k` sliding windows of
/// length `n` over a word.
pub open spec fn grams_score_upto(table: Seq<(Vec<u32>, u64)>, w: Seq<u32>, n: int, k: int) -> u64
    decreases k,
{
    if k <= 0 {
        0
    } else {
        sat_add(
            grams_score_upto(table, w, n, k - 1),
            gram_unit(table, w.subrange(k - 1, k - 1 + n)),
        )
    }
}

/// The saturating sum of the scores of all n-grams of length `n` in a
/// word; `0` when the word is shorter than `n`.
pub open spec fn grams_score(table: Seq<(Vec<u32>, u64)>, w: Seq<u32>, n: int) -> u64 {
    if 1 <= n <= w.len() {
        grams_score_upto(table, w, n, w.len() - n + 1)
    } else {
        0
    }
}

/// One sliding window of a word.
fn window(w: &Vec<u32>, start: usize, n: usize) -> (r: Vec<u32>)
    requires
        start + n <= w@.len(),
    ensures
        r@ == w@.subrange(start as int, start + n),
{
    let len: usize = w.len();
    let mut r: Vec<u32> = Vec::new();
    let mut j: usize = 0;
    #[verifier::loop_isolation(false)]
    while j < n
        invariant
            0 <= j <= n,
            start + n <= len == w@.len(),
            r@ =~= w@.subrange(start as int, start + j),
        decreases n - j,
    {
        r.push(w[start + j]);
        proof {
            assert(r@ =~= w@.subrange(start as int, start + j + 1));
        }
        j = j + 1;
    }
    r
}

/// The total score of all n-grams of one length in one word.
fn word_grams_score(table: &Vec<(Vec<u32>, u64)>, w: &Vec<u32>, n: usize) -> (r: u64)
    requires
        1 <= n,
    ensures
        r == grams_score(table@, w@, n as int),
{
    if n > w.len() {
        return 0;
    }
    let m: usize = w.len() - n + 1;
    let mut acc: u64 = 0;
    let mut k: usize = 0;
    #[verifier::loop_isolation(false)]
    while k < m
        invariant
            0 <= k <= m,
            acc == grams_score_upto(table@, w@, n as int, k as int),
        decreases m - k,
    {
        let g = window(w, k, n);
        let lw = lookup(table, &g);
        let unit: u64 = if lw == 0 {
            UNSEEN_UNIT
        } else {
            lw
        };
        acc = acc.saturating_add(unit);
        k = k + 1;
    }
    acc
}

/// The combined score of one word for a candidate: the n-gram scores of
/// lengths one through five, plus the whole-word weight when the word
/// stands in the candidate's common-word table.
pub open spec fn word_score(p: LanguageProfile, w: Seq<u32>) -> u64 {
    let g = sat_add(
        sat_add(
            sat_add(
                sat_add(grams_score(p.grams@, w, 1), grams_score(p.grams@, w, 2)),
                grams_score(p.grams@, w, 3),
            ),
            grams_score(p.grams@, w, 4),
        ),
        grams_score(p.grams@, w, 5),
    );
    sat_add(g, spec_lookup(p.words@, w))
}

/// The combined score of one word for a candidate.
pub fn score_word(p: &LanguageProfile, w: &Vec<u32>) -> (r: u64)
    ensures
        r == word_score(*p, w@),
{
    let g1 = word_grams_score(&p.grams, w, 1);
    let g2 = word_grams_score(&p.grams, w, 2);
    let g3 = word_grams_score(&p.grams, w, 3);
    let g4 = word_grams_score(&p.grams, w, 4);
    let g5 = word_grams_score(&p.grams, w, 5);
    let g = g1.saturating_add(g2).saturating_add(g3).saturating_add(g4).saturating_add(g5);
    g.saturating_add(lookup(&p.words, w))
}

/// The total score of a tokenized text for a candidate.
pub open spec fn text_score(p: LanguageProfile, ws: Seq<Seq<u32>>) -> u64
    decreases ws.len(),
{
    if ws.len() == 0 {
        0
    } else {
        sat_add(text_score(p, ws.drop_last()), word_score(p, ws.last()))
    }
}

/// The number of meaningful characters of a tokenized text: the sum of
/// the word lengths, saturating at `u64::MAX`.
pub open spec fn total_len(ws: Seq<Seq<u32>>) -> u64
    decreases ws.len(),
{
    if ws.len() == 0 {
        0
    } else {
        let l: u64 = if ws.last().len() > u64::MAX {
            u64::MAX
        } else {
            ws.last().len() as u64
        };
        sat_add(total_len(ws.drop_last()), l)
    }
}

/// The normalized score of a tokenized text for a candidate: total
/// score per meaningful character, `0` for an empty text.
pub open spec fn normalized_score(p: LanguageProfile, ws: Seq<Seq<u32>>) -> u64 {
    let tl = total_len(ws);
    if tl == 0 {
        0
    } else {
        text_score(p, ws) / tl
    }
}

/// The total score of a tokenized text for a candidate.
pub fn score_text(p: &LanguageProfile, ws: &Vec<Vec<u32>>) -> (r: u64)
    ensures
        r == text_score(*p, ws.deep_view()),
{
    let n: usize = ws.len();
    let mut acc: u64 = 0;
    let mut i: usize = 0;
    #[verifier::loop_isolation(false)]
    while i < n
        invariant
            0 <= i <= n,
            acc == text_score(*p, ws.deep_view().take(i as int)),
        decreases n - i,
    {
        proof {
            assert(ws.deep_view().take(i + 1).drop_last() =~= ws.deep_view().take(i as int));
            assert(ws.deep_view().take(i + 1).last() == ws.deep_view()[i as int]);
            assert(ws.deep_view()[i as int] =~= ws@[i as int]@);
        }
        let s = score_word(p, &ws[i]);
        acc = acc.saturating_add(s);
        i = i + 1;
    }
    proof {
        assert(ws.deep_view().take(n as int) =~= ws.deep_view());
    }
    acc
}

/// The number of meaningful characters of a tokenized text.
pub fn count_len(ws: &Vec<Vec<u32>>) -> (r: u64)
    ensures
        r == total_len(ws.deep_view()),
{
    let n: usize = ws.len();
    let mut acc: u64 = 0;
    let mut i: usize = 0;
    #[verifier::loop_isolation(false)]
    while i < n
        invariant
            0 <= i <= n,
            acc == total_len(ws.deep_view().take(i as int)),
        decreases n - i,
    {
        proof {
            assert(ws.deep_view().take(i + 1).drop_last() =~= ws.deep_view().take(i as int));
            assert(ws.deep_view().take(i + 1).last() == ws.deep_view()[i as int]);
            assert(ws.deep_view()[i as int] =~= ws@[i as int]@);
        }
        acc = acc.saturating_add(ws[i].len() as u64);
        i = i + 1;
    }
    proof {
        assert(ws.deep_view().take(n as int) =~= ws.deep_view());
    }
    acc
}

/// The normalized score of a tokenized text for a candidate.
pub fn score_normalized(p: &LanguageProfile, ws: &Vec<Vec<u32>>) -> (r: u64)
    ensures
        r == normalized_score(*p, ws.deep_view()),
{
    let tl = count_len(ws);
    if tl == 0 {
        0
    } else {
        score_text(p, ws) / tl
    }
}

/// The winner of a score board: the entry with the highest score; among
/// equal scores, the earliest entry.  `None` only for an empty board.
pub open spec fn spec_best(b: Seq<(Language, u64)>) -> Option<(Language, u64)>
    decreases b.len(),
{
    if b.len() == 0 {
        None
    } else {
        match spec_best(b.drop_last()) {
            None => Some(b.last()),
            Some(cur) => if b.last().1 > cur.1 {
                Some(b.last())
            } else {
                Some(cur)
            },
        }
    }
}

/// The winner of a score board.
pub fn select_best(b: &Vec<(Language, u64)>) -> (r: Option<(Language, u64)>)
    ensures
        r == spec_best(b@),
{
    let n: usize = b.len();
    let mut best: Option<(Language, u64)> = None;
    let mut i: usize = 0;
    #[verifier::loop_isolation(false)]
    while i < n
        invariant
            0 <= i <= n,
            best == spec_best(b@.take(i as int)),
        decreases n - i,
    {
        proof {
            assert(b@.take(i + 1).drop_last() =~= b@.take(i as int));
            assert(b@.take(i + 1).last() == b@[i as int]);
        }
        let e = b[i];
        best = match best {
            None => Some(e),
            Some(cur) => if e.1 > cur.1 {
                Some(e)
            } else {
                Some(cur)
            },
        };
        i = i + 1;
    }
    proof {
        assert(b@.take(n as int) =~= b@);
    }
    best
}

/// The winner of a board is one of its entries, carries its highest
/// score, and stands strictly above every entry before it: ranking is
/// deterministic, with ties broken by position.
pub proof fn lemma_best_characterized(b: Seq<(Language, u64)>)
    ensures
        b.len() == 0 <==> spec_best(b) is None,
        spec_best(b) matches Some(w) ==> exists|i: int|
            0 <= i < b.len() && b[i] == w && (forall|j: int| 0 <= j < b.len() ==> b[j].1 <= w.1)
                && (forall|j: int| 0 <= j < i ==> b[j].1 < w.1),
    decreases b.len(),
{
    if b.len() > 0 {
        lemma_best_characterized(b.drop_last());
        let w = spec_best(b).unwrap();
        if b.len() == 1 {
            assert(b[0] == w && (forall|j: int| 0 <= j < b.len() ==> b[j].1 <= w.1) && (forall|
                j: int,
            | 0 <= j < 0 ==> b[j].1 < w.1));
        } else {
            let prev = spec_best(b.drop_last()).unwrap();
            let pi = choose|i: int|
                0 <= i < b.drop_last().len() && b.drop_last()[i] == prev && (forall|j: int|
                    0 <= j < b.drop_last().len() ==> b.drop_last()[j].1 <= prev.1) && (forall|
                    j: int,
                | 0 <= j < i ==> b.drop_last()[j].1 < prev.1);
            if b.last().1 > prev.1 {
                let wi = b.len() - 1;
                assert(b[wi] == w);
                assert(forall|j: int| 0 <= j < b.len() - 1 ==> b.drop_last()[j] == b[j]);
                assert(forall|j: int| 0 <= j < b.len() ==> b[j].1 <= w.1);
                assert(forall|j: int| 0 <= j < wi ==> b[j].1 < w.1);
            } else {
                assert(b[pi] == w);
                assert(forall|j: int| 0 <= j < b.len() - 1 ==> b.drop_last()[j] == b[j]);
                assert(forall|j: int| 0 <= j < b.len() ==> b[j].1 <= w.1);
                assert(forall|j: int| 0 <= j < pi ==> b[j].1 < w.1);
            }
        }
    }
}

/// Tie-break determinism: on a board whose languages stand in strictly
/// increasing precedence order, the winner's language precedes (or is)
/// the language of every entry that ties its score.
pub proof fn lemma_tie_break(b: Seq<(Language, u64)>)
    requires
        forall|i: int, j: int|
            0 <= i < j < b.len() ==> b[i].0.index_spec() < b[j].0.index_spec(),
    ensures
        spec_best(b) matches Some(w) ==> forall|j: int|
            0 <= j < b.len() && b[j].1 == w.1 ==> w.0.index_spec() <= b[j].0.index_spec(),
{
    lemma_best_characterized(b);
    if spec_best(b) is Some {
        let w = spec_best(b).unwrap();
        let i = choose|i: int|
            0 <= i < b.len() && b[i] == w && (forall|j: int| 0 <= j < b.len() ==> b[j].1 <= w.1)
                && (forall|j: int| 0 <= j < i ==> b[j].1 < w.1);
        assert forall|j: int| 0 <= j < b.len() && b[j].1 == w.1 implies w.0.index_spec()
            <= b[j].0.index_spec() by {
            if j < i {
                assert(b[j].1 < w.1);
            } else if j > i {
                assert(b[i].0.index_spec() < b[j].0.index_spec());
            }
        }
    }
}

} // verus!
