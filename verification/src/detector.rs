//! The detector: configuration, construction, and the detection
//! pipeline of preprocessing, script filtering, scoring and ranking.

use vstd::prelude::*;

use crate::lang::{ConfigError, DetectionResult, Language, Script, LANGUAGE_COUNT};
use crate::profile::{load_all, profile_at, profile_matches, LanguageProfile};
use crate::score::{
    count_len, lemma_best_characterized, lemma_tie_break, normalized_score, score_normalized,
    select_best, spec_best, total_len,
};
use crate::text::{cp_seq, is_letter, lemma_no_letters_no_words, script_of, script_of_cp,
    spec_words, to_code_points, tokenize};

verus! {

/// Default minimum number of meaningful characters a text must keep
/// after preprocessing before detection is attempted.
pub const DEFAULT_MIN_TEXT_LEN: u64 = 2;

/// Default minimum normalized score the best candidate must reach; a
/// top score below it yields `Unknown` rather than a low-confidence
/// guess.
pub const DEFAULT_MIN_CONFIDENCE: u64 = 10;

/// Whether some character of the text is a letter of the given script.
pub open spec fn has_script(t: Seq<u32>, s: Script) -> bool {
    exists|i: int| 0 <= i < t.len() && script_of(t[i]) == Some(s)
}

/// Whether one of the candidate's registered scripts occurs in the
/// text: the script filter keeps exactly the compatible candidates.
pub open spec fn compatible(p: LanguageProfile, t: Seq<u32>) -> bool {
    exists|k: int| 0 <= k < p.scripts@.len() && has_script(t, p.scripts@[k])
}

/// Whether the script filter would keep at least one candidate.
pub open spec fn any_compatible(ps: Seq<LanguageProfile>, t: Seq<u32>) -> bool {
    exists|i: int| 0 <= i < ps.len() && compatible(ps[i], t)
}

/// The score board of a detection call: one entry per candidate kept by
/// the script filter (every candidate when `keep_all`), in candidate
/// order, each with its normalized score.
pub open spec fn spec_board(
    ps: Seq<LanguageProfile>,
    t: Seq<u32>,
    ws: Seq<Seq<u32>>,
    keep_all: bool,
) -> Seq<(Language, u64)>
    decreases ps.len(),
{
    if ps.len() == 0 {
        Seq::<(Language, u64)>::empty()
    } else {
        let rest = spec_board(ps.drop_last(), t, ws, keep_all);
        let p = ps.last();
        if keep_all || compatible(p, t) {
            rest.push((p.lang, normalized_score(p, ws)))
        } else {
            rest
        }
    }
}

/// A language detector: an immutable candidate set with its profiles,
/// and the two thresholds of its configuration.  Built once by
/// [`Detector::build`] or its convenience constructors and never
/// mutated afterwards; one instance serves any number of calls.
pub struct Detector {
    /// The profiles of the candidate languages, in precedence order.
    pub profiles: Vec<LanguageProfile>,
    /// Minimum meaningful characters required before detection.
    pub min_text_len: u64,
    /// Minimum normalized score of an accepted best candidate.
    pub min_confidence: u64,
}

impl Detector {
    /// Well-formedness: at least one candidate, a positive length
    /// threshold, and candidates in strictly increasing precedence
    /// order.  Every constructor establishes it.
    pub open spec fn wf(self) -> bool {
        &&& self.profiles@.len() >= 1
        &&& self.min_text_len >= 1
        &&& forall|i: int, j: int|
            0 <= i < j < self.profiles@.len() ==> (#[trigger] self.profiles@[i].lang.index_spec())
                < (#[trigger] self.profiles@[j].lang.index_spec())
    }

    /// Whether a language belongs to this detector's candidate set.
    pub open spec fn has_language(self, l: Language) -> bool {
        exists|i: int| 0 <= i < self.profiles@.len() && (#[trigger] self.profiles@[i]).lang == l
    }

    /// What one detection call returns: the whole pipeline as a
    /// function of the detector and the text alone.
    pub open spec fn spec_detect(self, t: Seq<char>) -> DetectionResult {
        let u = cp_seq(t);
        let ws = spec_words(u);
        if total_len(ws) < self.min_text_len {
            DetectionResult::Unknown
        } else {
            let keep_all = !any_compatible(self.profiles@, u);
            let b = spec_board(self.profiles@, u, ws, keep_all);
            match spec_best(b) {
                None => DetectionResult::Unknown,
                Some(w) => if w.1 < self.min_confidence {
                    DetectionResult::Unknown
                } else {
                    DetectionResult::Detected(w.0)
                },
            }
        }
    }
}

/// Whether a language stands in a list.
fn contains_lang(v: &Vec<Language>, l: Language) -> (r: bool)
    ensures
        r == v@.contains(l),
{
    let n: usize = v.len();
    let mut i: usize = 0;
    #[verifier::loop_isolation(false)]
    while i < n
        invariant
            0 <= i <= n,
            forall|j: int| 0 <= j < i ==> v@[j] != l,
        decreases n - i,
    {
        if v[i] == l {
            return true;
        }
        i = i + 1;
    }
    false
}

impl Detector {
    /// Builds a detector over the given candidate languages and
    /// thresholds.  Fails fast on an empty candidate set or a zero
    /// length threshold; otherwise the candidate set of the detector
    /// is exactly the set of languages given, in precedence order.
    #[verifier::rlimit(100)]
    pub fn build(languages: &Vec<Language>, min_text_len: u64, min_confidence: u64) -> (r: Result<
        Detector,
        ConfigError,
    >)
        ensures
            (r == Err::<Detector, ConfigError>(ConfigError::EmptyLanguageSet)) <==> languages@.len()
                == 0,
            (r == Err::<Detector, ConfigError>(ConfigError::InvalidThreshold)) <==> (
            languages@.len() > 0 && min_text_len == 0),
            r matches Ok(d) ==> {
                &&& d.wf()
                &&& d.min_text_len == min_text_len
                &&& d.min_confidence == min_confidence
                &&& forall|l: Language| d.has_language(l) <==> languages@.contains(l)
                &&& forall|a: int|
                    0 <= a < d.profiles@.len() ==> profile_matches(
                        #[trigger] d.profiles@[a],
                        d.profiles@[a].lang,
                    )
            },
    {
        if languages.len() == 0 {
            return Err(ConfigError::EmptyLanguageSet);
        }
        if min_text_len == 0 {
            return Err(ConfigError::InvalidThreshold);
        }
        let mut profiles: Vec<LanguageProfile> = Vec::new();
        let mut i: usize = 0;
        #[verifier::loop_isolation(false)]
        while i < LANGUAGE_COUNT
            invariant
                0 <= i <= LANGUAGE_COUNT,
                forall|a: int, b: int|
                    0 <= a < b < profiles@.len() ==> (#[trigger] profiles@[a].lang.index_spec())
                        < (#[trigger] profiles@[b].lang.index_spec()),
                forall|a: int|
                    0 <= a < profiles@.len() ==> 0 <= (
                    #[trigger] profiles@[a].lang.index_spec()) < i,
                forall|a: int|
                    0 <= a < profiles@.len() ==> profile_matches(
                        #[trigger] profiles@[a],
                        profiles@[a].lang,
                    ),
                forall|l: Language|
                    (exists|a: int|
                        0 <= a < profiles@.len() && (#[trigger] profiles@[a]).lang == l) <==> (
                    languages@.contains(l) && l.index_spec() < i),
            decreases LANGUAGE_COUNT - i,
        {
            let p = profile_at(i);
            let keep = contains_lang(languages, p.lang);
            let ghost prev = profiles@;
            let ghost pl = p.lang;
            if keep {
                profiles.push(p);
            }
            proof {
                assert forall|l: Language|
                    ((exists|a: int|
                        0 <= a < profiles@.len() && (#[trigger] profiles@[a]).lang == l) <==> (
                    languages@.contains(l) && l.index_spec() < i + 1)) by {
                    if l.index_spec() == i as int {
                        crate::lang::lemma_index_injective(l, pl);
                    }
                    if exists|a: int|
                        0 <= a < profiles@.len() && (#[trigger] profiles@[a]).lang == l {
                        let a = choose|a: int|
                            0 <= a < profiles@.len() && (#[trigger] profiles@[a]).lang == l;
                        if a < prev.len() {
                            assert(prev[a].lang == l);
                        } else {
                            assert(l == pl);
                        }
                    }
                    if languages@.contains(l) && l.index_spec() < i + 1 {
                        if l.index_spec() < i {
                            assert(exists|a: int|
                                0 <= a < prev.len() && (#[trigger] prev[a]).lang == l);
                            let a = choose|a: int|
                                0 <= a < prev.len() && (#[trigger] prev[a]).lang == l;
                            assert(profiles@[a].lang == l);
                        } else {
                            assert(l == pl && keep);
                            assert(profiles@[profiles@.len() - 1].lang == l);
                        }
                    }
                }
            }
            i = i + 1;
        }
        proof {
            let l0 = languages@[0];
            assert(languages@.contains(l0));
            assert(l0.index_spec() < LANGUAGE_COUNT);
            assert(exists|a: int|
                0 <= a < profiles@.len() && (#[trigger] profiles@[a]).lang == l0);
        }
        Ok(Detector { profiles, min_text_len, min_confidence })
    }

    /// A detector over every supported language, with the default
    /// thresholds.  Its candidate list holds the embedded profile of
    /// the language with precedence index `i` at position `i`.
    pub fn from_all_languages() -> (d: Detector)
        ensures
            d.wf(),
            d.min_text_len == DEFAULT_MIN_TEXT_LEN,
            d.min_confidence == DEFAULT_MIN_CONFIDENCE,
            forall|l: Language| d.has_language(l),
            d.profiles@.len() == LANGUAGE_COUNT,
            forall|i: int|
                0 <= i < d.profiles@.len() ==> (#[trigger] d.profiles@[i]).lang.index_spec() == i,
            forall|i: int|
                0 <= i < d.profiles@.len() ==> profile_matches(
                    #[trigger] d.profiles@[i],
                    d.profiles@[i].lang,
                ),
    {
        let profiles = load_all();
        let d = Detector {
            profiles,
            min_text_len: DEFAULT_MIN_TEXT_LEN,
            min_confidence: DEFAULT_MIN_CONFIDENCE,
        };
        proof {
            assert forall|l: Language| d.has_language(l) by {
                let i = l.index_spec();
                assert(d.profiles@[i].lang.index_spec() == i);
                crate::lang::lemma_index_injective(d.profiles@[i].lang, l);
            }
        }
        d
    }

    /// A detector restricted to the given candidate languages, with the
    /// default thresholds.  Fails fast on an empty set.
    pub fn with_languages(languages: &Vec<Language>) -> (r: Result<Detector, ConfigError>)
        ensures
            (r == Err::<Detector, ConfigError>(ConfigError::EmptyLanguageSet)) <==> languages@.len()
                == 0,
            r matches Ok(d) ==> {
                &&& d.wf()
                &&& d.min_text_len == DEFAULT_MIN_TEXT_LEN
                &&& d.min_confidence == DEFAULT_MIN_CONFIDENCE
                &&& forall|l: Language| d.has_language(l) <==> languages@.contains(l)
                &&& forall|a: int|
                    0 <= a < d.profiles@.len() ==> profile_matches(
                        #[trigger] d.profiles@[a],
                        d.profiles@[a].lang,
                    )
            },
    {
        Detector::build(languages, DEFAULT_MIN_TEXT_LEN, DEFAULT_MIN_CONFIDENCE)
    }
}

/// The three observed-script flags of a text: whether a Latin, Greek,
/// or Cyrillic letter occurs in it.
fn observed_scripts(cps: &Vec<u32>) -> (r: (bool, bool, bool))
    ensures
        r.0 == has_script(cps@, Script::Latin),
        r.1 == has_script(cps@, Script::Greek),
        r.2 == has_script(cps@, Script::Cyrillic),
{
    let n: usize = cps.len();
    let mut lat = false;
    let mut gre = false;
    let mut cyr = false;
    let mut i: usize = 0;
    #[verifier::loop_isolation(false)]
    while i < n
        invariant
            0 <= i <= n,
            lat == exists|j: int| 0 <= j < i && script_of(cps@[j]) == Some(Script::Latin),
            gre == exists|j: int| 0 <= j < i && script_of(cps@[j]) == Some(Script::Greek),
            cyr == exists|j: int| 0 <= j < i && script_of(cps@[j]) == Some(Script::Cyrillic),
        decreases n - i,
    {
        let s = script_of_cp(cps[i]);
        match s {
            Some(Script::Latin) => {
                proof {
                    assert(script_of(cps@[i as int]) == Some(Script::Latin));
                }
                lat = true;
            },
            Some(Script::Greek) => {
                proof {
                    assert(script_of(cps@[i as int]) == Some(Script::Greek));
                }
                gre = true;
            },
            Some(Script::Cyrillic) => {
                proof {
                    assert(script_of(cps@[i as int]) == Some(Script::Cyrillic));
                }
                cyr = true;
            },
            None => {},
        }
        i = i + 1;
    }
    (lat, gre, cyr)
}

/// Whether the script filter keeps a candidate, given the observed
/// script flags of the text.
fn is_compatible(p: &LanguageProfile, cps: &Vec<u32>, lat: bool, gre: bool, cyr: bool) -> (r: bool)
    requires
        lat == has_script(cps@, Script::Latin),
        gre == has_script(cps@, Script::Greek),
        cyr == has_script(cps@, Script::Cyrillic),
    ensures
        r == compatible(*p, cps@),
{
    let n: usize = p.scripts.len();
    let mut k: usize = 0;
    #[verifier::loop_isolation(false)]
    while k < n
        invariant
            0 <= k <= n,
            forall|j: int| 0 <= j < k ==> !has_script(cps@, p.scripts@[j]),
        decreases n - k,
    {
        let hit = match p.scripts[k] {
            Script::Latin => lat,
            Script::Greek => gre,
            Script::Cyrillic => cyr,
        };
        if hit {
            return true;
        }
        k = k + 1;
    }
    false
}

/// Builds the score board of one call: the kept candidates, in order,
/// with their normalized scores.
fn make_board(
    ps: &Vec<LanguageProfile>,
    cps: &Vec<u32>,
    ws: &Vec<Vec<u32>>,
    keep_all: bool,
    lat: bool,
    gre: bool,
    cyr: bool,
) -> (b: Vec<(Language, u64)>)
    requires
        lat == has_script(cps@, Script::Latin),
        gre == has_script(cps@, Script::Greek),
        cyr == has_script(cps@, Script::Cyrillic),
    ensures
        b@ == spec_board(ps@, cps@, ws.deep_view(), keep_all),
{
    let n: usize = ps.len();
    let mut b: Vec<(Language, u64)> = Vec::new();
    let mut i: usize = 0;
    #[verifier::loop_isolation(false)]
    while i < n
        invariant
            0 <= i <= n,
            b@ == spec_board(ps@.take(i as int), cps@, ws.deep_view(), keep_all),
        decreases n - i,
    {
        proof {
            assert(ps@.take(i + 1).drop_last() =~= ps@.take(i as int));
            assert(ps@.take(i + 1).last() == ps@[i as int]);
        }
        let keep = if keep_all {
            true
        } else {
            is_compatible(&ps[i], cps, lat, gre, cyr)
        };
        if keep {
            let sc = score_normalized(&ps[i], ws);
            let l = ps[i].lang;
            b.push((l, sc));
        }
        i = i + 1;
    }
    proof {
        assert(ps@.take(n as int) =~= ps@);
    }
    b
}

/// Whether the script filter keeps at least one candidate.
fn exists_compatible(ps: &Vec<LanguageProfile>, cps: &Vec<u32>, lat: bool, gre: bool, cyr: bool)
    -> (r: bool)
    requires
        lat == has_script(cps@, Script::Latin),
        gre == has_script(cps@, Script::Greek),
        cyr == has_script(cps@, Script::Cyrillic),
    ensures
        r == any_compatible(ps@, cps@),
{
    let n: usize = ps.len();
    let mut i: usize = 0;
    #[verifier::loop_isolation(false)]
    while i < n
        invariant
            0 <= i <= n,
            forall|j: int| 0 <= j < i ==> !compatible(ps@[j], cps@),
        decreases n - i,
    {
        if is_compatible(&ps[i], cps, lat, gre, cyr) {
            proof {
                assert(compatible(ps@[i as int], cps@));
            }
            return true;
        }
        i = i + 1;
    }
    false
}

/// Every entry of a board names the language of some candidate, and a
/// board over candidates in strictly increasing precedence order is
/// itself in strictly increasing precedence order.
pub proof fn lemma_board_shape(
    ps: Seq<LanguageProfile>,
    t: Seq<u32>,
    ws: Seq<Seq<u32>>,
    keep_all: bool,
)
    ensures
        forall|k: int|
            0 <= k < spec_board(ps, t, ws, keep_all).len() ==> exists|i: int|
                0 <= i < ps.len() && (#[trigger] spec_board(ps, t, ws, keep_all)[k]).0 == ps[i].lang,
        (forall|i: int, j: int|
            0 <= i < j < ps.len() ==> (#[trigger] ps[i].lang.index_spec()) < (
            #[trigger] ps[j].lang.index_spec())) ==> (forall|i: int, j: int|
            0 <= i < j < spec_board(ps, t, ws, keep_all).len() ==> (#[trigger] spec_board(
                ps,
                t,
                ws,
                keep_all,
            )[i].0.index_spec()) < (#[trigger] spec_board(ps, t, ws, keep_all)[j].0.index_spec())),
    decreases ps.len(),
{
    if ps.len() > 0 {
        let front = ps.drop_last();
        lemma_board_shape(front, t, ws, keep_all);
        let bf = spec_board(front, t, ws, keep_all);
        let b = spec_board(ps, t, ws, keep_all);
        assert(forall|i: int| 0 <= i < front.len() ==> front[i] == ps[i]);
        assert forall|k: int| 0 <= k < b.len() implies exists|i: int|
            0 <= i < ps.len() && (#[trigger] b[k]).0 == ps[i].lang by {
            if k < bf.len() {
                assert(b[k] == bf[k]);
                let i = choose|i: int| 0 <= i < front.len() && bf[k].0 == front[i].lang;
                assert(0 <= i < ps.len() && b[k].0 == ps[i].lang);
            } else {
                assert(b[k].0 == ps[ps.len() - 1].lang);
            }
        }
        if forall|i: int, j: int|
            0 <= i < j < ps.len() ==> (#[trigger] ps[i].lang.index_spec()) < (
            #[trigger] ps[j].lang.index_spec()) {
            assert forall|i: int, j: int| 0 <= i < j < b.len() implies (
            #[trigger] b[i].0.index_spec()) < (#[trigger] b[j].0.index_spec()) by {
                if j < bf.len() {
                    assert(b[i] == bf[i] && b[j] == bf[j]);
                } else if j == bf.len() && b.len() > bf.len() {
                    assert(b[i] == bf[i]);
                    let a = choose|a: int| 0 <= a < front.len() && bf[i].0 == front[a].lang;
                    assert(ps[a].lang.index_spec() < ps[ps.len() - 1].lang.index_spec());
                }
            }
        }
    }
}

proof fn lemma_board_len_keep_all(ps: Seq<LanguageProfile>, t: Seq<u32>, ws: Seq<Seq<u32>>)
    ensures
        spec_board(ps, t, ws, true).len() == ps.len(),
    decreases ps.len(),
{
    if ps.len() > 0 {
        lemma_board_len_keep_all(ps.drop_last(), t, ws);
    }
}

proof fn lemma_board_nonempty(ps: Seq<LanguageProfile>, t: Seq<u32>, ws: Seq<Seq<u32>>)
    requires
        any_compatible(ps, t),
    ensures
        spec_board(ps, t, ws, false).len() >= 1,
    decreases ps.len(),
{
    let i = choose|i: int| 0 <= i < ps.len() && compatible(ps[i], t);
    if !compatible(ps.last(), t) {
        assert(0 <= i < ps.drop_last().len() && compatible(ps.drop_last()[i], t));
        lemma_board_nonempty(ps.drop_last(), t, ws);
    }
}

/// Detection returns `Unknown` only for one of the two causes the
/// design names: too little meaningful input, or a top score below the
/// confidence threshold.  In particular the script filter can never
/// force `Unknown` by itself: when no candidate's script is compatible
/// the filter falls back to the full candidate set, so the board of a
/// well-formed detector is never empty once the length check passes.
pub proof fn lemma_unknown_only_for_cause(d: Detector, t: Seq<char>)
    requires
        d.wf(),
    ensures
        ({
            let u = cp_seq(t);
            let ws = spec_words(u);
            let b = spec_board(d.profiles@, u, ws, !any_compatible(d.profiles@, u));
            d.spec_detect(t) == DetectionResult::Unknown ==> total_len(ws) < d.min_text_len || (
            spec_best(b) matches Some(w) && w.1 < d.min_confidence)
        }),
{
    let u = cp_seq(t);
    let ws = spec_words(u);
    let b = spec_board(d.profiles@, u, ws, !any_compatible(d.profiles@, u));
    if total_len(ws) >= d.min_text_len {
        if any_compatible(d.profiles@, u) {
            lemma_board_nonempty(d.profiles@, u, ws);
        } else {
            lemma_board_len_keep_all(d.profiles@, u, ws);
        }
        lemma_best_characterized(b);
    }
}

/// Tie-break determinism of a whole call: with a well-formed detector,
/// if detection settles on a language, every candidate on the board
/// that ties the winning score stands at or after the winner in the
/// fixed precedence order.  Together with the exact contract of
/// [`Detector::detect`] this pins the result of a tied board.
pub proof fn lemma_detector_tie_break(d: Detector, t: Seq<char>)
    requires
        d.wf(),
    ensures
        ({
            let u = cp_seq(t);
            let ws = spec_words(u);
            let b = spec_board(d.profiles@, u, ws, !any_compatible(d.profiles@, u));
            spec_best(b) matches Some(w) ==> forall|j: int|
                0 <= j < b.len() && (#[trigger] b[j]).1 == w.1 ==> w.0.index_spec()
                    <= b[j].0.index_spec()
        }),
{
    let u = cp_seq(t);
    let ws = spec_words(u);
    let b = spec_board(d.profiles@, u, ws, !any_compatible(d.profiles@, u));
    lemma_board_shape(d.profiles@, u, ws, !any_compatible(d.profiles@, u));
    lemma_tie_break(b);
}

/// A detected language is the top of the board: whenever detection
/// settles on a language, that language heads the score board with a
/// normalized score at or above the confidence threshold, and no kept
/// candidate — in particular no other member of a restricted candidate
/// set — scores higher.
pub proof fn lemma_detected_is_top(d: Detector, t: Seq<char>)
    ensures
        ({
            let u = cp_seq(t);
            let ws = spec_words(u);
            let b = spec_board(d.profiles@, u, ws, !any_compatible(d.profiles@, u));
            d.spec_detect(t) matches DetectionResult::Detected(l) ==> {
                &&& spec_best(b) is Some
                &&& spec_best(b).unwrap().0 == l
                &&& spec_best(b).unwrap().1 >= d.min_confidence
                &&& forall|j: int| 0 <= j < b.len() ==> (#[trigger] b[j]).1 <= spec_best(
                    b,
                ).unwrap().1
            }
        }),
{
    let u = cp_seq(t);
    let ws = spec_words(u);
    let b = spec_board(d.profiles@, u, ws, !any_compatible(d.profiles@, u));
    lemma_best_characterized(b);
}

impl Detector {
    /// Detects the language of a text.
    ///
    /// The result is a pure function of the detector and the text —
    /// [`Detector::spec_detect`] — so two calls with the same detector
    /// and input return the same outcome.  A text with no letter in it
    /// (empty, whitespace, digits, punctuation) is always `Unknown`,
    /// and a detected language always belongs to the candidate set.
    pub fn detect(&self, text: &str) -> (r: DetectionResult)
        ensures
            r == self.spec_detect(text@),
            self.min_text_len >= 1 && (forall|i: int|
                0 <= i < text@.len() ==> !is_letter((#[trigger] text@[i]) as u32)) ==> r
                == DetectionResult::Unknown,
            r matches DetectionResult::Detected(l) ==> self.has_language(l),
    {
        let cps = to_code_points(text);
        let ws = tokenize(&cps);
        let tl = count_len(&ws);
        proof {
            if forall|i: int| 0 <= i < text@.len() ==> !is_letter((#[trigger] text@[i]) as u32) {
                assert(forall|i: int|
                    0 <= i < cps@.len() ==> !is_letter(#[trigger] cps@[i]));
                lemma_no_letters_no_words(cps@);
            }
        }
        if tl < self.min_text_len {
            return DetectionResult::Unknown;
        }
        let ob = observed_scripts(&cps);
        let some_kept = exists_compatible(&self.profiles, &cps, ob.0, ob.1, ob.2);
        let board = make_board(&self.profiles, &cps, &ws, !some_kept, ob.0, ob.1, ob.2);
        let best = select_best(&board);
        proof {
            lemma_board_shape(self.profiles@, cps@, ws.deep_view(), !some_kept);
            lemma_best_characterized(board@);
        }
        match best {
            None => DetectionResult::Unknown,
            Some(w) => {
                if w.1 < self.min_confidence {
                    DetectionResult::Unknown
                } else {
                    DetectionResult::Detected(w.0)
                }
            },
        }
    }
}

} // verus!
