//! Immutable per-language statistical profiles.
//!
//! A profile holds the scripts a language is written in, a table of
//! characteristic n-grams, and a table of common whole words, each with
//! an integer weight.  The tables are embedded model data, fixed at
//! build time of the library; a detector loads them once at
//! construction and never mutates them.

use vstd::prelude::*;

use crate::lang::{Language, Script, LANGUAGE_COUNT};
use crate::text::{cp_seq, to_code_points};

verus! {

/// The immutable statistical model of one language.
pub struct LanguageProfile {
    /// The language this profile describes.
    pub lang: Language,
    /// The scripts the language is written in.
    pub scripts: Vec<Script>,
    /// Characteristic n-grams (as folded code points) with weights.
    pub grams: Vec<(Vec<u32>, u64)>,
    /// Common whole words (as folded code points) with weights.
    pub words: Vec<(Vec<u32>, u64)>,
}

/// The mathematical content of a weight table: each entry as the
/// sequence of code points of its key, with its weight.
pub open spec fn table_view(t: Seq<(Vec<u32>, u64)>) -> Seq<(Seq<u32>, u64)> {
    t.map_values(|e: (Vec<u32>, u64)| (e.0@, e.1))
}

/// The scripts of each language's embedded profile.
pub open spec fn spec_scripts(l: Language) -> Seq<Script> {
    match l {
        Language::El => seq![Script::Greek],
        Language::Ru => seq![Script::Cyrillic],
        Language::Uk => seq![Script::Cyrillic],
        _ => seq![Script::Latin],
    }
}

/// The n-gram table of each language's embedded profile.
pub open spec fn spec_gram_table(l: Language) -> Seq<(Seq<u32>, u64)> {
    match l {
        Language::De => seq![
            (cp_seq("sch"@), 60u64),
            (cp_seq("ch"@), 40u64),
            (cp_seq("ei"@), 35u64),
            (cp_seq("en"@), 40u64),
            (cp_seq("er"@), 40u64),
            (cp_seq("ie"@), 30u64),
            (cp_seq("un"@), 25u64),
            (cp_seq("ung"@), 50u64),
        ],
        Language::El => seq![
            (cp_seq("αι"@), 40u64),
            (cp_seq("κα"@), 35u64),
            (cp_seq("ος"@), 40u64),
            (cp_seq("την"@), 45u64),
            (cp_seq("ου"@), 30u64),
        ],
        Language::En => seq![
            (cp_seq("th"@), 60u64),
            (cp_seq("he"@), 45u64),
            (cp_seq("an"@), 35u64),
            (cp_seq("in"@), 35u64),
            (cp_seq("er"@), 30u64),
            (cp_seq("on"@), 30u64),
            (cp_seq("re"@), 25u64),
            (cp_seq("ing"@), 55u64),
            (cp_seq("or"@), 30u64),
            (cp_seq("ld"@), 25u64),
        ],
        Language::Es => seq![
            (cp_seq("ll"@), 40u64),
            (cp_seq("rr"@), 35u64),
            (cp_seq("os"@), 35u64),
            (cp_seq("as"@), 30u64),
            (cp_seq("ue"@), 30u64),
            (cp_seq("ar"@), 25u64),
        ],
        Language::Fr => seq![
            (cp_seq("ou"@), 45u64),
            (cp_seq("on"@), 40u64),
            (cp_seq("eau"@), 50u64),
            (cp_seq("eu"@), 35u64),
            (cp_seq("qu"@), 40u64),
            (cp_seq("ai"@), 30u64),
            (cp_seq("oi"@), 35u64),
        ],
        Language::It => seq![
            (cp_seq("gli"@), 55u64),
            (cp_seq("zz"@), 40u64),
            (cp_seq("cc"@), 35u64),
            (cp_seq("tt"@), 35u64),
            (cp_seq("ia"@), 30u64),
            (cp_seq("io"@), 30u64),
        ],
        Language::Nl => seq![
            (cp_seq("ij"@), 60u64),
            (cp_seq("aa"@), 45u64),
            (cp_seq("ee"@), 40u64),
            (cp_seq("oo"@), 40u64),
            (cp_seq("ui"@), 35u64),
        ],
        Language::Pt => seq![
            (cp_seq("ão"@), 55u64),
            (cp_seq("nh"@), 45u64),
            (cp_seq("lh"@), 45u64),
            (cp_seq("em"@), 30u64),
            (cp_seq("ra"@), 25u64),
        ],
        Language::Ru => seq![
            (cp_seq("ый"@), 50u64),
            (cp_seq("ого"@), 55u64),
            (cp_seq("ть"@), 40u64),
            (cp_seq("по"@), 30u64),
            (cp_seq("на"@), 30u64),
        ],
        Language::Uk => seq![
            (cp_seq("ння"@), 60u64),
            (cp_seq("ий"@), 40u64),
            (cp_seq("ти"@), 30u64),
            (cp_seq("ні"@), 35u64),
        ],
    }
}

/// The common-word table of each language's embedded profile.
pub open spec fn spec_word_table(l: Language) -> Seq<(Seq<u32>, u64)> {
    match l {
        Language::De => seq![
            (cp_seq("der"@), 700u64),
            (cp_seq("die"@), 700u64),
            (cp_seq("und"@), 800u64),
            (cp_seq("das"@), 600u64),
            (cp_seq("ist"@), 500u64),
            (cp_seq("nicht"@), 500u64),
            (cp_seq("ein"@), 400u64),
            (cp_seq("mit"@), 400u64),
        ],
        Language::El => seq![
            (cp_seq("και"@), 800u64),
            (cp_seq("είναι"@), 700u64),
            (cp_seq("το"@), 500u64),
            (cp_seq("της"@), 500u64),
            (cp_seq("ένα"@), 400u64),
            (cp_seq("εδώ"@), 300u64),
        ],
        Language::En => seq![
            (cp_seq("the"@), 800u64),
            (cp_seq("and"@), 700u64),
            (cp_seq("this"@), 500u64),
            (cp_seq("that"@), 500u64),
            (cp_seq("with"@), 450u64),
            (cp_seq("hello"@), 400u64),
            (cp_seq("world"@), 400u64),
            (cp_seq("house"@), 300u64),
            (cp_seq("garden"@), 300u64),
        ],
        Language::Es => seq![
            (cp_seq("los"@), 700u64),
            (cp_seq("las"@), 600u64),
            (cp_seq("una"@), 600u64),
            (cp_seq("pero"@), 500u64),
            (cp_seq("muy"@), 450u64),
            (cp_seq("esta"@), 400u64),
            (cp_seq("casa"@), 300u64),
        ],
        Language::Fr => seq![
            (cp_seq("le"@), 600u64),
            (cp_seq("la"@), 600u64),
            (cp_seq("les"@), 600u64),
            (cp_seq("et"@), 600u64),
            (cp_seq("bonjour"@), 800u64),
            (cp_seq("tout"@), 500u64),
            (cp_seq("monde"@), 500u64),
            (cp_seq("est"@), 400u64),
            (cp_seq("une"@), 400u64),
            (cp_seq("vie"@), 300u64),
            (cp_seq("belle"@), 300u64),
        ],
        Language::It => seq![
            (cp_seq("gli"@), 700u64),
            (cp_seq("sono"@), 600u64),
            (cp_seq("anche"@), 500u64),
            (cp_seq("della"@), 500u64),
            (cp_seq("nostra"@), 300u64),
            (cp_seq("amici"@), 300u64),
            (cp_seq("il"@), 400u64),
        ],
        Language::Nl => seq![
            (cp_seq("het"@), 700u64),
            (cp_seq("een"@), 600u64),
            (cp_seq("zijn"@), 600u64),
            (cp_seq("niet"@), 500u64),
            (cp_seq("hier"@), 300u64),
            (cp_seq("huis"@), 300u64),
            (cp_seq("fiets"@), 300u64),
        ],
        Language::Pt => seq![
            (cp_seq("não"@), 700u64),
            (cp_seq("isso"@), 600u64),
            (cp_seq("muito"@), 600u64),
            (cp_seq("uma"@), 500u64),
            (cp_seq("ela"@), 400u64),
            (cp_seq("bom"@), 300u64),
            (cp_seq("acha"@), 300u64),
        ],
        Language::Ru => seq![
            (cp_seq("это"@), 800u64),
            (cp_seq("что"@), 700u64),
            (cp_seq("и"@), 500u64),
            (cp_seq("привет"@), 600u64),
            (cp_seq("мир"@), 400u64),
            (cp_seq("не"@), 400u64),
            (cp_seq("книга"@), 300u64),
        ],
        Language::Uk => seq![
            (cp_seq("це"@), 800u64),
            (cp_seq("що"@), 700u64),
            (cp_seq("і"@), 600u64),
            (cp_seq("є"@), 500u64),
            (cp_seq("привіт"@), 600u64),
            (cp_seq("світ"@), 400u64),
            (cp_seq("дуже"@), 300u64),
            (cp_seq("добра"@), 300u64),
        ],
    }
}

/// Whether a profile value holds exactly the embedded model data of a
/// language: its scripts and both weight tables, entry for entry.
pub open spec fn profile_matches(p: LanguageProfile, l: Language) -> bool {
    &&& p.lang == l
    &&& p.scripts@ == spec_scripts(l)
    &&& table_view(p.grams@) == spec_gram_table(l)
    &&& table_view(p.words@) == spec_word_table(l)
}

fn profile_de() -> (p: LanguageProfile)
    ensures
        profile_matches(p, Language::De),
{
    let mut grams: Vec<(Vec<u32>, u64)> = Vec::new();
    grams.push((to_code_points("sch"), 60));
    grams.push((to_code_points("ch"), 40));
    grams.push((to_code_points("ei"), 35));
    grams.push((to_code_points("en"), 40));
    grams.push((to_code_points("er"), 40));
    grams.push((to_code_points("ie"), 30));
    grams.push((to_code_points("un"), 25));
    grams.push((to_code_points("ung"), 50));
    let mut words: Vec<(Vec<u32>, u64)> = Vec::new();
    words.push((to_code_points("der"), 700));
    words.push((to_code_points("die"), 700));
    words.push((to_code_points("und"), 800));
    words.push((to_code_points("das"), 600));
    words.push((to_code_points("ist"), 500));
    words.push((to_code_points("nicht"), 500));
    words.push((to_code_points("ein"), 400));
    words.push((to_code_points("mit"), 400));
    let mut scripts: Vec<Script> = Vec::new();
    scripts.push(Script::Latin);
    let p = LanguageProfile { lang: Language::De, scripts, grams, words };
    proof {
        assert(p.scripts@ =~= spec_scripts(Language::De));
        assert(table_view(p.grams@) =~~= spec_gram_table(Language::De));
        assert(table_view(p.words@) =~~= spec_word_table(Language::De));
    }
    p
}

fn profile_el() -> (p: LanguageProfile)
    ensures
        profile_matches(p, Language::El),
{
    let mut grams: Vec<(Vec<u32>, u64)> = Vec::new();
    grams.push((to_code_points("αι"), 40));
    grams.push((to_code_points("κα"), 35));
    grams.push((to_code_points("ος"), 40));
    grams.push((to_code_points("την"), 45));
    grams.push((to_code_points("ου"), 30));
    let mut words: Vec<(Vec<u32>, u64)> = Vec::new();
    words.push((to_code_points("και"), 800));
    words.push((to_code_points("είναι"), 700));
    words.push((to_code_points("το"), 500));
    words.push((to_code_points("της"), 500));
    words.push((to_code_points("ένα"), 400));
    words.push((to_code_points("εδώ"), 300));
    let mut scripts: Vec<Script> = Vec::new();
    scripts.push(Script::Greek);
    let p = LanguageProfile { lang: Language::El, scripts, grams, words };
    proof {
        assert(p.scripts@ =~= spec_scripts(Language::El));
        assert(table_view(p.grams@) =~~= spec_gram_table(Language::El));
        assert(table_view(p.words@) =~~= spec_word_table(Language::El));
    }
    p
}

fn profile_en() -> (p: LanguageProfile)
    ensures
        profile_matches(p, Language::En),
{
    let mut grams: Vec<(Vec<u32>, u64)> = Vec::new();
    grams.push((to_code_points("th"), 60));
    grams.push((to_code_points("he"), 45));
    grams.push((to_code_points("an"), 35));
    grams.push((to_code_points("in"), 35));
    grams.push((to_code_points("er"), 30));
    grams.push((to_code_points("on"), 30));
    grams.push((to_code_points("re"), 25));
    grams.push((to_code_points("ing"), 55));
    grams.push((to_code_points("or"), 30));
    grams.push((to_code_points("ld"), 25));
    let mut words: Vec<(Vec<u32>, u64)> = Vec::new();
    words.push((to_code_points("the"), 800));
    words.push((to_code_points("and"), 700));
    words.push((to_code_points("this"), 500));
    words.push((to_code_points("that"), 500));
    words.push((to_code_points("with"), 450));
    words.push((to_code_points("hello"), 400));
    words.push((to_code_points("world"), 400));
    words.push((to_code_points("house"), 300));
    words.push((to_code_points("garden"), 300));
    let mut scripts: Vec<Script> = Vec::new();
    scripts.push(Script::Latin);
    let p = LanguageProfile { lang: Language::En, scripts, grams, words };
    proof {
        assert(p.scripts@ =~= spec_scripts(Language::En));
        assert(table_view(p.grams@) =~~= spec_gram_table(Language::En));
        assert(table_view(p.words@) =~~= spec_word_table(Language::En));
    }
    p
}

fn profile_es() -> (p: LanguageProfile)
    ensures
        profile_matches(p, Language::Es),
{
    let mut grams: Vec<(Vec<u32>, u64)> = Vec::new();
    grams.push((to_code_points("ll"), 40));
    grams.push((to_code_points("rr"), 35));
    grams.push((to_code_points("os"), 35));
    grams.push((to_code_points("as"), 30));
    grams.push((to_code_points("ue"), 30));
    grams.push((to_code_points("ar"), 25));
    let mut words: Vec<(Vec<u32>, u64)> = Vec::new();
    words.push((to_code_points("los"), 700));
    words.push((to_code_points("las"), 600));
    words.push((to_code_points("una"), 600));
    words.push((to_code_points("pero"), 500));
    words.push((to_code_points("muy"), 450));
    words.push((to_code_points("esta"), 400));
    words.push((to_code_points("casa"), 300));
    let mut scripts: Vec<Script> = Vec::new();
    scripts.push(Script::Latin);
    let p = LanguageProfile { lang: Language::Es, scripts, grams, words };
    proof {
        assert(p.scripts@ =~= spec_scripts(Language::Es));
        assert(table_view(p.grams@) =~~= spec_gram_table(Language::Es));
        assert(table_view(p.words@) =~~= spec_word_table(Language::Es));
    }
    p
}

fn profile_fr() -> (p: LanguageProfile)
    ensures
        profile_matches(p, Language::Fr),
{
    let mut grams: Vec<(Vec<u32>, u64)> = Vec::new();
    grams.push((to_code_points("ou"), 45));
    grams.push((to_code_points("on"), 40));
    grams.push((to_code_points("eau"), 50));
    grams.push((to_code_points("eu"), 35));
    grams.push((to_code_points("qu"), 40));
    grams.push((to_code_points("ai"), 30));
    grams.push((to_code_points("oi"), 35));
    let mut words: Vec<(Vec<u32>, u64)> = Vec::new();
    words.push((to_code_points("le"), 600));
    words.push((to_code_points("la"), 600));
    words.push((to_code_points("les"), 600));
    words.push((to_code_points("et"), 600));
    words.push((to_code_points("bonjour"), 800));
    words.push((to_code_points("tout"), 500));
    words.push((to_code_points("monde"), 500));
    words.push((to_code_points("est"), 400));
    words.push((to_code_points("une"), 400));
    words.push((to_code_points("vie"), 300));
    words.push((to_code_points("belle"), 300));
    let mut scripts: Vec<Script> = Vec::new();
    scripts.push(Script::Latin);
    let p = LanguageProfile { lang: Language::Fr, scripts, grams, words };
    proof {
        assert(p.scripts@ =~= spec_scripts(Language::Fr));
        assert(table_view(p.grams@) =~~= spec_gram_table(Language::Fr));
        assert(table_view(p.words@) =~~= spec_word_table(Language::Fr));
    }
    p
}

fn profile_it() -> (p: LanguageProfile)
    ensures
        profile_matches(p, Language::It),
{
    let mut grams: Vec<(Vec<u32>, u64)> = Vec::new();
    grams.push((to_code_points("gli"), 55));
    grams.push((to_code_points("zz"), 40));
    grams.push((to_code_points("cc"), 35));
    grams.push((to_code_points("tt"), 35));
    grams.push((to_code_points("ia"), 30));
    grams.push((to_code_points("io"), 30));
    let mut words: Vec<(Vec<u32>, u64)> = Vec::new();
    words.push((to_code_points("gli"), 700));
    words.push((to_code_points("sono"), 600));
    words.push((to_code_points("anche"), 500));
    words.push((to_code_points("della"), 500));
    words.push((to_code_points("nostra"), 300));
    words.push((to_code_points("amici"), 300));
    words.push((to_code_points("il"), 400));
    let mut scripts: Vec<Script> = Vec::new();
    scripts.push(Script::Latin);
    let p = LanguageProfile { lang: Language::It, scripts, grams, words };
    proof {
        assert(p.scripts@ =~= spec_scripts(Language::It));
        assert(table_view(p.grams@) =~~= spec_gram_table(Language::It));
        assert(table_view(p.words@) =~~= spec_word_table(Language::It));
    }
    p
}

fn profile_nl() -> (p: LanguageProfile)
    ensures
        profile_matches(p, Language::Nl),
{
    let mut grams: Vec<(Vec<u32>, u64)> = Vec::new();
    grams.push((to_code_points("ij"), 60));
    grams.push((to_code_points("aa"), 45));
    grams.push((to_code_points("ee"), 40));
    grams.push((to_code_points("oo"), 40));
    grams.push((to_code_points("ui"), 35));
    let mut words: Vec<(Vec<u32>, u64)> = Vec::new();
    words.push((to_code_points("het"), 700));
    words.push((to_code_points("een"), 600));
    words.push((to_code_points("zijn"), 600));
    words.push((to_code_points("niet"), 500));
    words.push((to_code_points("hier"), 300));
    words.push((to_code_points("huis"), 300));
    words.push((to_code_points("fiets"), 300));
    let mut scripts: Vec<Script> = Vec::new();
    scripts.push(Script::Latin);
    let p = LanguageProfile { lang: Language::Nl, scripts, grams, words };
    proof {
        assert(p.scripts@ =~= spec_scripts(Language::Nl));
        assert(table_view(p.grams@) =~~= spec_gram_table(Language::Nl));
        assert(table_view(p.words@) =~~= spec_word_table(Language::Nl));
    }
    p
}

fn profile_pt() -> (p: LanguageProfile)
    ensures
        profile_matches(p, Language::Pt),
{
    let mut grams: Vec<(Vec<u32>, u64)> = Vec::new();
    grams.push((to_code_points("ão"), 55));
    grams.push((to_code_points("nh"), 45));
    grams.push((to_code_points("lh"), 45));
    grams.push((to_code_points("em"), 30));
    grams.push((to_code_points("ra"), 25));
    let mut words: Vec<(Vec<u32>, u64)> = Vec::new();
    words.push((to_code_points("não"), 700));
    words.push((to_code_points("isso"), 600));
    words.push((to_code_points("muito"), 600));
    words.push((to_code_points("uma"), 500));
    words.push((to_code_points("ela"), 400));
    words.push((to_code_points("bom"), 300));
    words.push((to_code_points("acha"), 300));
    let mut scripts: Vec<Script> = Vec::new();
    scripts.push(Script::Latin);
    let p = LanguageProfile { lang: Language::Pt, scripts, grams, words };
    proof {
        assert(p.scripts@ =~= spec_scripts(Language::Pt));
        assert(table_view(p.grams@) =~~= spec_gram_table(Language::Pt));
        assert(table_view(p.words@) =~~= spec_word_table(Language::Pt));
    }
    p
}

fn profile_ru() -> (p: LanguageProfile)
    ensures
        profile_matches(p, Language::Ru),
{
    let mut grams: Vec<(Vec<u32>, u64)> = Vec::new();
    grams.push((to_code_points("ый"), 50));
    grams.push((to_code_points("ого"), 55));
    grams.push((to_code_points("ть"), 40));
    grams.push((to_code_points("по"), 30));
    grams.push((to_code_points("на"), 30));
    let mut words: Vec<(Vec<u32>, u64)> = Vec::new();
    words.push((to_code_points("это"), 800));
    words.push((to_code_points("что"), 700));
    words.push((to_code_points("и"), 500));
    words.push((to_code_points("привет"), 600));
    words.push((to_code_points("мир"), 400));
    words.push((to_code_points("не"), 400));
    words.push((to_code_points("книга"), 300));
    let mut scripts: Vec<Script> = Vec::new();
    scripts.push(Script::Cyrillic);
    let p = LanguageProfile { lang: Language::Ru, scripts, grams, words };
    proof {
        assert(p.scripts@ =~= spec_scripts(Language::Ru));
        assert(table_view(p.grams@) =~~= spec_gram_table(Language::Ru));
        assert(table_view(p.words@) =~~= spec_word_table(Language::Ru));
    }
    p
}

fn profile_uk() -> (p: LanguageProfile)
    ensures
        profile_matches(p, Language::Uk),
{
    let mut grams: Vec<(Vec<u32>, u64)> = Vec::new();
    grams.push((to_code_points("ння"), 60));
    grams.push((to_code_points("ий"), 40));
    grams.push((to_code_points("ти"), 30));
    grams.push((to_code_points("ні"), 35));
    let mut words: Vec<(Vec<u32>, u64)> = Vec::new();
    words.push((to_code_points("це"), 800));
    words.push((to_code_points("що"), 700));
    words.push((to_code_points("і"), 600));
    words.push((to_code_points("є"), 500));
    words.push((to_code_points("привіт"), 600));
    words.push((to_code_points("світ"), 400));
    words.push((to_code_points("дуже"), 300));
    words.push((to_code_points("добра"), 300));
    let mut scripts: Vec<Script> = Vec::new();
    scripts.push(Script::Cyrillic);
    let p = LanguageProfile { lang: Language::Uk, scripts, grams, words };
    proof {
        assert(p.scripts@ =~= spec_scripts(Language::Uk));
        assert(table_view(p.grams@) =~~= spec_gram_table(Language::Uk));
        assert(table_view(p.words@) =~~= spec_word_table(Language::Uk));
    }
    p
}

/// The profile of the language whose precedence index is `i`.
pub fn profile_at(i: usize) -> (p: LanguageProfile)
    requires
        i < LANGUAGE_COUNT,
    ensures
        p.lang.index_spec() == i as int,
        profile_matches(p, p.lang),
{
    match i {
        0 => profile_de(),
        1 => profile_el(),
        2 => profile_en(),
        3 => profile_es(),
        4 => profile_fr(),
        5 => profile_it(),
        6 => profile_nl(),
        7 => profile_pt(),
        8 => profile_ru(),
        _ => profile_uk(),
    }
}

/// Loads the profiles of every supported language, in precedence order:
/// the profile of the language with index `i` stands at position `i`,
/// and each profile holds exactly its language's embedded model data.
pub fn load_all() -> (r: Vec<LanguageProfile>)
    ensures
        r@.len() == LANGUAGE_COUNT,
        forall|i: int| 0 <= i < r@.len() ==> (#[trigger] r@[i]).lang.index_spec() == i,
        forall|i: int| 0 <= i < r@.len() ==> profile_matches(#[trigger] r@[i], r@[i].lang),
{
    let mut r: Vec<LanguageProfile> = Vec::new();
    let mut i: usize = 0;
    #[verifier::loop_isolation(false)]
    while i < LANGUAGE_COUNT
        invariant
            0 <= i <= LANGUAGE_COUNT,
            r@.len() == i,
            forall|j: int| 0 <= j < i ==> (#[trigger] r@[j]).lang.index_spec() == j,
            forall|j: int| 0 <= j < i ==> profile_matches(#[trigger] r@[j], r@[j].lang),
        decreases LANGUAGE_COUNT - i,
    {
        r.push(profile_at(i));
        i = i + 1;
    }
    r
}

} // verus!
