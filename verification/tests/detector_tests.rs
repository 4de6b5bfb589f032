use lang_detect::detector::Detector;
use lang_detect::lang::{ConfigError, DetectionResult, Language};

#[test]
fn detect_french_phrase() {
    let d = Detector::from_all_languages();
    let r = d.detect("Bonjour tout le monde");
    assert_eq!(r, DetectionResult::Detected(Language::Fr));
    assert_eq!(r.code(), "fr");
}

#[test]
fn detect_english_phrase() {
    let d = Detector::from_all_languages();
    let r = d.detect("Hello world");
    assert_eq!(r, DetectionResult::Detected(Language::En));
    assert_eq!(r.code(), "en");
}

#[test]
fn single_char_below_min_length() {
    let d = Detector::from_all_languages();
    assert_eq!(d.detect("a"), DetectionResult::Unknown);
    assert_eq!(d.detect("a").code(), "unknown");
}

#[test]
fn empty_input_unknown() {
    let d = Detector::from_all_languages();
    assert_eq!(d.detect(""), DetectionResult::Unknown);
}

#[test]
fn whitespace_input_unknown() {
    let d = Detector::from_all_languages();
    assert_eq!(d.detect("   "), DetectionResult::Unknown);
}

#[test]
fn digits_and_punctuation_unknown() {
    let d = Detector::from_all_languages();
    assert_eq!(d.detect("123 456! 789?"), DetectionResult::Unknown);
}

#[test]
fn unsupported_script_unknown() {
    let d = Detector::from_all_languages();
    assert_eq!(d.detect("\u{4f60}\u{597d}\u{4e16}\u{754c}"), DetectionResult::Unknown);
}

#[test]
fn gibberish_below_confidence_unknown() {
    let d = Detector::from_all_languages();
    assert_eq!(d.detect("qqq xxq zzq"), DetectionResult::Unknown);
}

#[test]
fn detect_is_deterministic() {
    let d = Detector::from_all_languages();
    let a = d.detect("Bonjour tout le monde");
    let b = d.detect("Bonjour tout le monde");
    assert_eq!(a, b);
    let c = d.detect("qqq xxq zzq");
    let e = d.detect("qqq xxq zzq");
    assert_eq!(c, e);
}

#[test]
fn restricted_candidates_never_outside_subset() {
    let langs = vec![Language::En, Language::Fr];
    let d = Detector::with_languages(&langs).unwrap();
    // Spanish text: the detector may only answer from {en, fr}.
    let r = d.detect("el perro corre por la calle");
    assert_ne!(r, DetectionResult::Unknown);
    assert_ne!(r, DetectionResult::Detected(Language::Es));
    assert!(
        r == DetectionResult::Detected(Language::En) || r == DetectionResult::Detected(
            Language::Fr,
        )
    );
    // Of the two, French scores higher here (the whole word "la").
    assert_eq!(r, DetectionResult::Detected(Language::Fr));
}

#[test]
fn tie_break_identical_scores_stable() {
    // Two candidates whose profiles match nothing in the text score
    // identically (penalties only); with the confidence threshold
    // lowered, detection must settle the tie the same way every time,
    // on the candidate earlier in precedence order.
    let langs = vec![Language::De, Language::En];
    let d = Detector::build(&langs, 2, 1).unwrap();
    let first = d.detect("qqq xxq zzq");
    assert_eq!(first, DetectionResult::Detected(Language::De));
    for _ in 0..5 {
        assert_eq!(d.detect("qqq xxq zzq"), first);
    }
}

#[test]
fn empty_language_subset_fails() {
    let langs: Vec<Language> = vec![];
    let r = Detector::with_languages(&langs);
    assert_eq!(r.err(), Some(ConfigError::EmptyLanguageSet));
}

#[test]
fn zero_length_threshold_fails() {
    let langs = vec![Language::En];
    let r = Detector::build(&langs, 0, 10);
    assert_eq!(r.err(), Some(ConfigError::InvalidThreshold));
}

#[test]
fn build_accepts_valid_config() {
    let langs = vec![Language::En, Language::Ru];
    let d = Detector::build(&langs, 2, 10).unwrap();
    assert_eq!(d.detect("Hello world"), DetectionResult::Detected(Language::En));
}

#[test]
fn sample_de() {
    let d = Detector::from_all_languages();
    let r = d.detect("der Hund und die Katze sind nicht da");
    assert_eq!(r, DetectionResult::Detected(Language::De));
}

#[test]
fn sample_el() {
    let d = Detector::from_all_languages();
    let r = d.detect("\u{3b1}\u{3c5}\u{3c4}\u{3cc} \u{3b5}\u{3af}\u{3bd}\u{3b1}\u{3b9} \u{3ad}\u{3bd}\u{3b1} \u{3ba}\u{3b1}\u{3bb}\u{3cc} \u{3b2}\u{3b9}\u{3b2}\u{3bb}\u{3af}\u{3bf} \u{3ba}\u{3b1}\u{3b9} \u{3b5}\u{3af}\u{3bd}\u{3b1}\u{3b9} \u{3b5}\u{3b4}\u{3ce}");
    assert_eq!(r, DetectionResult::Detected(Language::El));
}

#[test]
fn sample_en() {
    let d = Detector::from_all_languages();
    let r = d.detect("hello world this is the house and the garden");
    assert_eq!(r, DetectionResult::Detected(Language::En));
}

#[test]
fn sample_es() {
    let d = Detector::from_all_languages();
    let r = d.detect("los perros y los gatos viven en una casa");
    assert_eq!(r, DetectionResult::Detected(Language::Es));
}

#[test]
fn sample_fr() {
    let d = Detector::from_all_languages();
    let r = d.detect("bonjour tout le monde et la vie est belle");
    assert_eq!(r, DetectionResult::Detected(Language::Fr));
}

#[test]
fn sample_it() {
    let d = Detector::from_all_languages();
    let r = d.detect("gli amici sono anche della nostra casa");
    assert_eq!(r, DetectionResult::Detected(Language::It));
}

#[test]
fn sample_nl() {
    let d = Detector::from_all_languages();
    let r = d.detect("het huis en de fiets zijn niet hier");
    assert_eq!(r, DetectionResult::Detected(Language::Nl));
}

#[test]
fn sample_pt() {
    let d = Detector::from_all_languages();
    let r = d.detect("ela acha que isso n\u{e3}o \u{e9} muito bom");
    assert_eq!(r, DetectionResult::Detected(Language::Pt));
}

#[test]
fn sample_ru() {
    let d = Detector::from_all_languages();
    let r = d.detect("\u{43f}\u{440}\u{438}\u{432}\u{435}\u{442} \u{43c}\u{438}\u{440} \u{44d}\u{442}\u{43e} \u{445}\u{43e}\u{440}\u{43e}\u{448}\u{430}\u{44f} \u{43a}\u{43d}\u{438}\u{433}\u{430} \u{438} \u{447}\u{442}\u{43e} \u{44d}\u{442}\u{43e}");
    assert_eq!(r, DetectionResult::Detected(Language::Ru));
}

#[test]
fn sample_uk() {
    let d = Detector::from_all_languages();
    let r = d.detect("\u{43f}\u{440}\u{438}\u{432}\u{456}\u{442} \u{441}\u{432}\u{456}\u{442} \u{446}\u{435} \u{434}\u{443}\u{436}\u{435} \u{434}\u{43e}\u{431}\u{440}\u{430} \u{43a}\u{43d}\u{438}\u{433}\u{430} \u{456} \u{446}\u{435} \u{454}");
    assert_eq!(r, DetectionResult::Detected(Language::Uk));
}

#[test]
fn uppercase_input_folds() {
    let d = Detector::from_all_languages();
    let r = d.detect("HELLO WORLD THIS IS THE HOUSE AND THE GARDEN");
    assert_eq!(r, DetectionResult::Detected(Language::En));
}

#[test]
fn language_codes() {
    assert_eq!(Language::De.code(), "de");
    assert_eq!(Language::El.code(), "el");
    assert_eq!(Language::En.code(), "en");
    assert_eq!(Language::Es.code(), "es");
    assert_eq!(Language::Fr.code(), "fr");
    assert_eq!(Language::It.code(), "it");
    assert_eq!(Language::Nl.code(), "nl");
    assert_eq!(Language::Pt.code(), "pt");
    assert_eq!(Language::Ru.code(), "ru");
    assert_eq!(Language::Uk.code(), "uk");
    assert_eq!(DetectionResult::Unknown.code(), "unknown");
}
