//! Language identifiers, scripts, and the result and error types of the
//! detector.

use vstd::prelude::*;

verus! {

/// The closed set of languages the detector knows.
///
/// The variants stand in lexicographic order of their ISO 639-1 codes;
/// that order is the fixed tie-break precedence of the detector.
#[derive(Clone, Copy, PartialEq, Eq, Structural, Debug, Hash)]
pub enum Language {
    De,
    El,
    En,
    Es,
    Fr,
    It,
    Nl,
    Pt,
    Ru,
    Uk,
}

/// How many languages the detector knows.
pub const LANGUAGE_COUNT: usize = 10;

/// The writing scripts the detector can classify characters into.
#[derive(Clone, Copy, PartialEq, Eq, Structural, Debug)]
pub enum Script {
    Latin,
    Greek,
    Cyrillic,
}

impl Language {
    /// Position of this language in the fixed precedence order
    /// (lexicographic by ISO 639-1 code).
    pub open spec fn index_spec(self) -> int {
        match self {
            Language::De => 0,
            Language::El => 1,
            Language::En => 2,
            Language::Es => 3,
            Language::Fr => 4,
            Language::It => 5,
            Language::Nl => 6,
            Language::Pt => 7,
            Language::Ru => 8,
            Language::Uk => 9,
        }
    }

    /// Position of this language in the fixed precedence order.
    pub fn index(&self) -> (r: usize)
        ensures
            r as int == self.index_spec(),
    {
        match self {
            Language::De => 0,
            Language::El => 1,
            Language::En => 2,
            Language::Es => 3,
            Language::Fr => 4,
            Language::It => 5,
            Language::Nl => 6,
            Language::Pt => 7,
            Language::Ru => 8,
            Language::Uk => 9,
        }
    }

    /// The ISO 639-1 code of this language, in spec form.
    pub open spec fn code_spec(self) -> Seq<char> {
        match self {
            Language::De => "de"@,
            Language::El => "el"@,
            Language::En => "en"@,
            Language::Es => "es"@,
            Language::Fr => "fr"@,
            Language::It => "it"@,
            Language::Nl => "nl"@,
            Language::Pt => "pt"@,
            Language::Ru => "ru"@,
            Language::Uk => "uk"@,
        }
    }

    /// The lowercase ISO 639-1 code of this language.
    pub fn code(&self) -> (r: &'static str)
        ensures
            r@ == self.code_spec(),
    {
        match self {
            Language::De => "de",
            Language::El => "el",
            Language::En => "en",
            Language::Es => "es",
            Language::Fr => "fr",
            Language::It => "it",
            Language::Nl => "nl",
            Language::Pt => "pt",
            Language::Ru => "ru",
            Language::Uk => "uk",
        }
    }
}

/// The index determines the language: the precedence order is total.
pub proof fn lemma_index_injective(a: Language, b: Language)
    requires
        a.index_spec() == b.index_spec(),
    ensures
        a == b,
{
}

/// The outcome of one detection call: either the single best-matching
/// language, or `Unknown` when the input gave too little or too
/// ambiguous evidence.
#[derive(Clone, Copy, PartialEq, Eq, Structural, Debug)]
pub enum DetectionResult {
    Detected(Language),
    Unknown,
}

impl DetectionResult {
    /// The code of the outcome, in spec form.
    pub open spec fn code_spec(self) -> Seq<char> {
        match self {
            DetectionResult::Detected(l) => l.code_spec(),
            DetectionResult::Unknown => "unknown"@,
        }
    }

    /// The lowercase ISO 639-1 code of the detected language, or
    /// `"unknown"`.
    pub fn code(&self) -> (r: &'static str)
        ensures
            r@ == self.code_spec(),
    {
        match self {
            DetectionResult::Detected(l) => l.code(),
            DetectionResult::Unknown => "unknown",
        }
    }
}

/// Why building a detector failed.  Construction never returns a
/// partial detector: a bad configuration fails fast.
#[derive(Clone, Copy, PartialEq, Eq, Structural, Debug)]
pub enum ConfigError {
    /// The requested candidate set holds no language.
    EmptyLanguageSet,
    /// The minimum-input-length threshold is zero.
    InvalidThreshold,
}

} // verus!
