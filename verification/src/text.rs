//! Text preprocessing: code points, script classification, case
//! folding, and tokenization into words.
//!
//! The detector works on Unicode code points (`u32`).  A character is a
//! letter when it is one of the letters the detector understands
//! (Basic Latin, Latin-1 and Latin Extended-A letters, and the letters
//! of the Greek and Cyrillic blocks); every other character — including
//! punctuation, accents and signs inside those blocks — separates
//! words and is stripped.

use vstd::prelude::*;

use crate::lang::Script;

verus! {

/// The code points of a string, in order.
pub open spec fn cp_seq(t: Seq<char>) -> Seq<u32> {
    t.map_values(|c: char| c as u32)
}

/// The script of a code point, or `None` when the detector does not
/// treat it as a letter.  The Greek and Cyrillic ranges name the
/// letters of their blocks only: punctuation, accents, numeral signs,
/// combining marks and unassigned code points inside the blocks are
/// not letters.
pub open spec fn script_of(u: u32) -> Option<Script> {
    if (0x41 <= u <= 0x5A) || (0x61 <= u <= 0x7A) || (0xC0 <= u <= 0xD6) || (0xD8 <= u <= 0xF6)
        || (0xF8 <= u <= 0x17F) {
        Some(Script::Latin)
    } else if (0x370 <= u <= 0x373) || (0x376 <= u <= 0x377) || (0x37B <= u <= 0x37D) || u == 0x37F
        || u == 0x386 || (0x388 <= u <= 0x38A) || u == 0x38C || (0x38E <= u <= 0x3A1) || (0x3A3 <= u
        <= 0x3F5) || (0x3F7 <= u <= 0x3FF) {
        Some(Script::Greek)
    } else if (0x400 <= u <= 0x481) || (0x48A <= u <= 0x4FF) {
        Some(Script::Cyrillic)
    } else {
        None
    }
}

/// Whether the detector treats a code point as a letter.
pub open spec fn is_letter(u: u32) -> bool {
    script_of(u) is Some
}

/// The script of a code point, or `None` for a non-letter.
pub fn script_of_cp(u: u32) -> (r: Option<Script>)
    ensures
        r == script_of(u),
{
    if (0x41 <= u && u <= 0x5A) || (0x61 <= u && u <= 0x7A) || (0xC0 <= u && u <= 0xD6) || (0xD8
        <= u && u <= 0xF6) || (0xF8 <= u && u <= 0x17F) {
        Some(Script::Latin)
    } else if (0x370 <= u && u <= 0x373) || (0x376 <= u && u <= 0x377) || (0x37B <= u && u <= 0x37D)
        || u == 0x37F || u == 0x386 || (0x388 <= u && u <= 0x38A) || u == 0x38C || (0x38E <= u && u
        <= 0x3A1) || (0x3A3 <= u && u <= 0x3F5) || (0x3F7 <= u && u <= 0x3FF) {
        Some(Script::Greek)
    } else if (0x400 <= u && u <= 0x481) || (0x48A <= u && u <= 0x4FF) {
        Some(Script::Cyrillic)
    } else {
        None
    }
}

/// Lowercase folding of a code point, covering the blocks the detector
/// understands: ASCII, Latin-1, Latin Extended-A, Greek, Cyrillic.
/// Every capital with a one-to-one lowercase counterpart in its block
/// maps to that counterpart; lowercase letters, capitals without such
/// a counterpart (for example the Greek upsilon-with-hook symbols),
/// and code points outside those blocks fold to themselves.
pub open spec fn fold_cp(u: u32) -> u32 {
    if 0x41 <= u <= 0x5A {
        (u + 32) as u32
    } else if (0xC0 <= u <= 0xD6) || (0xD8 <= u <= 0xDE) {
        (u + 32) as u32
    } else if 0x100 <= u <= 0x137 && u % 2 == 0 {
        (u + 1) as u32
    } else if 0x139 <= u <= 0x148 && u % 2 == 1 {
        (u + 1) as u32
    } else if 0x14A <= u <= 0x177 && u % 2 == 0 {
        (u + 1) as u32
    } else if u == 0x178 {
        0xFF
    } else if 0x179 <= u <= 0x17E && u % 2 == 1 {
        (u + 1) as u32
    } else if u == 0x370 || u == 0x372 || u == 0x376 {
        (u + 1) as u32
    } else if u == 0x37F {
        0x3F3
    } else if u == 0x386 {
        0x3AC
    } else if 0x388 <= u <= 0x38A {
        (u + 0x25) as u32
    } else if u == 0x38C {
        0x3CC
    } else if u == 0x38E {
        0x3CD
    } else if u == 0x38F {
        0x3CE
    } else if (0x391 <= u <= 0x3A1) || (0x3A3 <= u <= 0x3AB) {
        (u + 32) as u32
    } else if u == 0x3CF {
        0x3D7
    } else if 0x3D8 <= u <= 0x3EF && u % 2 == 0 {
        (u + 1) as u32
    } else if u == 0x3F4 {
        0x3B8
    } else if u == 0x3F7 || u == 0x3FA {
        (u + 1) as u32
    } else if u == 0x3F9 {
        0x3F2
    } else if 0x3FD <= u <= 0x3FF {
        (u - 0x82) as u32
    } else if 0x400 <= u <= 0x40F {
        (u + 0x50) as u32
    } else if 0x410 <= u <= 0x42F {
        (u + 32) as u32
    } else if 0x460 <= u <= 0x481 && u % 2 == 0 {
        (u + 1) as u32
    } else if 0x48A <= u <= 0x4BF && u % 2 == 0 {
        (u + 1) as u32
    } else if u == 0x4C0 {
        0x4CF
    } else if 0x4C1 <= u <= 0x4CD && u % 2 == 1 {
        (u + 1) as u32
    } else if 0x4D0 <= u <= 0x4FF && u % 2 == 0 {
        (u + 1) as u32
    } else {
        u
    }
}

/// Lowercase folding of a code point.
pub fn fold(u: u32) -> (r: u32)
    ensures
        r == fold_cp(u),
{
    if 0x41 <= u && u <= 0x5A {
        u + 32
    } else if (0xC0 <= u && u <= 0xD6) || (0xD8 <= u && u <= 0xDE) {
        u + 32
    } else if 0x100 <= u && u <= 0x137 && u % 2 == 0 {
        u + 1
    } else if 0x139 <= u && u <= 0x148 && u % 2 == 1 {
        u + 1
    } else if 0x14A <= u && u <= 0x177 && u % 2 == 0 {
        u + 1
    } else if u == 0x178 {
        0xFF
    } else if 0x179 <= u && u <= 0x17E && u % 2 == 1 {
        u + 1
    } else if u == 0x370 || u == 0x372 || u == 0x376 {
        u + 1
    } else if u == 0x37F {
        0x3F3
    } else if u == 0x386 {
        0x3AC
    } else if 0x388 <= u && u <= 0x38A {
        u + 0x25
    } else if u == 0x38C {
        0x3CC
    } else if u == 0x38E {
        0x3CD
    } else if u == 0x38F {
        0x3CE
    } else if (0x391 <= u && u <= 0x3A1) || (0x3A3 <= u && u <= 0x3AB) {
        u + 32
    } else if u == 0x3CF {
        0x3D7
    } else if 0x3D8 <= u && u <= 0x3EF && u % 2 == 0 {
        u + 1
    } else if u == 0x3F4 {
        0x3B8
    } else if u == 0x3F7 || u == 0x3FA {
        u + 1
    } else if u == 0x3F9 {
        0x3F2
    } else if 0x3FD <= u && u <= 0x3FF {
        u - 0x82
    } else if 0x400 <= u && u <= 0x40F {
        u + 0x50
    } else if 0x410 <= u && u <= 0x42F {
        u + 32
    } else if 0x460 <= u && u <= 0x481 && u % 2 == 0 {
        u + 1
    } else if 0x48A <= u && u <= 0x4BF && u % 2 == 0 {
        u + 1
    } else if u == 0x4C0 {
        0x4CF
    } else if 0x4C1 <= u && u <= 0x4CD && u % 2 == 1 {
        u + 1
    } else if 0x4D0 <= u && u <= 0x4FF && u % 2 == 0 {
        u + 1
    } else {
        u
    }
}

/// One left-to-right tokenization step over a prefix of the input:
/// the words completed so far, and the folded letters of the word
/// still open at the end of the prefix.
pub open spec fn spec_scan(t: Seq<u32>) -> (Seq<Seq<u32>>, Seq<u32>)
    decreases t.len(),
{
    if t.len() == 0 {
        (Seq::<Seq<u32>>::empty(), Seq::<u32>::empty())
    } else {
        let prev = spec_scan(t.drop_last());
        let u = t.last();
        if is_letter(u) {
            (prev.0, prev.1.push(fold_cp(u)))
        } else if prev.1.len() > 0 {
            (prev.0.push(prev.1), Seq::<u32>::empty())
        } else {
            prev
        }
    }
}

/// The words of a text: maximal runs of letters, case folded, with all
/// other characters stripped.
pub open spec fn spec_words(t: Seq<u32>) -> Seq<Seq<u32>> {
    let s = spec_scan(t);
    if s.1.len() > 0 {
        s.0.push(s.1)
    } else {
        s.0
    }
}

/// The code points of a string, in order.
pub fn to_code_points(s: &str) -> (r: Vec<u32>)
    ensures
        r@ == cp_seq(s@),
{
    let n: usize = s.unicode_len();
    let mut r: Vec<u32> = Vec::new();
    let mut i: usize = 0;
    #[verifier::loop_isolation(false)]
    while i < n
        invariant
            0 <= i <= n,
            r@ == cp_seq(s@.take(i as int)),
        decreases n - i,
    {
        let c = s.get_char(i);
        r.push(c as u32);
        proof {
            assert(cp_seq(s@.take(i + 1)) =~= cp_seq(s@.take(i as int)).push(c as u32));
        }
        i = i + 1;
    }
    proof {
        assert(s@.take(n as int) =~= s@);
    }
    r
}

/// Splits a text into case-folded words of letters, stripping all
/// punctuation, digits, whitespace and other non-letter characters.
pub fn tokenize(t: &Vec<u32>) -> (r: Vec<Vec<u32>>)
    ensures
        r.deep_view() == spec_words(t@),
{
    let n: usize = t.len();
    let mut ws: Vec<Vec<u32>> = Vec::new();
    let mut cur: Vec<u32> = Vec::new();
    let mut i: usize = 0;
    #[verifier::loop_isolation(false)]
    while i < n
        invariant
            0 <= i <= n,
            ws.deep_view() == spec_scan(t@.take(i as int)).0,
            cur@ == spec_scan(t@.take(i as int)).1,
        decreases n - i,
    {
        let u = t[i];
        proof {
            assert(t@.take(i + 1).drop_last() =~= t@.take(i as int));
            assert(t@.take(i + 1).last() == t@[i as int]);
        }
        if script_of_cp(u).is_some() {
            let f = fold(u);
            cur.push(f);
        } else if cur.len() > 0 {
            let done = cur;
            cur = Vec::new();
            ws.push(done);
            proof {
                assert(ws.deep_view() =~~= spec_scan(t@.take(i + 1)).0);
            }
        }
        i = i + 1;
    }
    proof {
        assert(t@.take(n as int) =~= t@);
    }
    if cur.len() > 0 {
        ws.push(cur);
        proof {
            assert(ws.deep_view() =~~= spec_words(t@));
        }
    }
    ws
}

proof fn lemma_no_letters_scan(t: Seq<u32>)
    requires
        forall|i: int| 0 <= i < t.len() ==> !is_letter(t[i]),
    ensures
        spec_scan(t).0 == Seq::<Seq<u32>>::empty(),
        spec_scan(t).1 == Seq::<u32>::empty(),
    decreases t.len(),
{
    if t.len() > 0 {
        assert(forall|i: int| 0 <= i < t.drop_last().len() ==> !is_letter(t.drop_last()[i]));
        lemma_no_letters_scan(t.drop_last());
        assert(!is_letter(t.last()));
    }
}

/// A text with no letter in it tokenizes to no words at all.
pub proof fn lemma_no_letters_no_words(t: Seq<u32>)
    requires
        forall|i: int| 0 <= i < t.len() ==> !is_letter(t[i]),
    ensures
        spec_words(t) == Seq::<Seq<u32>>::empty(),
{
    lemma_no_letters_scan(t);
}

} // verus!
