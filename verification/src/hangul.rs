//! The syllable space: the three jamo tables and the codepoint formula.

use vstd::prelude::*;

verus! {

/// Number of initial consonants.
pub const NUM_INI: u32 = 19;

/// Number of medial vowels.
pub const NUM_MID: u32 = 21;

/// Number of final consonants, counting "no final" as index 0.
pub const NUM_FIN: u32 = 28;

/// Number of syllables: every triple of an initial, a medial and a final.
pub const NUM_SYLLABLES: u32 = 11172;

/// Codepoint of the first precomposed syllable.
pub const SYLLABLE_BASE: u32 = 0xAC00;

/// Compatibility jamo that stand for the initial consonants in match strings.
pub const INI_CHARS: [char; 19] = [
    'ㄱ', 'ㄲ', 'ㄴ', 'ㄷ', 'ㄸ', 'ㄹ', 'ㅁ', 'ㅂ', 'ㅃ', 'ㅅ',
    'ㅆ', 'ㅇ', 'ㅈ', 'ㅉ', 'ㅊ', 'ㅋ', 'ㅌ', 'ㅍ', 'ㅎ',
];

/// Compatibility jamo that stand for the medial vowels in match strings.
pub const MID_CHARS: [char; 21] = [
    'ㅏ', 'ㅐ', 'ㅑ', 'ㅒ', 'ㅓ', 'ㅔ', 'ㅕ', 'ㅖ', 'ㅗ', 'ㅘ', 'ㅙ',
    'ㅚ', 'ㅛ', 'ㅜ', 'ㅝ', 'ㅞ', 'ㅟ', 'ㅠ', 'ㅡ', 'ㅢ', 'ㅣ',
];

/// Compatibility jamo that stand for the final consonants in match strings.
/// Index 0, "no final", is the digit zero rather than nothing.
pub const FIN_CHARS: [char; 28] = [
    '0', 'ㄱ', 'ㄲ', 'ㄳ', 'ㄴ', 'ㄵ', 'ㄶ', 'ㄷ', 'ㄹ', 'ㄺ',
    'ㄻ', 'ㄼ', 'ㄽ', 'ㄾ', 'ㄿ', 'ㅀ', 'ㅁ', 'ㅂ', 'ㅄ', 'ㅅ',
    'ㅆ', 'ㅇ', 'ㅈ', 'ㅊ', 'ㅋ', 'ㅌ', 'ㅍ', 'ㅎ',
];

/// A triple names a syllable when each index is inside its table.
pub open spec fn valid_triple(ini: int, mid: int, fin: int) -> bool {
    0 <= ini < 19 && 0 <= mid < 21 && 0 <= fin < 28
}

/// Position of a syllable in the canonical order: initial outermost, final innermost.
pub open spec fn syllable_offset(ini: int, mid: int, fin: int) -> int {
    ini * 588 + mid * 28 + fin
}

/// Codepoint of the precomposed syllable of a triple.
pub open spec fn spec_syllable_codepoint(ini: int, mid: int, fin: int) -> int {
    0xAC00 + syllable_offset(ini, mid, fin)
}

/// Computes the codepoint of the syllable `(ini, mid, fin)`.
pub fn syllable_codepoint(ini: u32, mid: u32, fin: u32) -> (cp: u32)
    requires
        valid_triple(ini as int, mid as int, fin as int),
    ensures
        cp == spec_syllable_codepoint(ini as int, mid as int, fin as int),
        0xAC00 <= cp <= 0xD7A3,
{
    SYLLABLE_BASE + ini * NUM_MID * NUM_FIN + mid * NUM_FIN + fin
}

/// The triple at position `q` of the canonical order.
#[verifier::opaque]
pub open spec fn triple_at(q: int) -> (int, int, int) {
    (q / 588, (q % 588) / 28, q % 28)
}

/// A codepoint gives its triple back: the offset of a valid triple lies in
/// `0..11172`, and dividing it up again yields the triple it came from.
pub proof fn lemma_codepoint_round_trip(ini: int, mid: int, fin: int)
    requires
        valid_triple(ini, mid, fin),
    ensures
        0 <= syllable_offset(ini, mid, fin) < 11172,
        triple_at(spec_syllable_codepoint(ini, mid, fin) - 0xAC00) == (ini, mid, fin),
        triple_at(syllable_offset(ini, mid, fin)) == (ini, mid, fin),
{
    reveal(triple_at);
}

/// Every position of the canonical order holds a valid triple, and that
/// triple's offset is the position.
pub proof fn lemma_triple_at_valid(q: int)
    requires
        0 <= q < 11172,
    ensures
        valid_triple(triple_at(q).0, triple_at(q).1, triple_at(q).2),
        syllable_offset(triple_at(q).0, triple_at(q).1, triple_at(q).2) == q,
{
    reveal(triple_at);
}

/// No two valid triples share a codepoint.
pub proof fn lemma_codepoint_unique(a: (int, int, int), b: (int, int, int))
    requires
        valid_triple(a.0, a.1, a.2),
        valid_triple(b.0, b.1, b.2),
        spec_syllable_codepoint(a.0, a.1, a.2) == spec_syllable_codepoint(b.0, b.1, b.2),
    ensures
        a == b,
{
}

} // verus!
