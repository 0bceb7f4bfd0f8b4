//! Decoding of Korean Hangul syllables into their three components.
//!
//! A code point in the Hangul Syllables block (`U+AC00 ..= U+D7A3`) encodes a
//! triple of a leading consonant (19 choices), a vowel (21 choices) and a
//! trailing consonant (28 choices, one of them blank), in the canonical
//! ordering: `code = 0xAC00 + (initial * 21 + vowel) * 28 + final`.

use vstd::prelude::*;

verus! {

/// Whether a character lies in the Hangul Syllables block.
pub open spec fn is_hangul_syllable(c: char) -> bool {
    0xAC00 <= c as int <= 0xD7A3
}

/// Offset of a syllable within the Hangul Syllables block.
pub open spec fn syllable_offset(c: char) -> int {
    c as int - 0xAC00
}

/// Index of the leading consonant of a syllable, in `0 .. 19`.
pub open spec fn initial_index_of(c: char) -> int {
    syllable_offset(c) / 588
}

/// Index of the vowel of a syllable, in `0 .. 21`.
pub open spec fn vowel_index_of(c: char) -> int {
    (syllable_offset(c) / 28) % 21
}

/// Index of the trailing consonant of a syllable, in `0 .. 28`; 0 is blank.
pub open spec fn final_index_of(c: char) -> int {
    syllable_offset(c) % 28
}

/// The compatibility-jamo character of the leading consonant of index `i`.
pub open spec fn choseong_jamo(i: int) -> char {
    if i == 0 { 'ㄱ' }
    else if i == 1 { 'ㄲ' }
    else if i == 2 { 'ㄴ' }
    else if i == 3 { 'ㄷ' }
    else if i == 4 { 'ㄸ' }
    else if i == 5 { 'ㄹ' }
    else if i == 6 { 'ㅁ' }
    else if i == 7 { 'ㅂ' }
    else if i == 8 { 'ㅃ' }
    else if i == 9 { 'ㅅ' }
    else if i == 10 { 'ㅆ' }
    else if i == 11 { 'ㅇ' }
    else if i == 12 { 'ㅈ' }
    else if i == 13 { 'ㅉ' }
    else if i == 14 { 'ㅊ' }
    else if i == 15 { 'ㅋ' }
    else if i == 16 { 'ㅌ' }
    else if i == 17 { 'ㅍ' }
    else { 'ㅎ' }
}

/// The compatibility-jamo character of the vowel of index `i`.
pub open spec fn jungseong_jamo(i: int) -> char {
    if i == 0 { 'ㅏ' }
    else if i == 1 { 'ㅐ' }
    else if i == 2 { 'ㅑ' }
    else if i == 3 { 'ㅒ' }
    else if i == 4 { 'ㅓ' }
    else if i == 5 { 'ㅔ' }
    else if i == 6 { 'ㅕ' }
    else if i == 7 { 'ㅖ' }
    else if i == 8 { 'ㅗ' }
    else if i == 9 { 'ㅘ' }
    else if i == 10 { 'ㅙ' }
    else if i == 11 { 'ㅚ' }
    else if i == 12 { 'ㅛ' }
    else if i == 13 { 'ㅜ' }
    else if i == 14 { 'ㅝ' }
    else if i == 15 { 'ㅞ' }
    else if i == 16 { 'ㅟ' }
    else if i == 17 { 'ㅠ' }
    else if i == 18 { 'ㅡ' }
    else if i == 19 { 'ㅢ' }
    else { 'ㅣ' }
}

/// The compatibility-jamo character of the trailing consonant of index `i`,
/// for `i` in `1 ..= 27` (index 0 is the blank final, which has no character).
pub open spec fn jongseong_jamo(i: int) -> char {
    if i == 1 { 'ㄱ' }
    else if i == 2 { 'ㄲ' }
    else if i == 3 { 'ㄳ' }
    else if i == 4 { 'ㄴ' }
    else if i == 5 { 'ㄵ' }
    else if i == 6 { 'ㄶ' }
    else if i == 7 { 'ㄷ' }
    else if i == 8 { 'ㄹ' }
    else if i == 9 { 'ㄺ' }
    else if i == 10 { 'ㄻ' }
    else if i == 11 { 'ㄼ' }
    else if i == 12 { 'ㄽ' }
    else if i == 13 { 'ㄾ' }
    else if i == 14 { 'ㄿ' }
    else if i == 15 { 'ㅀ' }
    else if i == 16 { 'ㅁ' }
    else if i == 17 { 'ㅂ' }
    else if i == 18 { 'ㅄ' }
    else if i == 19 { 'ㅅ' }
    else if i == 20 { 'ㅆ' }
    else if i == 21 { 'ㅇ' }
    else if i == 22 { 'ㅈ' }
    else if i == 23 { 'ㅊ' }
    else if i == 24 { 'ㅋ' }
    else if i == 25 { 'ㅌ' }
    else if i == 26 { 'ㅍ' }
    else { 'ㅎ' }
}

/// Relies on `hangeul::decompose_char`: for a character in the Hangul
/// Syllables block it returns the compatibility-jamo characters of the
/// leading consonant, the vowel, and the trailing consonant (`None` for the
/// blank final), each computed from the code point by the canonical index
/// arithmetic; for every other character it returns an error.
#[verifier::external_body]
fn decompose_syllable(c: char) -> (r: Option<(char, char, Option<char>)>)
    ensures
        r is Some <==> is_hangul_syllable(c),
        r matches Some((cho, jung, jong)) ==> {
            &&& cho == choseong_jamo(initial_index_of(c))
            &&& jung == jungseong_jamo(vowel_index_of(c))
            &&& jong == (if final_index_of(c) == 0 {
                Option::<char>::None
            } else {
                Some(jongseong_jamo(final_index_of(c)))
            })
        },
{
    match hangeul::decompose_char(&c) {
        Ok(t) => Some(t),
        Err(_) => None,
    }
}

/// A decoded Hangul syllable: the character itself together with the indices
/// of its three components.
#[derive(Clone, Copy, Debug, PartialEq, Eq, Structural)]
pub struct Syllable {
    pub ini: u8,
    pub vow: u8,
    pub fin: u8,
    pub ch: char,
}

impl Syllable {
    /// The indices are those the character encodes.
    pub open spec fn wf(self) -> bool {
        &&& is_hangul_syllable(self.ch)
        &&& self.ini as int == initial_index_of(self.ch)
        &&& self.vow as int == vowel_index_of(self.ch)
        &&& self.fin as int == final_index_of(self.ch)
    }

    /// Index of the leading consonant, in `0 .. 19`.
    pub fn initial(&self) -> (r: u8)
        ensures
            r == self.ini,
    {
        self.ini
    }

    /// Index of the vowel, in `0 .. 21`.
    pub fn peak(&self) -> (r: u8)
        ensures
            r == self.vow,
    {
        self.vow
    }

    /// Index of the trailing consonant, in `0 .. 28`; 0 is blank.
    pub fn final0(&self) -> (r: u8)
        ensures
            r == self.fin,
    {
        self.fin
    }

    /// The composed character.
    pub fn char(&self) -> (r: char)
        ensures
            r == self.ch,
    {
        self.ch
    }
}

proof fn lemma_index_ranges(c: char)
    requires
        is_hangul_syllable(c),
    ensures
        0 <= initial_index_of(c) < 19,
        0 <= vowel_index_of(c) < 21,
        0 <= final_index_of(c) < 28,
{
    let off = syllable_offset(c);
    assert(0 <= off <= 11171);
    assert(0 <= off / 588 < 19) by (nonlinear_arith)
        requires 0 <= off <= 11171;
    assert(0 <= (off / 28) % 21 < 21) by (nonlinear_arith)
        requires 0 <= off;
    assert(0 <= off % 28 < 28) by (nonlinear_arith)
        requires 0 <= off;
}

/// Index of a leading-consonant compatibility jamo.
fn choseong_index(j: char) -> (i: u8)
    ensures
        forall|k: int| 0 <= k < 19 && j == choseong_jamo(k) ==> i as int == k,
{
    match j {
        'ㄱ' => 0,
        'ㄲ' => 1,
        'ㄴ' => 2,
        'ㄷ' => 3,
        'ㄸ' => 4,
        'ㄹ' => 5,
        'ㅁ' => 6,
        'ㅂ' => 7,
        'ㅃ' => 8,
        'ㅅ' => 9,
        'ㅆ' => 10,
        'ㅇ' => 11,
        'ㅈ' => 12,
        'ㅉ' => 13,
        'ㅊ' => 14,
        'ㅋ' => 15,
        'ㅌ' => 16,
        'ㅍ' => 17,
        _ => 18,
    }
}

/// Index of a vowel compatibility jamo.
fn jungseong_index(j: char) -> (i: u8)
    ensures
        forall|k: int| 0 <= k < 21 && j == jungseong_jamo(k) ==> i as int == k,
{
    match j {
        'ㅏ' => 0,
        'ㅐ' => 1,
        'ㅑ' => 2,
        'ㅒ' => 3,
        'ㅓ' => 4,
        'ㅔ' => 5,
        'ㅕ' => 6,
        'ㅖ' => 7,
        'ㅗ' => 8,
        'ㅘ' => 9,
        'ㅙ' => 10,
        'ㅚ' => 11,
        'ㅛ' => 12,
        'ㅜ' => 13,
        'ㅝ' => 14,
        'ㅞ' => 15,
        'ㅟ' => 16,
        'ㅠ' => 17,
        'ㅡ' => 18,
        'ㅢ' => 19,
        _ => 20,
    }
}

/// Index of a trailing-consonant compatibility jamo.
fn jongseong_index(j: char) -> (i: u8)
    ensures
        forall|k: int| 1 <= k < 28 && j == jongseong_jamo(k) ==> i as int == k,
{
    match j {
        'ㄱ' => 1,
        'ㄲ' => 2,
        'ㄳ' => 3,
        'ㄴ' => 4,
        'ㄵ' => 5,
        'ㄶ' => 6,
        'ㄷ' => 7,
        'ㄹ' => 8,
        'ㄺ' => 9,
        'ㄻ' => 10,
        'ㄼ' => 11,
        'ㄽ' => 12,
        'ㄾ' => 13,
        'ㄿ' => 14,
        'ㅀ' => 15,
        'ㅁ' => 16,
        'ㅂ' => 17,
        'ㅄ' => 18,
        'ㅅ' => 19,
        'ㅆ' => 20,
        'ㅇ' => 21,
        'ㅈ' => 22,
        'ㅊ' => 23,
        'ㅋ' => 24,
        'ㅌ' => 25,
        'ㅍ' => 26,
        _ => 27,
    }
}

/// The syllable a character in the Hangul Syllables block decodes to.
pub open spec fn spec_syllable_of(c: char) -> Syllable {
    Syllable {
        ini: initial_index_of(c) as u8,
        vow: vowel_index_of(c) as u8,
        fin: final_index_of(c) as u8,
        ch: c,
    }
}

/// The indices of a decoded syllable lie in their ranges.
pub proof fn lemma_syllable_of_wf(c: char)
    requires
        is_hangul_syllable(c),
    ensures
        spec_syllable_of(c).wf(),
        spec_syllable_of(c).ini < 19,
        spec_syllable_of(c).vow < 21,
        spec_syllable_of(c).fin < 28,
{
    lemma_index_ranges(c);
}

/// Decode a character: `Some` exactly on the Hangul Syllables block.
pub fn decode(c: char) -> (r: Option<Syllable>)
    ensures
        r == (if is_hangul_syllable(c) {
            Some(spec_syllable_of(c))
        } else {
            Option::<Syllable>::None
        }),
        r matches Some(s) ==> s.wf() && s.ch == c,
{
    match decompose_syllable(c) {
        None => None,
        Some((cho, jung, jong)) => {
            proof {
                lemma_index_ranges(c);
            }
            let ini = choseong_index(cho);
            let vow = jungseong_index(jung);
            let fin = match jong {
                None => 0,
                Some(j) => jongseong_index(j),
            };
            Some(Syllable { ini, vow, fin, ch: c })
        },
    }
}

} // verus!
