use crate::rune::{is_upper, parse_name, parse_name_chars, rune_name, Rune, RuneError};
use crate::text::{chars_of, push_str, string_of};
use vstd::prelude::*;

verus! {

/// A rune together with the places of the spacers in its name: bit `i` of
/// `spacers` is set where a spacer follows the letter with index `i`.
#[derive(Copy, Clone, Debug, PartialEq, Ord, PartialOrd, Eq, Structural, Default)]
pub struct SpacedRune {
    pub rune: Rune,
    pub spacers: u32,
}

/// Why a text is no spaced rune name.
#[derive(Debug, PartialEq, Eq, Structural, Copy, Clone)]
pub enum SpacedRuneError {
    LeadingSpacer,
    TrailingSpacer,
    DoubleSpacer,
    Character(char),
    Rune(RuneError),
}

pub open spec fn is_spacer(c: char) -> bool {
    c == '.' || c == '\u{2022}'
}

/// The bit that records a spacer behind the last of `letters` letters. The
/// place is counted modulo 32.
pub open spec fn spacer_flag(letters: nat) -> u32
    recommends
        letters > 0,
{
    1u32 << ((((letters - 1) as nat) % 32) as u32)
}

/// The letters and spacer bits read from a text, or the first thing that
/// is wrong with it: a spacer before any letter, a second spacer at one
/// place, or a character that is neither a letter nor a spacer.
pub open spec fn scan_spaced(s: Seq<char>) -> Result<(Seq<char>, u32), SpacedRuneError>
    decreases s.len(),
{
    if s.len() == 0 {
        Ok((Seq::<char>::empty(), 0u32))
    } else {
        match scan_spaced(s.drop_last()) {
            Err(e) => Err(e),
            Ok((letters, spacers)) => {
                let c = s.last();
                if is_upper(c) {
                    Ok((letters.push(c), spacers))
                } else if is_spacer(c) {
                    if letters.len() == 0 {
                        Err(SpacedRuneError::LeadingSpacer)
                    } else if spacers & spacer_flag(letters.len()) != 0 {
                        Err(SpacedRuneError::DoubleSpacer)
                    } else {
                        Ok((letters, spacers | spacer_flag(letters.len())))
                    }
                } else {
                    Err(SpacedRuneError::Character(c))
                }
            },
        }
    }
}

pub proof fn lemma_scan_error_stays(s: Seq<char>, k: int)
    requires
        0 <= k <= s.len(),
        scan_spaced(s.take(k)).is_err(),
    ensures
        scan_spaced(s) == scan_spaced(s.take(k)),
    decreases s.len() - k,
{
    if k < s.len() {
        assert(s.take(k + 1).drop_last() =~= s.take(k));
        lemma_scan_error_stays(s, k + 1);
    } else {
        assert(s.take(k) =~= s);
    }
}

/// Number of bits needed to write `x`: one more than the index of its
/// highest set bit, and 0 for 0.
pub open spec fn bit_length(x: u32) -> nat
    decreases x,
{
    if x == 0 {
        0
    } else {
        1 + bit_length(x / 2)
    }
}

pub fn bit_length_of(x: u32) -> (n: u64)
    ensures
        n == bit_length(x),
{
    let mut n: u64 = 0;
    let mut y: u32 = x;
    while y > 0
        invariant
            n + bit_length(y) == bit_length(x),
            n + y <= x,
        decreases y,
    {
        y = y / 2;
        n = n + 1;
    }
    n
}

/// The name with a spacer written behind each of its first `k` letters
/// that has one; the last letter of the name never has.
pub open spec fn render_spaced(name: Seq<char>, spacers: u32, k: nat) -> Seq<char>
    recommends
        k <= name.len(),
    decreases k,
{
    if k == 0 {
        Seq::<char>::empty()
    } else {
        let i = (k - 1) as nat;
        let head = render_spaced(name, spacers, i).push(name[i as int]);
        if i < name.len() - 1 && i < 32 && spacers & (1u32 << (i as u32)) != 0 {
            head.push('\u{2022}')
        } else {
            head
        }
    }
}

impl SpacedRune {
    pub fn new(rune: Rune, spacers: u32) -> (r: Self)
        ensures
            r == (SpacedRune { rune, spacers }),
    {
        Self { rune, spacers }
    }

    /// What a spaced name denotes. The text is read from left to right; a
    /// spacer behind the last letter is an error, and so is a name that is
    /// out of range.
    pub open spec fn spec_parse(s: Seq<char>) -> Result<SpacedRune, SpacedRuneError> {
        match scan_spaced(s) {
            Err(e) => Err(e),
            Ok((letters, spacers)) => {
                if bit_length(spacers) >= letters.len() {
                    Err(SpacedRuneError::TrailingSpacer)
                } else {
                    match parse_name(letters) {
                        Ok(n) => Ok(SpacedRune { rune: Rune(n), spacers }),
                        Err(e) => Err(SpacedRuneError::Rune(e)),
                    }
                }
            },
        }
    }

    /// Reads a spaced rune name, such as `A.B` or `A•B`.
    pub fn parse(s: &str) -> (r: Result<SpacedRune, SpacedRuneError>)
        ensures
            r == Self::spec_parse(s@),
    {
        let v = chars_of(s);
        let mut letters: Vec<char> = Vec::new();
        let mut spacers: u32 = 0;
        let mut i: usize = 0;
        while i < v.len()
            invariant
                i <= v.len(),
                v@ == s@,
                scan_spaced(v@.take(i as int)) == Ok::<(Seq<char>, u32), SpacedRuneError>(
                    (letters@, spacers),
                ),
            decreases v.len() - i,
        {
            let c = v[i];
            proof {
                assert(v@.take(i + 1).drop_last() =~= v@.take(i as int));
                assert(v@.take(i + 1).last() == c);
            }
            if 'A' <= c && c <= 'Z' {
                letters.push(c);
            } else if c == '.' || c == '\u{2022}' {
                if letters.len() == 0 {
                    proof {
                        lemma_scan_error_stays(v@, i + 1);
                    }
                    return Err(SpacedRuneError::LeadingSpacer);
                }
                let place: u32 = ((letters.len() - 1) % 32) as u32;
                let flag: u32 = 1u32 << place;
                if spacers & flag != 0 {
                    proof {
                        lemma_scan_error_stays(v@, i + 1);
                    }
                    return Err(SpacedRuneError::DoubleSpacer);
                }
                spacers = spacers | flag;
            } else {
                proof {
                    lemma_scan_error_stays(v@, i + 1);
                }
                return Err(SpacedRuneError::Character(c));
            }
            i = i + 1;
        }
        assert(v@.take(v.len() as int) =~= v@);
        if bit_length_of(spacers) >= letters.len() as u64 {
            return Err(SpacedRuneError::TrailingSpacer);
        }
        match parse_name_chars(&letters) {
            Ok(rune) => Ok(SpacedRune { rune, spacers }),
            Err(e) => Err(SpacedRuneError::Rune(e)),
        }
    }

    /// The name of the rune with its spacers written as `•`.
    pub open spec fn spec_to_string(self) -> Seq<char> {
        render_spaced(rune_name(self.rune.0 as nat), self.spacers, rune_name(self.rune.0 as nat).len())
    }

    pub fn to_string(&self) -> (s: String)
        ensures
            s@ == self.spec_to_string(),
    {
        let name = self.rune.name_chars();
        let mut out: Vec<char> = Vec::new();
        let mut i: usize = 0;
        while i < name.len()
            invariant
                i <= name.len(),
                out@ == render_spaced(name@, self.spacers, i as nat),
            decreases name.len() - i,
        {
            out.push(name[i]);
            if i < name.len() - 1 && i < 32 && self.spacers & (1u32 << (i as u32)) != 0 {
                out.push('\u{2022}');
            }
            i = i + 1;
        }
        string_of(&out)
    }
}

impl SpacedRuneError {
    pub open spec fn spec_message(self) -> Seq<char> {
        match self {
            SpacedRuneError::Character(c) => "invalid character `"@ + seq![c] + "`"@,
            SpacedRuneError::DoubleSpacer => "double spacer"@,
            SpacedRuneError::LeadingSpacer => "leading spacer"@,
            SpacedRuneError::TrailingSpacer => "trailing spacer"@,
            SpacedRuneError::Rune(e) => e.spec_message(),
        }
    }

    pub fn to_string(&self) -> (s: String)
        ensures
            s@ == self.spec_message(),
    {
        match self {
            SpacedRuneError::Character(c) => {
                let mut v: Vec<char> = Vec::new();
                push_str(&mut v, "invalid character `");
                v.push(*c);
                push_str(&mut v, "`");
                assert(v@ =~= self.spec_message());
                string_of(&v)
            },
            SpacedRuneError::DoubleSpacer => "double spacer".to_owned(),
            SpacedRuneError::LeadingSpacer => "leading spacer".to_owned(),
            SpacedRuneError::TrailingSpacer => "trailing spacer".to_owned(),
            SpacedRuneError::Rune(e) => e.to_string(),
        }
    }
}

impl std::str::FromStr for SpacedRune {
    type Err = SpacedRuneError;

    fn from_str(s: &str) -> (r: Result<Self, SpacedRuneError>)
        ensures
            r == SpacedRune::spec_parse(s@),
    {
        SpacedRune::parse(s)
    }
}

} // verus!
