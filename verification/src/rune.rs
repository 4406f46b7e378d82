use crate::text::{chars_of, push_str, string_of};
use vstd::prelude::*;

verus! {

/// The name of a rune as a number: names are counted in the order
/// `A`, ..., `Z`, `AA`, `AB`, ... starting from zero.
#[derive(Default, Debug, PartialEq, Copy, Clone, PartialOrd, Ord, Eq, Structural, Hash)]
pub struct Rune(pub u128);

/// Why a text is no rune name.
#[derive(Debug, PartialEq, Eq, Structural, Copy, Clone)]
pub enum RuneError {
    /// The text holds a character other than `A` to `Z`.
    Character(char),
    /// The name denotes a number that does not fit in 128 bits.
    Range,
}

pub open spec fn is_upper(c: char) -> bool {
    'A' <= c <= 'Z'
}

/// The letter with the given index in the alphabet, `A` having index 0.
pub open spec fn letter(i: nat) -> char
    recommends
        i < 26,
{
    (('A' as nat + i) as u8) as char
}

/// The index in the alphabet of an upper case letter.
pub open spec fn letter_index(c: char) -> nat
    recommends
        is_upper(c),
{
    (c as nat - 'A' as nat) as nat
}

/// The name that stands for the number `n`.
pub open spec fn rune_name(n: nat) -> Seq<char>
    decreases n,
{
    if n < 26 {
        seq![letter(n)]
    } else {
        rune_name((n / 26 - 1) as nat).push(letter(n % 26))
    }
}

/// What reading a name from left to right yields: the number it stands
/// for, or the first thing that is wrong with it. Before each letter but
/// the first the number read so far is increased by one and multiplied by
/// 26, and must stay within 128 bits for the letter to be looked at.
pub open spec fn parse_name(s: Seq<char>) -> Result<u128, RuneError>
    decreases s.len(),
{
    if s.len() == 0 {
        Ok(0u128)
    } else {
        match parse_name(s.drop_last()) {
            Err(e) => Err(e),
            Ok(x) => {
                let base = if s.len() > 1 {
                    (x + 1) * 26
                } else {
                    0
                };
                if base > u128::MAX {
                    Err(RuneError::Range)
                } else if !is_upper(s.last()) {
                    Err(RuneError::Character(s.last()))
                } else if base + letter_index(s.last()) > u128::MAX {
                    Err(RuneError::Range)
                } else {
                    Ok((base + letter_index(s.last())) as u128)
                }
            },
        }
    }
}

/// Reads a name held in a vector of characters.
pub fn parse_name_chars(v: &Vec<char>) -> (r: Result<Rune, RuneError>)
    ensures
        match parse_name(v@) {
            Ok(n) => r == Ok::<Rune, RuneError>(Rune(n)),
            Err(e) => r == Err::<Rune, RuneError>(e),
        },
{
    let mut x: u128 = 0;
    let mut i: usize = 0;
    while i < v.len()
        invariant
            i <= v.len(),
            parse_name(v@.take(i as int)) == Ok::<u128, RuneError>(x),
        decreases v.len() - i,
    {
        let c = v[i];
        proof {
            assert(v@.take(i + 1).drop_last() =~= v@.take(i as int));
            assert(v@.take(i + 1).last() == c);
        }
        if i > 0 {
            if x >= u128::MAX / 26 {
                proof {
                    lemma_parse_name_error_stays(v@, i + 1);
                }
                return Err(RuneError::Range);
            }
            x = (x + 1) * 26;
        }
        if !('A' <= c && c <= 'Z') {
            proof {
                lemma_parse_name_error_stays(v@, i + 1);
            }
            return Err(RuneError::Character(c));
        }
        let index: u128 = (c as u32 - 'A' as u32) as u128;
        if index > u128::MAX - x {
            proof {
                lemma_parse_name_error_stays(v@, i + 1);
            }
            return Err(RuneError::Range);
        }
        x = x + index;
        i = i + 1;
    }
    assert(v@.take(v.len() as int) =~= v@);
    Ok(Rune(x))
}

/// Once reading a prefix has failed, reading the whole fails the same way.
pub proof fn lemma_parse_name_error_stays(s: Seq<char>, k: int)
    requires
        0 <= k <= s.len(),
        parse_name(s.take(k)).is_err(),
    ensures
        parse_name(s) == parse_name(s.take(k)),
    decreases s.len() - k,
{
    if k < s.len() {
        assert(s.take(k + 1).drop_last() =~= s.take(k));
        lemma_parse_name_error_stays(s, k + 1);
    } else {
        assert(s.take(k) =~= s);
    }
}

impl Rune {
    pub fn n(self) -> (n: u128)
        ensures
            n == self.0,
    {
        self.0
    }

    /// The characters of the name of the rune.
    pub fn name_chars(&self) -> (v: Vec<char>)
        ensures
            v@ == rune_name(self.0 as nat),
    {
        let mut rev: Vec<char> = Vec::new();
        let mut n: u128 = self.0;
        while n >= 26
            invariant
                rune_name(self.0 as nat) == rune_name(n as nat) + rev@.reverse(),
            decreases n,
        {
            let c: char = ((65 + n % 26) as u8) as char;
            proof {
                let ghost prev = rev@;
                let ghost m = (n / 26 - 1) as nat;
                assert(rune_name(n as nat) == rune_name(m).push(c));
                assert(prev.push(c).reverse() =~= seq![c] + prev.reverse());
                assert(rune_name(m).push(c) + prev.reverse() =~= rune_name(m) + (seq![c]
                    + prev.reverse()));
            }
            rev.push(c);
            n = n / 26 - 1;
        }
        let c: char = ((65 + n) as u8) as char;
        proof {
            let ghost prev = rev@;
            assert(prev.push(c).reverse() =~= seq![c] + prev.reverse());
            assert(rune_name(n as nat) =~= seq![c]);
        }
        rev.push(c);
        let mut out: Vec<char> = Vec::new();
        let mut i: usize = rev.len();
        while i > 0
            invariant
                i <= rev.len(),
                out@ == rev@.reverse().take(rev.len() - i),
            decreases i,
        {
            i = i - 1;
            proof {
                let r = rev@.reverse();
                assert(r.take(rev.len() - i) =~= r.take(rev.len() - i - 1).push(rev@[i as int]));
            }
            out.push(rev[i]);
        }
        assert(rev@.reverse().take(rev.len() as int) =~= rev@.reverse());
        out
    }

    pub fn to_string(&self) -> (s: String)
        ensures
            s@ == rune_name(self.0 as nat),
    {
        string_of(&self.name_chars())
    }

    /// Reads the name of a rune.
    pub fn parse(s: &str) -> (r: Result<Rune, RuneError>)
        ensures
            match parse_name(s@) {
                Ok(n) => r == Ok::<Rune, RuneError>(Rune(n)),
                Err(e) => r == Err::<Rune, RuneError>(e),
            },
    {
        let v = chars_of(s);
        parse_name_chars(&v)
    }
}

impl RuneError {
    pub open spec fn spec_message(self) -> Seq<char> {
        match self {
            RuneError::Character(c) => "invalid character `"@ + seq![c] + "`"@,
            RuneError::Range => "name out of range"@,
        }
    }

    pub fn to_string(&self) -> (s: String)
        ensures
            s@ == self.spec_message(),
    {
        match self {
            RuneError::Character(c) => {
                let mut v: Vec<char> = Vec::new();
                push_str(&mut v, "invalid character `");
                v.push(*c);
                push_str(&mut v, "`");
                assert(v@ =~= self.spec_message());
                string_of(&v)
            },
            RuneError::Range => "name out of range".to_owned(),
        }
    }
}

impl std::str::FromStr for Rune {
    type Err = RuneError;

    fn from_str(s: &str) -> (r: Result<Self, RuneError>)
        ensures
            match parse_name(s@) {
                Ok(n) => r == Ok::<Rune, RuneError>(Rune(n)),
                Err(e) => r == Err::<Rune, RuneError>(e),
            },
    {
        Rune::parse(s)
    }
}

} // verus!
