use crate::text::{chars_of, decimal, parse_unsigned, parse_unsigned_in, push_decimal, string_of};
use vstd::prelude::*;
use vstd::std_specs::cmp::PartialEqSpecImpl;

verus! {

/// Number of blocks between two adjustments of the mining difficulty.
pub open spec fn spec_difficulty_interval() -> u32 {
    2016
}

/// The retarget interval of the chain.
///
/// Trusted: reads `bitcoin::blockdata::constants::DIFFCHANGE_INTERVAL`,
/// which that crate defines as 2016.
#[verifier::external_body]
fn difficulty_interval() -> (n: u32)
    ensures
        n == spec_difficulty_interval(),
{
    bitcoin::blockdata::constants::DIFFCHANGE_INTERVAL
}

/// A block height.
#[derive(Clone, Copy, Debug, Eq, Ord, PartialOrd)]
pub struct Height(pub u32);

impl Height {
    pub fn n(self) -> (n: u32)
        ensures
            n == self.0,
    {
        self.0
    }

    /// Position of the height within its difficulty period.
    pub fn period_offset(self) -> (offset: u32)
        ensures
            offset == self.0 % spec_difficulty_interval(),
    {
        self.0 % difficulty_interval()
    }

    /// The height `other` blocks further on.
    pub fn add(self, other: u32) -> (h: Height)
        requires
            self.0 + other <= u32::MAX,
        ensures
            h.0 == self.0 + other,
    {
        Height(self.0 + other)
    }

    /// The height `other` blocks earlier.
    pub fn sub(self, other: u32) -> (h: Height)
        requires
            other <= self.0,
        ensures
            h.0 == self.0 - other,
    {
        Height(self.0 - other)
    }

    /// Whether the height is the given number.
    pub fn is(&self, other: u32) -> (r: bool)
        ensures
            r == (self.0 == other),
    {
        self.0 == other
    }

    /// Reads a height written in decimal.
    pub fn parse(s: &str) -> (r: Option<Height>)
        ensures
            match parse_unsigned(s@, u32::MAX as nat) {
                Some(n) => r == Some(Height(n as u32)),
                None => r.is_none(),
            },
    {
        let v = chars_of(s);
        assert(v@.subrange(0, v.len() as int) =~= v@);
        match parse_unsigned_in(&v, 0, v.len(), u32::MAX as u128) {
            Some(n) => Some(Height(n as u32)),
            None => None,
        }
    }

    pub fn to_string(&self) -> (s: String)
        ensures
            s@ == decimal(self.0 as nat),
    {
        let mut out: Vec<char> = Vec::new();
        push_decimal(&mut out, self.0 as u128);
        assert(out@ =~= decimal(self.0 as nat));
        string_of(&out)
    }
}

impl PartialEq for Height {
    fn eq(&self, other: &Height) -> (r: bool) {
        self.0 == other.0
    }
}

impl PartialEqSpecImpl for Height {
    open spec fn obeys_eq_spec() -> bool {
        true
    }

    open spec fn eq_spec(&self, other: &Height) -> bool {
        self.0 == other.0
    }
}

impl PartialEq<u32> for Height {
    fn eq(&self, other: &u32) -> (r: bool) {
        self.0 == *other
    }
}

impl PartialEqSpecImpl<u32> for Height {
    open spec fn obeys_eq_spec() -> bool {
        true
    }

    open spec fn eq_spec(&self, other: &u32) -> bool {
        self.0 == *other
    }
}

/// A height text that is no decimal number of 32 bits.
#[derive(Clone, Copy, Debug, PartialEq, Eq, Structural)]
pub struct ParseHeightError;

impl std::str::FromStr for Height {
    type Err = ParseHeightError;

    fn from_str(s: &str) -> (r: Result<Self, ParseHeightError>)
        ensures
            match parse_unsigned(s@, u32::MAX as nat) {
                Some(n) => r == Ok::<Height, ParseHeightError>(Height(n as u32)),
                None => r == Err::<Height, ParseHeightError>(ParseHeightError),
            },
    {
        match Height::parse(s) {
            Some(h) => Ok(h),
            None => Err(ParseHeightError),
        }
    }
}

} // verus!
