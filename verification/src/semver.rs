//! Three-component semantic versions: parsing from `"major.minor.patch"`
//! strings, rendering back, and the bump state machine.

use vstd::prelude::*;
use vstd::string::{StrSliceExecFns, StringExecFns};
use crate::bump::BumpLevel;
use crate::numerals::{
    dec_rep, is_canonical_numeral, lemma_canonical_round_trip, numeral_val, parse_u64, render_u64,
    spec_parse_u64,
};
use crate::text::{lemma_join_dot_three, lemma_join_split_dot, split_dot, split_on_dots};

verus! {

/// A semantic version value; any triple of non-negative integers is valid.
#[derive(Debug, PartialEq, Eq, Clone, Copy, Structural)]
pub struct SemanticVersion {
    pub major: u64,
    pub minor: u64,
    pub patch: u64,
}

/// Why a version string failed to parse: a wrong number of dot-separated
/// components, or a component that is not a plain decimal number.
#[derive(Debug, PartialEq, Eq, Clone, Copy, Structural)]
pub enum ParseError {
    TooFewComponents,
    TooManyComponents,
    InvalidComponent,
}

/// What parsing a version string yields: the string must split on `'.'` into
/// exactly three components, each a decimal numeral that fits in a `u64`.
pub open spec fn spec_parse_version(s: Seq<char>) -> Result<SemanticVersion, ParseError> {
    let parts = split_dot(s);
    if parts.len() < 3 {
        Err(ParseError::TooFewComponents)
    } else if parts.len() > 3 {
        Err(ParseError::TooManyComponents)
    } else {
        match (spec_parse_u64(parts[0]), spec_parse_u64(parts[1]), spec_parse_u64(parts[2])) {
            (Some(a), Some(b), Some(c)) => Ok(SemanticVersion { major: a, minor: b, patch: c }),
            _ => Err(ParseError::InvalidComponent),
        }
    }
}

/// The rendering `"major.minor.patch"` of a version.
pub open spec fn spec_render(v: SemanticVersion) -> Seq<char> {
    dec_rep(v.major as nat) + seq!['.'] + dec_rep(v.minor as nat) + seq!['.'] + dec_rep(
        v.patch as nat,
    )
}

impl SemanticVersion {
    /// The starting version `0.0.0`.
    pub fn new() -> (r: Self)
        ensures
            r.major == 0 && r.minor == 0 && r.patch == 0,
    {
        SemanticVersion { major: 0, minor: 0, patch: 0 }
    }

    /// Replace this version with the one parsed from `version_str`; on a
    /// malformed string, report why and leave the version unchanged.
    pub fn set_version(&mut self, version_str: &str) -> (r: Result<(), ParseError>)
        ensures
            match r {
                Ok(()) => spec_parse_version(version_str@) == Ok::<SemanticVersion, ParseError>(
                    *final(self),
                ),
                Err(e) => spec_parse_version(version_str@) == Err::<SemanticVersion, ParseError>(e)
                    && *final(self) == *old(self),
            },
    {
        let parts = split_on_dots(version_str);
        proof {
            assert(parts@.len() == split_dot(version_str@).len());
            assert(parts.deep_view()[0] == parts@[0].deep_view());
        }
        if parts.len() < 3 {
            return Err(ParseError::TooFewComponents);
        }
        if parts.len() > 3 {
            return Err(ParseError::TooManyComponents);
        }
        proof {
            assert(parts.deep_view()[0] == split_dot(version_str@)[0]);
            assert(parts.deep_view()[1] == split_dot(version_str@)[1]);
            assert(parts.deep_view()[2] == split_dot(version_str@)[2]);
        }
        let major = match parse_u64(parts[0].as_str()) {
            Some(v) => v,
            None => {
                return Err(ParseError::InvalidComponent);
            },
        };
        let minor = match parse_u64(parts[1].as_str()) {
            Some(v) => v,
            None => {
                return Err(ParseError::InvalidComponent);
            },
        };
        let patch = match parse_u64(parts[2].as_str()) {
            Some(v) => v,
            None => {
                return Err(ParseError::InvalidComponent);
            },
        };
        self.major = major;
        self.minor = minor;
        self.patch = patch;
        Ok(())
    }

    /// Advance the version by one release of the given severity: a patch bump
    /// increments `patch`; a minor bump increments `minor` and resets `patch`;
    /// a major bump increments `major` and resets both; no bump changes
    /// nothing.
    pub fn bump(&mut self, bumplevel: BumpLevel)
        requires
            bumplevel == BumpLevel::Patch ==> old(self).patch < u64::MAX,
            bumplevel == BumpLevel::Minor ==> old(self).minor < u64::MAX,
            bumplevel == BumpLevel::Major ==> old(self).major < u64::MAX,
        ensures
            bumplevel == BumpLevel::NoBump ==> *final(self) == *old(self),
            bumplevel == BumpLevel::Patch ==> final(self).major == old(self).major
                && final(self).minor == old(self).minor
                && final(self).patch == old(self).patch + 1,
            bumplevel == BumpLevel::Minor ==> final(self).major == old(self).major
                && final(self).minor == old(self).minor + 1
                && final(self).patch == 0,
            bumplevel == BumpLevel::Major ==> final(self).major == old(self).major + 1
                && final(self).minor == 0
                && final(self).patch == 0,
    {
        match bumplevel {
            BumpLevel::Patch => {
                self.patch = self.patch + 1;
            },
            BumpLevel::Minor => {
                self.minor = self.minor + 1;
                self.patch = 0;
            },
            BumpLevel::Major => {
                self.major = self.major + 1;
                self.minor = 0;
                self.patch = 0;
            },
            BumpLevel::NoBump => {},
        }
    }

    /// Render this version as `"major.minor.patch"`.
    pub fn render(&self) -> (s: String)
        ensures
            s@ == spec_render(*self),
    {
        let mut s = render_u64(self.major);
        s.append(".");
        let minor = render_u64(self.minor);
        s.append(minor.as_str());
        s.append(".");
        let patch = render_u64(self.patch);
        s.append(patch.as_str());
        proof {
            reveal_strlit(".");
            assert("."@ =~= seq!['.']);
            assert(s@ =~= spec_render(*self));
        }
        s
    }
}

impl Default for SemanticVersion {
    /// The starting version `0.0.0`.
    fn default() -> (r: Self)
        ensures
            r.major == 0 && r.minor == 0 && r.patch == 0,
    {
        SemanticVersion::new()
    }
}

/// `s` splits into exactly three canonical decimal numerals, each fitting in
/// a `u64`: the version strings this crate itself renders.
pub open spec fn is_well_formed_version(s: Seq<char>) -> bool {
    &&& split_dot(s).len() == 3
    &&& forall|i: int|
        0 <= i < 3 ==> is_canonical_numeral(#[trigger] split_dot(s)[i]) && numeral_val(
            split_dot(s)[i],
        ) <= u64::MAX
}

/// Round trip: rendering the version parsed from a well-formed version string
/// restores the string. Components with superfluous leading zeros are the
/// inputs on which this fails (they parse, but render without the zeros), so
/// well-formedness asks for canonical numerals.
pub proof fn lemma_version_round_trip(s: Seq<char>)
    requires
        is_well_formed_version(s),
    ensures
        spec_parse_version(s) matches Ok(v) && spec_render(v) == s,
{
    let parts = split_dot(s);
    assert(is_canonical_numeral(parts[0]) && is_canonical_numeral(parts[1])
        && is_canonical_numeral(parts[2]));
    lemma_canonical_round_trip(parts[0]);
    lemma_canonical_round_trip(parts[1]);
    lemma_canonical_round_trip(parts[2]);
    let v = spec_parse_version(s)->Ok_0;
    lemma_join_split_dot(s);
    lemma_join_dot_three(parts);
    assert(spec_render(v) =~= s);
}

} // verus!
