//! The four-byte chunk type tag and the flags carried by the case of its letters.

use crate::text::{bytes_as_chars, decimal, decimal_text, lemma_ascii_is_text, utf8_text};
use vstd::prelude::*;
use vstd::string::{StringExecFns, StringSliceAdditionalSpecFns};
use vstd::utf8::{decode_utf8, valid_utf8};

verus! {

/// An ASCII uppercase letter, `A` to `Z`.
pub open spec fn is_upper(b: u8) -> bool {
    65 <= b <= 90
}

/// An ASCII lowercase letter, `a` to `z`.
pub open spec fn is_lower(b: u8) -> bool {
    97 <= b <= 122
}

/// An ASCII letter of either case.
pub open spec fn is_alpha(b: u8) -> bool {
    is_upper(b) || is_lower(b)
}

/// Every byte of `s` is an ASCII letter.
pub open spec fn all_alpha(s: Seq<u8>) -> bool {
    forall|i: int| 0 <= i < s.len() ==> is_alpha(#[trigger] s[i])
}

/// A legal chunk type: four ASCII letters, the third one uppercase.
pub open spec fn tag_valid(t: Seq<u8>) -> bool {
    &&& t.len() == 4
    &&& all_alpha(t)
    &&& is_upper(t[2])
}

/// Why a chunk type could not be built from text, or rendered as text.
#[derive(Debug, Clone, PartialEq, Eq)]
pub enum ChunkTypeError {
    /// The text did not have exactly four bytes; carries the number it had.
    ByteLengthError(usize),
    /// One of the four bytes is not an ASCII letter.
    InvalidCharacter,
    /// The tag's bytes are not valid UTF-8 text.
    NotText,
}

impl ChunkTypeError {
    /// A sentence that describes the error.
    pub fn to_string(&self) -> (r: String)
        ensures
            self matches ChunkTypeError::ByteLengthError(n) ==> r@ == "Expected 4 bytes but received "@
                + decimal(n as nat) + " when creating chunk type"@,
            self is InvalidCharacter ==> r@ == "Input contains one or more invalid characters"@,
            self is NotText ==> r@ == "The chunk type is not valid UTF-8 text"@,
    {
        match self {
            ChunkTypeError::ByteLengthError(n) => {
                let mut s = String::from_str("Expected 4 bytes but received ");
                s.append(decimal_text(*n as u64).as_str());
                s.append(" when creating chunk type");
                s
            },
            ChunkTypeError::InvalidCharacter => String::from_str(
                "Input contains one or more invalid characters",
            ),
            ChunkTypeError::NotText => String::from_str("The chunk type is not valid UTF-8 text"),
        }
    }
}

/// A chunk type: four raw bytes, compared byte by byte.
#[derive(Debug, Clone, Copy)]
pub struct ChunkType(pub [u8; 4]);

impl PartialEq for ChunkType {
    fn eq(&self, other: &ChunkType) -> (r: bool) {
        let r = self.0[0] == other.0[0] && self.0[1] == other.0[1] && self.0[2] == other.0[2]
            && self.0[3] == other.0[3];
        assert(r ==> self.0@ =~= other.0@);
        r
    }
}

impl vstd::std_specs::cmp::PartialEqSpecImpl for ChunkType {
    open spec fn obeys_eq_spec() -> bool {
        true
    }

    open spec fn eq_spec(&self, other: &ChunkType) -> bool {
        self.0@ == other.0@
    }
}

impl Eq for ChunkType {}

fn byte_is_upper(b: u8) -> (r: bool)
    ensures
        r == is_upper(b),
{
    65 <= b && b <= 90
}

fn byte_is_lower(b: u8) -> (r: bool)
    ensures
        r == is_lower(b),
{
    97 <= b && b <= 122
}

impl ChunkType {
    /// Builds a tag from four raw bytes; no byte is checked here.
    pub fn try_from(bytes: [u8; 4]) -> (r: Result<ChunkType, ChunkTypeError>)
        ensures
            r == Ok::<ChunkType, ChunkTypeError>(ChunkType(bytes)),
    {
        Ok(ChunkType(bytes))
    }

    /// Builds a tag from text of exactly four ASCII letters.
    pub fn from_str(s: &str) -> (r: Result<ChunkType, ChunkTypeError>)
        ensures
            s.spec_bytes().len() != 4 ==> r == Err::<ChunkType, ChunkTypeError>(
                ChunkTypeError::ByteLengthError(s.spec_bytes().len() as usize),
            ),
            s.spec_bytes().len() == 4 && !all_alpha(s.spec_bytes()) ==> r == Err::<
                ChunkType,
                ChunkTypeError,
            >(ChunkTypeError::InvalidCharacter),
            s.spec_bytes().len() == 4 && all_alpha(s.spec_bytes()) ==> (r matches Ok(t)
                && t.0@ == s.spec_bytes()),
    {
        let b = s.as_bytes();
        if b.len() != 4 {
            return Err(ChunkTypeError::ByteLengthError(b.len()));
        }
        let mut i: usize = 0;
        while i < 4
            invariant
                b@ == s.spec_bytes(),
                b@.len() == 4,
                0 <= i <= 4,
                forall|j: int| 0 <= j < i ==> is_alpha(#[trigger] b@[j]),
            decreases 4 - i,
        {
            if !(byte_is_upper(b[i]) || byte_is_lower(b[i])) {
                return Err(ChunkTypeError::InvalidCharacter);
            }
            i = i + 1;
        }
        let t = ChunkType([b[0], b[1], b[2], b[3]]);
        assert(t.0@ =~= s.spec_bytes());
        Ok(t)
    }

    /// The four bytes of the tag.
    pub fn bytes(&self) -> (r: [u8; 4])
        ensures
            r == self.0,
    {
        self.0
    }

    /// Critical chunk: the first byte is uppercase.
    pub fn is_critical(&self) -> (r: bool)
        ensures
            r == is_upper(self.0@[0]),
    {
        byte_is_upper(self.0[0])
    }

    /// Public chunk: the second byte is uppercase.
    pub fn is_public(&self) -> (r: bool)
        ensures
            r == is_upper(self.0@[1]),
    {
        byte_is_upper(self.0[1])
    }

    /// Reserved bit as the format fixes it: the third byte is an uppercase letter.
    pub fn is_reserved_bit_valid(&self) -> (r: bool)
        ensures
            r == is_upper(self.0@[2]),
    {
        byte_is_upper(self.0[2])
    }

    /// Safe to copy: the fourth byte is lowercase.
    pub fn is_safe_to_copy(&self) -> (r: bool)
        ensures
            r == is_lower(self.0@[3]),
    {
        byte_is_lower(self.0[3])
    }

    /// A legal chunk type: all four bytes are letters and the reserved bit is valid.
    pub fn is_valid(&self) -> (r: bool)
        ensures
            r == tag_valid(self.0@),
    {
        let mut i: usize = 0;
        while i < 4
            invariant
                0 <= i <= 4,
                forall|j: int| 0 <= j < i ==> is_alpha(#[trigger] self.0@[j]),
            decreases 4 - i,
        {
            if !(byte_is_upper(self.0[i]) || byte_is_lower(self.0[i])) {
                return false;
            }
            i = i + 1;
        }
        self.is_reserved_bit_valid()
    }

    /// The tag as four characters of text; fails where the bytes are not UTF-8.
    pub fn to_string(&self) -> (r: Result<String, ChunkTypeError>)
        ensures
            valid_utf8(self.0@) ==> (r matches Ok(s) && s@ == decode_utf8(self.0@)),
            !valid_utf8(self.0@) ==> r == Err::<String, ChunkTypeError>(
                ChunkTypeError::NotText,
            ),
            all_alpha(self.0@) ==> (r matches Ok(s) && s@ == bytes_as_chars(self.0@)),
    {
        proof {
            if all_alpha(self.0@) {
                assert(forall|i: int| 0 <= i < 4 ==> is_alpha(#[trigger] self.0@[i]));
                lemma_ascii_is_text(self.0@);
            }
        }
        match utf8_text(self.0.as_slice()) {
            Some(s) => Ok(s),
            None => Err(ChunkTypeError::NotText),
        }
    }
}

impl TryFrom<[u8; 4]> for ChunkType {
    type Error = ChunkTypeError;

    fn try_from(bytes: [u8; 4]) -> Result<ChunkType, ChunkTypeError> {
        ChunkType::try_from(bytes)
    }
}

impl vstd::std_specs::convert::TryFromSpecImpl<[u8; 4]> for ChunkType {
    open spec fn obeys_try_from_spec() -> bool {
        true
    }

    open spec fn try_from_spec(bytes: [u8; 4]) -> Result<ChunkType, ChunkTypeError> {
        Ok(ChunkType(bytes))
    }
}

impl core::str::FromStr for ChunkType {
    type Err = ChunkTypeError;

    fn from_str(s: &str) -> Result<ChunkType, ChunkTypeError> {
        ChunkType::from_str(s)
    }
}

} // verus!
