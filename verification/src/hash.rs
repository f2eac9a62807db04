//! Bank hashes: 32 bytes, written and read as base58 text.

use vstd::prelude::*;

verus! {

/// A 32-byte hash.
#[derive(Clone, Copy, Debug)]
pub struct Hash {
    pub bytes: [u8; 32],
}

/// Why a text is not the base58 form of a hash.
#[derive(Clone, Copy, Debug, PartialEq, Eq, Structural)]
pub enum HashParseError {
    /// The text decodes to more or fewer than 32 bytes.
    WrongSize,
    /// The text holds a character outside the base58 alphabet.
    Invalid,
}

/// Declares `ParseHashError` of `solana_hash`, with its two variants.
#[verifier::external_type_specification]
pub struct ExParseHashError(solana_hash::ParseHashError);

/// The base58 text that `solana_hash::Hash` displays for 32 bytes.
pub uninterp spec fn hash_base58(bytes: Seq<u8>) -> Seq<char>;

/// What `solana_hash::Hash` parses from a text: the hash, or the reason why
/// the text is none.
pub uninterp spec fn hash_from_base58(text: Seq<char>) -> Result<Hash, HashParseError>;

/// The library's name for each parse error of `solana_hash`.
pub open spec fn hash_parse_error(e: solana_hash::ParseHashError) -> HashParseError {
    match e {
        solana_hash::ParseHashError::WrongSize => HashParseError::WrongSize,
        solana_hash::ParseHashError::Invalid => HashParseError::Invalid,
    }
}

/// The outcome of parsing the text of the hash that holds `bytes`.
pub open spec fn parsed_hash(bytes: [u8; 32]) -> Result<Hash, HashParseError> {
    Ok(Hash { bytes })
}

/// The outcome of parsing a text that `solana_hash` refuses with `e`.
pub open spec fn refused_hash(e: solana_hash::ParseHashError) -> Result<Hash, HashParseError> {
    Err(hash_parse_error(e))
}

/// Calls `to_string` of `solana_hash::Hash`, which writes the hash in base58.
/// Trusted: the text is a function of the 32 bytes alone.
#[verifier::external_body]
fn encode_hash(bytes: &[u8; 32]) -> (text: String)
    ensures
        text@ == hash_base58(bytes@),
{
    solana_hash::Hash::new_from_array(*bytes).to_string()
}

/// Calls `from_str` of `solana_hash::Hash` through `str::parse`.
/// Trusted: the outcome is a function of the text alone.
#[verifier::external_body]
fn decode_hash(text: &str) -> (r: Result<[u8; 32], solana_hash::ParseHashError>)
    ensures
        match r {
            Ok(bytes) => hash_from_base58(text@) == parsed_hash(bytes),
            Err(e) => hash_from_base58(text@) == refused_hash(e),
        },
{
    text.parse::<solana_hash::Hash>().map(|h| h.to_bytes())
}

impl PartialEq for Hash {
    fn eq(&self, other: &Self) -> (r: bool) {
        let mut i: usize = 0;
        while i < 32
            invariant
                i <= 32,
                forall|j: int| 0 <= j < i ==> self.bytes@[j] == other.bytes@[j],
            decreases 32 - i,
        {
            if self.bytes[i] != other.bytes[i] {
                return false;
            }
            i += 1;
        }
        assert(self.bytes =~= other.bytes);
        true
    }
}

impl Eq for Hash {

}

impl vstd::std_specs::cmp::PartialEqSpecImpl for Hash {
    open spec fn obeys_eq_spec() -> bool {
        true
    }

    open spec fn eq_spec(&self, other: &Self) -> bool {
        *self == *other
    }
}

impl Default for Hash {
    fn default() -> (h: Self)
        ensures
            h.bytes@ == Seq::new(32, |i: int| 0u8),
    {
        let h = Hash { bytes: [0u8; 32] };
        h
    }
}

impl Hash {
    /// The hash that holds the given bytes.
    pub fn new_from_array(bytes: [u8; 32]) -> (h: Self)
        ensures
            h.bytes == bytes,
    {
        Hash { bytes }
    }

    /// The bytes of the hash.
    pub fn to_bytes(&self) -> (bytes: [u8; 32])
        ensures
            bytes == self.bytes,
    {
        self.bytes
    }

    /// The base58 text of the hash.
    pub open spec fn text(self) -> Seq<char> {
        hash_base58(self.bytes@)
    }

    /// Writes the hash in base58.
    pub fn to_string(&self) -> (text: String)
        ensures
            text@ == self.text(),
    {
        encode_hash(&self.bytes)
    }

    /// Reads a hash from its base58 text.
    pub fn from_str(text: &str) -> (r: Result<Hash, HashParseError>)
        ensures
            r == hash_from_base58(text@),
    {
        match decode_hash(text) {
            Ok(bytes) => Ok(Hash { bytes }),
            Err(e) => match e {
                solana_hash::ParseHashError::WrongSize => Err(HashParseError::WrongSize),
                solana_hash::ParseHashError::Invalid => Err(HashParseError::Invalid),
            },
        }
    }
}

} // verus!
