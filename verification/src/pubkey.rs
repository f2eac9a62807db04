//! Validator identities: 32-byte public keys, written and read as base58 text.

use vstd::prelude::*;

verus! {

/// The identity of a validator: a 32-byte public key.
#[derive(Clone, Copy, Debug)]
pub struct Pubkey {
    pub bytes: [u8; 32],
}

/// Why a text is not the base58 form of a public key.
#[derive(Clone, Copy, Debug, PartialEq, Eq, Structural)]
pub enum PubkeyParseError {
    /// The text decodes to more or fewer than 32 bytes.
    WrongSize,
    /// The text holds a character outside the base58 alphabet.
    Invalid,
}

/// Declares `ParsePubkeyError` of `solana_pubkey`, with its two variants.
#[verifier::external_type_specification]
pub struct ExParsePubkeyError(solana_pubkey::ParsePubkeyError);

/// The base58 text that `solana_pubkey::Pubkey` displays for 32 bytes.
pub uninterp spec fn pubkey_base58(bytes: Seq<u8>) -> Seq<char>;

/// What `solana_pubkey::Pubkey` parses from a text: the key, or the reason why
/// the text is none.
pub uninterp spec fn pubkey_from_base58(text: Seq<char>) -> Result<Pubkey, PubkeyParseError>;

/// The library's name for each parse error of `solana_pubkey`.
pub open spec fn pubkey_parse_error(e: solana_pubkey::ParsePubkeyError) -> PubkeyParseError {
    match e {
        solana_pubkey::ParsePubkeyError::WrongSize => PubkeyParseError::WrongSize,
        solana_pubkey::ParsePubkeyError::Invalid => PubkeyParseError::Invalid,
    }
}

/// The outcome of parsing the text of the key that holds `bytes`.
pub open spec fn parsed_pubkey(bytes: [u8; 32]) -> Result<Pubkey, PubkeyParseError> {
    Ok(Pubkey { bytes })
}

/// The outcome of parsing a text that `solana_pubkey` refuses with `e`.
pub open spec fn refused_pubkey(e: solana_pubkey::ParsePubkeyError) -> Result<
    Pubkey,
    PubkeyParseError,
> {
    Err(pubkey_parse_error(e))
}

/// Calls `to_string` of `solana_pubkey::Pubkey`, which writes the key in base58.
/// Trusted: the text is a function of the 32 bytes alone.
#[verifier::external_body]
fn encode_pubkey(bytes: &[u8; 32]) -> (text: String)
    ensures
        text@ == pubkey_base58(bytes@),
{
    solana_pubkey::Pubkey::new_from_array(*bytes).to_string()
}

/// Calls `from_str` of `solana_pubkey::Pubkey` through `str::parse`.
/// Trusted: the outcome is a function of the text alone.
#[verifier::external_body]
fn decode_pubkey(text: &str) -> (r: Result<[u8; 32], solana_pubkey::ParsePubkeyError>)
    ensures
        match r {
            Ok(bytes) => pubkey_from_base58(text@) == parsed_pubkey(bytes),
            Err(e) => pubkey_from_base58(text@) == refused_pubkey(e),
        },
{
    text.parse::<solana_pubkey::Pubkey>().map(|h| h.to_bytes())
}

impl PartialEq for Pubkey {
    fn eq(&self, other: &Self) -> (r: bool) {
        let mut i: usize = 0;
        while i < 32
            invariant
                i <= 32,
                forall|j: int| 0 <= j < i ==> self.bytes@[j] == other.bytes@[j],
            decreases 32 - i,
        {
            if self.bytes[i] != other.bytes[i] {
                return false;
            }
            i += 1;
        }
        assert(self.bytes =~= other.bytes);
        true
    }
}

impl Eq for Pubkey {

}

impl vstd::std_specs::cmp::PartialEqSpecImpl for Pubkey {
    open spec fn obeys_eq_spec() -> bool {
        true
    }

    open spec fn eq_spec(&self, other: &Self) -> bool {
        *self == *other
    }
}

impl Default for Pubkey {
    fn default() -> (h: Self)
        ensures
            h.bytes@ == Seq::new(32, |i: int| 0u8),
    {
        let h = Pubkey { bytes: [0u8; 32] };
        h
    }
}

impl Pubkey {
    /// The key that holds the given bytes.
    pub fn new_from_array(bytes: [u8; 32]) -> (h: Self)
        ensures
            h.bytes == bytes,
    {
        Pubkey { bytes }
    }

    /// The bytes of the key.
    pub fn to_bytes(&self) -> (bytes: [u8; 32])
        ensures
            bytes == self.bytes,
    {
        self.bytes
    }

    /// The base58 text of the key.
    pub open spec fn text(self) -> Seq<char> {
        pubkey_base58(self.bytes@)
    }

    /// Writes the key in base58.
    pub fn to_string(&self) -> (text: String)
        ensures
            text@ == self.text(),
    {
        encode_pubkey(&self.bytes)
    }

    /// Reads a key from its base58 text.
    pub fn from_str(text: &str) -> (r: Result<Pubkey, PubkeyParseError>)
        ensures
            r == pubkey_from_base58(text@),
    {
        match decode_pubkey(text) {
            Ok(bytes) => Ok(Pubkey { bytes }),
            Err(e) => match e {
                solana_pubkey::ParsePubkeyError::WrongSize => Err(PubkeyParseError::WrongSize),
                solana_pubkey::ParsePubkeyError::Invalid => Err(PubkeyParseError::Invalid),
            },
        }
    }
}

} // verus!
