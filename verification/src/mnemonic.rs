//! BIP-39 mnemonic checksum validation and root-seed expansion.
//!
//! Whether a phrase is a valid mnemonic — word count in the standard set,
//! every word on the wordlist, checksum bits matching — and what 64-byte
//! seed it stretches to are decided by the `bip39` crate.  Both are pure
//! functions of the phrase text (the wordlist is fixed and the passphrase
//! is fixed to the empty string), so they are named by uninterpreted spec
//! functions which the trusted wrappers below tie to the crate.

use vstd::prelude::*;

verus! {

/// Whether a phrase is a valid BIP-39 mnemonic: standard word count, every
/// word on the wordlist, checksum bits matching.  Decided by
/// `bip39::Mnemonic::parse`, as a function of the phrase text alone.
pub uninterp spec fn mnemonic_ok(phrase: Seq<char>) -> bool;

/// The 64-byte root seed that the standard stretching function
/// (PBKDF2-HMAC-SHA512, 2048 rounds, empty passphrase) derives from a
/// valid phrase; a function of the phrase text alone.
pub uninterp spec fn seed_of(phrase: Seq<char>) -> Seq<u8>;

/// Relies on `bip39::Mnemonic::parse`: it returns `Ok` exactly on the
/// checksummed wordlist phrases, and acceptance depends on the phrase text
/// alone (the enabled wordlist is fixed).
#[verifier::external_body]
fn phrase_parses(phrase: &str) -> (r: bool)
    ensures
        r == mnemonic_ok(phrase@),
{
    bip39::Mnemonic::parse(phrase).is_ok()
}

/// Relies on `bip39::Mnemonic::parse` (accepts exactly the checksummed
/// wordlist phrases; `requires` keeps the `unwrap` from panicking) and
/// `bip39::Mnemonic::to_seed` (the 64-byte PBKDF2 stretch of the parsed
/// words and the passphrase, here fixed empty): the seed is a function of
/// the phrase text alone.
#[verifier::external_body]
fn phrase_to_seed(phrase: &str) -> (r: Vec<u8>)
    requires
        mnemonic_ok(phrase@),
    ensures
        r@ == seed_of(phrase@),
        r@.len() == 64,
{
    let parsed = bip39::Mnemonic::parse(phrase).expect("checksum was verified");
    parsed.to_seed("").to_vec()
}

/// The error outcome of parsing a phrase whose checksum or word list does
/// not match: an expected, per-line condition, not a system error.
#[derive(Clone, Copy, PartialEq, Eq, Structural, Debug)]
pub struct InvalidPhrase;

/// A validated phrase: only constructible from text whose BIP-39 checksum
/// verifies, and immutable once constructed.
pub struct Mnemonic {
    phrase: String,
}

impl Mnemonic {
    /// The phrase text this mnemonic was validated from.
    pub closed spec fn spec_phrase(self) -> Seq<char> {
        self.phrase@
    }

    /// The construction invariant: the held phrase passes the checksum.
    pub closed spec fn wf(self) -> bool {
        mnemonic_ok(self.phrase@)
    }

    /// Parses a candidate phrase against the standard wordlist/checksum
    /// scheme; fails with `InvalidPhrase` exactly when the scheme rejects
    /// it.
    pub fn parse(phrase: &str) -> (r: Result<Mnemonic, InvalidPhrase>)
        ensures
            r is Ok <==> mnemonic_ok(phrase@),
            r is Ok ==> r.unwrap().wf() && r.unwrap().spec_phrase() == phrase@,
    {
        if phrase_parses(phrase) {
            Ok(Mnemonic { phrase: phrase.to_owned() })
        } else {
            Err(InvalidPhrase)
        }
    }

    /// Expands the mnemonic, with the fixed empty passphrase, into the
    /// 64-byte root seed.
    pub fn to_root_seed(&self) -> (r: Vec<u8>)
        requires
            self.wf(),
        ensures
            r@ == seed_of(self.spec_phrase()),
            r@.len() == 64,
    {
        phrase_to_seed(self.phrase.as_str())
    }
}

} // verus!
