//! Address encoding, and the derivation of the three receive addresses of
//! a valid mnemonic.
//!
//! A leaf public key is rendered under one of three fixed main-network
//! encoding schemes, selected by the purpose that produced it: legacy
//! P2PKH (base58check, version byte 0, so the address starts with `1`) for
//! purpose 44, P2SH-wrapped segwit (base58check, version byte 5, so it
//! starts with `3`) for purpose 49, and native segwit (bech32 with
//! human-readable part `bc`, so it starts with `bc1`) for purpose 84.  The
//! encodings themselves are done by the `bitcoin` crate behind trusted
//! wrappers; each is a function of the key bytes alone.

use vstd::prelude::*;
use crate::derive::{derive_ok, leaf_pubkey, path_raws, valid_pubkey, DerivationPath};
use crate::mnemonic::{seed_of, Mnemonic};

verus! {

/// The legacy P2PKH address of a compressed public key on the main
/// network; a function of the key bytes alone.
pub uninterp spec fn p2pkh_address(pk: Seq<u8>) -> Seq<char>;

/// The P2SH-wrapped-segwit address of a compressed public key on the main
/// network; a function of the key bytes alone.
pub uninterp spec fn p2sh_wpkh_address(pk: Seq<u8>) -> Seq<char>;

/// The native-segwit (P2WPKH) address of a compressed public key on the
/// main network; a function of the key bytes alone.
pub uninterp spec fn p2wpkh_address(pk: Seq<u8>) -> Seq<char>;

/// Relies on `bitcoin::CompressedPublicKey::from_slice` (accepts a valid
/// compressed encoding; the `requires` keeps the `expect` from panicking)
/// and `bitcoin::Address::p2pkh` with its `Display` impl: the base58check
/// encoding of version byte 0 and the key hash.  Base58check of a leading
/// zero byte always begins with the digit `1` (the convention for legacy
/// main-network addresses).
#[verifier::external_body]
fn encode_p2pkh(pk: &Vec<u8>) -> (r: String)
    requires
        valid_pubkey(pk@),
    ensures
        r@ == p2pkh_address(pk@),
        r@.len() > 0,
        r@[0] == '1',
{
    let key = bitcoin::CompressedPublicKey::from_slice(pk.as_slice()).expect("valid public key");
    bitcoin::Address::p2pkh(&key, bitcoin::Network::Bitcoin).to_string()
}

/// Relies on `bitcoin::CompressedPublicKey::from_slice` (as in
/// `encode_p2pkh`) and `bitcoin::Address::p2shwpkh` with its `Display`
/// impl: the base58check encoding of version byte 5 and the script hash of
/// the wrapped witness program.  Base58check with version byte 5 always
/// begins with `3` (the convention for main-network P2SH addresses).
#[verifier::external_body]
fn encode_p2sh_wpkh(pk: &Vec<u8>) -> (r: String)
    requires
        valid_pubkey(pk@),
    ensures
        r@ == p2sh_wpkh_address(pk@),
        r@.len() > 0,
        r@[0] == '3',
{
    let key = bitcoin::CompressedPublicKey::from_slice(pk.as_slice()).expect("valid public key");
    bitcoin::Address::p2shwpkh(&key, bitcoin::Network::Bitcoin).to_string()
}

/// Relies on `bitcoin::CompressedPublicKey::from_slice` (as in
/// `encode_p2pkh`) and `bitcoin::Address::p2wpkh` with its `Display` impl:
/// the bech32 encoding of the witness program under the main-network
/// human-readable part `bc`, which bech32 always follows with the
/// separator `1` (the convention for native-segwit addresses).
#[verifier::external_body]
fn encode_p2wpkh(pk: &Vec<u8>) -> (r: String)
    requires
        valid_pubkey(pk@),
    ensures
        r@ == p2wpkh_address(pk@),
        r@.len() >= 3,
        r@[0] == 'b',
        r@[1] == 'c',
        r@[2] == '1',
{
    let key = bitcoin::CompressedPublicKey::from_slice(pk.as_slice()).expect("valid public key");
    bitcoin::Address::p2wpkh(&key, bitcoin::KnownHrp::Mainnet).to_string()
}

/// The three receive addresses derived from a phrase: one per path
/// variant, each under its own encoding scheme.
pub struct AddressTriple {
    /// Purpose 44: legacy P2PKH.
    pub p2pkh: String,
    /// Purpose 49: P2SH-wrapped segwit.
    pub p2sh_wpkh: String,
    /// Purpose 84: native segwit.
    pub p2wpkh: String,
}

/// Whether all three path walks from a phrase's root seed succeed: the
/// success condition of `derive_addresses`, deterministic in the phrase.
pub open spec fn all_paths_ok(phrase: Seq<char>) -> bool {
    let seed = seed_of(phrase);
    &&& derive_ok(seed, path_raws(44))
    &&& derive_ok(seed, path_raws(49))
    &&& derive_ok(seed, path_raws(84))
}

/// The three addresses a phrase's root seed determines, in the order
/// legacy, wrapped-segwit, native-segwit.
pub open spec fn spec_addresses(phrase: Seq<char>) -> (Seq<char>, Seq<char>, Seq<char>) {
    let seed = seed_of(phrase);
    (
        p2pkh_address(leaf_pubkey(seed, path_raws(44))),
        p2sh_wpkh_address(leaf_pubkey(seed, path_raws(49))),
        p2wpkh_address(leaf_pubkey(seed, path_raws(84))),
    )
}

impl AddressTriple {
    /// Each address carries its scheme's prefix convention.
    pub open spec fn wf(self) -> bool {
        &&& self.p2pkh@.len() > 0 && self.p2pkh@[0] == '1'
        &&& self.p2sh_wpkh@.len() > 0 && self.p2sh_wpkh@[0] == '3'
        &&& self.p2wpkh@.len() >= 3 && self.p2wpkh@[0] == 'b' && self.p2wpkh@[1] == 'c'
            && self.p2wpkh@[2] == '1'
    }

    /// The triple is exactly what the phrase determines.
    pub open spec fn matches(self, phrase: Seq<char>) -> bool {
        let (a, b, c) = spec_addresses(phrase);
        self.p2pkh@ == a && self.p2sh_wpkh@ == b && self.p2wpkh@ == c
    }
}

/// Derives the three receive addresses of a valid mnemonic: root seed,
/// then one five-level walk per purpose in {44, 49, 84} — the three walks
/// are independent and all restart from the same master key — then one
/// address encoding per walk.  Succeeds exactly when the three walks do
/// (`all_paths_ok`, a function of the phrase; its failure is
/// cryptographically unreachable).
pub fn derive_addresses(mnemonic: &Mnemonic) -> (r: Option<AddressTriple>)
    requires
        mnemonic.wf(),
    ensures
        r is Some <==> all_paths_ok(mnemonic.spec_phrase()),
        r is Some ==> r.unwrap().matches(mnemonic.spec_phrase()) && r.unwrap().wf(),
{
    let seed = mnemonic.to_root_seed();
    let path44 = DerivationPath::for_purpose(44);
    let path49 = DerivationPath::for_purpose(49);
    let path84 = DerivationPath::for_purpose(84);
    let key44 = match crate::derive::derive_leaf_pubkey(&seed, &path44.raw_steps()) {
        Some(k) => k,
        None => return None,
    };
    let key49 = match crate::derive::derive_leaf_pubkey(&seed, &path49.raw_steps()) {
        Some(k) => k,
        None => return None,
    };
    let key84 = match crate::derive::derive_leaf_pubkey(&seed, &path84.raw_steps()) {
        Some(k) => k,
        None => return None,
    };
    Some(
        AddressTriple {
            p2pkh: encode_p2pkh(&key44),
            p2sh_wpkh: encode_p2sh_wpkh(&key49),
            p2wpkh: encode_p2wpkh(&key84),
        },
    )
}

/// Each of the three derived addresses uses a distinct encoding scheme
/// with a distinct prefix convention — `1`, `3` and `bc1` — so the three
/// address strings are pairwise distinct.
pub proof fn lemma_schemes_distinct(triple: AddressTriple)
    requires
        triple.wf(),
    ensures
        triple.p2pkh@ != triple.p2sh_wpkh@,
        triple.p2pkh@ != triple.p2wpkh@,
        triple.p2sh_wpkh@ != triple.p2wpkh@,
{
}

/// Derivation is deterministic and idempotent: two runs of
/// `derive_addresses` over the same phrase — hence over byte-identical
/// root seeds, master keys and path walks — agree on whether they produce
/// a triple at all, and when they do, the triples are identical, address
/// by address.  The `requires` are the two runs' postconditions.
pub proof fn lemma_derivation_deterministic(
    phrase: Seq<char>,
    first: Option<AddressTriple>,
    second: Option<AddressTriple>,
)
    requires
        first is Some <==> all_paths_ok(phrase),
        second is Some <==> all_paths_ok(phrase),
        first is Some ==> first.unwrap().matches(phrase),
        second is Some ==> second.unwrap().matches(phrase),
    ensures
        first is Some <==> second is Some,
        first is Some ==> first.unwrap().p2pkh@ == second.unwrap().p2pkh@
            && first.unwrap().p2sh_wpkh@ == second.unwrap().p2sh_wpkh@
            && first.unwrap().p2wpkh@ == second.unwrap().p2wpkh@,
{
}

} // verus!
