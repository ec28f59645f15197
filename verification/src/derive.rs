//! Hierarchical deterministic key derivation: child indices, the three
//! fixed derivation paths, and the walk from a root seed to a leaf public
//! key.
//!
//! A child number is carried as its raw `u32` encoding: hardened indices
//! occupy the upper half of the range, at the standard offset of `2^31`
//! above the plain index.  Each derivation path has exactly five levels —
//! purpose, coin type and account hardened, change and address index not —
//! with purpose one of 44, 49 or 84.  The elliptic-curve work of the walk
//! itself is done by the `bitcoin` crate behind a trusted wrapper; its
//! result is a function of the seed bytes and the raw child numbers alone,
//! named by `leaf_pubkey`.

use vstd::prelude::*;

verus! {

/// The standard hardened-index offset: hardened child `i` is encoded as
/// the raw child number `i + 2^31`.
pub const HARDENED_OFFSET: u32 = 0x8000_0000;

/// One level of a derivation path, as its raw `u32` child number.
#[derive(Clone, Copy, PartialEq, Eq, Structural, Debug)]
pub struct ChildIndex {
    raw: u32,
}

impl ChildIndex {
    /// The raw child number this level encodes.
    pub closed spec fn spec_raw(self) -> u32 {
        self.raw
    }

    /// Whether this level derives a hardened child.
    pub open spec fn spec_hardened(self) -> bool {
        self.spec_raw() >= HARDENED_OFFSET
    }

    /// The hardened child at index `index`; rejects an out-of-range index
    /// (an internal invariant violation for this pipeline's fixed paths).
    pub fn hardened(index: u32) -> (r: Option<ChildIndex>)
        ensures
            r is Some <==> index < HARDENED_OFFSET,
            r is Some ==> r.unwrap().spec_raw() == index + HARDENED_OFFSET
                && r.unwrap().spec_hardened(),
    {
        if index < HARDENED_OFFSET {
            Some(ChildIndex { raw: index + HARDENED_OFFSET })
        } else {
            None
        }
    }

    /// The non-hardened child at index `index`; rejects an out-of-range
    /// index.
    pub fn normal(index: u32) -> (r: Option<ChildIndex>)
        ensures
            r is Some <==> index < HARDENED_OFFSET,
            r is Some ==> r.unwrap().spec_raw() == index && !r.unwrap().spec_hardened(),
    {
        if index < HARDENED_OFFSET {
            Some(ChildIndex { raw: index })
        } else {
            None
        }
    }

    /// The child at a raw child number: the non-hardened primitive over
    /// the whole `u32` range, hardened exactly above the offset.
    pub fn from_raw(raw: u32) -> (r: ChildIndex)
        ensures
            r.spec_raw() == raw,
    {
        ChildIndex { raw }
    }

    /// The raw child number.
    pub fn raw(&self) -> (r: u32)
        ensures
            r == self.spec_raw(),
    {
        self.raw
    }
}

/// Hardened index encoding: the hardened child at index `i` is the very
/// same child number as the raw index `i + 2^31` handed to the
/// non-hardened primitive, so every derivation from the two agrees.
pub proof fn lemma_hardened_index_encoding(i: u32, hardened: ChildIndex, raw: ChildIndex)
    requires
        i < HARDENED_OFFSET,
        hardened.spec_raw() == i + HARDENED_OFFSET,
        raw.spec_raw() == i + HARDENED_OFFSET,
    ensures
        hardened == raw,
{
}

/// The raw child numbers of the five-level path
/// `purpose' / 0' / 0' / 0 / 0`.
pub open spec fn path_raws(purpose: u32) -> Seq<u32> {
    seq![(purpose + HARDENED_OFFSET) as u32, HARDENED_OFFSET, HARDENED_OFFSET, 0u32, 0u32]
}

/// A fixed five-level derivation path: purpose, coin type and account
/// hardened, change and address index not.
pub struct DerivationPath {
    steps: Vec<ChildIndex>,
}

impl DerivationPath {
    /// The raw child numbers of the path, in derivation order.
    pub closed spec fn spec_raws(self) -> Seq<u32> {
        Seq::new(self.steps@.len(), |i: int| self.steps@[i].spec_raw())
    }

    /// The path invariant: exactly five levels, the first three hardened,
    /// the last two not.
    pub open spec fn wf(self) -> bool {
        &&& self.spec_raws().len() == 5
        &&& forall|i: int| 0 <= i < 3 ==> self.spec_raws()[i] >= HARDENED_OFFSET
        &&& forall|i: int| 3 <= i < 5 ==> self.spec_raws()[i] < HARDENED_OFFSET
    }

    /// The account path `purpose' / 0' / 0' / 0 / 0` for one of the
    /// derivation-path variants.
    pub fn for_purpose(purpose: u32) -> (p: DerivationPath)
        requires
            purpose < HARDENED_OFFSET,
        ensures
            p.spec_raws() == path_raws(purpose),
            p.wf(),
    {
        let purpose_level = match ChildIndex::hardened(purpose) {
            Some(c) => c,
            None => vstd::pervasive::unreached(),
        };
        let hardened_zero = match ChildIndex::hardened(0) {
            Some(c) => c,
            None => vstd::pervasive::unreached(),
        };
        let normal_zero = match ChildIndex::normal(0) {
            Some(c) => c,
            None => vstd::pervasive::unreached(),
        };
        let mut steps: Vec<ChildIndex> = Vec::new();
        steps.push(purpose_level);
        steps.push(hardened_zero);
        steps.push(hardened_zero);
        steps.push(normal_zero);
        steps.push(normal_zero);
        let p = DerivationPath { steps };
        proof {
            assert(p.spec_raws() =~= path_raws(purpose));
        }
        p
    }

    /// The raw child numbers, for handing to the derivation engine.
    pub fn raw_steps(&self) -> (r: Vec<u32>)
        ensures
            r@ == self.spec_raws(),
    {
        let mut r: Vec<u32> = Vec::new();
        let mut i: usize = 0;
        while i < self.steps.len()
            invariant
                i <= self.steps.len(),
                r@ =~= self.spec_raws().take(i as int),
            decreases self.steps.len() - i,
        {
            r.push(self.steps[i].raw());
            i = i + 1;
        }
        proof {
            assert(self.spec_raws().take(self.steps@.len() as int) =~= self.spec_raws());
        }
        r
    }
}

/// The compressed SEC1 encoding of the public key at the end of a BIP-32
/// walk over the given raw child numbers, starting from the master key of
/// the given seed on the main network.  Pages of elliptic-curve and HMAC
/// arithmetic decide it; it is a function of seed and path alone, so it is
/// left uninterpreted and tied to the `bitcoin` crate by
/// `derive_leaf_pubkey`.
pub uninterp spec fn leaf_pubkey(seed: Seq<u8>, raws: Seq<u32>) -> Seq<u8>;

/// Whether a byte string is accepted back by
/// `bitcoin::CompressedPublicKey::from_slice`; a function of the bytes
/// alone.
pub uninterp spec fn valid_pubkey(pk: Seq<u8>) -> bool;

/// Whether the BIP-32 walk over the given raw child numbers from the
/// given seed's master key succeeds; like `leaf_pubkey`, a function of
/// seed and path alone, tied to the `bitcoin` crate by
/// `derive_leaf_pubkey`.
pub uninterp spec fn derive_ok(seed: Seq<u8>, raws: Seq<u32>) -> bool;

/// Relies on `bitcoin::bip32::Xpriv::new_master` (master key from a seed,
/// BIP 32), `Xpriv::derive_priv` (one child-key derivation per raw child
/// number, in order), `Xpub::from_priv` and
/// `CompressedPublicKey::to_bytes` (the 33-byte compressed SEC1 encoding,
/// which `CompressedPublicKey::from_slice` accepts back).  All are
/// deterministic in seed and path, so success is too (`derive_ok`);
/// main-network settings are fixed here.  `None` comes from the crate
/// rejecting the master key (seed HMAC out of the curve's range) or a
/// path beyond the maximum depth; an out-of-range child key inside the
/// walk would abort in the crate itself instead of returning.  All three
/// are cryptographically unreachable for real seeds and five-level paths.
#[verifier::external_body]
pub(crate) fn derive_leaf_pubkey(seed: &Vec<u8>, raws: &Vec<u32>) -> (r: Option<Vec<u8>>)
    ensures
        r is Some <==> derive_ok(seed@, raws@),
        r is Some ==> r.unwrap()@ == leaf_pubkey(seed@, raws@) && r.unwrap()@.len() == 33
            && valid_pubkey(r.unwrap()@),
{
    let secp = bitcoin::secp256k1::Secp256k1::new();
    let master = match bitcoin::bip32::Xpriv::new_master(bitcoin::Network::Bitcoin, seed.as_slice())
        {
        Ok(k) => k,
        Err(_) => return None,
    };
    let mut steps: Vec<bitcoin::bip32::ChildNumber> = Vec::new();
    for raw in raws.iter() {
        steps.push(bitcoin::bip32::ChildNumber::from(*raw));
    }
    let leaf = match master.derive_priv(&secp, &steps) {
        Ok(k) => k,
        Err(_) => return None,
    };
    Some(bitcoin::bip32::Xpub::from_priv(&secp, &leaf).to_pub().to_bytes().to_vec())
}

} // verus!
