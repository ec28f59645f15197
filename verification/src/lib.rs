//! Bulk derivation of candidate Bitcoin addresses from wordlist-style
//! mnemonic phrases.
//!
//! A corpus of candidate phrases is filtered line by line ([`validate`]),
//! grouped into bounded-size chunks ([`chunker`]), and each chunk is turned
//! into one block of output records ([`record`]): for a phrase that passes
//! the BIP-39 checksum, three receive addresses (legacy, wrapped-segwit and
//! native-segwit, from the BIP-44/49/84 paths); for one that does not, an
//! explicit error record.  Reading and writing files is left to the caller.

pub mod address;
pub mod chunker;
pub mod derive;
pub mod mnemonic;
pub mod record;
pub mod validate;
