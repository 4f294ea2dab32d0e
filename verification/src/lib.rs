//! Verified core of the Ruby bindings for the Lightspark crypto library:
//! network selection, the errors handed back to Ruby, mnemonic phrase
//! handling and the records that the bindings return.

pub mod decimal;
pub mod error;
pub mod network;
pub mod phrase;
pub mod records;
