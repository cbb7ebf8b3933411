//! A verified model of a small on-ledger counter program.
//!
//! The library keeps one shared 8-bit counter record and mediates minting and
//! transfer of an associated fungible token.  Program-owned records (the Mint
//! and the Vault) sit at addresses derived deterministically from fixed labels
//! and the program identity; the program proves authority over them by
//! re-deriving those addresses instead of holding a private key.

pub mod address;
pub mod token;
pub mod state;
