//! A ledger for bonding-curve priced social tokens: the pricing engine, the
//! per-token balance ledger, the token registry and the settlement of
//! transfers that notify their receiver. Beside it stand the contracts that
//! the ledger works with: a single-currency token, a catalog of non-fungible
//! tokens, a marketplace, an oracle, and the use cases built on them.
//!
//! Nothing here reads the environment of a call or talks to another
//! contract. Every function takes what it needs as plain values, and where
//! something is to be done outside, its result says what.

pub mod account;
pub mod curve;
pub mod enumerable;
pub mod error;
pub mod ft;
pub mod guard;
pub mod keyed;
pub mod ledger;
pub mod marketplace;
pub mod metadata;
pub mod nft;
pub mod oracle;
pub mod ordered;
pub mod registry;
pub mod settlement;
pub mod storage_manager;
pub mod token;
pub mod usecases;
