//! Wire formats and commitment checks for an aggregate Ed25519 signing ceremony.
//!
//! Several parties, each with a key of its own, sign one transaction together in three
//! rounds: each commits to a nonce, then reveals it, then signs. Between the rounds the
//! parties hand each other short texts. This library holds the values that travel that
//! way, their exact byte layout, and the check that a revealed nonce is the one that
//! was committed to.
//!
//! - [`serialization`]: the five values, their bytes and their base-58 text, with the
//!   proof that what is written is read back.
//! - [`commitment`]: committing to a nonce and opening the commitment.
//! - [`protocol`]: what each round publishes and keeps, and the check before signing.
//! - [`participants`]: the canonical order of the participants' keys.
//! - [`curve`], [`base58`]: what is asked of the `curv` and `bs58` crates, and what is
//!   taken on trust about their answers.
//! - [`ledger`], [`bytes`], [`text`], [`cli`], [`error`]: keys and signatures as bytes,
//!   byte fields, decimal text, the choice of cluster, and a command's errors.

pub mod base58;
pub mod bytes;
pub mod cli;
pub mod commitment;
pub mod curve;
pub mod error;
pub mod ledger;
pub mod participants;
pub mod protocol;
pub mod serialization;
pub mod text;

pub use cli::Network;
pub use error::Error;
pub use serialization::{
    AggMessage1, AggMessage2, FieldError, PartialSignature, SecretAggStepOne, SecretAggStepTwo,
    Serialize,
};
