//! A non-fungible-token ledger, verified with Verus.
//!
//! The ledger assigns unique token ids to owners, keeps every owner's balance
//! in lockstep with the tokens it holds, and mediates who may move a token:
//! its owner, the address approved for that one token, or an operator the
//! owner has approved for all of its tokens.
//!
//! [`model`] holds the mathematical ledger and the proof that every operation
//! keeps it consistent; [`ledger`] holds the executable ledger, each operation
//! of which is proved to perform exactly the step the model describes.

pub mod address;
pub mod assoc;
pub mod error;
pub mod event;
pub mod laws;
pub mod ledger;
pub mod model;
pub mod nft;
pub mod receiver;
pub mod tally;
pub mod token_id;
