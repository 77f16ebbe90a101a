//! Building, checking, signing and finalising transactions that spend
//! transparent coins to transparent and shielded recipients, as partially
//! constructed transaction records that independent parties can pass around.
pub mod address;
pub mod boundary;
pub mod construct;
pub mod dto;
pub mod error;
pub mod fee;
pub mod presign;
pub mod proposal;
pub mod types;

pub use construct::propose_transaction;
pub use dto::{
    append_signature, combine, finalize_and_extract, get_sighash, parse_pczt, prove_transaction,
    serialize_pczt, verify_before_signing, ProvingContext,
};
pub use fee::{calculate_fee, ZIP317_GRACE_ACTIONS, ZIP317_MARGINAL_FEE};
pub use presign::TxOutput;

use vstd::prelude::*;

verus! {

} // verus!
