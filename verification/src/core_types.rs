//! The identifiers that records carry.

use vstd::prelude::*;

verus! {

/// Identifies a client, and so the client's account.
pub type ClientId = u16;

/// Identifies a transaction.
pub type TxId = u32;

} // verus!
