//! Error representation: Cryptoki return codes as data.

use vstd::prelude::*;

verus! {

/// An error surfaced by the token core.  `RvError` carries a Cryptoki
/// return code (one of the `CKR_*` constants); `NotFound` reports a
/// lookup that produced no entry (an attribute id or a unique id).
#[derive(Debug, Clone, Copy, PartialEq, Eq, Structural)]
pub enum KError {
    RvError(u64),
    NotFound,
}

pub type KResult<T> = Result<T, KError>;

} // verus!
