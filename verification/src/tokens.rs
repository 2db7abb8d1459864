//! Cooperative cancellation handles and fresh pod identifiers. The
//! handles are shared-state objects of an outside crate: this crate
//! tracks which handles exist, while what a signal does to a running
//! task is beyond what these contracts state.

use vstd::prelude::*;

verus! {

#[verifier::external_type_specification]
#[verifier::external_body]
pub struct ExCancellationToken(tokio_util::sync::CancellationToken);

/// Relies on `tokio_util::sync::CancellationToken::new`: a fresh,
/// independent handle in the non-cancelled state.
#[verifier::external_body]
pub fn token_new() -> tokio_util::sync::CancellationToken {
    tokio_util::sync::CancellationToken::new()
}

/// Relies on `CancellationToken::clone`: the clone shares the handle's
/// cancellation state, so signalling either signals both.
#[verifier::external_body]
pub fn token_clone(
    t: &tokio_util::sync::CancellationToken,
) -> tokio_util::sync::CancellationToken {
    t.clone()
}

/// Relies on `CancellationToken::cancel`: signals the handle and its
/// clones; idempotent, never an error.
#[verifier::external_body]
pub fn token_cancel(t: &tokio_util::sync::CancellationToken) {
    t.cancel()
}

} // verus!
