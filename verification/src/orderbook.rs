//! Failures of the upstream order source. The fetch itself is I/O and
//! lives outside the verified core; the core classifies and propagates
//! its outcome through this type.

use vstd::prelude::*;

verus! {

/// Why a fetch from the upstream order book failed. A fetch failure is
/// never retried automatically and never substitutes an empty list.
#[derive(Clone, Copy, Debug, PartialEq, Eq, Structural)]
pub enum OrderBookError {
    /// The upstream payload did not match the expected shape.
    DeserializationError,
    /// The upstream was unreachable or answered with a non-success status.
    FetchError,
}

impl OrderBookError {
    /// The human-readable description of the failure.
    pub fn message(&self) -> (r: &'static str)
        ensures
            *self is DeserializationError ==> r@ == "Error Deserializing orders"@,
            *self is FetchError ==> r@ == "Error Fetching orders from Orderbook"@,
    {
        match self {
            OrderBookError::DeserializationError => "Error Deserializing orders",
            OrderBookError::FetchError => "Error Fetching orders from Orderbook",
        }
    }
}

} // verus!
