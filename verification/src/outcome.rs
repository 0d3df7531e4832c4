//! The per-key redemption outcome and its mathematical shadow.

use vstd::prelude::*;

verus! {

/// What one submitted candidate key came to: redeemed, rejected by the
/// remote API, or lost to a failure of the batched call itself.
#[derive(Debug, Clone, PartialEq, Eq)]
pub enum RedeemOutcome {
    /// The remote API redeemed the key; carries the reported status.
    Success(String),
    /// The remote API rejected the key; carries the reported message.
    Failure(String),
    /// The batched call failed as a whole; carries the transport error text.
    TransportError(String),
}

/// The view of a [`RedeemOutcome`], its detail string as a character
/// sequence.
pub enum OutcomeView {
    Success(Seq<char>),
    Failure(Seq<char>),
    TransportError(Seq<char>),
}

impl View for RedeemOutcome {
    type V = OutcomeView;

    open spec fn view(&self) -> OutcomeView {
        match self {
            RedeemOutcome::Success(detail) => OutcomeView::Success(detail@),
            RedeemOutcome::Failure(detail) => OutcomeView::Failure(detail@),
            RedeemOutcome::TransportError(detail) => OutcomeView::TransportError(detail@),
        }
    }
}

impl RedeemOutcome {
    /// True when the key was redeemed.
    pub fn is_success(&self) -> (r: bool)
        ensures
            r == (self@ is Success),
    {
        match self {
            RedeemOutcome::Success(_) => true,
            _ => false,
        }
    }

    /// The detail carried by the outcome: the reported status, the reported
    /// message, or the transport error text.
    pub fn detail(&self) -> (d: &String)
        ensures
            self@ is Success ==> d@ == self@->Success_0,
            self@ is Failure ==> d@ == self@->Failure_0,
            self@ is TransportError ==> d@ == self@->TransportError_0,
    {
        match self {
            RedeemOutcome::Success(detail) => detail,
            RedeemOutcome::Failure(detail) => detail,
            RedeemOutcome::TransportError(detail) => detail,
        }
    }
}

} // verus!
