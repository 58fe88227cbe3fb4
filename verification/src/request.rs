//! The subscription request one session sends, exactly once, at its start.

use vstd::prelude::*;

verus! {

/// Staleness tolerance attached to the subscription: which confirmation
/// level an update must have reached before the server delivers it.
#[derive(Clone, Copy, PartialEq, Eq, Structural, Debug)]
pub enum Commitment {
    Processed,
    Confirmed,
    Finalized,
}

/// What one session subscribes to. The request always names one event
/// category — slot updates, keyed by a client-chosen label — so it is never
/// the meaningless empty subscription.
#[derive(PartialEq, Eq, Debug)]
pub struct SubscriptionRequest {
    /// Client-chosen label the slot filter is keyed by.
    pub label: String,
    /// Deliver only updates that reached the requested commitment level.
    pub filter_by_commitment: bool,
    /// Also deliver intermediate (inter-slot) updates.
    pub interslot_updates: bool,
    /// The commitment level of the subscription.
    pub commitment: Commitment,
}

/// Mathematical image of a [`SubscriptionRequest`].
#[verifier::ext_equal]
pub struct RequestModel {
    pub label: Seq<char>,
    pub filter_by_commitment: bool,
    pub interslot_updates: bool,
    pub commitment: Commitment,
}

pub open spec fn request_model(r: SubscriptionRequest) -> RequestModel {
    RequestModel {
        label: r.label@,
        filter_by_commitment: r.filter_by_commitment,
        interslot_updates: r.interslot_updates,
        commitment: r.commitment,
    }
}

/// The one request this client ever sends: slot updates only, filtered by
/// commitment, no inter-slot updates, at the confirmed level.
pub open spec fn spec_subscription_request() -> RequestModel {
    RequestModel {
        label: "client"@,
        filter_by_commitment: true,
        interslot_updates: false,
        commitment: Commitment::Confirmed,
    }
}

/// Build the full subscription request. Each session constructs it afresh;
/// it never depends on what an earlier session did.
pub fn subscription_request() -> (r: SubscriptionRequest)
    ensures
        request_model(r) == spec_subscription_request(),
{
    let r = SubscriptionRequest {
        label: "client".to_string(),
        filter_by_commitment: true,
        interslot_updates: false,
        commitment: Commitment::Confirmed,
    };
    proof {
        assert(request_model(r) =~= spec_subscription_request());
    }
    r
}

} // verus!
