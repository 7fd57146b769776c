//! Authentication description for the speech service connection.
//!
//! The transport collaborator consumes this value when it opens the socket;
//! the protocol layer itself only carries it.

use vstd::prelude::*;

verus! {

/// How to authenticate with the speech service.
#[derive(Clone, Debug)]
pub enum Auth {
    /// Authenticate against the cloud service using a `region` and a
    /// `subscription` key.
    Subscription { region: String, subscription: String },
    /// Authenticate against a self-hosted or container endpoint, for example
    /// `ws://localhost:5000` or `wss://my-gateway.example.com:5000`.
    Host { host: String },
}

impl Auth {
    /// Creates a subscription-key authentication from a region and a key.
    pub fn from_subscription(region: String, subscription: String) -> (r: Self)
        ensures
            r == (Auth::Subscription { region, subscription }),
    {
        Auth::Subscription { region, subscription }
    }

    /// Creates a host authentication for a self-hosted endpoint.
    pub fn from_host(host: String) -> (r: Self)
        ensures
            r == (Auth::Host { host }),
    {
        Auth::Host { host }
    }

    /// The region and subscription key, when this is a subscription
    /// authentication.
    pub fn subscription_region(&self) -> (r: Option<(&str, &str)>)
        ensures
            match *self {
                Auth::Subscription { ref region, ref subscription } => {
                    r matches Some(t) && t.0@ == region@ && t.1@ == subscription@
                },
                Auth::Host { .. } => r is None,
            },
    {
        match self {
            Auth::Subscription { region, subscription } => {
                Some((region.as_str(), subscription.as_str()))
            },
            Auth::Host { .. } => None,
        }
    }
}

} // verus!
