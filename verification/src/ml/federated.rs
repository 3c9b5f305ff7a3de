//! The federated-learning client: whether it takes part, and where its updates go.
use vstd::prelude::*;

use crate::ml::MLError;
use crate::text::to_string;

verus! {

/// A federated-learning client; it takes part once it has a server.
pub struct FederatedLearningClient {
    pub enabled: bool,
    pub server_url: Option<String>,
}

impl FederatedLearningClient {
    /// A client that does not take part.
    pub fn new() -> (c: Self)
        ensures
            !c.enabled,
            c.server_url is None,
    {
        FederatedLearningClient { enabled: false, server_url: None }
    }

    /// The client with a server, taking part.
    pub fn with_server(self, server_url: String) -> (c: Self)
        ensures
            c.enabled,
            c.server_url == Some(server_url),
    {
        FederatedLearningClient { enabled: true, server_url: Some(server_url) }
    }

    /// Whether the client takes part.
    pub fn is_enabled(&self) -> (b: bool)
        ensures
            b == self.enabled,
    {
        self.enabled
    }

    /// The server that model updates are exchanged with: refused with `FeatureNotEnabled`
    /// when the client does not take part, and as a failed inference when it has no server.
    pub fn update_server(&self) -> (r: Result<&String, MLError>)
        ensures
            match r {
                Ok(s) => self.enabled && self.server_url == Some(*s),
                Err(e) => if !self.enabled {
                    e is FeatureNotEnabled
                } else {
                    self.server_url is None && (e matches MLError::InferenceFailed(m) && m@
                        == "No server URL configured"@)
                },
            },
    {
        if !self.enabled {
            return Err(MLError::FeatureNotEnabled);
        }
        match &self.server_url {
            Some(s) => Ok(s),
            None => Err(MLError::InferenceFailed(to_string("No server URL configured"))),
        }
    }
}

impl Default for FederatedLearningClient {
    /// A client that does not take part.
    fn default() -> (c: Self)
        ensures
            !c.enabled,
            c.server_url is None,
    {
        Self::new()
    }
}

} // verus!
