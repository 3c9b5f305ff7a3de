//! Live data sources: the Steam account link and the community FPS database.
use vstd::prelude::*;

use crate::text::{push_str, to_string};

verus! {

/// The link to a Steam account; it is enabled once a user is set.
pub struct SteamTelemetry {
    pub enabled: bool,
    pub user_id: Option<String>,
}

/// Why live data could not be had.
#[derive(Debug)]
pub enum TelemetryError {
    NotEnabled,
    MissingCredentials,
    FeatureNotEnabled,
    RequestFailed(String),
    ParseError(String),
}

/// The message of a telemetry error.
pub open spec fn telemetry_error_text(e: TelemetryError) -> Seq<char> {
    match e {
        TelemetryError::NotEnabled => "Telemetry not enabled"@,
        TelemetryError::MissingCredentials => "Missing credentials"@,
        TelemetryError::FeatureNotEnabled => "Feature not enabled"@,
        TelemetryError::RequestFailed(m) => "Request failed: "@ + m@,
        TelemetryError::ParseError(m) => "Parse error: "@ + m@,
    }
}

impl TelemetryError {
    /// The message of the error.
    pub fn message(&self) -> (r: String)
        ensures
            r@ == telemetry_error_text(*self),
    {
        match self {
            TelemetryError::NotEnabled => to_string("Telemetry not enabled"),
            TelemetryError::MissingCredentials => to_string("Missing credentials"),
            TelemetryError::FeatureNotEnabled => to_string("Feature not enabled"),
            TelemetryError::RequestFailed(m) => {
                let mut r = to_string("Request failed: ");
                push_str(&mut r, m.as_str());
                r
            },
            TelemetryError::ParseError(m) => {
                let mut r = to_string("Parse error: ");
                push_str(&mut r, m.as_str());
                r
            },
        }
    }
}

impl SteamTelemetry {
    /// A link without a user, disabled.
    pub fn new() -> (t: Self)
        ensures
            !t.enabled,
            t.user_id is None,
    {
        SteamTelemetry { enabled: false, user_id: None }
    }

    /// The link with a user, enabled.
    pub fn with_user(self, user_id: String) -> (t: Self)
        ensures
            t.enabled,
            t.user_id == Some(user_id),
    {
        SteamTelemetry { enabled: true, user_id: Some(user_id) }
    }

    /// Whose library can be read: refused when the link is disabled, or when no user is set.
    pub fn library_user(&self) -> (r: Result<&String, TelemetryError>)
        ensures
            match r {
                Ok(u) => self.enabled && self.user_id == Some(*u),
                Err(e) => if !self.enabled {
                    e is NotEnabled
                } else {
                    self.user_id is None && e is MissingCredentials
                },
            },
    {
        if !self.enabled {
            return Err(TelemetryError::NotEnabled);
        }
        match &self.user_id {
            Some(u) => Ok(u),
            None => Err(TelemetryError::MissingCredentials),
        }
    }

    /// Whether playtime data can be read: refused when the link is disabled.
    pub fn check_enabled(&self) -> (r: Result<(), TelemetryError>)
        ensures
            r is Ok <==> self.enabled,
            r matches Err(e) ==> e is NotEnabled,
    {
        if self.enabled {
            Ok(())
        } else {
            Err(TelemetryError::NotEnabled)
        }
    }
}

/// The community FPS database; it is enabled once an endpoint is set.
pub struct CommunityDatabase {
    pub enabled: bool,
    pub api_endpoint: Option<String>,
}

impl CommunityDatabase {
    /// A database without an endpoint, disabled.
    pub fn new() -> (d: Self)
        ensures
            !d.enabled,
            d.api_endpoint is None,
    {
        CommunityDatabase { enabled: false, api_endpoint: None }
    }

    /// The database with an endpoint, enabled.
    pub fn with_endpoint(self, endpoint: String) -> (d: Self)
        ensures
            d.enabled,
            d.api_endpoint == Some(endpoint),
    {
        CommunityDatabase { enabled: true, api_endpoint: Some(endpoint) }
    }

    /// Whether reports can be sent and read: refused when the database is disabled.
    pub fn check_enabled(&self) -> (r: Result<(), TelemetryError>)
        ensures
            r is Ok <==> self.enabled,
            r matches Err(e) ==> e is NotEnabled,
    {
        if self.enabled {
            Ok(())
        } else {
            Err(TelemetryError::NotEnabled)
        }
    }
}

} // verus!
