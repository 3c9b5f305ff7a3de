//! ProtonDB ratings: where they are asked for and how a failure reads.
use vstd::prelude::*;

use crate::text::{decimal, decimal_string, push_str, to_string};

verus! {

/// Why a ProtonDB rating could not be had.
#[derive(Debug)]
pub enum ProtonDBError {
    RequestFailed(String),
    ParseError(String),
    GameNotFound(String),
    FeatureNotEnabled,
}

/// The message of a ProtonDB error.
pub open spec fn protondb_error_text(e: ProtonDBError) -> Seq<char> {
    match e {
        ProtonDBError::RequestFailed(m) => "ProtonDB API request failed: "@ + m@,
        ProtonDBError::ParseError(m) => "Failed to parse ProtonDB response: "@ + m@,
        ProtonDBError::GameNotFound(m) => "Game not found on ProtonDB: "@ + m@,
        ProtonDBError::FeatureNotEnabled => "ProtonDB feature not enabled. Build with --features protondb"@,
    }
}

/// `prefix` followed by `m`.
fn prefixed(prefix: &str, m: &String) -> (r: String)
    ensures
        r@ == prefix@ + m@,
{
    let mut r = to_string(prefix);
    push_str(&mut r, m.as_str());
    r
}

impl ProtonDBError {
    /// The message of the error.
    pub fn message(&self) -> (r: String)
        ensures
            r@ == protondb_error_text(*self),
    {
        match self {
            ProtonDBError::RequestFailed(m) => prefixed("ProtonDB API request failed: ", m),
            ProtonDBError::ParseError(m) => prefixed("Failed to parse ProtonDB response: ", m),
            ProtonDBError::GameNotFound(m) => prefixed("Game not found on ProtonDB: ", m),
            ProtonDBError::FeatureNotEnabled => to_string(
                "ProtonDB feature not enabled. Build with --features protondb",
            ),
        }
    }
}

/// The address of the ProtonDB summary of a Steam app.
pub open spec fn summary_url_of(app_id: u32) -> Seq<char> {
    "https://www.protondb.com/api/v1/reports/summaries/"@ + decimal(app_id as nat) + ".json"@
}

/// The address of the ProtonDB summary of a Steam app.
pub fn summary_url(app_id: u32) -> (r: String)
    ensures
        r@ == summary_url_of(app_id),
{
    let mut r = to_string("https://www.protondb.com/api/v1/reports/summaries/");
    push_str(&mut r, decimal_string(app_id as u64).as_str());
    push_str(&mut r, ".json");
    r
}

/// The error for an app that ProtonDB does not know (the request was not answered with
/// success): the app id in decimal.
pub fn game_not_found(app_id: u32) -> (e: ProtonDBError)
    ensures
        e matches ProtonDBError::GameNotFound(m) && m@ == decimal(app_id as nat),
{
    ProtonDBError::GameNotFound(decimal_string(app_id as u64))
}

} // verus!
