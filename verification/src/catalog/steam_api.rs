//! The Steam store: where game details and searches are asked for, what a search answer holds,
//! and how a failure reads.
use vstd::prelude::*;
use vstd::utf8::encode_utf8;

use crate::text::{decimal, decimal_string, push_str, to_string};

verus! {

/// Why a Steam request failed.
#[derive(Debug)]
pub enum SteamApiError {
    RequestFailed(String),
    ParseError(String),
    GameNotFound(String),
    FeatureNotEnabled,
}

/// The message of a Steam error.
pub open spec fn steam_error_text(e: SteamApiError) -> Seq<char> {
    match e {
        SteamApiError::RequestFailed(m) => "Steam API request failed: "@ + m@,
        SteamApiError::ParseError(m) => "Failed to parse Steam API response: "@ + m@,
        SteamApiError::GameNotFound(m) => "Game not found on Steam: "@ + m@,
        SteamApiError::FeatureNotEnabled => "Steam feature not enabled. Build with --features steam"@,
    }
}

fn prefixed(prefix: &str, m: &String) -> (r: String)
    ensures
        r@ == prefix@ + m@,
{
    let mut r = to_string(prefix);
    push_str(&mut r, m.as_str());
    r
}

impl SteamApiError {
    /// The message of the error.
    pub fn message(&self) -> (r: String)
        ensures
            r@ == steam_error_text(*self),
    {
        match self {
            SteamApiError::RequestFailed(m) => prefixed("Steam API request failed: ", m),
            SteamApiError::ParseError(m) => prefixed("Failed to parse Steam API response: ", m),
            SteamApiError::GameNotFound(m) => prefixed("Game not found on Steam: ", m),
            SteamApiError::FeatureNotEnabled => to_string(
                "Steam feature not enabled. Build with --features steam",
            ),
        }
    }
}

/// A byte left as it is in a URL: an ASCII letter or digit, `-`, `.`, `_` or `~`.
pub open spec fn url_safe(b: u8) -> bool {
    (48 <= b <= 57) || (65 <= b <= 90) || (97 <= b <= 122) || b == 45 || b == 46 || b == 95 || b
        == 126
}

/// An uppercase hexadecimal digit.
pub open spec fn hex_digit(d: u8) -> char {
    if d < 10 {
        (48 + d) as char
    } else {
        (55 + d) as char
    }
}

/// Percent-encoding: every byte that is not URL-safe is written as `%` and two uppercase
/// hexadecimal digits.
pub open spec fn percent_encoded(bytes: Seq<u8>) -> Seq<char>
    decreases bytes.len(),
{
    if bytes.len() == 0 {
        seq![]
    } else {
        let b = bytes.last();
        percent_encoded(bytes.drop_last()) + if url_safe(b) {
            seq![b as char]
        } else {
            seq!['%', hex_digit(b / 16), hex_digit(b % 16)]
        }
    }
}

/// `urlencoding::encode`: each byte of the UTF-8 encoding of `s` that is not an ASCII letter
/// or digit, `-`, `.`, `_` or `~` is written as `%` and two uppercase hexadecimal digits, the
/// others are kept.
#[verifier::external_body]
fn url_encode(s: &str) -> (r: String)
    ensures
        r@ == percent_encoded(encode_utf8(s@)),
{
    urlencoding::encode(s).into_owned()
}

/// The address of a Steam store search for `query`.
pub open spec fn search_url_of(query: Seq<char>) -> Seq<char> {
    "https://store.steampowered.com/api/storesearch/?term="@ + percent_encoded(encode_utf8(query))
        + "&l=english&cc=US"@
}

/// The address of a Steam store search for `query`.
pub fn search_url(query: &str) -> (r: String)
    ensures
        r@ == search_url_of(query@),
{
    let mut r = to_string("https://store.steampowered.com/api/storesearch/?term=");
    push_str(&mut r, url_encode(query).as_str());
    push_str(&mut r, "&l=english&cc=US");
    r
}

/// The address of the Steam details of an app.
pub open spec fn details_url_of(app_id: u32) -> Seq<char> {
    "https://store.steampowered.com/api/appdetails?appids="@ + decimal(app_id as nat)
        + "&l=english"@
}

/// The address of the Steam details of an app.
pub fn details_url(app_id: u32) -> (r: String)
    ensures
        r@ == details_url_of(app_id),
{
    let mut r = to_string("https://store.steampowered.com/api/appdetails?appids=");
    push_str(&mut r, decimal_string(app_id as u64).as_str());
    push_str(&mut r, "&l=english");
    r
}

/// The app ids of a search answer: the items that carry an unsigned id, in order, each
/// converted to `u32` with `as` (keeping its low 32 bits).
pub open spec fn app_ids_of(ids: Seq<Option<u64>>) -> Seq<u32>
    decreases ids.len(),
{
    if ids.len() == 0 {
        seq![]
    } else {
        match ids.last() {
            Some(id) => app_ids_of(ids.drop_last()).push(id as u32),
            None => app_ids_of(ids.drop_last()),
        }
    }
}

/// The app ids of a search answer, from the id of each item (`None` where an item has no
/// unsigned id).
pub fn app_ids(ids: &Vec<Option<u64>>) -> (r: Vec<u32>)
    ensures
        r@ == app_ids_of(ids@),
{
    let mut r: Vec<u32> = Vec::new();
    let mut i: usize = 0;
    while i < ids.len()
        invariant
            i <= ids@.len(),
            r@ == app_ids_of(ids@.take(i as int)),
        decreases ids@.len() - i,
    {
        assert(ids@.take(i + 1).drop_last() =~= ids@.take(i as int));
        assert(ids@.take(i + 1).last() == ids@[i as int]);
        match ids[i] {
            Some(id) => r.push(id as u32),
            None => {},
        }
        i += 1;
    }
    assert(ids@.take(ids@.len() as int) =~= ids@);
    r
}

/// The error for a details answer without data for the app: the app id in decimal.
pub fn game_not_found(app_id: u32) -> (e: SteamApiError)
    ensures
        e matches SteamApiError::GameNotFound(m) && m@ == decimal(app_id as nat),
{
    SteamApiError::GameNotFound(decimal_string(app_id as u64))
}

/// What serde_json reads from a store-search reply: the parse error's message when the text
/// is not JSON, `Ok(None)` when it has no "items" array, else each item's "id" as a `u64`
/// where it is one.
pub uninterp spec fn search_reply_of(text: Seq<char>) -> Result<Option<Seq<Option<u64>>>, Seq<char>>;

/// `serde_json::from_str` into a `serde_json::Value`, then its "items" array and each item's
/// "id" as a `u64`; the parse error's message (its `Display`) when the text is not JSON. The
/// result is named `search_reply_of` of the text.
#[verifier::external_body]
fn read_search_reply(text: &str) -> (r: Result<Option<Vec<Option<u64>>>, String>)
    ensures
        match r {
            Ok(Some(v)) => search_reply_of(text@) == Ok::<Option<Seq<Option<u64>>>, Seq<char>>(
                Some(v@),
            ),
            Ok(None) => search_reply_of(text@) == Ok::<Option<Seq<Option<u64>>>, Seq<char>>(
                None,
            ),
            Err(m) => search_reply_of(text@) == Err::<Option<Seq<Option<u64>>>, Seq<char>>(m@),
        },
{
    match serde_json::from_str::<serde_json::Value>(text) {
        Err(e) => Err(e.to_string()),
        Ok(json) => Ok(json.get("items").and_then(|v| v.as_array()).map(
            |items| items.iter().map(|item| item.get("id").and_then(|id| id.as_u64())).collect(),
        )),
    }
}

/// The app ids of a store-search reply: a parse error with serde_json's message when the text
/// is not JSON, one with "No items in response" when it has no "items" array, else the ids of
/// its items (see `app_ids_of`).
pub fn search_result(text: &str) -> (r: Result<Vec<u32>, SteamApiError>)
    ensures
        match search_reply_of(text@) {
            Err(msg) => r matches Err(SteamApiError::ParseError(m)) && m@ == msg,
            Ok(None) => r matches Err(SteamApiError::ParseError(m)) && m@
                == "No items in response"@,
            Ok(Some(ids)) => r matches Ok(v) && v@ == app_ids_of(ids),
        },
{
    match read_search_reply(text) {
        Err(e) => Err(SteamApiError::ParseError(e)),
        Ok(None) => Err(SteamApiError::ParseError(to_string("No items in response"))),
        Ok(Some(ids)) => Ok(app_ids(&ids)),
    }
}

/// serde_json's JSON value, carried through unread.
#[verifier::external_type_specification]
#[verifier::external_body]
pub struct ExJsonValue(serde_json::Value);

/// What serde_json reads from a store-details reply for `app_id`: the parse error's message when
/// the text is not JSON, else whether the value has a member named by the app id in decimal
/// whose "data" member exists.
pub uninterp spec fn details_reply_of(text: Seq<char>, app_id: u32) -> Result<bool, Seq<char>>;

/// `serde_json::from_str` into a `serde_json::Value`, then `get` of the app id in decimal and
/// `get` of "data" on that; a copy of the "data" value where both are present; the parse
/// error's message (its `Display`) when the text is not JSON. The outcome is named
/// `details_reply_of` of the text and the app id; what the "data" value holds is not stated.
#[verifier::external_body]
fn read_details_reply(text: &str, app_id: u32) -> (r: Result<Option<serde_json::Value>, String>)
    ensures
        match r {
            Ok(Some(_)) => details_reply_of(text@, app_id) == Ok::<bool, Seq<char>>(true),
            Ok(None) => details_reply_of(text@, app_id) == Ok::<bool, Seq<char>>(false),
            Err(m) => details_reply_of(text@, app_id) == Err::<bool, Seq<char>>(m@),
        },
{
    match serde_json::from_str::<serde_json::Value>(text) {
        Err(e) => Err(e.to_string()),
        Ok(json) => Ok(json.get(app_id.to_string()).and_then(|v| v.get("data")).cloned()),
    }
}

/// The "data" value of a store-details reply for `app_id`: a parse error with serde_json's
/// message when the text is not JSON, "game not found" with the app id in decimal when the
/// app's entry or its "data" is missing, else that value.
pub fn details_result(text: &str, app_id: u32) -> (r: Result<serde_json::Value, SteamApiError>)
    ensures
        match details_reply_of(text@, app_id) {
            Err(msg) => r matches Err(SteamApiError::ParseError(m)) && m@ == msg,
            Ok(false) => r matches Err(SteamApiError::GameNotFound(m)) && m@ == decimal(
                app_id as nat,
            ),
            Ok(true) => r is Ok,
        },
{
    match read_details_reply(text, app_id) {
        Err(e) => Err(SteamApiError::ParseError(e)),
        Ok(None) => Err(game_not_found(app_id)),
        Ok(Some(data)) => Ok(data),
    }
}

} // verus!
