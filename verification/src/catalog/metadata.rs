//! A catalog game with the metadata that online sources may add.
use vstd::prelude::*;

use crate::catalog::Game;
use crate::text::{str_views, string_views, strings_of};

verus! {

/// A catalog game and what is known about it beyond the catalog.
#[derive(Clone, Debug)]
pub struct GameMetadata {
    pub base: Game,
    pub release_date: Option<String>,
    pub engine: Option<String>,
    /// The ProtonDB tier.
    pub protondb_rating: Option<String>,
    pub steam_deck_verified: bool,
    pub steam_app_id: Option<u32>,
    pub known_issues: Vec<String>,
    pub workarounds: Vec<String>,
}

impl GameMetadata {
    /// The metadata of a catalog game before any source was asked: its known issues and
    /// nothing else.
    pub fn from_game(game: &Game) -> (m: Self)
        ensures
            m.base == *game,
            m.release_date is None,
            m.engine is None,
            m.protondb_rating is None,
            !m.steam_deck_verified,
            m.steam_app_id is None,
            string_views(m.known_issues@) == str_views(game.issues@),
            m.workarounds@.len() == 0,
    {
        GameMetadata {
            base: *game,
            release_date: None,
            engine: None,
            protondb_rating: None,
            steam_deck_verified: false,
            steam_app_id: None,
            known_issues: strings_of(game.issues),
            workarounds: Vec::new(),
        }
    }
}

} // verus!
