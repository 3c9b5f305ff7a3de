//! Updating a stored catalog from online sources: records, conversions, and the decisions of
//! an update run (the requests themselves are made by the caller).
use vstd::prelude::*;
use vstd::std_specs::convert::FromSpecImpl;

use crate::catalog::{catalog, Game, LinuxSupport, Tier};
use crate::text::{
    chars_equal_str, chars_of, opt_view, push_str, str_views, string_views, strings_of, to_string,
};

verus! {

/// A requirement tier as it is stored.
#[derive(Clone, Copy, Debug)]
pub struct SerializableTier {
    pub cpu: u16,
    pub gpu: u16,
    pub ram_gb: u16,
    pub vram_gb: u16,
}

/// A tier as it is stored: the same four numbers.
pub open spec fn stored_tier(tier: Tier) -> SerializableTier {
    SerializableTier { cpu: tier.cpu, gpu: tier.gpu, ram_gb: tier.ram_gb, vram_gb: tier.vram_gb }
}

impl From<Tier> for SerializableTier {
    fn from(tier: Tier) -> (r: Self) {
        SerializableTier { cpu: tier.cpu, gpu: tier.gpu, ram_gb: tier.ram_gb, vram_gb: tier.vram_gb }
    }
}

impl FromSpecImpl<Tier> for SerializableTier {
    open spec fn obeys_from_spec() -> bool {
        true
    }

    open spec fn from_spec(tier: Tier) -> Self {
        stored_tier(tier)
    }
}

impl From<SerializableTier> for Tier {
    fn from(tier: SerializableTier) -> (r: Self) {
        Tier { cpu: tier.cpu, gpu: tier.gpu, ram_gb: tier.ram_gb, vram_gb: tier.vram_gb }
    }
}

impl FromSpecImpl<SerializableTier> for Tier {
    open spec fn obeys_from_spec() -> bool {
        true
    }

    open spec fn from_spec(tier: SerializableTier) -> Self {
        loaded_tier(tier)
    }
}

/// A stored tier as a catalog tier: the same four numbers.
pub open spec fn loaded_tier(tier: SerializableTier) -> Tier {
    Tier { cpu: tier.cpu, gpu: tier.gpu, ram_gb: tier.ram_gb, vram_gb: tier.vram_gb }
}

/// Storing a tier and reading it back gives the same tier, and the other way round.
pub proof fn law_tier_round_trip(t: Tier, s: SerializableTier)
    ensures
        loaded_tier(stored_tier(t)) == t,
        stored_tier(loaded_tier(s)) == s,
{
}

/// The stored name of a Linux support level.
pub open spec fn support_name(support: LinuxSupport) -> Seq<char> {
    match support {
        LinuxSupport::Native => "native"@,
        LinuxSupport::ProtonGood => "proton_good"@,
        LinuxSupport::ProtonMixed => "proton_mixed"@,
    }
}

/// The Linux support level of a stored name; an unknown name counts as mixed.
pub open spec fn support_of_name(s: Seq<char>) -> LinuxSupport {
    if s == "native"@ {
        LinuxSupport::Native
    } else if s == "proton_good"@ {
        LinuxSupport::ProtonGood
    } else {
        LinuxSupport::ProtonMixed
    }
}

/// The stored name of a Linux support level.
impl From<LinuxSupport> for String {
    fn from(support: LinuxSupport) -> (r: Self)
        ensures
            r@ == support_name(support),
    {
        support_to_string(support)
    }
}

/// Two `String`s with the same characters need not be equal as values, so the trait's
/// specification is not claimed; the `ensures` of `from` above states the result.
impl FromSpecImpl<LinuxSupport> for String {
    open spec fn obeys_from_spec() -> bool {
        false
    }

    open spec fn from_spec(support: LinuxSupport) -> Self {
        choose|s: String| s@ == support_name(support)
    }
}

impl From<String> for LinuxSupport {
    fn from(s: String) -> (r: Self) {
        let c = chars_of(s.as_str());
        if chars_equal_str(c.as_slice(), "native") {
            LinuxSupport::Native
        } else if chars_equal_str(c.as_slice(), "proton_good") {
            LinuxSupport::ProtonGood
        } else {
            LinuxSupport::ProtonMixed
        }
    }
}

impl FromSpecImpl<String> for LinuxSupport {
    open spec fn obeys_from_spec() -> bool {
        true
    }

    open spec fn from_spec(s: String) -> Self {
        support_of_name(s@)
    }
}

/// Reading back the stored name of a Linux support level gives the same level.
pub proof fn law_support_round_trip(support: LinuxSupport)
    ensures
        support_of_name(support_name(support)) == support,
{
    reveal_strlit("native");
    reveal_strlit("proton_good");
    reveal_strlit("proton_mixed");
    assert("proton_good"@.len() != "native"@.len());
    assert("proton_mixed"@.len() != "native"@.len());
    assert("proton_mixed"@[7] != "proton_good"@[7]);
}

/// The stored name of a Linux support level (what `String::from` gives).
pub fn support_to_string(support: LinuxSupport) -> (r: String)
    ensures
        r@ == support_name(support),
{
    match support {
        LinuxSupport::Native => to_string("native"),
        LinuxSupport::ProtonGood => to_string("proton_good"),
        LinuxSupport::ProtonMixed => to_string("proton_mixed"),
    }
}

/// A catalog game as it is stored, with what the online sources added.
#[derive(Clone, Debug)]
pub struct SerializableGame {
    pub id: String,
    pub title: String,
    pub aliases: Vec<String>,
    pub minimum: SerializableTier,
    pub recommended: SerializableTier,
    pub storage_gb: u16,
    pub api: String,
    pub minimum_label: String,
    pub recommended_label: String,
    pub linux: String,
    pub issues: Vec<String>,
    pub steam_app_id: Option<u32>,
    pub protondb_tier: Option<String>,
    pub release_date: Option<String>,
    pub engine: Option<String>,
}

/// Why a catalog operation failed.
#[derive(Debug)]
pub enum CatalogUpdateError {
    IoError(String),
    ParseError(String),
    ApiError(String),
    FeatureNotEnabled,
}

/// The message of a catalog error.
pub open spec fn catalog_error_text(e: CatalogUpdateError) -> Seq<char> {
    match e {
        CatalogUpdateError::IoError(m) => "IO error: "@ + m@,
        CatalogUpdateError::ParseError(m) => "Parse error: "@ + m@,
        CatalogUpdateError::ApiError(m) => "API error: "@ + m@,
        CatalogUpdateError::FeatureNotEnabled => "Catalog update feature not enabled. Build with --features catalog-update"@,
    }
}

impl CatalogUpdateError {
    /// The message of the error.
    pub fn message(&self) -> (r: String)
        ensures
            r@ == catalog_error_text(*self),
    {
        match self {
            CatalogUpdateError::IoError(m) => {
                let mut r = to_string("IO error: ");
                push_str(&mut r, m.as_str());
                r
            },
            CatalogUpdateError::ParseError(m) => {
                let mut r = to_string("Parse error: ");
                push_str(&mut r, m.as_str());
                r
            },
            CatalogUpdateError::ApiError(m) => {
                let mut r = to_string("API error: ");
                push_str(&mut r, m.as_str());
                r
            },
            CatalogUpdateError::FeatureNotEnabled => to_string(
                "Catalog update feature not enabled. Build with --features catalog-update",
            ),
        }
    }
}

/// `r` is the stored record of the bundled `game` with its Steam app id, ProtonDB tier and
/// release date (no engine).
pub open spec fn record_of(
    game: Game,
    app_id: u32,
    tier: Option<Seq<char>>,
    release_date: Seq<char>,
    r: SerializableGame,
) -> bool {
    &&& r.id@ == game.id@
    &&& r.title@ == game.title@
    &&& string_views(r.aliases@) == str_views(game.aliases@)
    &&& r.minimum == stored_tier(game.minimum)
    &&& r.recommended == stored_tier(game.recommended)
    &&& r.storage_gb == game.storage_gb
    &&& r.api@ == game.api@
    &&& r.minimum_label@ == game.minimum_label@
    &&& r.recommended_label@ == game.recommended_label@
    &&& r.linux@ == support_name(game.linux)
    &&& string_views(r.issues@) == str_views(game.issues@)
    &&& r.steam_app_id == Some(app_id)
    &&& opt_view(r.protondb_tier) == tier
    &&& opt_view(r.release_date) == Some(release_date)
    &&& r.engine is None
}

/// The stored record of a bundled game with what the online sources told about it.
pub fn record_for(game: &Game, app_id: u32, protondb_tier: Option<String>, release_date: String) -> (r:
    SerializableGame)
    ensures
        record_of(*game, app_id, opt_view(protondb_tier), release_date@, r),
{
    SerializableGame {
        id: to_string(game.id),
        title: to_string(game.title),
        aliases: strings_of(game.aliases),
        minimum: SerializableTier::from(game.minimum),
        recommended: SerializableTier::from(game.recommended),
        storage_gb: game.storage_gb,
        api: to_string(game.api),
        minimum_label: to_string(game.minimum_label),
        recommended_label: to_string(game.recommended_label),
        linux: support_to_string(game.linux),
        issues: strings_of(game.issues),
        steam_app_id: Some(app_id),
        protondb_tier,
        release_date: Some(release_date),
        engine: None,
    }
}

/// Index of the first stored game, from index `i` on, whose id is `id`; the length if none.
pub open spec fn position_of(games: Seq<SerializableGame>, id: Seq<char>, i: int) -> int
    decreases games.len() - i,
{
    if i < 0 || i >= games.len() || games[i].id@ == id {
        i
    } else {
        position_of(games, id, i + 1)
    }
}

proof fn lemma_position_of(games: Seq<SerializableGame>, id: Seq<char>, i: int)
    requires
        0 <= i <= games.len(),
    ensures
        i <= position_of(games, id, i) <= games.len(),
    decreases games.len() - i,
{
    if i < games.len() && games[i].id@ != id {
        lemma_position_of(games, id, i + 1);
    }
}

/// A new record changes a stored one when its Steam app id or its ProtonDB tier differ.
pub open spec fn changes(old: SerializableGame, new: SerializableGame) -> bool {
    old.steam_app_id != new.steam_app_id || opt_view(old.protondb_tier) != opt_view(
        new.protondb_tier,
    )
}

/// What storing a record did to the catalog.
#[derive(Clone, Copy, Debug, PartialEq, Eq, Structural)]
pub enum MergeOutcome {
    Added,
    Updated,
    Unchanged,
}

/// `new` and `outcome` are what storing `record` into `old` gives: a game not yet stored
/// (by id) is appended; the first stored game with its id is replaced when the record changes
/// it, and left alone otherwise.
pub open spec fn merged(
    old: Seq<SerializableGame>,
    record: SerializableGame,
    new: Seq<SerializableGame>,
    outcome: MergeOutcome,
) -> bool {
    let k = position_of(old, record.id@, 0);
    if k == old.len() {
        outcome == MergeOutcome::Added && new == old.push(record)
    } else if changes(old[k], record) {
        outcome == MergeOutcome::Updated && new == old.update(k, record)
    } else {
        outcome == MergeOutcome::Unchanged && new == old
    }
}

proof fn lemma_position_is(games: Seq<SerializableGame>, id: Seq<char>, i: int, k: int)
    requires
        0 <= i <= k <= games.len(),
        forall|j: int| i <= j < k ==> games[j].id@ != id,
        k == games.len() || games[k].id@ == id,
    ensures
        position_of(games, id, i) == k,
    decreases k - i,
{
    if i < k {
        lemma_position_is(games, id, i + 1, k);
    }
}

proof fn lemma_position_found(games: Seq<SerializableGame>, id: Seq<char>, i: int)
    requires
        0 <= i <= games.len(),
    ensures
        forall|j: int| i <= j < position_of(games, id, i) ==> games[j].id@ != id,
        position_of(games, id, i) < games.len() ==> games[position_of(games, id, i)].id@ == id,
    decreases games.len() - i,
{
    if i < games.len() && games[i].id@ != id {
        lemma_position_found(games, id, i + 1);
    }
}

/// Storing the same record twice changes nothing the second time.
pub proof fn law_merge_idempotent(
    g0: Seq<SerializableGame>,
    record: SerializableGame,
    g1: Seq<SerializableGame>,
    o1: MergeOutcome,
    g2: Seq<SerializableGame>,
    o2: MergeOutcome,
)
    requires
        merged(g0, record, g1, o1),
        merged(g1, record, g2, o2),
    ensures
        o2 == MergeOutcome::Unchanged,
        g2 == g1,
{
    let id = record.id@;
    let k = position_of(g0, id, 0);
    lemma_position_of(g0, id, 0);
    lemma_position_found(g0, id, 0);
    if k == g0.len() {
        assert forall|j: int| 0 <= j < k implies g1[j].id@ != id by {
            assert(g1[j] == g0[j]);
        }
        lemma_position_is(g1, id, 0, k);
    } else {
        assert forall|j: int| 0 <= j < k implies g1[j].id@ != id by {
            assert(g1[j] == g0[j]);
        }
        lemma_position_is(g1, id, 0, k);
    }
}

fn same_opt_string(a: &Option<String>, b: &Option<String>) -> (r: bool)
    ensures
        r == (opt_view(*a) == opt_view(*b)),
{
    match (a, b) {
        (Some(x), Some(y)) => chars_equal_str(chars_of(x.as_str()).as_slice(), y.as_str()),
        (None, None) => true,
        _ => false,
    }
}

/// Stores a record: a game not yet in the catalog is appended; the first stored game with the
/// same id is replaced when the record changes it, and left alone otherwise.
pub fn merge_record(games: &mut Vec<SerializableGame>, record: SerializableGame) -> (outcome:
    MergeOutcome)
    ensures
        merged(old(games)@, record, final(games)@, outcome),
{
    let id = chars_of(record.id.as_str());
    let mut k: usize = 0;
    while k < games.len() && !chars_equal_str(id.as_slice(), games[k].id.as_str())
        invariant
            k <= games@.len(),
            games@ == old(games)@,
            id@ == record.id@,
            position_of(games@, record.id@, 0) == position_of(games@, record.id@, k as int),
        decreases games@.len() - k,
    {
        k += 1;
    }
    proof {
        lemma_position_of(games@, record.id@, k as int);
    }
    if k == games.len() {
        games.push(record);
        MergeOutcome::Added
    } else if games[k].steam_app_id != record.steam_app_id || !same_opt_string(
        &games[k].protondb_tier,
        &record.protondb_tier,
    ) {
        games.set(k, record);
        MergeOutcome::Updated
    } else {
        MergeOutcome::Unchanged
    }
}

/// The answer an update run waits for.
#[derive(Clone, Debug)]
pub enum UpdateStage {
    /// The Steam search for the current bundled game.
    Searching,
    /// The Steam details of the app found.
    FetchingDetails { app_id: u32 },
    /// The ProtonDB rating of the app, once its release date is known.
    FetchingRating { app_id: u32, release_date: String },
    /// Every bundled game has been handled.
    Done,
}

/// What the caller has to do next.
#[derive(Clone, Copy, Debug)]
pub enum UpdateAction {
    /// Search the Steam store for this title; answer with the first app id found, if any.
    SearchSteam { title: &'static str },
    /// Fetch the Steam details of this app; answer with its release date, if they were had.
    FetchSteamGame { app_id: u32 },
    /// Fetch the ProtonDB rating of this app; answer with its tier, if it was had.
    FetchProtonDb { app_id: u32 },
    /// Save the catalog; the run is over.
    SaveCatalog,
}

/// What the caller learned from the last action.
#[derive(Clone, Debug)]
pub enum UpdateEvent {
    SearchResult(Option<u32>),
    SteamGameResult(Option<String>),
    ProtonDbResult(Option<String>),
}

/// An update run over the bundled games, one after the other: its catalog, its counts, the
/// titles that could not be updated, the sources used (each once) and where it stands.
pub struct CatalogUpdate {
    pub games: Vec<SerializableGame>,
    pub games_updated: usize,
    pub games_added: usize,
    pub games_failed: Vec<String>,
    pub sources_used: Vec<String>,
    /// Index of the bundled game being handled.
    pub current: usize,
    pub stage: UpdateStage,
}

/// `name` among the sources, added at the end unless it is there.
pub open spec fn with_source(sources: Seq<Seq<char>>, name: Seq<char>) -> Seq<Seq<char>> {
    if sources.contains(name) {
        sources
    } else {
        sources.push(name)
    }
}

/// Adding a source keeps the sources free of duplicates.
pub proof fn law_sources_stay_distinct(sources: Seq<Seq<char>>, name: Seq<char>)
    requires
        sources.no_duplicates(),
    ensures
        with_source(sources, name).no_duplicates(),
{
    if !sources.contains(name) {
        let t = sources.push(name);
        assert forall|i: int, j: int| 0 <= i < t.len() && 0 <= j < t.len() && i != j implies t[i]
            != t[j] by {
            if i < sources.len() && j < sources.len() {
                assert(t[i] == sources[i] && t[j] == sources[j]);
            } else if i == sources.len() {
                assert(t[j] == sources[j]);
            } else {
                assert(t[i] == sources[i]);
            }
        }
    }
}

impl CatalogUpdate {
    /// A run is consistent: it stands at a bundled game or is done after the last one, each
    /// handled game was counted at most once, and no source is listed twice.
    pub open spec fn wf(&self) -> bool {
        &&& self.current <= catalog().len()
        &&& (self.stage is Done) == (self.current == catalog().len())
        &&& self.games_updated + self.games_added + self.games_failed@.len() <= self.current
        &&& string_views(self.sources_used@).no_duplicates()
    }

    /// The action that the stage of the run asks for.
    pub open spec fn pending(&self) -> UpdateAction {
        match self.stage {
            UpdateStage::Searching => UpdateAction::SearchSteam {
                title: catalog()[self.current as int].title,
            },
            UpdateStage::FetchingDetails { app_id } => UpdateAction::FetchSteamGame { app_id },
            UpdateStage::FetchingRating { app_id, .. } => UpdateAction::FetchProtonDb { app_id },
            UpdateStage::Done => UpdateAction::SaveCatalog,
        }
    }

    /// `next` has moved on from `self` to the following bundled game (or is done).
    pub open spec fn moved_on(&self, next: &Self) -> bool {
        &&& next.current == self.current + 1
        &&& if next.current < catalog().len() {
            next.stage is Searching
        } else {
            next.stage is Done
        }
    }

    /// `next` is `self` where the current title failed.
    pub open spec fn failed_current(&self, next: &Self) -> bool {
        &&& self.moved_on(next)
        &&& next.games@ == self.games@
        &&& next.games_updated == self.games_updated
        &&& next.games_added == self.games_added
        &&& string_views(next.games_failed@) == string_views(self.games_failed@).push(
            catalog()[self.current as int].title@,
        )
        &&& string_views(next.sources_used@) == string_views(self.sources_used@)
    }

    /// `next` is `self` after the current game was stored with its app id, tier and release
    /// date: appended when new, replacing the first stored game with its id when that record
    /// changes it, else unchanged.
    pub open spec fn stored_current(
        &self,
        app_id: u32,
        tier: Option<Seq<char>>,
        date: Seq<char>,
        next: &Self,
    ) -> bool {
        let game = catalog()[self.current as int];
        let old_games = self.games@;
        let k = position_of(old_games, game.id@, 0);
        &&& self.moved_on(next)
        &&& string_views(next.games_failed@) == string_views(self.games_failed@)
        &&& string_views(next.sources_used@) == string_views(self.sources_used@)
        &&& if k == old_games.len() {
            &&& next.games@.len() == old_games.len() + 1
            &&& next.games@.take(old_games.len() as int) == old_games
            &&& record_of(game, app_id, tier, date, next.games@[k])
            &&& next.games_added == self.games_added + 1
            &&& next.games_updated == self.games_updated
        } else if old_games[k].steam_app_id != Some(app_id) || opt_view(
            old_games[k].protondb_tier,
        ) != tier {
            &&& next.games@.len() == old_games.len()
            &&& forall|j: int| 0 <= j < old_games.len() && j != k ==> next.games@[j] == old_games[j]
            &&& record_of(game, app_id, tier, date, next.games@[k])
            &&& next.games_updated == self.games_updated + 1
            &&& next.games_added == self.games_added
        } else {
            &&& next.games@ == old_games
            &&& next.games_updated == self.games_updated
            &&& next.games_added == self.games_added
        }
    }

    /// The run after `event`: a search without result or details that could not be had fail
    /// the current title; an app found adds the source "Steam" and asks for its details;
    /// details add the source "ProtonDB" and ask for the rating; a rating (had or not) stores
    /// the game. An event that does not answer the pending action changes nothing.
    pub open spec fn stepped(&self, event: UpdateEvent, next: &Self) -> bool {
        match (self.stage, event) {
            (UpdateStage::Searching, UpdateEvent::SearchResult(None)) => self.failed_current(next),
            (UpdateStage::Searching, UpdateEvent::SearchResult(Some(app_id))) => {
                &&& next.current == self.current
                &&& next.stage == UpdateStage::FetchingDetails { app_id }
                &&& next.games@ == self.games@
                &&& next.games_updated == self.games_updated
                &&& next.games_added == self.games_added
                &&& string_views(next.games_failed@) == string_views(self.games_failed@)
                &&& string_views(next.sources_used@) == with_source(
                    string_views(self.sources_used@),
                    "Steam"@,
                )
            },
            (UpdateStage::FetchingDetails { .. }, UpdateEvent::SteamGameResult(None)) => {
                self.failed_current(next)
            },
            (
                UpdateStage::FetchingDetails { app_id },
                UpdateEvent::SteamGameResult(Some(date)),
            ) => {
                &&& next.current == self.current
                &&& next.stage matches UpdateStage::FetchingRating { app_id: a, release_date: d }
                    && a == app_id && d@ == date@
                &&& next.games@ == self.games@
                &&& next.games_updated == self.games_updated
                &&& next.games_added == self.games_added
                &&& string_views(next.games_failed@) == string_views(self.games_failed@)
                &&& string_views(next.sources_used@) == with_source(
                    string_views(self.sources_used@),
                    "ProtonDB"@,
                )
            },
            (
                UpdateStage::FetchingRating { app_id, release_date },
                UpdateEvent::ProtonDbResult(tier),
            ) => self.stored_current(app_id, opt_view(tier), release_date@, next),
            _ => *next == *self,
        }
    }
}

fn add_source(sources: &mut Vec<String>, name: &str)
    ensures
        string_views(final(sources)@) == with_source(string_views(old(sources)@), name@),
{
    let mut i: usize = 0;
    let n = chars_of(name);
    while i < sources.len()
        invariant
            i <= sources@.len(),
            sources@ == old(sources)@,
            n@ == name@,
            forall|k: int| 0 <= k < i ==> string_views(sources@)[k] != name@,
        decreases sources@.len() - i,
    {
        if chars_equal_str(n.as_slice(), sources[i].as_str()) {
            assert(string_views(sources@)[i as int] == name@);
            return;
        }
        i += 1;
    }
    let ghost before = string_views(sources@);
    sources.push(to_string(name));
    assert(string_views(sources@) =~= before.push(name@));
}

impl CatalogUpdate {
    /// A run over the bundled games on the stored `games`, and its first action.
    pub fn start(games: Vec<SerializableGame>) -> (r: (CatalogUpdate, UpdateAction))
        ensures
            r.0.wf(),
            r.0.games@ == games@,
            r.0.games_updated == 0,
            r.0.games_added == 0,
            r.0.games_failed@.len() == 0,
            r.0.sources_used@.len() == 0,
            r.0.current == 0,
            r.0.stage is Searching,
            r.1 == r.0.pending(),
    {
        let bundled = crate::catalog::games();
        let u = CatalogUpdate {
            games,
            games_updated: 0,
            games_added: 0,
            games_failed: Vec::new(),
            sources_used: Vec::new(),
            current: 0,
            stage: UpdateStage::Searching,
        };
        (u, UpdateAction::SearchSteam { title: bundled[0].title })
    }

    fn move_on(&mut self, bundled: &Vec<Game>) -> (action: UpdateAction)
        requires
            bundled@ == catalog(),
            old(self).current < catalog().len(),
        ensures
            old(self).moved_on(final(self)),
            final(self).games@ == old(self).games@,
            final(self).games_updated == old(self).games_updated,
            final(self).games_added == old(self).games_added,
            final(self).games_failed@ == old(self).games_failed@,
            final(self).sources_used@ == old(self).sources_used@,
            action == final(self).pending(),
    {
        self.current = self.current + 1;
        if self.current < bundled.len() {
            self.stage = UpdateStage::Searching;
            UpdateAction::SearchSteam { title: bundled[self.current].title }
        } else {
            self.stage = UpdateStage::Done;
            UpdateAction::SaveCatalog
        }
    }

    fn fail_current(&mut self, bundled: &Vec<Game>) -> (action: UpdateAction)
        requires
            bundled@ == catalog(),
            old(self).games_updated + old(self).games_added + old(self).games_failed@.len()
                <= old(self).current,
            old(self).current < catalog().len(),
            string_views(old(self).sources_used@).no_duplicates(),
        ensures
            final(self).wf(),
            old(self).failed_current(final(self)),
            action == final(self).pending(),
    {
        let ghost before = string_views(self.games_failed@);
        self.games_failed.push(to_string(bundled[self.current].title));
        assert(string_views(self.games_failed@) =~= before.push(
            catalog()[self.current as int].title@,
        ));
        self.move_on(bundled)
    }

    fn store_current(
        &mut self,
        bundled: &Vec<Game>,
        app_id: u32,
        tier: Option<String>,
        release_date: String,
    ) -> (action: UpdateAction)
        requires
            bundled@ == catalog(),
            old(self).games_updated + old(self).games_added + old(self).games_failed@.len()
                <= old(self).current,
            old(self).current < catalog().len(),
            string_views(old(self).sources_used@).no_duplicates(),
        ensures
            final(self).wf(),
            old(self).stored_current(app_id, opt_view(tier), release_date@, final(self)),
            action == final(self).pending(),
    {
        let ghost tv = opt_view(tier);
        let ghost dv = release_date@;
        let ghost old_games = self.games@;
        let ghost game = catalog()[self.current as int];
        let record = record_for(&bundled[self.current], app_id, tier, release_date);
        let ghost rec = record;
        assert(record_of(game, app_id, tv, dv, rec));
        let ghost k = position_of(old_games, game.id@, 0);
        proof {
            lemma_position_of(old_games, game.id@, 0);
        }
        match merge_record(&mut self.games, record) {
            MergeOutcome::Added => {
                self.games_added = self.games_added + 1;
            },
            MergeOutcome::Updated => {
                self.games_updated = self.games_updated + 1;
            },
            MergeOutcome::Unchanged => {},
        }
        proof {
            if k == old_games.len() {
                assert(self.games@.take(old_games.len() as int) =~= old_games);
                assert(self.games@[k] == rec);
            } else if changes(old_games[k], rec) {
                assert(self.games@[k] == rec);
            }
        }
        self.move_on(bundled)
    }

    /// The run after `event`, and the next action.
    pub fn step(&mut self, event: UpdateEvent) -> (action: UpdateAction)
        requires
            old(self).wf(),
        ensures
            final(self).wf(),
            old(self).stepped(event, final(self)),
            action == final(self).pending(),
    {
        let bundled = crate::catalog::games();
        let mut stage = UpdateStage::Done;
        std::mem::swap(&mut stage, &mut self.stage);
        match (stage, event) {
            (UpdateStage::Searching, UpdateEvent::SearchResult(None)) => {
                self.fail_current(&bundled)
            },
            (UpdateStage::Searching, UpdateEvent::SearchResult(Some(app_id))) => {
                proof {
                    law_sources_stay_distinct(string_views(self.sources_used@), "Steam"@);
                }
                add_source(&mut self.sources_used, "Steam");
                self.stage = UpdateStage::FetchingDetails { app_id };
                UpdateAction::FetchSteamGame { app_id }
            },
            (UpdateStage::FetchingDetails { .. }, UpdateEvent::SteamGameResult(None)) => {
                self.fail_current(&bundled)
            },
            (
                UpdateStage::FetchingDetails { app_id },
                UpdateEvent::SteamGameResult(Some(release_date)),
            ) => {
                proof {
                    law_sources_stay_distinct(string_views(self.sources_used@), "ProtonDB"@);
                }
                add_source(&mut self.sources_used, "ProtonDB");
                self.stage = UpdateStage::FetchingRating { app_id, release_date };
                UpdateAction::FetchProtonDb { app_id }
            },
            (
                UpdateStage::FetchingRating { app_id, release_date },
                UpdateEvent::ProtonDbResult(tier),
            ) => self.store_current(&bundled, app_id, tier, release_date),
            (other, _) => {
                self.stage = other;
                match &self.stage {
                    UpdateStage::Searching => UpdateAction::SearchSteam {
                        title: bundled[self.current].title,
                    },
                    UpdateStage::FetchingDetails { app_id } => UpdateAction::FetchSteamGame {
                        app_id: *app_id,
                    },
                    UpdateStage::FetchingRating { app_id, .. } => UpdateAction::FetchProtonDb {
                        app_id: *app_id,
                    },
                    UpdateStage::Done => UpdateAction::SaveCatalog,
                }
            },
        }
    }
}

} // verus!
