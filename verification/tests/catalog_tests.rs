use ciri::catalog::metadata::GameMetadata;
use ciri::catalog::protondb::{summary_url, ProtonDBError};
use ciri::catalog::steam_api::{
    app_ids, details_result, details_url, search_result, search_url, SteamApiError,
};
use ciri::catalog::updater::{
    merge_record, record_for, CatalogUpdate, CatalogUpdateError, MergeOutcome, SerializableTier,
    UpdateAction, UpdateEvent,
};
use ciri::catalog::{
    games, levenshtein, normalize, normalize_lowercase, percent_of, resolve, similarity, LinuxSupport, Tier,
};

#[test]
fn resolves_aliases_and_typos() {
    assert_eq!(resolve("BG3").unwrap().0.id, "baldurs-gate-3");
    assert_eq!(resolve("batman arkham nite").unwrap().0.id, "batman-arkham-knight");
    assert!(resolve("spreadsheet deluxe").is_none());
}

#[test]
fn exact_title_resolves_with_full_confidence() {
    let (game, confidence) = resolve("The Witcher 3: Wild Hunt").unwrap();
    assert_eq!(game.id, "the-witcher-3");
    assert_eq!(confidence, 100);
    assert!(resolve("  ---  ").is_none());
}

#[test]
fn normalizes_and_measures_distance() {
    assert_eq!(normalize("  Baldur's   Gate 3 "), "baldur s gate 3");
    assert_eq!(levenshtein(b"kitten", b"sitting"), 3);
    assert_eq!(levenshtein(b"", b"abc"), 3);
}

#[test]
fn test_game_metadata_creation() {
    let game = &games()[0];
    let metadata = GameMetadata::from_game(game);
    assert_eq!(metadata.base.id, game.id);
    assert!(!metadata.known_issues.is_empty());
}

#[test]
fn test_protondb_error_display() {
    let err = ProtonDBError::GameNotFound("12345".to_string());
    assert!(err.message().contains("Game not found"));
}

#[test]
fn test_steam_api_error_display() {
    let err = SteamApiError::GameNotFound("12345".to_string());
    assert!(err.message().contains("Game not found"));
}

#[test]
fn error_messages_of_every_variant() {
    assert_eq!(ProtonDBError::RequestFailed("x".into()).message(), "ProtonDB API request failed: x");
    assert_eq!(ProtonDBError::ParseError("x".into()).message(), "Failed to parse ProtonDB response: x");
    assert_eq!(
        ProtonDBError::FeatureNotEnabled.message(),
        "ProtonDB feature not enabled. Build with --features protondb"
    );
    assert_eq!(SteamApiError::RequestFailed("x".into()).message(), "Steam API request failed: x");
    assert_eq!(SteamApiError::ParseError("x".into()).message(), "Failed to parse Steam API response: x");
    assert_eq!(
        SteamApiError::FeatureNotEnabled.message(),
        "Steam feature not enabled. Build with --features steam"
    );
    assert_eq!(CatalogUpdateError::IoError("x".into()).message(), "IO error: x");
    assert_eq!(CatalogUpdateError::ParseError("x".into()).message(), "Parse error: x");
    assert_eq!(CatalogUpdateError::ApiError("x".into()).message(), "API error: x");
    assert_eq!(
        CatalogUpdateError::FeatureNotEnabled.message(),
        "Catalog update feature not enabled. Build with --features catalog-update"
    );
}

#[test]
fn request_addresses() {
    assert_eq!(summary_url(620), "https://www.protondb.com/api/v1/reports/summaries/620.json");
    assert_eq!(details_url(620), "https://store.steampowered.com/api/appdetails?appids=620&l=english");
    assert_eq!(
        search_url("Baldur's Gate 3"),
        "https://store.steampowered.com/api/storesearch/?term=Baldur%27s%20Gate%203&l=english&cc=US"
    );
    assert_eq!(
        search_url("é~"),
        "https://store.steampowered.com/api/storesearch/?term=%C3%A9~&l=english&cc=US"
    );
}

#[test]
fn search_answer_ids() {
    let ids = vec![Some(620u64), None, Some(4_294_967_297u64)];
    assert_eq!(app_ids(&ids), vec![620u32, 1u32]);
}

#[test]
fn test_serializable_tier_conversion() {
    let tier = Tier { cpu: 50, gpu: 60, ram_gb: 16, vram_gb: 8 };
    let serializable: SerializableTier = tier.into();
    assert_eq!(serializable.cpu, 50);
    assert_eq!(serializable.gpu, 60);
    let back: Tier = serializable.into();
    assert_eq!(back.cpu, 50);
    assert_eq!(back.gpu, 60);
}

#[test]
fn test_linux_support_conversion() {
    let support = LinuxSupport::Native;
    let s: String = support.into();
    assert_eq!(s, "native");
    let back: LinuxSupport = s.into();
    assert_eq!(back, LinuxSupport::Native);
}

#[test]
fn unknown_support_name_reads_as_mixed() {
    let back: LinuxSupport = "something".to_string().into();
    assert_eq!(back, LinuxSupport::ProtonMixed);
    let s: String = LinuxSupport::ProtonGood.into();
    assert_eq!(s, "proton_good");
}

#[test]
fn merging_a_record_twice_changes_nothing_the_second_time() {
    let game = &games()[1];
    let mut stored = Vec::new();
    let r1 = record_for(game, 1091500, Some("gold".into()), "10 Dec, 2020".into());
    assert_eq!(merge_record(&mut stored, r1.clone()), MergeOutcome::Added);
    assert_eq!(merge_record(&mut stored, r1), MergeOutcome::Unchanged);
    assert_eq!(stored.len(), 1);
    let r2 = record_for(game, 1091500, Some("platinum".into()), "10 Dec, 2020".into());
    assert_eq!(merge_record(&mut stored, r2), MergeOutcome::Updated);
    assert_eq!(stored[0].protondb_tier.as_deref(), Some("platinum"));
    assert_eq!(stored[0].linux, "proton_good");
}

#[test]
fn update_run_over_the_bundled_games() {
    let (mut run, mut action) = CatalogUpdate::start(Vec::new());
    let mut steps = 0;
    loop {
        let event = match action {
            UpdateAction::SearchSteam { title } => {
                if title == "Elden Ring" {
                    UpdateEvent::SearchResult(None)
                } else {
                    UpdateEvent::SearchResult(Some(100 + steps))
                }
            }
            UpdateAction::FetchSteamGame { app_id } => {
                UpdateEvent::SteamGameResult(Some(format!("date {app_id}")))
            }
            UpdateAction::FetchProtonDb { .. } => UpdateEvent::ProtonDbResult(None),
            UpdateAction::SaveCatalog => break,
        };
        action = run.step(event);
        steps += 1;
    }
    assert_eq!(run.games_added, 5);
    assert_eq!(run.games_updated, 0);
    assert_eq!(run.games_failed, vec!["Elden Ring".to_string()]);
    assert_eq!(run.sources_used, vec!["Steam".to_string(), "ProtonDB".to_string()]);
    assert_eq!(run.games.len(), 5);
}

#[test]
fn mismatched_event_repeats_the_pending_action() {
    let (mut run, _) = CatalogUpdate::start(Vec::new());
    let action = run.step(UpdateEvent::ProtonDbResult(None));
    assert!(matches!(action, UpdateAction::SearchSteam { title: "Batman: Arkham Knight" }));
    assert_eq!(run.current, 0);
    assert!(run.games_failed.is_empty());
}

#[test]
fn search_replies() {
    assert_eq!(
        search_result("{\"total\":2,\"items\":[{\"id\":620},{\"name\":\"x\"},{\"id\":-3},{\"id\":400}]}")
            .unwrap(),
        vec![620u32, 400u32]
    );
    match search_result("{\"total\":0}") {
        Err(SteamApiError::ParseError(m)) => assert_eq!(m, "No items in response"),
        _ => panic!("expected a parse error"),
    }
    let expected = serde_json::from_str::<serde_json::Value>("not json").unwrap_err().to_string();
    match search_result("not json") {
        Err(SteamApiError::ParseError(m)) => assert_eq!(m, expected),
        _ => panic!("expected a parse error"),
    }
    assert!(matches!(search_result("{\"items\": 5}"), Err(SteamApiError::ParseError(_))));
}

#[test]
fn support_names_round_trip() {
    for support in [LinuxSupport::Native, LinuxSupport::ProtonGood, LinuxSupport::ProtonMixed] {
        let s: String = support.into();
        let back: LinuxSupport = s.into();
        assert_eq!(back, support);
    }
    let mixed: String = LinuxSupport::ProtonMixed.into();
    assert_eq!(mixed, "proton_mixed");
}

fn chars(s: &str) -> Vec<char> {
    s.chars().collect()
}

#[test]
fn similarity_is_computed_in_single_precision() {
    let one: u128 = 1 << 91;
    assert_eq!(similarity(&chars("abc"), &chars("abc")), one);
    // 0.88 + 0.12 * (3 / 5), each step rounded to f32: 0.95200002.
    assert_eq!(similarity(&chars("bg3"), &chars("bg3 x")), 2357037889106578596408852480);
    // 1 - 19 / 40 in f32 is 0.52499998 (8808038 * 2^-24), so the confidence is 52, not 53.
    let a = "a".repeat(40);
    let b = format!("{}{}", "a".repeat(21), "b".repeat(19));
    let score = similarity(&chars(&a), &chars(&b));
    assert_eq!(score, 8808038u128 << 67);
    assert_eq!(percent_of(score), 52);
    assert_eq!(percent_of(one), 100);
    assert_eq!(percent_of(2357037889106578596408852480), 95);
    assert_eq!(percent_of(0), 0);
}

#[test]
fn similarity_and_confidence_stay_in_range() {
    let one: u128 = 1 << 91;
    for (a, b) in [("bg3", "bg3 x"), ("witcher", "the witcher 3"), ("abc", "xyz"), ("", "abc")] {
        assert!(similarity(&chars(a), &chars(b)) <= one);
    }
    for query in ["BG3", "batman arkham nite", "witcher", "elden"] {
        if let Some((_, confidence)) = resolve(query) {
            assert!((48..=100).contains(&confidence));
        }
    }
    assert_eq!(resolve("BG3").map(|(_, c)| (48..=100).contains(&c)), Some(true));
}

#[test]
fn details_replies() {
    let data = details_result("{\"620\":{\"success\":true,\"data\":{\"name\":\"Portal 2\"}}}", 620).unwrap();
    assert_eq!(data.get("name").and_then(|n| n.as_str()), Some("Portal 2"));
    match details_result("{\"620\":{\"success\":false}}", 620) {
        Err(SteamApiError::GameNotFound(m)) => assert_eq!(m, "620"),
        _ => panic!("expected game not found"),
    }
    match details_result("{\"400\":{\"data\":{}}}", 620) {
        Err(SteamApiError::GameNotFound(m)) => assert_eq!(m, "620"),
        _ => panic!("expected game not found"),
    }
    let expected = serde_json::from_str::<serde_json::Value>("{oops").unwrap_err().to_string();
    match details_result("{oops", 620) {
        Err(SteamApiError::ParseError(m)) => assert_eq!(m, expected),
        _ => panic!("expected a parse error"),
    }
}

#[test]
fn normalizes_lowercase_text() {
    assert_eq!(normalize_lowercase("  baldur's   gate 3 "), "baldur s gate 3");
    assert_eq!(normalize_lowercase("the witcher 3: wild hunt"), "the witcher 3 wild hunt");
    // Capitals are not ASCII-lowercased here; they count as alphanumeric and stay.
    assert_eq!(normalize_lowercase("BG3!"), "BG3");
    assert_eq!(normalize_lowercase("---"), "");
}
