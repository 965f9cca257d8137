use serde_json::Value;
use superdeduper::gui::widgets::badge_wall::{
    classify_grid_entries, count_grants, is_nas_pro_locked, parse_grant_id, short_name, tile_view,
};
use superdeduper::leaderboard::catalog::{
    Catalog, CatalogEntry, CatalogState, Profile, ProfileGrant, ProfileLifetime,
};

fn entry(id: &str, name: &str, tier: &str, order: i32) -> CatalogEntry {
    CatalogEntry {
        id: id.to_string(),
        name: name.to_string(),
        description: "d".to_string(),
        tier: tier.to_string(),
        unlock_kind: "single-run".to_string(),
        display_order: order,
    }
}

fn grant(id: &str, granted: bool, granted_at: Option<&str>) -> ProfileGrant {
    ProfileGrant {
        achievement_id: id.to_string(),
        granted,
        granted_at: granted_at.map(String::from),
    }
}

fn with_grants(catalog: Catalog, achievements: Vec<ProfileGrant>) -> CatalogState {
    CatalogState {
        catalog: Some(Ok(catalog)),
        profile: Some(Ok(Profile {
            install_id: "x".to_string(),
            lifetime: Default::default(),
            achievements,
        })),
    }
}

fn profile_from_json(text: &str) -> Profile {
    let v: Value = serde_json::from_str(text).expect("live server profile shape must parse");
    let lifetime = &v["lifetime"];
    Profile {
        install_id: v["install_id"].as_str().expect("install_id").to_string(),
        lifetime: ProfileLifetime {
            bytes_reclaimed: lifetime["bytes_reclaimed"].as_u64().expect("bytes_reclaimed"),
            total_scans: lifetime["total_scans"].as_u64().expect("total_scans"),
        },
        achievements: v["achievements"]
            .as_array()
            .expect("achievements")
            .iter()
            .map(|row| ProfileGrant {
                achievement_id: row["id"].as_str().expect("id").to_string(),
                granted: row["granted"].as_bool().expect("granted"),
                granted_at: row["granted_at"].as_str().map(String::from),
            })
            .collect(),
    }
}

fn five_entries() -> Catalog {
    Catalog {
        version: "v1".to_string(),
        achievements: vec![
            entry("tidy-up", "Tidy-up", "low", 100),
            entry("brisk", "Brisk", "low", 200),
            entry("founder", "Founder", "high", 550),
            entry("pioneer", "Pioneer", "mid", 560),
            entry("hello-world", "Hello World", "low", 900),
        ],
    }
}

const LIVE_PROFILE: &str = r#"{
    "install_id": "e1eae1fa-58fb-4f5a-8712-a7480ac5761b",
    "lifetime": { "bytes_reclaimed": 731677101, "total_scans": 3 },
    "achievements": [
        { "id": "tidy-up",     "granted": false, "granted_at": null },
        { "id": "brisk",       "granted": true,  "granted_at": "2026-05-24T14:22:52Z" },
        { "id": "founder",     "granted": true,  "granted_at": "2026-05-24T05:20:37Z" },
        { "id": "pioneer",     "granted": false, "granted_at": null },
        { "id": "hello-world", "granted": true,  "granted_at": "2026-05-24T14:22:52Z" }
    ]
}"#;

#[test]
fn short_name_strips_pathfinder_prefix() {
    assert_eq!(short_name("Pathfinder: ReFS"), "ReFS");
    assert_eq!(short_name("Sub-Minute Club (corpus-v1 50 GB)"), "Sub-Minute Club");
    assert_eq!(short_name("Tidy-up"), "Tidy-up");
}

#[test]
fn count_grants_handles_missing_profile() {
    let state = CatalogState {
        catalog: Some(Ok(Catalog {
            version: "v1".to_string(),
            achievements: vec![entry("a", "A", "low", 1)],
        })),
        profile: None,
    };
    assert_eq!(count_grants(&state), (0, 1));
}

#[test]
fn badge_wall_classifies_granted_tiles_from_live_server_shape() {
    let catalog = five_entries();
    let profile = profile_from_json(LIVE_PROFILE);
    let state = CatalogState {
        catalog: Some(Ok(catalog.clone())),
        profile: Some(Ok(profile)),
    };
    let tiles = classify_grid_entries(&state, &catalog.achievements);
    assert_eq!(tiles.len(), 5);

    let granted_ids: Vec<&str> = tiles
        .iter()
        .filter(|t| t.granted)
        .map(|t| t.entry.id.as_str())
        .collect();
    assert_eq!(granted_ids, vec!["brisk", "founder", "hello-world"]);

    let granted_count = tiles.iter().filter(|t| t.granted).count();
    assert_eq!(granted_count, 3);

    let ungranted_ids: Vec<&str> = tiles
        .iter()
        .filter(|t| !t.granted)
        .map(|t| t.entry.id.as_str())
        .collect();
    assert_eq!(ungranted_ids, vec!["tidy-up", "pioneer"]);
}

#[test]
fn badge_wall_falls_back_to_ungranted_when_profile_errored() {
    let catalog_entries = vec![
        entry("tidy-up", "Tidy-up", "low", 100),
        entry("brisk", "Brisk", "low", 200),
    ];
    let state = CatalogState {
        catalog: Some(Ok(Catalog {
            version: "v1".to_string(),
            achievements: catalog_entries.clone(),
        })),
        profile: Some(Err("schema mismatch: missing field `achievement_id`".to_string())),
    };
    let tiles = classify_grid_entries(&state, &catalog_entries);
    assert_eq!(tiles.len(), 2);
    assert!(tiles.iter().all(|t| !t.granted), "errored profile yields all-ungranted");
}

#[test]
fn badge_wall_renders_granted_glyphs_from_live_server_shape() {
    let catalog = five_entries();
    let profile = profile_from_json(LIVE_PROFILE);
    let state = CatalogState {
        catalog: Some(Ok(catalog.clone())),
        profile: Some(Ok(profile)),
    };
    let labels: Vec<String> = classify_grid_entries(&state, &catalog.achievements)
        .iter()
        .map(|tile| tile_view(tile).access_label)
        .collect();
    let granted_tiles = labels.iter().filter(|s| s.ends_with(": granted")).count();
    let ungranted_tiles = labels.iter().filter(|s| s.ends_with(": not yet earned")).count();
    assert_eq!(granted_tiles, 3);
    assert_eq!(ungranted_tiles, 2);
    assert!(labels.iter().any(|s| s == "Brisk: granted"));
    assert!(labels.iter().any(|s| s == "Founder: granted"));
    assert!(labels.iter().any(|s| s == "Hello World: granted"));
    assert!(labels.iter().any(|s| s == "Tidy-up: not yet earned"));
    assert!(labels.iter().any(|s| s == "Pioneer: not yet earned"));
}

#[test]
fn nas_pro_ids_classify_as_locked() {
    let catalog = Catalog {
        version: "v1".to_string(),
        achievements: vec![
            entry("schedule-master", "Schedule Master", "mid", 1000),
            entry("polite-citizen", "Polite Citizen", "low", 1010),
            entry("multi-share-maestro", "Multi-Share Maestro", "high", 1020),
            entry("snapshot-sage", "Snapshot Sage", "mid", 1030),
            entry("email-report-veteran", "Email Report Veteran", "low", 1040),
            entry("brisk", "Brisk", "low", 200),
        ],
    };
    let state = with_grants(
        catalog.clone(),
        vec![grant("brisk", true, None), grant("schedule-master", true, None)],
    );
    let tiles = classify_grid_entries(&state, &catalog.achievements);
    for nas_id in [
        "schedule-master",
        "polite-citizen",
        "multi-share-maestro",
        "snapshot-sage",
        "email-report-veteran",
    ] {
        assert!(is_nas_pro_locked(nas_id));
        let tile = tiles.iter().find(|t| t.entry.id == nas_id).expect("tile");
        assert!(tile.locked, "{nas_id} must classify as locked");
        assert!(!tile.granted, "{nas_id} must not classify as granted");
    }
    let brisk = tiles.iter().find(|t| t.entry.id == "brisk").unwrap();
    assert!(!brisk.locked);
    assert!(brisk.granted);
}

fn parsed(id: &str) -> (String, Option<u16>) {
    parse_grant_id(id)
}

#[test]
fn parse_grant_id_splits_recurring_annual_suffix() {
    assert_eq!(parsed("holiday-cleaner"), ("holiday-cleaner".to_string(), None));
    assert_eq!(parsed("holiday-cleaner#2026"), ("holiday-cleaner".to_string(), Some(2026)));
    assert_eq!(
        parsed("new-years-resolution#2025"),
        ("new-years-resolution".to_string(), Some(2025))
    );
}

#[test]
fn parse_grant_id_rejects_malformed_suffix() {
    assert_eq!(parsed("holiday-cleaner#"), ("holiday-cleaner#".to_string(), None));
    assert_eq!(parsed("holiday-cleaner#abc"), ("holiday-cleaner#abc".to_string(), None));
    assert_eq!(parsed("#2026"), ("#2026".to_string(), None));
    assert_eq!(
        parsed("holiday#cleaner#2026"),
        ("holiday#cleaner#2026".to_string(), None)
    );
}

#[test]
fn recurring_annual_grants_aggregate_under_base_id() {
    let catalog = Catalog {
        version: "v1".to_string(),
        achievements: vec![
            entry("holiday-cleaner", "Holiday Cleaner", "low", 700),
            entry("brisk", "Brisk", "low", 200),
        ],
    };
    let state = with_grants(
        catalog.clone(),
        vec![
            grant("holiday-cleaner#2025", true, Some("2025-12-28T10:00:00Z")),
            grant("holiday-cleaner#2026", true, Some("2026-12-29T10:00:00Z")),
        ],
    );
    let tiles = classify_grid_entries(&state, &catalog.achievements);
    let holiday = tiles
        .iter()
        .find(|t| t.entry.id == "holiday-cleaner")
        .expect("holiday-cleaner tile present");
    assert!(holiday.granted);
    assert_eq!(holiday.granted_years, vec![2025, 2026]);
    let brisk = tiles.iter().find(|t| t.entry.id == "brisk").unwrap();
    assert!(!brisk.granted);
    assert!(brisk.granted_years.is_empty());
}

#[test]
fn recurring_annual_grants_dedupe_and_sort_years() {
    let catalog = Catalog {
        version: "v1".to_string(),
        achievements: vec![entry("holiday-cleaner", "Holiday Cleaner", "low", 700)],
    };
    let state = with_grants(
        catalog.clone(),
        vec![
            grant("holiday-cleaner#2027", true, None),
            grant("holiday-cleaner#2025", true, None),
            grant("holiday-cleaner#2025", true, None),
        ],
    );
    let tiles = classify_grid_entries(&state, &catalog.achievements);
    let h = tiles.iter().find(|t| t.entry.id == "holiday-cleaner").unwrap();
    assert_eq!(h.granted_years, vec![2025, 2027]);
}

#[test]
fn ungranted_year_rows_do_not_grant_the_base() {
    let catalog = Catalog {
        version: "v1".to_string(),
        achievements: vec![entry("holiday-cleaner", "Holiday Cleaner", "low", 700)],
    };
    let state = with_grants(catalog.clone(), vec![grant("holiday-cleaner#2026", false, None)]);
    let tiles = classify_grid_entries(&state, &catalog.achievements);
    let h = tiles.iter().find(|t| t.entry.id == "holiday-cleaner").unwrap();
    assert!(!h.granted);
    assert!(h.granted_years.is_empty());
}

#[test]
fn count_grants_dedupes_recurring_annual_years() {
    let catalog = Catalog {
        version: "v1".to_string(),
        achievements: vec![
            entry("holiday-cleaner", "Holiday Cleaner", "low", 700),
            entry("brisk", "Brisk", "low", 200),
        ],
    };
    let state = with_grants(
        catalog,
        vec![
            grant("holiday-cleaner#2025", true, None),
            grant("holiday-cleaner#2026", true, None),
            grant("brisk", true, None),
        ],
    );
    assert_eq!(count_grants(&state), (2, 2));
}

#[test]
fn locked_tiles_sort_to_bottom_of_grid() {
    let catalog = Catalog {
        version: "v1".to_string(),
        achievements: vec![
            entry("schedule-master", "Schedule Master", "mid", 1000),
            entry("brisk", "Brisk", "low", 200),
            entry("tidy-up", "Tidy-up", "low", 100),
        ],
    };
    let state = with_grants(catalog.clone(), vec![grant("brisk", true, None)]);
    let tiles = classify_grid_entries(&state, &catalog.achievements);
    let ordered_ids: Vec<&str> = tiles.iter().map(|t| t.entry.id.as_str()).collect();
    assert_eq!(ordered_ids, vec!["brisk", "tidy-up", "schedule-master"]);
}

#[test]
fn count_grants_counts_only_granted() {
    let state = with_grants(
        Catalog {
            version: "v1".to_string(),
            achievements: vec![entry("a", "A", "low", 1), entry("b", "B", "low", 2)],
        },
        vec![grant("a", true, None), grant("b", false, None)],
    );
    assert_eq!(count_grants(&state), (1, 2));
}

#[test]
fn the_headline_counts_the_granted_tiles() {
    let catalog = five_entries();
    let state = CatalogState {
        catalog: Some(Ok(catalog.clone())),
        profile: Some(Ok(profile_from_json(LIVE_PROFILE))),
    };
    let tiles = classify_grid_entries(&state, &catalog.achievements);
    let granted = tiles.iter().filter(|t| t.granted).count();
    assert_eq!(granted, 3);
    assert_eq!(count_grants(&state), (3, 5));
}
