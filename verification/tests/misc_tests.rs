use hline::favorites::{AddFavoriteResult, FavoritesStore};
use hline::query::{
    combine_day_bounds, day_request, parse_day_range, parse_time_value, time_request, ParsedQuery,
    TimeRequest,
};
use hline::settings::{init_snippet, parse_key, Behaviour, Key, Settings};
use hline::update::{
    available_message, cache_is_fresh, compare_versions, current_version_text, up_to_date_message,
    update_available, update_command_message, update_source, version_parts, UpdateInfo,
    UpdateSource,
};
use std::cmp::Ordering;

#[test]
fn add_block_rejects_duplicates() {
    let mut store = FavoritesStore::new_in_memory();
    let lines = vec!["npm run db:migrate".to_string(), "npx prisma generate".to_string()];
    assert_eq!(store.add_block(lines.clone()), AddFavoriteResult::Added(1));
    assert_eq!(store.add_block(lines), AddFavoriteResult::Duplicate(1));
    assert_eq!(store.blocks.len(), 1);
}

#[test]
fn behaviour_controls_copy_and_run() {
    assert!(!Behaviour::Print.copies() && !Behaviour::Print.runs());
    assert!(Behaviour::Copy.copies() && !Behaviour::Copy.runs());
    assert!(Behaviour::Full.copies() && Behaviour::Full.runs());
}

#[test]
fn parses_key_specs() {
    assert_eq!(parse_key("ctrl-r").unwrap(), Key::Ctrl('r'));
    assert_eq!(parse_key("Alt+F").unwrap(), Key::Alt('f'));
    assert!(parse_key("r").is_err());
    assert!(parse_key("ctrl-rr").is_err());
    assert!(parse_key("shift-r").is_err());
}

#[test]
fn snippets_use_configured_key() {
    let settings = Settings { shell_key: "alt-f".to_string(), ..Settings::default() };
    assert!(init_snippet("bash", &settings).unwrap().contains(r#"'"\ef":hline-widget'"#));
    assert!(init_snippet("zsh", &settings).unwrap().contains("bindkey '^[f'"));
    assert!(init_snippet("fish", &settings).unwrap().contains("bind \\ef hline-widget"));
    assert!(init_snippet("zsh", &Settings::default()).unwrap().contains("bindkey '^R'"));
    assert!(init_snippet("nu", &settings).is_err());
}

#[test]
fn compares_versions_without_v_prefix() {
    assert_eq!(compare_versions("v0.1.6", "v0.1.5"), Ordering::Greater);
    assert_eq!(compare_versions("0.1.5", "v0.1.5"), Ordering::Equal);
    assert_eq!(compare_versions("v0.1.4", "v0.1.5"), Ordering::Less);
}

#[test]
fn version_parts_and_update_decision() {
    assert_eq!(version_parts("v1.20.3-rc1"), vec![1, 20, 3, 1]);
    assert_eq!(version_parts("v99999999999999999999.1"), vec![0, 1]);
    assert!(update_available(Some("v0.3.0".to_string()), "v0.2.2".to_string()).is_some());
    assert!(update_available(Some("v0.2.2".to_string()), "v0.2.2".to_string()).is_none());
    assert!(update_available(None, "v0.2.2".to_string()).is_none());
    assert!(cache_is_fresh(100, 100 + 86_400));
    assert!(!cache_is_fresh(100, 100 + 86_401));
    assert!(cache_is_fresh(500, 100));
}

#[test]
fn update_messages() {
    assert_eq!(current_version_text("0.2.2"), "v0.2.2");
    let info = UpdateInfo { current_version: "v0.2.2".to_string(), latest_tag: "v0.3.0".to_string() };
    assert_eq!(available_message(&info), "hline v0.3.0 is available. You have v0.2.2.");
    assert_eq!(up_to_date_message("v0.2.2"), "hline v0.2.2 is up to date.");
    assert!(update_command_message().starts_with("Update: curl -fsSL "));
}

#[test]
fn aliases_match_titles_ignoring_case_then_unique_prefix() {
    let mut store = FavoritesStore::new_in_memory();
    store.add_block(vec!["make".to_string()]);
    store.add_block(vec!["cargo test".to_string()]);
    store.add_block(vec!["git pull".to_string()]);
    assert!(store.rename_block(1, Some("Build".to_string())));
    // blocks: fav3, Build, fav1
    assert_eq!(store.find_by_alias("build"), Ok(1));
    assert_eq!(store.find_by_alias("BU"), Ok(1));
    assert_eq!(store.find_by_alias("fav1"), Ok(2));
    assert_eq!(store.find_by_alias("FAV3"), Ok(0));
    assert_eq!(store.find_by_alias("fav"), Err(vec!["fav3".to_string(), "fav1".to_string()]));
    assert_eq!(store.find_by_alias("deploy"), Err(vec![]));
}

#[test]
fn listing_shows_titles_then_indented_lines() {
    let mut store = FavoritesStore::new_in_memory();
    store.add_block(vec!["a".to_string(), "b".to_string()]);
    store.add_block(vec!["c".to_string()]);
    assert_eq!(store.listing(), vec!["fav2", "  c", "fav1", "  a", "  b"]);
}

#[test]
fn remove_and_rename_blocks_in_memory() {
    let mut store = FavoritesStore::new_in_memory();
    store.add_block(vec!["first".to_string()]);
    store.add_block(vec!["second".to_string()]);
    let removed = store.remove_block(0);
    assert_eq!(removed.map(|block| block.lines), Some(vec!["second".to_string()]));
    assert!(store.remove_block(5).is_none());
    assert_eq!(store.blocks.len(), 1);
    // Untitled favorites are titled favN since release 0.2.1 (they work as
    // aliases from the start); this expected value used to be "favorite 1".
    assert_eq!(store.blocks[0].display_title(), "fav1");
    assert!(store.rename_block(0, Some("build stuff".to_string())));
    assert!(!store.rename_block(5, None));
    assert_eq!(store.blocks[0].display_title(), "build stuff");
}

#[test]
fn time_requests_fix_the_wall_clock_handed_to_the_time_zone() {
    assert_eq!(time_request("1700000000", false), TimeRequest::Unix(1_700_000_000));
    assert_eq!(time_request("2023-11-14", false), TimeRequest::Local(2023, 11, 14, 0, 0, 0));
    assert_eq!(time_request("2023-11-14", true), TimeRequest::Local(2023, 11, 14, 23, 59, 59));
    assert_eq!(time_request("2023-11-14T10:30", true), TimeRequest::Local(2023, 11, 14, 10, 30, 0));
    assert_eq!(time_request("2023-11-14T10:30:05", false), TimeRequest::Local(2023, 11, 14, 10, 30, 5));
    assert_eq!(time_request("yesterday", false), TimeRequest::Invalid);
    assert_eq!(
        day_request("2023-11-14"),
        Some(((2023, 11, 14, 0, 0, 0), (2023, 11, 14, 23, 59, 59)))
    );
    assert_eq!(day_request("14/11/2023"), None);
    assert_eq!(combine_day_bounds(Some(1), Some(2)), Some((1, 2)));
    assert_eq!(combine_day_bounds(None, Some(2)), None);
    assert_eq!(combine_day_bounds(Some(1), None), None);
}

#[test]
fn update_source_prefers_a_fresh_cache_unless_forced() {
    let now = 1_000_000;
    assert_eq!(
        update_source(true, Some(now), now),
        UpdateSource::Fetch { tolerate_failure: false }
    );
    assert_eq!(update_source(false, Some(now - 86_400), now), UpdateSource::Cache);
    assert_eq!(update_source(false, Some(now + 5), now), UpdateSource::Cache);
    assert_eq!(
        update_source(false, Some(now - 86_401), now),
        UpdateSource::Fetch { tolerate_failure: true }
    );
    assert_eq!(update_source(false, None, now), UpdateSource::Fetch { tolerate_failure: true });
}

#[test]
fn local_times_fall_within_a_day_of_the_wall_clock_read_as_utc() {
    // 2024-03-05T10:20:00 read as UTC.
    let wall = 1_709_634_000i64;
    let t = parse_time_value("2024-03-05T10:20", false).expect("an ordinary time exists");
    assert!((t - wall).abs() < 86_400);
    assert_eq!(parse_time_value("2024-03-05T10:20:00", false), Some(t));
    let (start, end) = parse_day_range("2024-03-05").expect("an ordinary day exists");
    assert!((start - 1_709_596_800).abs() < 86_400);
    assert!((end - 1_709_683_199).abs() < 86_400);
    assert_eq!(parse_time_value("2024-03-05", false), Some(start));
    assert_eq!(parse_time_value("2024-03-05", true), Some(end));
    assert_eq!(parse_time_value("2024-02-30", false), None);
    assert_eq!(parse_time_value("1700000000", true), Some(1_700_000_000));
    assert_eq!(parse_day_range("2024-13-01"), None);
}

#[test]
fn since_with_a_date_parses_like_after() {
    let a = ParsedQuery::parse("git after:2024-03-05T10:20 log");
    let b = ParsedQuery::parse("git since:2024-03-05T10:20 log");
    assert_eq!(a.text, b.text);
    assert_eq!(a.after, b.after);
    assert_eq!(a.before, b.before);
    assert_eq!(a.text, "git log");
    let c = ParsedQuery::parse("until:2024-03-05");
    assert_eq!(c.before, parse_time_value("2024-03-05", true));
    assert_eq!(c.after, None);
}
