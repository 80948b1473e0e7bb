use hline::app::{App, Effect, KeyCode, KeyInput, ListView, Mode, ToastKind};
use hline::favorites::FavoritesStore;
use hline::history::Entry;
use hline::sort::SortMode;

fn mk_entry(id: u64, cmd: &str) -> Entry {
    Entry { id, cmd: cmd.to_string(), timestamp: None, duration_secs: None }
}

fn mk_timed_entry(id: u64, cmd: &str, timestamp: i64) -> Entry {
    Entry { id, cmd: cmd.to_string(), timestamp: Some(timestamp), duration_secs: None }
}

fn key(code: KeyCode) -> KeyInput {
    KeyInput::plain(code)
}

fn ctrl(c: char) -> KeyInput {
    KeyInput::ctrl(KeyCode::Char(c))
}

fn toast_text(app: &App) -> Option<(String, ToastKind)> {
    app.toast.as_ref().map(|t| (t.message.clone(), t.kind))
}

#[test]
fn filtering_is_case_insensitive() {
    let mut app = App::new(vec![
        mk_entry(0, "git status"),
        mk_entry(1, "Cargo test"),
        mk_entry(2, "ls -la"),
    ]);

    app.query = "CARGO".to_string();
    app.rebuild_filtered();

    assert_eq!(app.filtered, vec![1]);
}

#[test]
fn cursor_clamps_when_results_shrink() {
    let mut app = App::new(vec![mk_entry(0, "one"), mk_entry(1, "two")]);
    app.cursor = 1;

    app.query = "one".to_string();
    app.rebuild_filtered();

    assert_eq!(app.cursor, 0);
    assert_eq!(app.filtered, vec![0]);
}

#[test]
fn ctrl_u_moves_half_page_in_normal_mode() {
    let mut app = App::new(vec![
        mk_entry(0, "0"),
        mk_entry(1, "1"),
        mk_entry(2, "2"),
        mk_entry(3, "3"),
        mk_entry(4, "4"),
        mk_entry(5, "5"),
        mk_entry(6, "6"),
    ]);

    app.cursor = 5;
    app.set_viewport_height(6);
    app.handle_key(ctrl('u'));

    assert_eq!(app.cursor, 2);
}

#[test]
fn ctrl_u_clears_query_in_search_mode() {
    let mut app = App::new(vec![mk_entry(0, "one"), mk_entry(1, "two")]);
    app.mode = Mode::Search;
    app.query = "on".to_string();

    app.handle_key(ctrl('u'));

    assert!(app.query.is_empty());
    assert_eq!(app.mode, Mode::Search);
    assert_eq!(app.filtered.len(), 2);
}

#[test]
fn copy_lines_follow_selection_order() {
    let mut app = App::new(vec![
        mk_entry(0, "newest"),
        mk_entry(1, "middle"),
        mk_entry(2, "oldest"),
    ]);

    app.select_entry_by_id(2);
    app.select_entry_by_id(0);

    assert_eq!(app.selected_lines_in_order(), vec!["oldest", "newest"]);

    app.selected.clear();
    app.selected_order.clear();
    app.cursor = 1;
    assert_eq!(app.selected_lines_in_order(), vec!["middle"]);
}

#[test]
fn slash_enters_search_mode() {
    let mut app = App::new(vec![mk_entry(0, "echo hi")]);

    app.handle_key(key(KeyCode::Char('/')));

    assert_eq!(app.mode, Mode::Search);
}

#[test]
fn enter_accepts_current_line_and_quits() {
    let mut app = App::new(vec![mk_entry(0, "echo hi")]);

    app.handle_key(key(KeyCode::Enter));

    assert!(app.should_quit);
    assert_eq!(app.take_accepted_output(), Some("echo hi".to_string()));
}

#[test]
fn time_filters_apply_alongside_text_search() {
    let mut app = App::new(vec![
        mk_timed_entry(0, "cargo test", 1_700_000_000),
        mk_timed_entry(1, "git status", 1_700_100_000),
        mk_entry(2, "cargo fmt"),
    ]);

    app.query = "cargo after:2023-11-14 before:2023-11-15".to_string();
    app.rebuild_filtered();

    assert_eq!(app.filtered, vec![0]);
}

#[test]
fn on_filter_excludes_entries_without_timestamps() {
    let mut app = App::new(vec![
        mk_timed_entry(0, "cargo test", 1_700_000_000),
        mk_entry(1, "cargo fmt"),
    ]);

    app.query = "on:2023-11-14".to_string();
    app.rebuild_filtered();

    assert_eq!(app.filtered, vec![0]);
}

#[test]
fn saving_selection_creates_favorite_block() {
    let mut app = App::new(vec![
        mk_entry(0, "npm run db:migrate"),
        mk_entry(1, "npx prisma generate"),
    ]);

    app.select_entry_by_id(0);
    app.select_entry_by_id(1);
    app.handle_key(key(KeyCode::Char('f')));

    assert_eq!(app.favorites.blocks.len(), 1);
    assert_eq!(app.favorites.blocks[0].lines, vec!["npm run db:migrate", "npx prisma generate"]);
}

#[test]
fn favorites_view_accepts_whole_block_and_tracks_current_line() {
    let mut favorites = FavoritesStore::new_in_memory();
    favorites.add_block(vec!["npm run db:migrate".to_string(), "npx prisma generate".to_string()]);
    let mut app = App::with_favorites(vec![mk_entry(0, "echo hi")], favorites);

    app.handle_key(key(KeyCode::Char('F')));
    app.favorite_cursor = 1;
    assert_eq!(app.current_favorite_line(), Some("npm run db:migrate"));

    app.handle_key(key(KeyCode::Enter));
    assert_eq!(
        app.take_accepted_output(),
        Some("npm run db:migrate\nnpx prisma generate".to_string())
    );
}

#[test]
fn favorites_view_moves_by_block_with_uppercase_j_k() {
    let mut favorites = FavoritesStore::new_in_memory();
    favorites.add_block(vec!["one".to_string(), "two".to_string()]);
    favorites.add_block(vec!["three".to_string()]);
    let mut app = App::with_favorites(vec![mk_entry(0, "echo hi")], favorites);

    app.handle_key(key(KeyCode::Char('F')));
    assert_eq!(app.favorite_rows[0].block_index, 0);

    app.handle_key(key(KeyCode::Char('J')));
    assert_eq!(app.favorite_rows[app.favorite_cursor].block_index, 1);

    app.handle_key(key(KeyCode::Char('K')));
    assert_eq!(app.favorite_rows[app.favorite_cursor].block_index, 0);
}

#[test]
fn selecting_then_deselecting_restores_selection() {
    let mut app = App::new(vec![mk_entry(0, "a"), mk_entry(1, "b"), mk_entry(2, "c")]);
    app.select_entry_by_id(2);
    app.select_entry_by_id(0);
    let before = app.selected_order.clone();

    app.select_entry_by_id(1);
    app.deselect_entry_by_id(1);

    assert_eq!(app.selected_order, before);
    assert_eq!(app.selected.len(), 2);
}

#[test]
fn space_toggles_selection_under_cursor() {
    let mut app = App::new(vec![mk_entry(0, "a"), mk_entry(1, "b")]);
    app.handle_key(key(KeyCode::Char('j')));
    app.handle_key(key(KeyCode::Char(' ')));
    assert_eq!(app.selected_order, vec![1]);
    app.handle_key(key(KeyCode::Char(' ')));
    assert!(app.selected_order.is_empty());
    assert!(app.selected.is_empty());
}

#[test]
fn select_all_then_clear() {
    let mut app = App::new(vec![mk_entry(0, "git a"), mk_entry(1, "ls"), mk_entry(2, "git b")]);
    app.query = "git".to_string();
    app.rebuild_filtered();
    app.handle_key(key(KeyCode::Char('a')));
    assert_eq!(app.selected_order, vec![0, 2]);
    assert_eq!(toast_text(&app), Some(("Selected 2 shown entries".to_string(), ToastKind::Info)));

    app.handle_key(key(KeyCode::Char('c')));
    assert!(app.selected_order.is_empty());
    assert_eq!(toast_text(&app), Some(("Cleared selections".to_string(), ToastKind::Info)));
}

#[test]
fn typing_then_backspace_restores_query_and_list() {
    let mut app = App::new(vec![mk_entry(0, "git status"), mk_entry(1, "ls")]);
    app.handle_key(key(KeyCode::Char('/')));
    app.handle_key(key(KeyCode::Char('g')));
    assert_eq!(app.query, "g");
    assert_eq!(app.filtered, vec![0]);
    app.handle_key(key(KeyCode::Backspace));
    assert_eq!(app.query, "");
    assert_eq!(app.filtered, vec![0, 1]);
}

#[test]
fn ctrl_w_deletes_last_word_in_search() {
    let mut app = App::new(vec![mk_entry(0, "git status")]);
    app.mode = Mode::Search;
    app.query = "git sta  ".to_string();
    app.handle_key(ctrl('w'));
    assert_eq!(app.query, "git ");
    app.handle_key(key(KeyCode::Esc));
    assert_eq!(app.mode, Mode::Normal);
}

#[test]
fn empty_query_lists_every_entry() {
    let app = App::new(vec![mk_entry(0, "a"), mk_entry(1, "b"), mk_entry(2, "c")]);
    assert_eq!(app.filtered, vec![0, 1, 2]);
    assert_eq!(app.visible_count(), 3);
    assert_eq!(app.total_count(), 3);
}

#[test]
fn copy_and_accept_take_the_same_text() {
    let mut app = App::new(vec![mk_entry(0, "one"), mk_entry(1, "two")]);
    app.select_entry_by_id(1);
    app.select_entry_by_id(0);
    let effect = app.handle_key(key(KeyCode::Char('y')));
    assert_eq!(
        effect,
        Effect::CopyToClipboard {
            payload: "two\none".to_string(),
            success_message: "Copied 2 lines".to_string(),
        }
    );
    app.handle_key(key(KeyCode::Enter));
    assert_eq!(app.take_accepted_output(), Some("two\none".to_string()));
}

#[test]
fn copy_line_and_clipboard_outcomes() {
    let mut app = App::new(vec![mk_entry(0, "one")]);
    let effect = app.handle_key(key(KeyCode::Char('Y')));
    assert_eq!(
        effect,
        Effect::CopyToClipboard {
            payload: "one".to_string(),
            success_message: "Copied current line".to_string(),
        }
    );
    app.finish_copy("Copied current line".to_string(), None);
    assert_eq!(toast_text(&app), Some(("Copied current line".to_string(), ToastKind::Info)));
    app.finish_copy("Copied current line".to_string(), Some("no display".to_string()));
    assert_eq!(
        toast_text(&app),
        Some(("Clipboard error: no display".to_string(), ToastKind::Error))
    );
}

#[test]
fn nothing_to_copy_or_accept_in_empty_list() {
    let mut app = App::new(vec![]);
    assert_eq!(app.handle_key(key(KeyCode::Char('y'))), Effect::Nothing);
    assert_eq!(toast_text(&app), Some(("Nothing to copy".to_string(), ToastKind::Error)));
    app.handle_key(key(KeyCode::Enter));
    assert_eq!(toast_text(&app), Some(("Nothing to accept".to_string(), ToastKind::Error)));
    assert!(!app.should_quit);
    app.handle_key(key(KeyCode::Char('f')));
    assert_eq!(toast_text(&app), Some(("Nothing to favorite".to_string(), ToastKind::Error)));
}

#[test]
fn saving_twice_reports_duplicate_and_file_store_asks_to_persist() {
    let store = FavoritesStore::with_path("/tmp/favorites.json".to_string(), vec![]);
    let mut app = App::with_favorites(vec![mk_entry(0, "make")], store);
    assert_eq!(
        app.handle_key(key(KeyCode::Char('f'))),
        Effect::PersistFavorites { success_message: "Saved favorite".to_string() }
    );
    app.finish_save_favorite("Saved favorite".to_string(), None);
    assert_eq!(toast_text(&app), Some(("Saved favorite".to_string(), ToastKind::Info)));
    assert_eq!(app.handle_key(key(KeyCode::Char('f'))), Effect::Nothing);
    assert_eq!(toast_text(&app), Some(("Favorite already saved".to_string(), ToastKind::Info)));
    app.finish_save_favorite("Saved favorite".to_string(), Some("disk full".to_string()));
    assert_eq!(
        toast_text(&app),
        Some(("Favorites error: disk full".to_string(), ToastKind::Error))
    );
}

#[test]
fn in_memory_save_reports_saved_at_once() {
    let mut app = App::new(vec![mk_entry(0, "make")]);
    assert_eq!(app.handle_key(key(KeyCode::Char('f'))), Effect::Nothing);
    assert_eq!(toast_text(&app), Some(("Saved favorite".to_string(), ToastKind::Info)));
}

#[test]
fn favorites_view_messages_and_block_copy() {
    let mut favorites = FavoritesStore::new_in_memory();
    favorites.add_block(vec!["a".to_string(), "b".to_string()]);
    let mut app = App::with_favorites(vec![mk_entry(0, "x")], favorites);
    app.handle_key(key(KeyCode::Char('F')));
    assert_eq!(app.view, ListView::Favorites);
    app.handle_key(key(KeyCode::Char(' ')));
    assert_eq!(
        toast_text(&app),
        Some(("Favorites use block copy, not selection".to_string(), ToastKind::Info))
    );
    app.handle_key(key(KeyCode::Char('s')));
    assert_eq!(toast_text(&app), Some(("Favorites keep saved order".to_string(), ToastKind::Info)));
    let effect = app.handle_key(key(KeyCode::Char('y')));
    assert_eq!(
        effect,
        Effect::CopyToClipboard {
            payload: "a\nb".to_string(),
            success_message: "Copied favorite with 2 lines".to_string(),
        }
    );
    app.handle_key(key(KeyCode::Char('j')));
    app.handle_key(key(KeyCode::Char('j')));
    let effect = app.handle_key(key(KeyCode::Char('Y')));
    assert_eq!(
        effect,
        Effect::CopyToClipboard {
            payload: "b".to_string(),
            success_message: "Copied current line".to_string(),
        }
    );
    assert_eq!(app.handle_key(key(KeyCode::Char('f'))), Effect::Nothing);
    assert!(app.favorites.blocks.is_empty());
    assert!(app.favorite_rows.is_empty());
    assert_eq!(app.favorite_cursor, 0);
    assert_eq!(toast_text(&app), Some(("Removed favorite".to_string(), ToastKind::Info)));
    app.handle_key(key(KeyCode::Char('f')));
    assert_eq!(toast_text(&app), Some(("No favorite selected".to_string(), ToastKind::Error)));
}

#[test]
fn f_in_favorites_view_removes_the_block_under_the_cursor() {
    let store = FavoritesStore::with_path(
        "/tmp/favorites.json".to_string(),
        vec![
            hline::favorites::FavoriteBlock { id: 2, title: None, lines: vec!["b".to_string()] },
            hline::favorites::FavoriteBlock { id: 1, title: None, lines: vec!["a".to_string()] },
        ],
    );
    let mut app = App::with_favorites(vec![], store);
    app.handle_key(key(KeyCode::Char('F')));
    app.handle_key(key(KeyCode::Char('J')));
    assert_eq!(app.favorite_cursor, 2);
    assert_eq!(
        app.handle_key(key(KeyCode::Char('f'))),
        Effect::PersistFavorites { success_message: "Removed favorite".to_string() }
    );
    assert_eq!(app.favorites.blocks.len(), 1);
    assert_eq!(app.favorites.blocks[0].id, 2);
    assert_eq!(app.favorite_rows.len(), 2);
    assert_eq!(app.favorite_cursor, 1);
    app.finish_save_favorite("Removed favorite".to_string(), None);
    assert_eq!(toast_text(&app), Some(("Removed favorite".to_string(), ToastKind::Info)));
}

#[test]
fn favorites_search_also_matches_custom_titles() {
    let mut favorites = FavoritesStore::new_in_memory();
    favorites.add_block(vec!["cargo build --release".to_string()]);
    favorites.add_block(vec!["git pull".to_string()]);
    assert!(favorites.rename_block(1, Some("Deploy".to_string())));
    let mut app = App::with_favorites(vec![], favorites);
    app.handle_key(key(KeyCode::Char('F')));
    app.query = "deploy".to_string();
    app.rebuild_favorite_rows();
    assert_eq!(app.favorite_rows.len(), 2);
    assert_eq!(app.favorite_rows[0].block_index, 1);
}

#[test]
fn favorites_search_keeps_matching_blocks_and_clear_resets_it() {
    let mut favorites = FavoritesStore::new_in_memory();
    favorites.add_block(vec!["cargo build".to_string()]);
    favorites.add_block(vec!["git pull".to_string(), "git push".to_string()]);
    let mut app = App::with_favorites(vec![], favorites);
    app.handle_key(key(KeyCode::Char('F')));
    assert_eq!(app.favorite_rows.len(), 5);
    app.handle_key(key(KeyCode::Char('/')));
    for c in "PUSH".chars() {
        app.handle_key(key(KeyCode::Char(c)));
    }
    assert_eq!(app.favorite_rows.len(), 3);
    assert_eq!(app.favorite_rows[0].block_index, 0);
    app.handle_key(key(KeyCode::Enter));
    app.handle_key(key(KeyCode::Char('c')));
    assert!(app.query.is_empty());
    assert_eq!(app.favorite_rows.len(), 5);
    assert_eq!(toast_text(&app), Some(("Cleared favorites filter".to_string(), ToastKind::Info)));
}

#[test]
fn help_swallows_keys_until_closed() {
    let mut app = App::new(vec![mk_entry(0, "a"), mk_entry(1, "b")]);
    app.handle_key(key(KeyCode::Char('?')));
    assert!(app.show_help);
    app.handle_key(key(KeyCode::Char('j')));
    assert_eq!(app.cursor, 0);
    app.handle_key(key(KeyCode::Esc));
    assert!(!app.show_help);
    app.handle_key(key(KeyCode::Char('q')));
    assert!(app.should_quit);
}

#[test]
fn jumps_and_moves_stop_at_the_ends() {
    let mut app = App::new((0..5).map(|i| mk_entry(i, "x")).collect());
    app.handle_key(key(KeyCode::Char('G')));
    assert_eq!(app.cursor, 4);
    app.handle_key(key(KeyCode::Down));
    assert_eq!(app.cursor, 4);
    app.handle_key(key(KeyCode::Char('g')));
    assert_eq!(app.cursor, 0);
    app.handle_key(key(KeyCode::Up));
    assert_eq!(app.cursor, 0);
    app.handle_key(key(KeyCode::PageDown));
    assert_eq!(app.cursor, 4);
}

#[test]
fn sort_keys_resort_the_list() {
    let mut app = App::new(vec![mk_entry(0, "bbb"), mk_entry(1, "a"), mk_entry(2, "cc")]);
    app.handle_key(key(KeyCode::Char('s')));
    assert_eq!(app.sort, SortMode::Alpha);
    assert_eq!(app.filtered, vec![1, 0, 2]);
    app.handle_key(key(KeyCode::Char('S')));
    assert!(app.sort_desc);
    assert_eq!(app.filtered, vec![2, 0, 1]);
    app.handle_key(key(KeyCode::Char('s')));
    assert_eq!(app.sort, SortMode::Length);
    assert_eq!(app.filtered, vec![0, 2, 1]);
}

#[test]
fn messages_expire_on_tick() {
    let mut app = App::new(vec![]);
    app.set_clock(1000);
    app.handle_key(key(KeyCode::Char('y')));
    assert_eq!(app.toast.as_ref().map(|t| t.expires_at_ms), Some(6000));
    app.tick(5999);
    assert!(app.toast.is_some());
    app.tick(6000);
    assert!(app.toast.is_none());
}

#[test]
fn timestamps_shown_only_in_history_with_times() {
    let mut app = App::new(vec![mk_entry(0, "a"), mk_timed_entry(1, "b", 5)]);
    assert!(app.has_timestamps());
    app.handle_key(key(KeyCode::Char('F')));
    assert!(!app.has_timestamps());
    let plain = App::new(vec![mk_entry(0, "a")]);
    assert!(!plain.has_timestamps());
}

#[test]
fn keys_never_change_the_history() {
    let entries = vec![mk_entry(0, "git status"), mk_timed_entry(1, "ls", 7), mk_entry(2, "pwd")];
    let mut app = App::new(entries.clone());
    for code in [
        KeyCode::Char('j'),
        KeyCode::Char(' '),
        KeyCode::Char('a'),
        KeyCode::Char('s'),
        KeyCode::Char('S'),
        KeyCode::Char('F'),
        KeyCode::Char('J'),
        KeyCode::Char('F'),
        KeyCode::Char('/'),
        KeyCode::Char('l'),
        KeyCode::Backspace,
        KeyCode::Esc,
        KeyCode::Char('c'),
        KeyCode::Char('G'),
    ] {
        app.handle_key(key(code));
        assert_eq!(app.all, entries);
    }
    assert!(app.favorites.blocks.is_empty());
}

#[test]
fn search_ignores_ascii_case_both_ways() {
    let mut app = App::new(vec![mk_entry(0, "GIT Status"), mk_entry(1, "ls")]);
    app.query = "git sTATUS".to_string();
    app.rebuild_filtered();
    assert_eq!(app.filtered, vec![0]);
}

#[test]
fn well_formedness_is_checked_at_run_time() {
    let mut app = App::new(vec![mk_entry(0, "a"), mk_entry(1, "b")]);
    assert!(app.is_well_formed());
    app.handle_key(key(KeyCode::Char(' ')));
    app.handle_key(key(KeyCode::Char('j')));
    app.handle_key(key(KeyCode::Char(' ')));
    assert!(app.is_well_formed());
    app.cursor = 5;
    assert!(!app.is_well_formed());
    app.cursor = 0;
    app.filtered = vec![0, 0];
    assert!(!app.is_well_formed());
    app.filtered = vec![1, 0];
    assert!(app.is_well_formed());
    app.selected_order.push(1);
    assert!(!app.is_well_formed());
    app.selected_order.pop();
    app.selected.insert(9);
    assert!(!app.is_well_formed());
    app.selected.remove(&9);
    app.filtered.push(7);
    assert!(!app.is_well_formed());
}

#[test]
fn since_and_until_filter_like_after_and_before() {
    let entries = vec![
        mk_timed_entry(0, "cargo test", 1_700_000_000),
        mk_timed_entry(1, "git status", 1_700_100_000),
        mk_entry(2, "cargo fmt"),
    ];
    let mut a = App::new(entries.clone());
    a.query = "cargo after:2023-11-14 before:2023-11-15".to_string();
    a.rebuild_filtered();
    let mut b = App::new(entries.clone());
    b.query = "cargo since:2023-11-14 until:2023-11-15".to_string();
    b.rebuild_filtered();
    assert_eq!(a.filtered, b.filtered);
    assert_eq!(b.filtered, vec![0]);
    let mut c = App::new(entries);
    c.query = "since:1700050000".to_string();
    c.rebuild_filtered();
    assert_eq!(c.filtered, vec![1]);
}

#[test]
fn timestamp_sort_from_the_keyboard() {
    let mut app = App::new(vec![
        mk_timed_entry(0, "old", 5),
        mk_entry(1, "none"),
        mk_timed_entry(2, "new", 9),
    ]);
    for _ in 0..3 {
        app.handle_key(key(KeyCode::Char('s')));
    }
    assert_eq!(app.sort, SortMode::Timestamp);
    assert_eq!(app.filtered, vec![2, 0, 1]);
    assert_eq!(app.status_sort_text(), "Timestamp (newest-first)");
}

#[test]
fn r_renames_the_favorite_and_an_empty_title_restores_the_default() {
    let mut favorites = FavoritesStore::new_in_memory();
    favorites.add_block(vec!["cargo build".to_string()]);
    let mut app = App::with_favorites(vec![], favorites);
    app.handle_key(key(KeyCode::Char('r')));
    assert_eq!(app.mode, Mode::Normal);
    app.handle_key(key(KeyCode::Char('F')));
    app.handle_key(key(KeyCode::Char('r')));
    assert_eq!(app.mode, Mode::Rename);
    assert_eq!(app.rename_input, "");
    for c in "build".chars() {
        app.handle_key(key(KeyCode::Char(c)));
    }
    app.handle_key(key(KeyCode::Backspace));
    app.handle_key(key(KeyCode::Char('d')));
    assert_eq!(app.handle_key(key(KeyCode::Enter)), Effect::Nothing);
    assert_eq!(app.mode, Mode::Normal);
    assert_eq!(app.favorites.blocks[0].display_title(), "build");
    assert_eq!(toast_text(&app), Some(("Renamed favorite".to_string(), ToastKind::Info)));

    app.handle_key(key(KeyCode::Char('r')));
    assert_eq!(app.rename_input, "build");
    app.handle_key(KeyInput::ctrl(KeyCode::Char('u')));
    assert_eq!(app.rename_input, "");
    app.handle_key(key(KeyCode::Enter));
    assert_eq!(app.favorites.blocks[0].title, None);
    assert_eq!(app.favorites.blocks[0].display_title(), "fav1");

    app.handle_key(key(KeyCode::Char('r')));
    app.handle_key(key(KeyCode::Char('x')));
    app.handle_key(key(KeyCode::Esc));
    assert_eq!(app.mode, Mode::Normal);
    assert_eq!(app.favorites.blocks[0].title, None);
}

#[test]
fn renaming_a_stored_favorite_asks_to_persist() {
    let store = FavoritesStore::with_path(
        "/tmp/favorites.json".to_string(),
        vec![hline::favorites::FavoriteBlock { id: 4, title: None, lines: vec!["ls".to_string()] }],
    );
    let mut app = App::with_favorites(vec![], store);
    app.handle_key(key(KeyCode::Char('F')));
    app.handle_key(key(KeyCode::Char('r')));
    app.handle_key(key(KeyCode::Char('l')));
    assert_eq!(
        app.handle_key(key(KeyCode::Enter)),
        Effect::PersistFavorites { success_message: "Renamed favorite".to_string() }
    );
    assert_eq!(app.favorites.blocks[0].title, Some("l".to_string()));
}
