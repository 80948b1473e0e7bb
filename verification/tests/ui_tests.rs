use hline::app::{App, KeyCode, KeyInput};
use hline::ui::{centered_scroll, format_history_label, timestamp_text};

#[test]
fn centered_scroll_stays_zero_when_list_fits() {
    assert_eq!(centered_scroll(5, 10, 12), 0);
}

#[test]
fn centered_scroll_keeps_cursor_centered() {
    assert_eq!(centered_scroll(10, 100, 20), 0);
    assert_eq!(centered_scroll(15, 100, 20), 5);
    assert_eq!(centered_scroll(95, 100, 20), 80);
}

#[test]
fn centered_scroll_clamps_near_end() {
    assert_eq!(centered_scroll(9, 10, 4), 6);
}

#[test]
fn entry_label_includes_timestamp_when_enabled() {
    let label = format_history_label("[ ]", "cargo test", Some(1_700_000_000), true);
    assert!(label.contains("cargo test"));
    assert!(label.contains('|'));
}

#[test]
fn entry_label_without_timestamps_or_time() {
    assert_eq!(format_history_label("[x]", "ls", Some(5), false), "[x] ls");
    assert_eq!(format_history_label("[ ]", "ls", None, true), "[ ] ------------------- | ls");
}

#[test]
fn missing_local_time_shows_seconds() {
    assert_eq!(timestamp_text(None, -42), "ts:-42");
    assert_eq!(timestamp_text(Some("2023".to_string()), 1), "2023");
}

#[test]
fn favorite_label_indents_lines() {
    let mut favorites = hline::favorites::FavoritesStore::new_in_memory();
    favorites.add_block(vec!["npm run db:migrate".to_string(), "npx prisma generate".to_string()]);
    let app = hline::app::App::with_favorites(
        vec![hline::history::Entry {
            id: 0,
            cmd: "echo hi".to_string(),
            timestamp: None,
            duration_secs: None,
        }],
        favorites,
    );

    let label = hline::status::format_favorite_label(
        &app,
        hline::app::FavoriteRow { block_index: 0, line_index: Some(1) },
    );
    assert!(label.starts_with("    [ ] "));
}

#[test]
fn favorite_headers_and_missing_blocks() {
    let mut favorites = hline::favorites::FavoritesStore::new_in_memory();
    favorites.add_block(vec!["one".to_string()]);
    favorites.add_block(vec!["two".to_string(), "three".to_string()]);
    let app = hline::app::App::with_favorites(vec![], favorites);
    let label = |block_index, line_index| {
        hline::status::format_favorite_label(
            &app,
            hline::app::FavoriteRow { block_index, line_index },
        )
    };
    assert_eq!(label(0, None), "[ ] favorite 2 (2 lines)");
    assert_eq!(label(1, None), "[ ] favorite 1 (1 line)");
    assert_eq!(label(0, Some(1)), "    [ ] three");
    assert_eq!(label(7, None), "[ ] missing favorite");
}

#[test]
fn list_window_follows_cursor() {
    assert_eq!(hline::ui::list_window(15, 100, 20), (5, 25, 10));
    assert_eq!(hline::ui::list_window(3, 2, 0), (0, 1, 3));
    assert_eq!(hline::ui::list_window(9, 10, 4), (6, 10, 3));
}

#[test]
fn status_bar_texts() {
    let mut app = App::new(vec![
        hline::history::Entry { id: 0, cmd: "ls".to_string(), timestamp: None, duration_secs: None },
        hline::history::Entry { id: 1, cmd: "pwd".to_string(), timestamp: None, duration_secs: None },
    ]);
    assert_eq!(app.list_title(), "hline");
    assert_eq!(app.status_sort_text(), "Recency (newest-first)");
    assert_eq!(app.status_filter_text(), "no filter");
    assert_eq!(app.empty_list_text(), "No matches");
    app.select_entry_by_id(1);
    assert_eq!(
        app.status_line(),
        "sort: Recency (newest-first) | filter: no filter | 2 total | 2 shown | 1 selected | \
         enter=accept  y=copy  f=save fav  F=favorites  /=search  s=sort  space=select  q=quit"
    );
    assert_eq!(app.history_row_label(1, false), "[x] pwd");
    assert_eq!(app.history_row_label(0, true), "[ ] ------------------- | ls");
    app.handle_key(KeyInput::plain(KeyCode::Char('S')));
    assert_eq!(app.status_sort_text(), "Recency (oldest-first)");
    app.handle_key(KeyInput::plain(KeyCode::Char('s')));
    assert_eq!(app.status_sort_text(), "Alpha (Z->A)");
    app.handle_key(KeyInput::plain(KeyCode::Char('F')));
    assert_eq!(app.list_title(), "favorites");
    assert_eq!(app.status_context_text(), "favorites: 0 blocks");
    assert_eq!(app.empty_list_text(), "No favorites");
    app.handle_key(KeyInput::plain(KeyCode::Char('s')));
    assert_eq!(
        app.status_line(),
        "favorites: 0 blocks | filter: no filter | 0 rows shown | \
         enter=accept fav  y=copy fav  Y=copy line  J/K=block  F=history  /=search  q=quit | \
         Favorites keep saved order"
    );
}

#[test]
fn local_time_has_date_and_clock_fields() {
    let text = hline::ui::format_timestamp(1_700_000_000);
    let chars: Vec<char> = text.chars().collect();
    assert_eq!(chars.len(), 19);
    assert_eq!(chars[4], '-');
    assert_eq!(chars[7], '-');
    assert_eq!(chars[10], ' ');
    assert_eq!(chars[13], ':');
    assert_eq!(chars[16], ':');
    assert!(text.starts_with("2023-11-1"));
}
