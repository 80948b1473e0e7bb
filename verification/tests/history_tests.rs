use hline::history::{default_history_path, detect_history_format, parse_history, Entry, HistoryFormat};
use hline::paths::{
    default_favorites_path, default_update_cache_path, HistoryPathProbe, PathEnv,
};
use hline::settings::settings_path;

fn env_with_home(home: &str) -> PathEnv {
    let mut env = PathEnv::empty();
    env.home = Some(home.to_string());
    env
}

fn no_files() -> HistoryPathProbe {
    HistoryPathProbe { bash: false, zsh: false, fish: false, legacy_fish: false }
}

fn cmds(entries: &[Entry]) -> Vec<&str> {
    entries.iter().map(|e| e.cmd.as_str()).collect()
}

#[test]
fn load_bash_history_ignores_empty_and_trims_crlf() {
    let entries = parse_history("history", "echo one\r\n\n  \r\nls -la\r\n\npwd\n", HistoryFormat::Bash);
    assert_eq!(cmds(&entries), vec!["pwd", "ls -la", "  ", "echo one"]);
    assert_eq!(entries[0].id, 0);
    assert_eq!(entries[1].id, 1);
    assert!(entries.iter().all(|entry| entry.timestamp.is_none()));
}

#[test]
fn load_bash_history_preserves_timestamps() {
    let entries = parse_history(
        "history",
        "#1700000000\nls\n#1700000123\ngit status\npwd\n",
        HistoryFormat::Bash,
    );
    assert_eq!(cmds(&entries), vec!["pwd", "git status", "ls"]);
    assert_eq!(entries[0].timestamp, None);
    assert_eq!(entries[1].timestamp, Some(1_700_000_123));
    assert_eq!(entries[2].timestamp, Some(1_700_000_000));
}

#[test]
fn load_zsh_history_parses_extended_metadata() {
    let entries = parse_history(
        "history",
        ": 1700000000:12;git status\nplain command\n: 1700000100:0;cargo test\n",
        HistoryFormat::Zsh,
    );
    assert_eq!(entries[0].cmd, "cargo test");
    assert_eq!(entries[0].timestamp, Some(1_700_000_100));
    assert_eq!(entries[0].duration_secs, Some(0));
    assert_eq!(entries[1].cmd, "plain command");
    assert_eq!(entries[1].timestamp, None);
    assert_eq!(entries[2].cmd, "git status");
    assert_eq!(entries[2].duration_secs, Some(12));
}

#[test]
fn load_fish_history_parses_cmd_and_when() {
    let entries = parse_history(
        "history",
        "- cmd: git status\n  when: 1700000000\n- cmd: cargo test\n  when: 1700000500\n",
        HistoryFormat::Fish,
    );
    assert_eq!(entries[0].cmd, "cargo test");
    assert_eq!(entries[0].timestamp, Some(1_700_000_500));
    assert_eq!(entries[1].cmd, "git status");
    assert_eq!(entries[1].timestamp, Some(1_700_000_000));
}

#[test]
fn auto_detection_uses_content_and_filename() {
    let entries = parse_history("/tmp/tmpfile", ": 1700000000:0;git status\n", HistoryFormat::Auto);
    assert_eq!(entries[0].timestamp, Some(1_700_000_000));
    assert_eq!(detect_history_format(".zsh_history", ""), HistoryFormat::Zsh);
    assert_eq!(detect_history_format("fish_history", ""), HistoryFormat::Fish);
}

#[test]
fn default_history_path_points_to_requested_shell_history() {
    let env = env_with_home("/home/user");
    let probe = no_files();
    let path = default_history_path(HistoryFormat::Bash, &env, &probe);
    assert!(path.ends_with(".bash_history"));
    assert!(default_history_path(HistoryFormat::Zsh, &env, &probe).ends_with(".zsh_history"));
    assert!(default_history_path(HistoryFormat::Fish, &env, &probe).ends_with("fish_history"));
}

#[test]
fn history_paths_follow_home_and_xdg() {
    let mut env = env_with_home("/home/user/");
    let probe = no_files();
    assert_eq!(default_history_path(HistoryFormat::Bash, &env, &probe), "/home/user/.bash_history");
    assert_eq!(
        default_history_path(HistoryFormat::Fish, &env, &probe),
        "/home/user/.local/share/fish/fish_history"
    );
    env.xdg_data_home = Some("/data".to_string());
    assert_eq!(default_history_path(HistoryFormat::Fish, &env, &probe), "/data/fish/fish_history");
    let legacy_only = HistoryPathProbe { bash: false, zsh: false, fish: false, legacy_fish: true };
    assert_eq!(
        default_history_path(HistoryFormat::Fish, &env, &legacy_only),
        "/home/user/.config/fish/fish_history"
    );
    let env = PathEnv::empty();
    assert_eq!(default_history_path(HistoryFormat::Zsh, &env, &probe), "./.zsh_history");
}

#[test]
fn auto_history_path_prefers_login_shell_then_existing_files() {
    let mut env = env_with_home("/h");
    env.shell = Some("/usr/bin/zsh".to_string());
    assert_eq!(default_history_path(HistoryFormat::Auto, &env, &no_files()), "/h/.zsh_history");
    env.shell = Some("/bin/tcsh".to_string());
    let zsh_exists = HistoryPathProbe { bash: false, zsh: true, fish: false, legacy_fish: false };
    assert_eq!(default_history_path(HistoryFormat::Auto, &env, &zsh_exists), "/h/.zsh_history");
    assert_eq!(default_history_path(HistoryFormat::Auto, &env, &no_files()), "/h/.bash_history");
}

#[test]
fn bash_timestamp_needs_digits_only_and_dates_next_command() {
    let entries = parse_history("h", "#12a\n#\n#99\n\necho\n", HistoryFormat::Bash);
    assert_eq!(cmds(&entries), vec!["echo", "#", "#12a"]);
    assert_eq!(entries[0].timestamp, Some(99));
    assert_eq!(entries[1].timestamp, None);
}

#[test]
fn zsh_lines_with_bad_metadata_are_plain_commands() {
    let entries = parse_history("h", ": x:1;ls\n: 5:2;\n", HistoryFormat::Zsh);
    assert_eq!(entries[1].cmd, ": x:1;ls");
    assert_eq!(entries[1].timestamp, None);
    assert_eq!(entries[0].cmd, "");
    assert_eq!(entries[0].timestamp, Some(5));
    assert_eq!(entries[0].duration_secs, Some(2));
}

#[test]
fn fish_when_before_first_cmd_is_dropped() {
    let entries = parse_history("h", "  when: 5\n- cmd: ls\n- cmd: pwd\n  when: 7\n  when: 9\n", HistoryFormat::Fish);
    assert_eq!(cmds(&entries), vec!["pwd", "ls"]);
    assert_eq!(entries[0].timestamp, Some(9));
    assert_eq!(entries[1].timestamp, None);
}

#[test]
fn detection_reads_first_non_empty_line() {
    assert_eq!(detect_history_format("x", "\n\n- cmd: ls\n"), HistoryFormat::Fish);
    assert_eq!(detect_history_format("x", "#1\nls\n"), HistoryFormat::Bash);
    assert_eq!(detect_history_format("dir/.bash_history/", ": 1:0;ls\n"), HistoryFormat::Bash);
    assert_eq!(detect_history_format("x", "ls\n: 1:0;ls\n"), HistoryFormat::Bash);
}

#[test]
fn uses_xdg_cache_home_when_present() {
    let mut env = PathEnv::empty();
    env.xdg_cache_home = Some("/tmp/hline-cache-test".to_string());
    assert_eq!(default_update_cache_path(&env), "/tmp/hline-cache-test/hline/update.json");
}

#[test]
fn config_and_cache_paths_fall_back_to_home_then_current_directory() {
    let home = env_with_home("/home/u");
    assert_eq!(default_update_cache_path(&home), "/home/u/.cache/hline/update.json");
    assert_eq!(default_favorites_path(&home), "/home/u/.config/hline/favorites.json");
    assert_eq!(settings_path(&home), "/home/u/.config/hline/settings.json");
    let mut xdg = env_with_home("/home/u");
    xdg.xdg_config_home = Some("/cfg/".to_string());
    assert_eq!(default_favorites_path(&xdg), "/cfg/hline/favorites.json");
    let none = PathEnv::empty();
    assert_eq!(default_update_cache_path(&none), "./.hline-update.json");
    assert_eq!(default_favorites_path(&none), "./.hline-favorites.json");
}
