//! Paths of the files the program reads and writes, computed from the
//! environment variables that name the user's directories, and the file
//! name of a path. Paths are `/`-separated strings.
use vstd::prelude::*;

use crate::text::{chars_of, copy_range, push_str, same_chars, string_from_chars};

verus! {

/// The environment variables that decide where files live; `None` where a
/// variable is unset.
pub struct PathEnv {
    pub home: Option<String>,
    pub shell: Option<String>,
    pub xdg_data_home: Option<String>,
    pub xdg_config_home: Option<String>,
    pub xdg_cache_home: Option<String>,
}

impl PathEnv {
    /// An environment with no variable set.
    pub fn empty() -> (env: PathEnv)
        ensures
            env.home is None,
            env.shell is None,
            env.xdg_data_home is None,
            env.xdg_config_home is None,
            env.xdg_cache_home is None,
    {
        PathEnv {
            home: None,
            shell: None,
            xdg_data_home: None,
            xdg_config_home: None,
            xdg_cache_home: None,
        }
    }
}

/// Which of the candidate history files exist, in the order of
/// `history_path_candidates`: bash, zsh, fish, and fish's older location.
pub struct HistoryPathProbe {
    pub bash: bool,
    pub zsh: bool,
    pub fish: bool,
    pub legacy_fish: bool,
}

/// `base` joined with the relative component `comp`, as `PathBuf::push`
/// does: a separator goes between them unless `base` is empty or already
/// ends with one.
pub open spec fn join(base: Seq<char>, comp: Seq<char>) -> Seq<char> {
    if base.len() == 0 || base.last() == '/' {
        base + comp
    } else {
        base + seq!['/'] + comp
    }
}

/// `base` joined with `comp`.
pub fn join_path(base: &Vec<char>, comp: &str) -> (out: Vec<char>)
    ensures
        out@ == join(base@, comp@),
{
    let mut out = copy_range(base, 0, base.len());
    assert(out@ =~= base@);
    if base.len() > 0 && base[base.len() - 1] != '/' {
        out.push('/');
    }
    push_str(&mut out, comp);
    out
}

/// The characters of an optional variable.
pub open spec fn var(v: Option<String>) -> Option<Seq<char>> {
    match v {
        Some(s) => Some(s@),
        None => None,
    }
}

fn var_chars(v: &Option<String>) -> (r: Option<Vec<char>>)
    ensures
        r matches Some(c) ==> var(*v) == Some(c@),
        r is None ==> var(*v) is None,
{
    match v {
        Some(s) => Some(chars_of(s.as_str())),
        None => None,
    }
}

/// The home directory: `$HOME`, else `.`.
pub open spec fn home_dir(env: PathEnv) -> Seq<char> {
    match var(env.home) {
        Some(h) => h,
        None => "."@,
    }
}

fn home_dir_of(env: &PathEnv) -> (out: Vec<char>)
    ensures
        out@ == home_dir(*env),
{
    match var_chars(&env.home) {
        Some(h) => h,
        None => chars_of("."),
    }
}

/// `~/.bash_history`.
pub open spec fn bash_history_path(env: PathEnv) -> Seq<char> {
    join(home_dir(env), ".bash_history"@)
}

/// `~/.zsh_history`.
pub open spec fn zsh_history_path(env: PathEnv) -> Seq<char> {
    join(home_dir(env), ".zsh_history"@)
}

/// `$XDG_DATA_HOME/fish/fish_history`, else `~/.local/share/fish/fish_history`.
pub open spec fn fish_primary_path(env: PathEnv) -> Seq<char> {
    match var(env.xdg_data_home) {
        Some(x) => join(join(x, "fish"@), "fish_history"@),
        None => join(
            join(join(join(home_dir(env), ".local"@), "share"@), "fish"@),
            "fish_history"@,
        ),
    }
}

/// `~/.config/fish/fish_history`, where older fish versions keep history.
pub open spec fn legacy_fish_path(env: PathEnv) -> Seq<char> {
    join(join(join(home_dir(env), ".config"@), "fish"@), "fish_history"@)
}

/// Fish's history file: the usual one, unless only the older one exists.
pub open spec fn fish_history_path(env: PathEnv, probe: HistoryPathProbe) -> Seq<char> {
    if probe.fish || !probe.legacy_fish {
        fish_primary_path(env)
    } else {
        legacy_fish_path(env)
    }
}

/// Whether the file that `fish_history_path` names exists.
pub open spec fn fish_history_exists(probe: HistoryPathProbe) -> bool {
    if probe.fish || !probe.legacy_fish {
        probe.fish
    } else {
        probe.legacy_fish
    }
}

/// The history file of the login shell (`$SHELL`'s file name); for another
/// or no shell, the first existing of bash's, zsh's, fish's and fish's
/// older file, else bash's.
pub open spec fn auto_history_path(env: PathEnv, probe: HistoryPathProbe) -> Seq<char> {
    let shell = match var(env.shell) {
        Some(s) => file_name_spec(s),
        None => None,
    };
    if shell == Some("zsh"@) {
        zsh_history_path(env)
    } else if shell == Some("fish"@) {
        fish_history_path(env, probe)
    } else if shell == Some("bash"@) {
        bash_history_path(env)
    } else if probe.bash {
        bash_history_path(env)
    } else if probe.zsh {
        zsh_history_path(env)
    } else if fish_history_exists(probe) {
        fish_history_path(env, probe)
    } else if probe.legacy_fish {
        legacy_fish_path(env)
    } else {
        bash_history_path(env)
    }
}

/// The candidate history files whose existence `HistoryPathProbe` records:
/// bash's, zsh's, fish's and fish's older file.
pub fn history_path_candidates(env: &PathEnv) -> (out: Vec<String>)
    ensures
        out@.len() == 4,
        out@[0]@ == bash_history_path(*env),
        out@[1]@ == zsh_history_path(*env),
        out@[2]@ == fish_primary_path(*env),
        out@[3]@ == legacy_fish_path(*env),
{
    let mut out: Vec<String> = Vec::new();
    let b = bash_path_of(env);
    out.push(string_from_chars(b.as_slice()));
    let z = zsh_path_of(env);
    out.push(string_from_chars(z.as_slice()));
    let f = fish_primary_of(env);
    out.push(string_from_chars(f.as_slice()));
    let l = legacy_fish_of(env);
    out.push(string_from_chars(l.as_slice()));
    out
}

pub(crate) fn bash_path_of(env: &PathEnv) -> (out: Vec<char>)
    ensures
        out@ == bash_history_path(*env),
{
    join_path(&home_dir_of(env), ".bash_history")
}

pub(crate) fn zsh_path_of(env: &PathEnv) -> (out: Vec<char>)
    ensures
        out@ == zsh_history_path(*env),
{
    join_path(&home_dir_of(env), ".zsh_history")
}

fn fish_primary_of(env: &PathEnv) -> (out: Vec<char>)
    ensures
        out@ == fish_primary_path(*env),
{
    match var_chars(&env.xdg_data_home) {
        Some(x) => join_path(&join_path(&x, "fish"), "fish_history"),
        None => {
            let h = home_dir_of(env);
            join_path(&join_path(&join_path(&join_path(&h, ".local"), "share"), "fish"), "fish_history")
        },
    }
}

fn legacy_fish_of(env: &PathEnv) -> (out: Vec<char>)
    ensures
        out@ == legacy_fish_path(*env),
{
    join_path(&join_path(&join_path(&home_dir_of(env), ".config"), "fish"), "fish_history")
}

pub(crate) fn fish_path_of(env: &PathEnv, probe: &HistoryPathProbe) -> (out: Vec<char>)
    ensures
        out@ == fish_history_path(*env, *probe),
{
    if probe.fish || !probe.legacy_fish {
        fish_primary_of(env)
    } else {
        legacy_fish_of(env)
    }
}

pub(crate) fn auto_path_of(env: &PathEnv, probe: &HistoryPathProbe) -> (out: Vec<char>)
    ensures
        out@ == auto_history_path(*env, *probe),
{
    let shell = match &env.shell {
        Some(s) => file_name_of(s.as_str()),
        None => None,
    };
    match shell {
        Some(name) => {
            if same_chars(name.as_slice(), chars_of("zsh").as_slice()) {
                return zsh_path_of(env);
            }
            if same_chars(name.as_slice(), chars_of("fish").as_slice()) {
                return fish_path_of(env, probe);
            }
            if same_chars(name.as_slice(), chars_of("bash").as_slice()) {
                return bash_path_of(env);
            }
        },
        None => {},
    }
    if probe.bash {
        bash_path_of(env)
    } else if probe.zsh {
        zsh_path_of(env)
    } else if probe.fish || probe.legacy_fish {
        fish_path_of(env, probe)
    } else {
        bash_path_of(env)
    }
}

// ---------------------------------------------------------------------
// File names
// ---------------------------------------------------------------------
/// A component that names something: not empty and not `.`.
pub open spec fn is_named_component(c: Seq<char>) -> bool {
    c.len() > 0 && c != seq!['.']
}

/// The last named component among the finished pieces of `p` split at
/// `/`, and the piece being built.
pub open spec fn components_state(p: Seq<char>) -> (Option<Seq<char>>, Seq<char>)
    decreases p.len(),
{
    if p.len() == 0 {
        (None, Seq::empty())
    } else {
        let (last, cur) = components_state(p.drop_last());
        if p.last() == '/' {
            (
                if is_named_component(cur) {
                    Some(cur)
                } else {
                    last
                },
                Seq::empty(),
            )
        } else {
            (last, cur.push(p.last()))
        }
    }
}

/// The last named component of `p`.
pub open spec fn last_component(p: Seq<char>) -> Option<Seq<char>> {
    let (last, cur) = components_state(p);
    if is_named_component(cur) {
        Some(cur)
    } else {
        last
    }
}

/// The file name of `p`, as std's `Path::file_name` gives it: its last
/// named component, unless that is `..`.
pub open spec fn file_name_spec(p: Seq<char>) -> Option<Seq<char>> {
    match last_component(p) {
        Some(c) => if c == seq!['.', '.'] {
            None
        } else {
            Some(c)
        },
        None => None,
    }
}

fn is_named(c: &Vec<char>) -> (r: bool)
    ensures
        r == is_named_component(c@),
{
    if c.len() == 0 {
        return false;
    }
    if c.len() == 1 && c[0] == '.' {
        assert(c@ =~= seq!['.']);
        return false;
    }
    assert(c.len() != 1 ==> c@.len() != seq!['.'].len());
    assert(c@ != seq!['.']);
    true
}

/// The file name of `path` (see `file_name_spec`).
pub fn file_name_of(path: &str) -> (r: Option<Vec<char>>)
    ensures
        r matches Some(n) ==> file_name_spec(path@) == Some(n@),
        r is None ==> file_name_spec(path@) is None,
{
    let p = chars_of(path);
    let mut last: Option<Vec<char>> = None;
    let mut cur: Vec<char> = Vec::new();
    let mut i: usize = 0;
    while i < p.len()
        invariant
            0 <= i <= p.len(),
            p@ == path@,
            match last {
                Some(l) => components_state(p@.take(i as int)).0 == Some(l@),
                None => components_state(p@.take(i as int)).0 is None,
            },
            cur@ == components_state(p@.take(i as int)).1,
        decreases p.len() - i,
    {
        assert(p@.take(i + 1).drop_last() =~= p@.take(i as int));
        if p[i] == '/' {
            if is_named(&cur) {
                last = Some(cur);
            }
            cur = Vec::new();
        } else {
            cur.push(p[i]);
        }
        i = i + 1;
    }
    assert(p@.take(p.len() as int) =~= p@);
    let found = if is_named(&cur) {
        Some(cur)
    } else {
        last
    };
    match found {
        Some(c) => {
            if c.len() == 2 && c[0] == '.' && c[1] == '.' {
                assert(c@ =~= seq!['.', '.']);
                None
            } else {
                assert(c@ != seq!['.', '.']) by {
                    if c@.len() == 2 {
                        assert(c@[0] != '.' || c@[1] != '.');
                    }
                }
                Some(c)
            }
        },
        None => None,
    }
}

// ---------------------------------------------------------------------
// Configuration and cache files
// ---------------------------------------------------------------------
/// `$XDG_CONFIG_HOME/hline`, else `~/.config/hline` with `$HOME`, else
/// `./.hline`.
pub open spec fn config_dir(env: PathEnv) -> Seq<char> {
    match var(env.xdg_config_home) {
        Some(x) => join(x, "hline"@),
        None => match var(env.home) {
            Some(h) => join(join(h, ".config"@), "hline"@),
            None => join("."@, ".hline"@),
        },
    }
}

pub(crate) fn config_dir_of(env: &PathEnv) -> (out: Vec<char>)
    ensures
        out@ == config_dir(*env),
{
    match var_chars(&env.xdg_config_home) {
        Some(x) => join_path(&x, "hline"),
        None => match var_chars(&env.home) {
            Some(h) => join_path(&join_path(&h, ".config"), "hline"),
            None => join_path(&chars_of("."), ".hline"),
        },
    }
}

/// The favorites file: `favorites.json` in the configuration directory
/// when `$XDG_CONFIG_HOME` or `$HOME` is set, else `./.hline-favorites.json`.
pub open spec fn favorites_path(env: PathEnv) -> Seq<char> {
    if var(env.xdg_config_home) is Some || var(env.home) is Some {
        join(config_dir(env), "favorites.json"@)
    } else {
        join("."@, ".hline-favorites.json"@)
    }
}

/// The path of the favorites file (see `favorites_path`).
pub fn default_favorites_path(env: &PathEnv) -> (out: String)
    ensures
        out@ == favorites_path(*env),
{
    let p = if env.xdg_config_home.is_some() || env.home.is_some() {
        join_path(&config_dir_of(env), "favorites.json")
    } else {
        join_path(&chars_of("."), ".hline-favorites.json")
    };
    string_from_chars(p.as_slice())
}

/// The update-check cache: `$XDG_CACHE_HOME/hline/update.json`, else
/// `~/.cache/hline/update.json` with `$HOME`, else `./.hline-update.json`.
pub open spec fn update_cache_path(env: PathEnv) -> Seq<char> {
    match var(env.xdg_cache_home) {
        Some(x) => join(join(x, "hline"@), "update.json"@),
        None => match var(env.home) {
            Some(h) => join(join(join(h, ".cache"@), "hline"@), "update.json"@),
            None => join("."@, ".hline-update.json"@),
        },
    }
}

/// The path of the update-check cache (see `update_cache_path`).
pub fn default_update_cache_path(env: &PathEnv) -> (out: String)
    ensures
        out@ == update_cache_path(*env),
{
    let p = match var_chars(&env.xdg_cache_home) {
        Some(x) => join_path(&join_path(&x, "hline"), "update.json"),
        None => match var_chars(&env.home) {
            Some(h) => join_path(&join_path(&join_path(&h, ".cache"), "hline"), "update.json"),
            None => join_path(&chars_of("."), ".hline-update.json"),
        },
    };
    string_from_chars(p.as_slice())
}

} // verus!
