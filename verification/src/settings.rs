//! User settings: the key that opens the shell widget, what an alias does,
//! and the shell snippets that `hline init <shell>` prints.
use vstd::prelude::*;

use crate::paths::{config_dir, config_dir_of, join, join_path, PathEnv};
use crate::text::{
    chars_of, push_str, same_chars, string_from_chars, to_lowercase, trim_spaces, trim_vec,
    unicode_lowercase,
};

verus! {

/// What `hline <alias>` does with the favorite block.
#[derive(Debug, Clone, Copy, PartialEq, Eq, Structural)]
pub enum Behaviour {
    /// Print to stdout only. Safe for `eval "$(hline name)"`.
    Print,
    /// Copy to the clipboard and print.
    Copy,
    /// Copy, print, and run the commands.
    Full,
}

impl Behaviour {
    /// Whether the block is copied to the clipboard.
    pub fn copies(self) -> (r: bool)
        ensures
            r == (self == Behaviour::Copy || self == Behaviour::Full),
    {
        match self {
            Behaviour::Copy | Behaviour::Full => true,
            Behaviour::Print => false,
        }
    }

    /// Whether the block's commands are run.
    pub fn runs(self) -> (r: bool)
        ensures
            r == (self == Behaviour::Full),
    {
        match self {
            Behaviour::Full => true,
            _ => false,
        }
    }

    /// The name of the behaviour in the settings file and on the command line.
    pub fn name(self) -> (s: &'static str)
        ensures
            s@ == match self {
                Behaviour::Print => "print"@,
                Behaviour::Copy => "copy"@,
                Behaviour::Full => "full"@,
            },
    {
        match self {
            Behaviour::Print => "print",
            Behaviour::Copy => "copy",
            Behaviour::Full => "full",
        }
    }
}

/// The settings file's contents.
#[derive(Debug, Clone, PartialEq, Eq)]
pub struct Settings {
    /// Shell widget key: "ctrl-<letter>" or "alt-<letter>".
    pub shell_key: String,
    /// What `hline <alias>` does: print, copy, or full.
    pub alias_behaviour: Behaviour,
}

/// The behaviour of an alias when the settings do not name one.
pub fn default_behaviour() -> (b: Behaviour)
    ensures
        b == Behaviour::Copy,
{
    Behaviour::Copy
}

impl Default for Settings {
    fn default() -> (s: Settings)
        ensures
            s.shell_key@ == "ctrl-r"@,
            s.alias_behaviour == Behaviour::Copy,
    {
        Settings {
            shell_key: string_from_chars(chars_of("ctrl-r").as_slice()),
            alias_behaviour: default_behaviour(),
        }
    }
}

/// `settings.json` in the configuration directory.
pub open spec fn settings_path_spec(env: PathEnv) -> Seq<char> {
    join(config_dir(env), "settings.json"@)
}

/// The path of the settings file (see `settings_path_spec`).
pub fn settings_path(env: &PathEnv) -> (out: String)
    ensures
        out@ == settings_path_spec(*env),
{
    let p = join_path(&config_dir_of(env), "settings.json");
    string_from_chars(p.as_slice())
}

// ---------------------------------------------------------------------
// The widget key
// ---------------------------------------------------------------------
/// A key chord: Ctrl or Alt with a letter.
#[derive(Debug, Clone, Copy, PartialEq, Eq, Structural)]
pub enum Key {
    Ctrl(char),
    Alt(char),
}

/// Why a `shell_key` was refused.
#[derive(Debug, Clone, Copy, PartialEq, Eq, Structural)]
pub enum KeyProblem {
    /// No `-` or `+` between modifier and letter.
    NoSeparator,
    /// Not exactly one character after the separator.
    NotSingleLetter,
    /// The character after the separator is not an ASCII letter.
    NotAsciiLetter,
    /// The modifier is neither ctrl nor alt.
    UnknownModifier,
}

/// Errors of the settings.
#[derive(Debug, Clone, PartialEq, Eq)]
pub enum SettingsError {
    /// A `shell_key` that is not ctrl or alt with a letter; `spec` is the
    /// key as read (trimmed, lower case).
    InvalidKey { spec: String, problem: KeyProblem },
    /// A shell other than bash, zsh and fish.
    UnsupportedShell { shell: String },
}

/// `c` is `-` or `+`.
pub open spec fn is_key_separator(c: char) -> bool {
    c == '-' || c == '+'
}

/// The first separator of `s` is at `i`.
pub open spec fn first_separator_at(s: Seq<char>, i: int) -> bool {
    &&& 0 <= i < s.len()
    &&& is_key_separator(s[i])
    &&& forall|j: int| 0 <= j < i ==> !is_key_separator(s[j])
}

/// `c` is an ASCII letter.
pub open spec fn is_ascii_letter(c: char) -> bool {
    ('a' <= c && c <= 'z') || ('A' <= c && c <= 'Z')
}

/// The key that a lower-case, trimmed spec names: modifier, `-` or `+`
/// (the first of them), and one ASCII letter; the modifier is `ctrl`, `c` or
/// `control` for Ctrl and `alt`, `a`, `m` or `meta` for Alt.
pub open spec fn key_of(s: Seq<char>) -> Result<Key, KeyProblem> {
    if !exists|i: int| first_separator_at(s, i) {
        Err(KeyProblem::NoSeparator)
    } else {
        let i = choose|i: int| first_separator_at(s, i);
        let modifier = s.take(i);
        let rest = s.skip(i + 1);
        if rest.len() != 1 {
            Err(KeyProblem::NotSingleLetter)
        } else if !is_ascii_letter(rest[0]) {
            Err(KeyProblem::NotAsciiLetter)
        } else if modifier == "ctrl"@ || modifier == "c"@ || modifier == "control"@ {
            Ok(Key::Ctrl(rest[0]))
        } else if modifier == "alt"@ || modifier == "a"@ || modifier == "m"@ || modifier == "meta"@ {
            Ok(Key::Alt(rest[0]))
        } else {
            Err(KeyProblem::UnknownModifier)
        }
    }
}

/// The key spec as it is read: trimmed of white space, then in lower case.
pub open spec fn normalized_key_spec(spec: Seq<char>) -> Seq<char> {
    unicode_lowercase(trim_spaces(spec))
}

proof fn lemma_first_separator_unique(s: Seq<char>, i: int)
    requires
        first_separator_at(s, i),
    ensures
        (choose|k: int| first_separator_at(s, k)) == i,
{
    let k = choose|k: int| first_separator_at(s, k);
    assert(first_separator_at(s, k));
    if k < i {
        assert(!is_key_separator(s[k]));
    }
    if k > i {
        assert(!is_key_separator(s[i]));
    }
}

fn text_is(v: &Vec<char>, lit: &str) -> (r: bool)
    ensures
        r == (v@ == lit@),
{
    let l = chars_of(lit);
    same_chars(v.as_slice(), l.as_slice())
}

/// The key a `shell_key` names (see `key_of`), or why it names none.
pub fn parse_key(spec: &str) -> (r: Result<Key, SettingsError>)
    ensures
        match r {
            Ok(k) => key_of(normalized_key_spec(spec@)) == Ok::<Key, KeyProblem>(k),
            Err(SettingsError::InvalidKey { spec: s, problem }) => s@ == normalized_key_spec(
                spec@,
            ) && key_of(normalized_key_spec(spec@)) == Err::<Key, KeyProblem>(problem),
            Err(SettingsError::UnsupportedShell { .. }) => false,
        },
{
    let trimmed_chars = trim_vec(&chars_of(spec));
    let trimmed = string_from_chars(trimmed_chars.as_slice());
    let lowered = to_lowercase(trimmed.as_str());
    let s = chars_of(lowered.as_str());
    let ghost sv = normalized_key_spec(spec@);
    assert(s@ == sv);
    let mut i: usize = 0;
    while i < s.len() && !(s[i] == '-' || s[i] == '+')
        invariant
            0 <= i <= s.len(),
            s@ == sv,
            forall|j: int| 0 <= j < i ==> !is_key_separator(s@[j]),
        decreases s.len() - i,
    {
        i = i + 1;
    }
    if i == s.len() {
        assert(!exists|k: int| first_separator_at(sv, k));
        return Err(SettingsError::InvalidKey { spec: lowered, problem: KeyProblem::NoSeparator });
    }
    proof {
        assert(first_separator_at(sv, i as int));
        lemma_first_separator_unique(sv, i as int);
    }
    let modifier = crate::text::copy_range(&s, 0, i);
    assert(modifier@ =~= sv.take(i as int));
    if s.len() - (i + 1) != 1 {
        return Err(
            SettingsError::InvalidKey { spec: lowered, problem: KeyProblem::NotSingleLetter },
        );
    }
    let c = s[i + 1];
    assert(sv.skip(i + 1)[0] == c);
    if !(('a' <= c && c <= 'z') || ('A' <= c && c <= 'Z')) {
        return Err(
            SettingsError::InvalidKey { spec: lowered, problem: KeyProblem::NotAsciiLetter },
        );
    }
    if text_is(&modifier, "ctrl") || text_is(&modifier, "c") || text_is(&modifier, "control") {
        return Ok(Key::Ctrl(c));
    }
    if text_is(&modifier, "alt") || text_is(&modifier, "a") || text_is(&modifier, "m") || text_is(
        &modifier,
        "meta",
    ) {
        return Ok(Key::Alt(c));
    }
    Err(SettingsError::InvalidKey { spec: lowered, problem: KeyProblem::UnknownModifier })
}

// ---------------------------------------------------------------------
// Shell snippets
// ---------------------------------------------------------------------
/// The ASCII upper case of `c`.
pub open spec fn ascii_upper(c: char) -> char {
    if 'a' <= c && c <= 'z' {
        ((c as u32) - 32) as char
    } else {
        c
    }
}

fn ascii_upper_of(c: char) -> (r: char)
    ensures
        r == ascii_upper(c),
{
    if 'a' <= c && c <= 'z' {
        ((c as u8) - 32) as char
    } else {
        c
    }
}

/// How the shell writes the key in its key binding.
pub open spec fn key_binding(shell: Seq<char>, key: Key) -> Seq<char> {
    if shell == "zsh"@ {
        match key {
            Key::Ctrl(c) => "^"@ + seq![ascii_upper(c)],
            Key::Alt(c) => "^["@ + seq![c],
        }
    } else if shell == "fish"@ {
        match key {
            Key::Ctrl(c) => "\\c"@ + seq![c],
            Key::Alt(c) => "\\e"@ + seq![c],
        }
    } else {
        match key {
            Key::Ctrl(c) => "\\C-"@ + seq![c],
            Key::Alt(c) => "\\e"@ + seq![c],
        }
    }
}

/// The bash widget, bound to `bind`.
pub open spec fn bash_snippet(bind: Seq<char>) -> Seq<char> {
    "hline-widget() {\n  local cmd\n  cmd=\"$(hline)\" || return\n  [[ -n \"$cmd\" ]] || return\n  READLINE_LINE=\"$cmd\"\n  READLINE_POINT=${#READLINE_LINE}\n}\nbind -x '\""@
        + bind + "\":hline-widget'\n"@
}

/// The zsh widget, bound to `bind`.
pub open spec fn zsh_snippet(bind: Seq<char>) -> Seq<char> {
    "hline-widget() {\n  local cmd\n  cmd=\"$(hline)\" || return\n  [[ -n \"$cmd\" ]] || return\n  BUFFER=\"$cmd\"\n  CURSOR=${#BUFFER}\n  zle reset-prompt\n}\nzle -N hline-widget\nbindkey '"@
        + bind + "' hline-widget\n"@
}

/// The fish function, bound to `bind`.
pub open spec fn fish_snippet(bind: Seq<char>) -> Seq<char> {
    "function hline-widget\n    set cmd (hline)\n    or return\n    test -n \"$cmd\"; or return\n    commandline -r -- $cmd\nend\nbind "@
        + bind + " hline-widget\n"@
}

/// The snippet for `shell` with `key`, if the shell is supported.
pub open spec fn snippet_for(shell: Seq<char>, key: Key) -> Option<Seq<char>> {
    let bind = key_binding(shell, key);
    if shell == "bash"@ {
        Some(bash_snippet(bind))
    } else if shell == "zsh"@ {
        Some(zsh_snippet(bind))
    } else if shell == "fish"@ {
        Some(fish_snippet(bind))
    } else {
        None
    }
}

fn binding_of(shell: &str, key: Key) -> (out: Vec<char>)
    ensures
        out@ == key_binding(shell@, key),
{
    let mut out: Vec<char> = Vec::new();
    if crate::text::str_equals(shell, "zsh") {
        match key {
            Key::Ctrl(c) => {
                push_str(&mut out, "^");
                out.push(ascii_upper_of(c));
            },
            Key::Alt(c) => {
                push_str(&mut out, "^[");
                out.push(c);
            },
        }
    } else if crate::text::str_equals(shell, "fish") {
        match key {
            Key::Ctrl(c) => {
                push_str(&mut out, "\\c");
                out.push(c);
            },
            Key::Alt(c) => {
                push_str(&mut out, "\\e");
                out.push(c);
            },
        }
    } else {
        match key {
            Key::Ctrl(c) => {
                push_str(&mut out, "\\C-");
                out.push(c);
            },
            Key::Alt(c) => {
                push_str(&mut out, "\\e");
                out.push(c);
            },
        }
    }
    out
}

/// The widget that `hline init <shell>` prints, bound to the settings'
/// key. A key the settings cannot name is refused first, then a shell
/// other than bash, zsh and fish.
pub fn init_snippet(shell: &str, settings: &Settings) -> (r: Result<String, SettingsError>)
    ensures
        match key_of(normalized_key_spec(settings.shell_key@)) {
            Ok(k) => match snippet_for(shell@, k) {
                Some(text) => r matches Ok(s) && s@ == text,
                None => r matches Err(SettingsError::UnsupportedShell { shell: s }) && s@ == shell@,
            },
            Err(p) => r matches Err(SettingsError::InvalidKey { spec: s, problem }) && problem == p
                && s@ == normalized_key_spec(settings.shell_key@),
        },
{
    let key = match parse_key(settings.shell_key.as_str()) {
        Ok(k) => k,
        Err(e) => {
            return Err(e);
        },
    };
    let bind = binding_of(shell, key);
    let mut out: Vec<char> = Vec::new();
    if crate::text::str_equals(shell, "bash") {
        push_str(
            &mut out,
            "hline-widget() {\n  local cmd\n  cmd=\"$(hline)\" || return\n  [[ -n \"$cmd\" ]] || return\n  READLINE_LINE=\"$cmd\"\n  READLINE_POINT=${#READLINE_LINE}\n}\nbind -x '\"",
        );
        crate::text::push_all(&mut out, bind.as_slice());
        push_str(&mut out, "\":hline-widget'\n");
    } else if crate::text::str_equals(shell, "zsh") {
        push_str(
            &mut out,
            "hline-widget() {\n  local cmd\n  cmd=\"$(hline)\" || return\n  [[ -n \"$cmd\" ]] || return\n  BUFFER=\"$cmd\"\n  CURSOR=${#BUFFER}\n  zle reset-prompt\n}\nzle -N hline-widget\nbindkey '",
        );
        crate::text::push_all(&mut out, bind.as_slice());
        push_str(&mut out, "' hline-widget\n");
    } else if crate::text::str_equals(shell, "fish") {
        push_str(
            &mut out,
            "function hline-widget\n    set cmd (hline)\n    or return\n    test -n \"$cmd\"; or return\n    commandline -r -- $cmd\nend\nbind ",
        );
        crate::text::push_all(&mut out, bind.as_slice());
        push_str(&mut out, " hline-widget\n");
    } else {
        let name = string_from_chars(chars_of(shell).as_slice());
        return Err(SettingsError::UnsupportedShell { shell: name });
    }
    Ok(string_from_chars(out.as_slice()))
}


/// `s` ends with `tail`.
pub open spec fn ends_with(s: Seq<char>, tail: Seq<char>) -> bool {
    tail.len() <= s.len() && s.subrange(s.len() - tail.len(), s.len() as int) == tail
}

/// Each shell's widget ends with the line that binds it, the key written
/// as that shell writes it: bash's readline as `\C-` and the letter for
/// Ctrl and `\e` and the letter for Alt; zsh as `^` and the upper-case
/// letter for Ctrl and `^[` and the letter for Alt; fish as `\c` and the
/// letter for Ctrl and `\e` and the letter for Alt. Ctrl and Alt with the
/// same letter are never bound alike.
pub proof fn law_widgets_bind_the_key(c: char)
    ensures
        snippet_for("bash"@, Key::Ctrl(c)) matches Some(t) && ends_with(
            t,
            "bind -x '\"\\C-"@ + seq![c] + "\":hline-widget'\n"@,
        ),
        snippet_for("bash"@, Key::Alt(c)) matches Some(t) && ends_with(
            t,
            "bind -x '\"\\e"@ + seq![c] + "\":hline-widget'\n"@,
        ),
        snippet_for("zsh"@, Key::Ctrl(c)) matches Some(t) && ends_with(
            t,
            "bindkey '^"@ + seq![ascii_upper(c)] + "' hline-widget\n"@,
        ),
        snippet_for("zsh"@, Key::Alt(c)) matches Some(t) && ends_with(
            t,
            "bindkey '^["@ + seq![c] + "' hline-widget\n"@,
        ),
        snippet_for("fish"@, Key::Ctrl(c)) matches Some(t) && ends_with(
            t,
            "bind \\c"@ + seq![c] + " hline-widget\n"@,
        ),
        snippet_for("fish"@, Key::Alt(c)) matches Some(t) && ends_with(
            t,
            "bind \\e"@ + seq![c] + " hline-widget\n"@,
        ),
        forall|shell: Seq<char>| key_binding(shell, Key::Ctrl(c)) != key_binding(shell, Key::Alt(c)),
{
    reveal_strlit("bash");
    reveal_strlit("zsh");
    reveal_strlit("fish");
    reveal_strlit("hline-widget() {\n  local cmd\n  cmd=\"$(hline)\" || return\n  [[ -n \"$cmd\" ]] || return\n  READLINE_LINE=\"$cmd\"\n  READLINE_POINT=${#READLINE_LINE}\n}\nbind -x '\"");
    reveal_strlit("hline-widget() {\n  local cmd\n  cmd=\"$(hline)\" || return\n  [[ -n \"$cmd\" ]] || return\n  BUFFER=\"$cmd\"\n  CURSOR=${#BUFFER}\n  zle reset-prompt\n}\nzle -N hline-widget\nbindkey '");
    reveal_strlit("function hline-widget\n    set cmd (hline)\n    or return\n    test -n \"$cmd\"; or return\n    commandline -r -- $cmd\nend\nbind ");
    reveal_strlit("\\C-");
    reveal_strlit("\\e");
    reveal_strlit("^");
    reveal_strlit("^[");
    reveal_strlit("\\c");
    reveal_strlit("\":hline-widget'\n");
    reveal_strlit("' hline-widget\n");
    reveal_strlit(" hline-widget\n");
    reveal_strlit("bind -x '\"\\C-");
    reveal_strlit("bind -x '\"\\e");
    reveal_strlit("bindkey '^");
    reveal_strlit("bindkey '^[");
    reveal_strlit("bind \\c");
    reveal_strlit("bind \\e");
    assert("bash"@ != "zsh"@) by {
        assert("bash"@[0] != "zsh"@[0]);
    }
    assert("bash"@ != "fish"@) by {
        assert("bash"@[0] != "fish"@[0]);
    }
    let ghost bc = bash_snippet(key_binding("bash"@, Key::Ctrl(c)));
    let ghost ba = bash_snippet(key_binding("bash"@, Key::Alt(c)));
    assert(bc.subrange(bc.len() - 30, bc.len() as int) =~= "bind -x '\"\\C-"@ + seq![c]
        + "\":hline-widget'\n"@);
    assert(ba.subrange(ba.len() - 29, ba.len() as int) =~= "bind -x '\"\\e"@ + seq![c]
        + "\":hline-widget'\n"@);
    assert("zsh"@ != "fish"@) by {
        assert("zsh"@[0] != "fish"@[0]);
    }
    let ghost zc = zsh_snippet(key_binding("zsh"@, Key::Ctrl(c)));
    let ghost za = zsh_snippet(key_binding("zsh"@, Key::Alt(c)));
    assert(zc.subrange(zc.len() - 26, zc.len() as int) =~= "bindkey '^"@ + seq![ascii_upper(c)]
        + "' hline-widget\n"@);
    assert(za.subrange(za.len() - 27, za.len() as int) =~= "bindkey '^["@ + seq![c]
        + "' hline-widget\n"@);
    let ghost fc = fish_snippet(key_binding("fish"@, Key::Ctrl(c)));
    let ghost fa = fish_snippet(key_binding("fish"@, Key::Alt(c)));
    assert(fc.subrange(fc.len() - 22, fc.len() as int) =~= "bind \\c"@ + seq![c]
        + " hline-widget\n"@);
    assert(fa.subrange(fa.len() - 22, fa.len() as int) =~= "bind \\e"@ + seq![c]
        + " hline-widget\n"@);
    assert forall|shell: Seq<char>| key_binding(shell, Key::Ctrl(c)) != key_binding(shell, Key::Alt(c)) by {
        let x = key_binding(shell, Key::Ctrl(c));
        let y = key_binding(shell, Key::Alt(c));
        if shell == "zsh"@ {
            assert(x.len() != y.len());
        } else if shell == "fish"@ {
            assert(x[1] != y[1]);
        } else {
            assert(x.len() != y.len());
        }
    }
}

} // verus!
