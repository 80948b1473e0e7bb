//! The state of the interactive list and what each key does to it: moving
//! the cursor, searching, sorting, selecting, copying, accepting and saving
//! favorites. Work outside the library (the clipboard, the favorites file)
//! is handed back to the caller as an `Effect`, whose outcome the caller
//! reports with `finish_copy` or `finish_save_favorite`.
use vstd::prelude::*;

use std::collections::HashSet;

use crate::favorites::{
    add_spec, remove_spec, rename_spec, AddFavoriteResult, BlockModel, FavoriteBlock, FavoritesStore,
};
use crate::history::Entry;
use crate::query::{
    favorite_matches_query, favorite_matches_spec, parses_to, query_matches, ParsedQuery,
};
use crate::sort::{apply_sort, indices_valid, sort_leq, SortMode};
use crate::text::{chars_of, decimal_text, string_from_chars};

verus! {

broadcast use vstd::std_specs::hash::group_hash_axioms;

/// How long an information message stays, in milliseconds.
pub const INFO_TOAST_TTL_MS: u64 = 4000;

/// How long an error message stays, in milliseconds.
pub const ERROR_TOAST_TTL_MS: u64 = 5000;

/// Whether keys move and act on the list, edit the search query, or edit
/// the title of the favorite under the cursor.
#[derive(Debug, Clone, Copy, PartialEq, Eq, Structural)]
pub enum Mode {
    Normal,
    Search,
    Rename,
}

/// Which list is shown.
#[derive(Debug, Clone, Copy, PartialEq, Eq, Structural)]
pub enum ListView {
    History,
    Favorites,
}

/// Whether a message reports success or a problem.
#[derive(Debug, Clone, Copy, PartialEq, Eq, Structural)]
pub enum ToastKind {
    Info,
    Error,
}

/// A message in the status bar, shown until `expires_at_ms` on the
/// application clock.
#[derive(Debug, Clone)]
pub struct Toast {
    pub message: String,
    pub kind: ToastKind,
    pub expires_at_ms: u64,
}

/// A row of the favorites list: a block's header (`line_index` none) or
/// one of its lines.
#[derive(Debug, Clone, Copy, PartialEq, Eq, Structural)]
pub struct FavoriteRow {
    pub block_index: usize,
    pub line_index: Option<usize>,
}

/// The key of a key press, as far as the list reads it.
#[derive(Debug, Clone, Copy, PartialEq, Eq, Structural)]
pub enum KeyCode {
    Char(char),
    Enter,
    Esc,
    Backspace,
    Up,
    Down,
    PageUp,
    PageDown,
    Other,
}

/// A key press with the modifiers the list reads.
#[derive(Debug, Clone, Copy, PartialEq, Eq, Structural)]
pub struct KeyInput {
    pub code: KeyCode,
    pub ctrl: bool,
    pub alt: bool,
    pub shift: bool,
}

impl KeyInput {
    /// A key pressed without modifiers.
    pub fn plain(code: KeyCode) -> (k: KeyInput)
        ensures
            k == (KeyInput { code, ctrl: false, alt: false, shift: false }),
    {
        KeyInput { code, ctrl: false, alt: false, shift: false }
    }

    /// A key pressed with Ctrl.
    pub fn ctrl(code: KeyCode) -> (k: KeyInput)
        ensures
            k == (KeyInput { code, ctrl: true, alt: false, shift: false }),
    {
        KeyInput { code, ctrl: true, alt: false, shift: false }
    }
}

/// What a key does outside search.
#[derive(Debug, Clone, Copy, PartialEq, Eq, Structural)]
pub enum NormalAction {
    Quit,
    ToggleHelp,
    Move(i8),
    MoveHalfPage(i8),
    MoveBlock(i8),
    JumpTop,
    JumpBottom,
    ToggleSelection,
    SelectAllShown,
    ClearSelection,
    Copy,
    CopyLine,
    Accept,
    SaveFavorite,
    ToggleFavoritesView,
    EnterSearch,
    CycleSort,
    ToggleSortDirection,
    Rename,
}

/// What a key does while a favorite's title is edited.
#[derive(Debug, Clone, Copy, PartialEq, Eq, Structural)]
pub enum RenameAction {
    Cancel,
    Commit,
    Clear,
    DeleteLastChar,
    InsertChar(char),
}

/// What a key does while searching.
#[derive(Debug, Clone, Copy, PartialEq, Eq, Structural)]
pub enum SearchAction {
    ExitSearch,
    ClearQuery,
    DeleteLastWord,
    DeleteLastChar,
    InsertChar(char),
}

/// Work for the caller after a key.
#[derive(Debug, Clone, PartialEq, Eq)]
pub enum Effect {
    Nothing,
    /// Put `payload` on the clipboard, then call `finish_copy`.
    CopyToClipboard { payload: String, success_message: String },
    /// Write the favorites file, then call `finish_save_favorite` with
    /// `success_message`.
    PersistFavorites { success_message: String },
}

/// The list and everything shown around it.
pub struct App {
    pub view: ListView,
    pub all: Vec<Entry>,
    pub filtered: Vec<usize>,
    pub cursor: usize,
    pub favorite_rows: Vec<FavoriteRow>,
    pub favorite_cursor: usize,
    pub mode: Mode,
    pub query: String,
    pub rename_input: String,
    pub sort: SortMode,
    pub sort_desc: bool,
    pub selected: HashSet<u64>,
    pub selected_order: Vec<u64>,
    pub toast: Option<Toast>,
    pub show_help: bool,
    pub should_quit: bool,
    pub accepted_output: Option<String>,
    pub viewport_height: usize,
    pub favorites: FavoritesStore,
    pub clock_ms: u64,
}

// ---------------------------------------------------------------------
// Keys
// ---------------------------------------------------------------------
/// The action of a key outside search: Shift+Up/Down jump blocks;
/// Ctrl+D/PageDown and Ctrl+U/PageUp move half a page; other keys by their
/// code alone.
pub open spec fn normal_action_spec(key: KeyInput) -> Option<NormalAction> {
    if key.shift && (key.code == KeyCode::Down || key.code == KeyCode::Up) {
        Some(
            if key.code == KeyCode::Down {
                NormalAction::MoveBlock(1i8)
            } else {
                NormalAction::MoveBlock(-1i8)
            },
        )
    } else if (key.ctrl && key.code == KeyCode::Char('d')) || key.code == KeyCode::PageDown {
        Some(NormalAction::MoveHalfPage(1i8))
    } else if (key.ctrl && key.code == KeyCode::Char('u')) || key.code == KeyCode::PageUp {
        Some(NormalAction::MoveHalfPage(-1i8))
    } else {
        match key.code {
            KeyCode::Char('q') => Some(NormalAction::Quit),
            KeyCode::Char('?') => Some(NormalAction::ToggleHelp),
            KeyCode::Enter => Some(NormalAction::Accept),
            KeyCode::Char('j') | KeyCode::Down => Some(NormalAction::Move(1i8)),
            KeyCode::Char('k') | KeyCode::Up => Some(NormalAction::Move(-1i8)),
            KeyCode::Char('J') => Some(NormalAction::MoveBlock(1i8)),
            KeyCode::Char('K') => Some(NormalAction::MoveBlock(-1i8)),
            KeyCode::Char('g') => Some(NormalAction::JumpTop),
            KeyCode::Char('G') => Some(NormalAction::JumpBottom),
            KeyCode::Char(' ') => Some(NormalAction::ToggleSelection),
            KeyCode::Char('a') => Some(NormalAction::SelectAllShown),
            KeyCode::Char('c') => Some(NormalAction::ClearSelection),
            KeyCode::Char('y') => Some(NormalAction::Copy),
            KeyCode::Char('Y') => Some(NormalAction::CopyLine),
            KeyCode::Char('f') => Some(NormalAction::SaveFavorite),
            KeyCode::Char('F') => Some(NormalAction::ToggleFavoritesView),
            KeyCode::Char('/') => Some(NormalAction::EnterSearch),
            KeyCode::Char('s') => Some(NormalAction::CycleSort),
            KeyCode::Char('S') => Some(NormalAction::ToggleSortDirection),
            KeyCode::Char('r') => Some(NormalAction::Rename),
            _ => None,
        }
    }
}

/// The action of a key while searching: Esc/Enter leave; Ctrl+U clears;
/// Ctrl+W and Ctrl+Backspace delete a word; Backspace a character; a
/// character without Ctrl or Alt is typed.
pub open spec fn search_action_spec(key: KeyInput) -> Option<SearchAction> {
    if key.code == KeyCode::Esc || key.code == KeyCode::Enter {
        Some(SearchAction::ExitSearch)
    } else if key.ctrl && key.code == KeyCode::Char('u') {
        Some(SearchAction::ClearQuery)
    } else if (key.ctrl && key.code == KeyCode::Char('w')) || (key.ctrl && key.code
        == KeyCode::Backspace) {
        Some(SearchAction::DeleteLastWord)
    } else {
        match key.code {
            KeyCode::Backspace => Some(SearchAction::DeleteLastChar),
            KeyCode::Char(c) => if !key.ctrl && !key.alt {
                Some(SearchAction::InsertChar(c))
            } else {
                None
            },
            _ => None,
        }
    }
}

/// The action of a key outside search (see `normal_action_spec`).
pub fn normal_action_for_key(key: KeyInput) -> (r: Option<NormalAction>)
    ensures
        r == normal_action_spec(key),
{
    if key.shift && (key.code == KeyCode::Down || key.code == KeyCode::Up) {
        return Some(
            if key.code == KeyCode::Down {
                NormalAction::MoveBlock(1)
            } else {
                NormalAction::MoveBlock(-1)
            },
        );
    }
    if (key.ctrl && key.code == KeyCode::Char('d')) || key.code == KeyCode::PageDown {
        return Some(NormalAction::MoveHalfPage(1));
    }
    if (key.ctrl && key.code == KeyCode::Char('u')) || key.code == KeyCode::PageUp {
        return Some(NormalAction::MoveHalfPage(-1));
    }
    match key.code {
        KeyCode::Char('q') => Some(NormalAction::Quit),
        KeyCode::Char('?') => Some(NormalAction::ToggleHelp),
        KeyCode::Enter => Some(NormalAction::Accept),
        KeyCode::Char('j') | KeyCode::Down => Some(NormalAction::Move(1)),
        KeyCode::Char('k') | KeyCode::Up => Some(NormalAction::Move(-1)),
        KeyCode::Char('J') => Some(NormalAction::MoveBlock(1)),
        KeyCode::Char('K') => Some(NormalAction::MoveBlock(-1)),
        KeyCode::Char('g') => Some(NormalAction::JumpTop),
        KeyCode::Char('G') => Some(NormalAction::JumpBottom),
        KeyCode::Char(' ') => Some(NormalAction::ToggleSelection),
        KeyCode::Char('a') => Some(NormalAction::SelectAllShown),
        KeyCode::Char('c') => Some(NormalAction::ClearSelection),
        KeyCode::Char('y') => Some(NormalAction::Copy),
        KeyCode::Char('Y') => Some(NormalAction::CopyLine),
        KeyCode::Char('f') => Some(NormalAction::SaveFavorite),
        KeyCode::Char('F') => Some(NormalAction::ToggleFavoritesView),
        KeyCode::Char('/') => Some(NormalAction::EnterSearch),
        KeyCode::Char('s') => Some(NormalAction::CycleSort),
        KeyCode::Char('S') => Some(NormalAction::ToggleSortDirection),
        KeyCode::Char('r') => Some(NormalAction::Rename),
        _ => None,
    }
}

/// The action of a key while searching (see `search_action_spec`).
pub fn search_action_for_key(key: KeyInput) -> (r: Option<SearchAction>)
    ensures
        r == search_action_spec(key),
{
    if key.code == KeyCode::Esc || key.code == KeyCode::Enter {
        return Some(SearchAction::ExitSearch);
    }
    if key.ctrl && key.code == KeyCode::Char('u') {
        return Some(SearchAction::ClearQuery);
    }
    if (key.ctrl && key.code == KeyCode::Char('w')) || (key.ctrl && key.code
        == KeyCode::Backspace) {
        return Some(SearchAction::DeleteLastWord);
    }
    match key.code {
        KeyCode::Backspace => Some(SearchAction::DeleteLastChar),
        KeyCode::Char(c) => if !key.ctrl && !key.alt {
            Some(SearchAction::InsertChar(c))
        } else {
            None
        },
        _ => None,
    }
}


/// The action of a key while a title is edited: Esc cancels; Enter saves
/// the title; Ctrl+U clears it; Backspace deletes a character; a character
/// without Ctrl or Alt is typed.
pub open spec fn rename_action_spec(key: KeyInput) -> Option<RenameAction> {
    if key.code == KeyCode::Esc {
        Some(RenameAction::Cancel)
    } else if key.code == KeyCode::Enter {
        Some(RenameAction::Commit)
    } else if key.ctrl && key.code == KeyCode::Char('u') {
        Some(RenameAction::Clear)
    } else {
        match key.code {
            KeyCode::Backspace => Some(RenameAction::DeleteLastChar),
            KeyCode::Char(c) => if !key.ctrl && !key.alt {
                Some(RenameAction::InsertChar(c))
            } else {
                None
            },
            _ => None,
        }
    }
}

/// The action of a key while a title is edited (see `rename_action_spec`).
pub fn rename_action_for_key(key: KeyInput) -> (r: Option<RenameAction>)
    ensures
        r == rename_action_spec(key),
{
    if key.code == KeyCode::Esc {
        return Some(RenameAction::Cancel);
    }
    if key.code == KeyCode::Enter {
        return Some(RenameAction::Commit);
    }
    if key.ctrl && key.code == KeyCode::Char('u') {
        return Some(RenameAction::Clear);
    }
    match key.code {
        KeyCode::Backspace => Some(RenameAction::DeleteLastChar),
        KeyCode::Char(c) => if !key.ctrl && !key.alt {
            Some(RenameAction::InsertChar(c))
        } else {
            None
        },
        _ => None,
    }
}

// ---------------------------------------------------------------------
// The lists, as values
// ---------------------------------------------------------------------
/// A parsed query: text, earliest and latest time.
pub type QueryModel = (Seq<char>, Option<i64>, Option<i64>);

/// `c` kept on a list of `len` rows (0 for an empty list).
pub open spec fn clamp_cursor(c: int, len: int) -> int {
    if len <= 0 {
        0
    } else if c < len {
        c
    } else {
        len - 1
    }
}

/// `c` moved by `delta` on a list of `len` rows, stopping at the ends.
pub open spec fn move_target(c: int, delta: int, len: int) -> int {
    if len <= 0 {
        0
    } else if c + delta < 0 {
        0
    } else if c + delta > len - 1 {
        len - 1
    } else {
        c + delta
    }
}

/// The indices below `n` of the entries that the query matches, in order.
pub open spec fn matching_indices(all: Seq<Entry>, q: QueryModel, n: int) -> Seq<usize>
    decreases n,
{
    if n <= 0 {
        Seq::empty()
    } else {
        let prev = matching_indices(all, q, n - 1);
        if query_matches(q, all[n - 1]) {
            prev.push((n - 1) as usize)
        } else {
            prev
        }
    }
}

/// The history list for a query: the matching entries, sorted.
pub open spec fn filtered_for(all: Seq<Entry>, q: QueryModel, sort: SortMode, desc: bool) -> Seq<
    usize,
> {
    matching_indices(all, q, all.len() as int).sort_by(sort_leq(all, sort, desc))
}

/// The rows of block `b`: its header, then one row per line.
pub open spec fn block_rows(b: int, nlines: nat) -> Seq<FavoriteRow> {
    seq![FavoriteRow { block_index: b as usize, line_index: None }] + Seq::new(
        nlines,
        |l: int| FavoriteRow { block_index: b as usize, line_index: Some(l as usize) },
    )
}

/// The favorites list for a search text: the rows of each of the first
/// `n` blocks that match it, in order.
pub open spec fn rows_for(blocks: Seq<BlockModel>, needle: Seq<char>, n: int) -> Seq<FavoriteRow>
    decreases n,
{
    if n <= 0 {
        Seq::empty()
    } else {
        let prev = rows_for(blocks, needle, n - 1);
        if favorite_matches_spec(blocks[n - 1], needle) {
            prev + block_rows(n - 1, blocks[n - 1].2.len())
        } else {
            prev
        }
    }
}

/// The rows name blocks and lines that exist, and a non-empty list starts
/// with a header.
pub open spec fn rows_valid(rows: Seq<FavoriteRow>, blocks: Seq<BlockModel>) -> bool {
    &&& forall|i: int|
        #![trigger rows[i]]
        0 <= i < rows.len() ==> {
            &&& rows[i].block_index < blocks.len()
            &&& rows[i].line_index matches Some(l) ==> l < blocks[rows[i].block_index as int].2.len()
        }
    &&& rows.len() > 0 ==> rows[0].line_index is None
}

/// The message kind's display time.
pub open spec fn toast_ttl(kind: ToastKind) -> u64 {
    match kind {
        ToastKind::Info => INFO_TOAST_TTL_MS,
        ToastKind::Error => ERROR_TOAST_TTL_MS,
    }
}

/// When a message set at `clock` expires.
pub open spec fn toast_expiry(clock: u64, kind: ToastKind) -> u64 {
    if clock + toast_ttl(kind) > u64::MAX {
        u64::MAX
    } else {
        (clock + toast_ttl(kind)) as u64
    }
}

impl App {
    /// The relations between the fields that every operation keeps.
    pub open spec fn wf(self) -> bool {
        &&& indices_valid(self.filtered@, self.all@, SortMode::Alpha)
        &&& self.filtered@.no_duplicates()
        &&& rows_valid(self.favorite_rows@, self.favorites.model())
        &&& self.cursor as int == clamp_cursor(self.cursor as int, self.filtered@.len() as int)
        &&& self.favorite_cursor as int == clamp_cursor(
            self.favorite_cursor as int,
            self.favorite_rows@.len() as int,
        )
        &&& self.selected@ == self.selected_order@.to_set()
        &&& self.selected_order@.no_duplicates()
    }

    /// The history list was rebuilt for `query`; nothing else changed but
    /// the query itself.
    pub open spec fn filter_rebuilt(self, query: Seq<char>, n: App) -> bool {
        &&& n.query@ == query
        &&& n == (App { query: n.query, filtered: n.filtered, cursor: n.cursor, ..self })
        &&& exists|q: QueryModel|
            parses_to(query, q) && n.filtered@ == filtered_for(self.all@, q, self.sort, self.sort_desc)
        &&& n.cursor as int == clamp_cursor(self.cursor as int, n.filtered@.len() as int)
    }

    /// The favorites list was rebuilt for `query`; nothing else changed but
    /// the query itself.
    pub open spec fn rows_rebuilt(self, query: Seq<char>, n: App) -> bool {
        &&& n.query@ == query
        &&& n == (App {
            query: n.query,
            favorite_rows: n.favorite_rows,
            favorite_cursor: n.favorite_cursor,
            ..self
        })
        &&& exists|q: QueryModel|
            parses_to(query, q) && n.favorite_rows@ == rows_for(
                self.favorites.model(),
                q.0,
                self.favorites.model().len() as int,
            )
        &&& n.favorite_cursor as int == clamp_cursor(
            self.favorite_cursor as int,
            n.favorite_rows@.len() as int,
        )
    }

    /// The shown list was rebuilt for `query`.
    pub open spec fn active_rebuilt(self, query: Seq<char>, n: App) -> bool {
        if self.view == ListView::History {
            self.filter_rebuilt(query, n)
        } else {
            self.rows_rebuilt(query, n)
        }
    }

    /// Only the message changed, to one of `kind` reading `msg`.
    pub open spec fn toasted(self, kind: ToastKind, msg: Seq<char>, n: App) -> bool {
        &&& n == (App { toast: n.toast, ..self })
        &&& n.toast matches Some(t) && t.kind == kind && t.message@ == msg && t.expires_at_ms
            == toast_expiry(self.clock_ms, kind)
    }

    /// The cursor of the shown list moved by `delta`.
    pub open spec fn moved(self, delta: int, n: App) -> bool {
        if self.view == ListView::History {
            n == (App {
                cursor: move_target(self.cursor as int, delta, self.filtered@.len() as int) as usize,
                ..self
            })
        } else {
            n == (App {
                favorite_cursor: move_target(
                    self.favorite_cursor as int,
                    delta,
                    self.favorite_rows@.len() as int,
                ) as usize,
                ..self
            })
        }
    }
}

proof fn lemma_matching_indices_bound(all: Seq<Entry>, q: QueryModel, n: int)
    ensures
        forall|k: int|
            0 <= k < matching_indices(all, q, n).len() ==> #[trigger] matching_indices(
                all,
                q,
                n,
            )[k] < n,
    decreases n,
{
    if n > 0 {
        lemma_matching_indices_bound(all, q, n - 1);
        let prev = matching_indices(all, q, n - 1);
        assert forall|k: int|
            0 <= k < matching_indices(all, q, n).len() implies #[trigger] matching_indices(
            all,
            q,
            n,
        )[k] < n by {
            if k < prev.len() {
                assert(matching_indices(all, q, n)[k] == prev[k]);
            }
        }
    }
}

/// The matching indices are distinct: each index is added once, above all
/// earlier ones.
proof fn lemma_matching_indices_distinct(all: Seq<Entry>, q: QueryModel, n: int)
    requires
        n <= usize::MAX + 1,
    ensures
        matching_indices(all, q, n).no_duplicates(),
    decreases n,
{
    if n > 0 {
        lemma_matching_indices_distinct(all, q, n - 1);
        lemma_matching_indices_bound(all, q, n - 1);
        let prev = matching_indices(all, q, n - 1);
        if query_matches(q, all[n - 1]) {
            let p = prev.push((n - 1) as usize);
            assert forall|i: int, j: int|
                0 <= i < p.len() && 0 <= j < p.len() && i != j implies p[i] != p[j] by {
                if i < prev.len() && j < prev.len() {
                    assert(p[i] == prev[i] && p[j] == prev[j]);
                } else if i < prev.len() {
                    assert(p[i] == prev[i]);
                    assert(prev[i] < n - 1);
                } else if j < prev.len() {
                    assert(p[j] == prev[j]);
                    assert(prev[j] < n - 1);
                }
            }
        }
    }
}

/// A rearrangement of a sequence without repeats has none either.
pub proof fn lemma_same_multiset_no_duplicates(s: Seq<usize>, t: Seq<usize>)
    requires
        s.no_duplicates(),
        s.to_multiset() == t.to_multiset(),
    ensures
        t.no_duplicates(),
{
    s.lemma_multiset_has_no_duplicates();
    t.lemma_multiset_has_no_duplicates_conv();
}

proof fn lemma_rows_for_valid(blocks: Seq<BlockModel>, needle: Seq<char>, n: int)
    requires
        n <= blocks.len(),
        n <= usize::MAX + 1,
        forall|k: int| 0 <= k < n ==> (#[trigger] blocks[k]).2.len() <= usize::MAX,
    ensures
        rows_valid(rows_for(blocks, needle, n), blocks),
    decreases n,
{
    if n > 0 {
        lemma_rows_for_valid(blocks, needle, n - 1);
        let prev = rows_for(blocks, needle, n - 1);
        if favorite_matches_spec(blocks[n - 1], needle) {
            let r = prev + block_rows(n - 1, blocks[n - 1].2.len());
            assert forall|i: int| 0 <= i < r.len() implies {
                &&& (#[trigger] r[i]).block_index < blocks.len()
                &&& r[i].line_index matches Some(l) ==> l < blocks[r[i].block_index as int].2.len()
            } by {
                if i >= prev.len() {
                    let j = i - prev.len();
                    assert(r[i] == block_rows(n - 1, blocks[n - 1].2.len())[j]);
                    if j > 0 {
                        assert(block_rows(n - 1, blocks[n - 1].2.len())[j] == FavoriteRow {
                            block_index: (n - 1) as usize,
                            line_index: Some((j - 1) as usize),
                        });
                    }
                } else {
                    assert(r[i] == prev[i]);
                }
            }
            if prev.len() == 0 {
                assert(r[0] == block_rows(n - 1, blocks[n - 1].2.len())[0]);
            } else {
                assert(r[0] == prev[0]);
            }
        }
    }
}

/// The rows of a block with `n` lines.
fn push_block_rows(rows: &mut Vec<FavoriteRow>, b: usize, n: usize)
    ensures
        final(rows)@ == old(rows)@ + block_rows(b as int, n as nat),
{
    rows.push(FavoriteRow { block_index: b, line_index: None });
    let mut l: usize = 0;
    while l < n
        invariant
            0 <= l <= n,
            rows@ == old(rows)@ + block_rows(b as int, n as nat).take(l + 1),
        decreases n - l,
    {
        rows.push(FavoriteRow { block_index: b, line_index: Some(l) });
        assert(block_rows(b as int, n as nat).take(l + 2) =~= block_rows(b as int, n as nat).take(
            l + 1,
        ).push(FavoriteRow { block_index: b, line_index: Some(l) }));
        l = l + 1;
    }
    assert(block_rows(b as int, n as nat).take(n + 1) =~= block_rows(b as int, n as nat));
}

impl App {
    /// A list over `all` and `favorites`, showing the whole history, newest
    /// first, and every favorite.
    pub fn with_favorites(all: Vec<Entry>, favorites: FavoritesStore) -> (app: App)
        ensures
            app.wf(),
            app.all@ == all@,
            app.favorites == favorites,
            app.view == ListView::History,
            app.mode == Mode::Normal,
            app.query@ == Seq::<char>::empty(),
            app.rename_input@ == Seq::<char>::empty(),
            app.sort == SortMode::Recency,
            !app.sort_desc,
            app.selected@.is_empty(),
            app.selected_order@.len() == 0,
            app.toast is None,
            !app.show_help,
            !app.should_quit,
            app.accepted_output is None,
            app.viewport_height == 10,
            app.clock_ms == 0,
            app.cursor == 0,
            app.favorite_cursor == 0,
            exists|q: QueryModel|
                parses_to(Seq::empty(), q) && app.filtered@ == filtered_for(
                    all@,
                    q,
                    SortMode::Recency,
                    false,
                ) && app.favorite_rows@ == rows_for(favorites.model(), q.0, favorites.model().len() as int),
    {
        let mut app = App {
            view: ListView::History,
            filtered: Vec::new(),
            all,
            cursor: 0,
            favorite_rows: Vec::new(),
            favorite_cursor: 0,
            mode: Mode::Normal,
            query: String::new(),
            rename_input: String::new(),
            sort: SortMode::Recency,
            sort_desc: false,
            selected: HashSet::new(),
            selected_order: Vec::new(),
            toast: None,
            show_help: false,
            should_quit: false,
            accepted_output: None,
            viewport_height: 10,
            favorites,
            clock_ms: 0,
        };
        assert(app.selected_order@.to_set() =~= Set::empty());
        app.rebuild_filtered();
        app.rebuild_favorite_rows();
        proof {
            lemma_empty_query_parses_once();
        }
        app
    }

    /// Rebuilds the history list for the query: the entries that match it
    /// (see `query_matches`), in the sort order; the cursor stays on the
    /// list.
    pub fn rebuild_filtered(&mut self)
        ensures
            old(self).filter_rebuilt(old(self).query@, *final(self)),
            final(self).query == old(self).query,
            indices_valid(final(self).filtered@, final(self).all@, SortMode::Alpha),
            final(self).filtered@.no_duplicates(),
            final(self).cursor as int == clamp_cursor(
                final(self).cursor as int,
                final(self).filtered@.len() as int,
            ),
    {
        let filters = ParsedQuery::parse(self.query.as_str());
        let mut out: Vec<usize> = Vec::new();
        let mut i: usize = 0;
        while i < self.all.len()
            invariant
                0 <= i <= self.all.len(),
                out@ == matching_indices(self.all@, filters.model(), i as int),
            decreases self.all.len() - i,
        {
            if filters.matches(&self.all[i]) {
                out.push(i);
            }
            i = i + 1;
        }
        proof {
            lemma_matching_indices_bound(self.all@, filters.model(), self.all@.len() as int);
            lemma_matching_indices_distinct(self.all@, filters.model(), self.all@.len() as int);
        }
        let ghost before = out@;
        apply_sort(&mut out, self.all.as_slice(), self.sort, self.sort_desc);
        proof {
            lemma_same_multiset_no_duplicates(before, out@);
            out@.to_multiset_ensures();
            before.to_multiset_ensures();
            assert forall|k: int| 0 <= k < out@.len() implies #[trigger] out@[k] < self.all@.len() by {
                assert(out@.contains(out@[k]));
                assert(out@.to_multiset().count(out@[k]) > 0);
                assert(before.to_multiset().count(out@[k]) > 0);
                assert(before.contains(out@[k]));
            }
        }
        self.filtered = out;
        self.clamp_history_cursor();
    }

    pub(crate) fn clamp_history_cursor(&mut self)
        ensures
            *final(self) == (App {
                cursor: clamp_cursor(old(self).cursor as int, old(self).filtered@.len() as int)
                    as usize,
                ..*old(self)
            }),
    {
        if self.filtered.len() == 0 {
            self.cursor = 0;
        } else if self.cursor >= self.filtered.len() {
            self.cursor = self.filtered.len() - 1;
        }
    }

    pub(crate) fn clamp_favorite_cursor(&mut self)
        ensures
            *final(self) == (App {
                favorite_cursor: clamp_cursor(
                    old(self).favorite_cursor as int,
                    old(self).favorite_rows@.len() as int,
                ) as usize,
                ..*old(self)
            }),
    {
        if self.favorite_rows.len() == 0 {
            self.favorite_cursor = 0;
        } else if self.favorite_cursor >= self.favorite_rows.len() {
            self.favorite_cursor = self.favorite_rows.len() - 1;
        }
    }

    /// Rebuilds the favorites list for the query's text: the rows of every
    /// block with a matching line (see `rows_for`); the cursor stays on the
    /// list.
    pub fn rebuild_favorite_rows(&mut self)
        ensures
            old(self).rows_rebuilt(old(self).query@, *final(self)),
            final(self).query == old(self).query,
            rows_valid(final(self).favorite_rows@, final(self).favorites.model()),
            final(self).favorite_cursor as int == clamp_cursor(
                final(self).favorite_cursor as int,
                final(self).favorite_rows@.len() as int,
            ),
    {
        let needle = ParsedQuery::parse(self.query.as_str());
        let ghost q = needle.model();
        let ghost blocks = self.favorites.model();
        let mut rows: Vec<FavoriteRow> = Vec::new();
        let mut b: usize = 0;
        while b < self.favorites.blocks.len()
            invariant
                0 <= b <= self.favorites.blocks.len(),
                blocks == self.favorites.model(),
                q == needle.model(),
                rows@ == rows_for(blocks, q.0, b as int),
                forall|k: int| 0 <= k < b ==> (#[trigger] blocks[k]).2.len() <= usize::MAX,
            decreases self.favorites.blocks.len() - b,
        {
            let block = &self.favorites.blocks[b];
            assert(blocks[b as int] == block.model());
            let nl = block.lines.len();
            assert(blocks[b as int].2.len() == nl);
            if favorite_matches_query(block, needle.text.as_str()) {
                push_block_rows(&mut rows, b, nl);
            }
            b = b + 1;
        }
        proof {
            lemma_rows_for_valid(blocks, q.0, blocks.len() as int);
        }
        self.favorite_rows = rows;
        self.clamp_favorite_cursor();
    }

    /// Whether the fields are in the relations that every operation keeps
    /// (see `wf`); what a caller outside the verified code checks before
    /// handing a key over.
    pub fn is_well_formed(&self) -> (r: bool)
        ensures
            r == self.wf(),
    {
        let mut k: usize = 0;
        while k < self.filtered.len()
            invariant
                0 <= k <= self.filtered.len(),
                forall|j: int| 0 <= j < k ==> #[trigger] self.filtered@[j] < self.all@.len(),
            decreases self.filtered.len() - k,
        {
            if self.filtered[k] >= self.all.len() {
                return false;
            }
            k = k + 1;
        }
        let filtered = &self.filtered;
        let mut fa: usize = 0;
        while fa < filtered.len()
            invariant
                0 <= fa <= filtered.len(),
                filtered@ == self.filtered@,
                forall|x: int, y: int|
                    0 <= x < fa && 0 <= y < fa && x != y ==> filtered@[x] != filtered@[y],
            decreases filtered.len() - fa,
        {
            let mut fb: usize = 0;
            while fb < fa
                invariant
                    0 <= fb <= fa < filtered.len(),
                    filtered@ == self.filtered@,
                    forall|y: int| 0 <= y < fb ==> filtered@[y] != filtered@[fa as int],
                decreases fa - fb,
            {
                if filtered[fb] == filtered[fa] {
                    assert(!filtered@.no_duplicates());
                    return false;
                }
                fb = fb + 1;
            }
            fa = fa + 1;
        }
        assert(self.filtered@.no_duplicates());
        let ghost blocks = self.favorites.model();
        let mut i: usize = 0;
        while i < self.favorite_rows.len()
            invariant
                0 <= i <= self.favorite_rows.len(),
                blocks == self.favorites.model(),
                forall|j: int|
                    #![trigger self.favorite_rows@[j]]
                    0 <= j < i ==> {
                        &&& self.favorite_rows@[j].block_index < blocks.len()
                        &&& self.favorite_rows@[j].line_index matches Some(l) ==> l
                            < blocks[self.favorite_rows@[j].block_index as int].2.len()
                    },
            decreases self.favorite_rows.len() - i,
        {
            let row = self.favorite_rows[i];
            if row.block_index >= self.favorites.blocks.len() {
                return false;
            }
            match row.line_index {
                Some(l) => {
                    if l >= self.favorites.blocks[row.block_index].lines.len() {
                        return false;
                    }
                },
                None => {},
            }
            i = i + 1;
        }
        if self.favorite_rows.len() > 0 && self.favorite_rows[0].line_index.is_some() {
            return false;
        }
        if !(self.cursor < self.filtered.len() || (self.cursor == 0 && self.filtered.len() == 0)) {
            return false;
        }
        if !(self.favorite_cursor < self.favorite_rows.len() || (self.favorite_cursor == 0
            && self.favorite_rows.len() == 0)) {
            return false;
        }
        let order = &self.selected_order;
        let mut a: usize = 0;
        while a < order.len()
            invariant
                0 <= a <= order.len(),
                order@ == self.selected_order@,
                forall|x: int, y: int| 0 <= x < a && 0 <= y < a && x != y ==> order@[x] != order@[y],
            decreases order.len() - a,
        {
            let mut b: usize = 0;
            while b < a
                invariant
                    0 <= b <= a < order.len(),
                    order@ == self.selected_order@,
                    forall|y: int| 0 <= y < b ==> order@[y] != order@[a as int],
                decreases a - b,
            {
                if order[b] == order[a] {
                    assert(!order@.no_duplicates());
                    return false;
                }
                b = b + 1;
            }
            a = a + 1;
        }
        assert(order@.no_duplicates());
        let mut c: usize = 0;
        while c < order.len()
            invariant
                0 <= c <= order.len(),
                order@ == self.selected_order@,
                forall|j: int| 0 <= j < c ==> self.selected@.contains(#[trigger] order@[j]),
            decreases order.len() - c,
        {
            if !self.selected.contains(&order[c]) {
                assert(order@.to_set().contains(order@[c as int]));
                return false;
            }
            c = c + 1;
        }
        proof {
            order@.unique_seq_to_set();
        }
        if self.selected.len() != order.len() {
            return false;
        }
        proof {
            vstd::std_specs::hash::axiom_spec_hash_keys_iter(&self.selected);
            let keys = vstd::std_specs::iter::IteratorSpec::remaining(
                &vstd::std_specs::hash::spec_hash_keys_iter(&self.selected),
            ).unref();
            vstd::seq_lib::seq_to_set_is_finite(keys);
            vstd::seq_lib::seq_to_set_is_finite(order@);
            assert(order@.to_set().subset_of(self.selected@));
            vstd::set_lib::lemma_subset_equality(order@.to_set(), self.selected@);
        }
        true
    }

    /// Rebuilds the list that is shown.
    pub(crate) fn rebuild_active_view(&mut self)
        ensures
            old(self).active_rebuilt(old(self).query@, *final(self)),
            final(self).query == old(self).query,
            final(self).view == old(self).view,
            indices_valid(old(self).filtered@, old(self).all@, SortMode::Alpha) ==> indices_valid(
                final(self).filtered@,
                final(self).all@,
                SortMode::Alpha,
            ),
            indices_valid(final(self).filtered@, final(self).all@, SortMode::Alpha) || old(
                self,
            ).view == ListView::Favorites,
            old(self).wf() ==> final(self).wf(),
    {
        match self.view {
            ListView::History => self.rebuild_filtered(),
            ListView::Favorites => self.rebuild_favorite_rows(),
        }
    }

    // -----------------------------------------------------------------
    // Reading the state
    // -----------------------------------------------------------------
    /// The number of rows shown.
    pub fn visible_count(&self) -> (r: usize)
        ensures
            r == (if self.view == ListView::History {
                self.filtered@.len()
            } else {
                self.favorite_rows@.len()
            }),
    {
        match self.view {
            ListView::History => self.filtered.len(),
            ListView::Favorites => self.favorite_rows.len(),
        }
    }

    /// The number of entries, or of favorite blocks.
    pub fn total_count(&self) -> (r: usize)
        ensures
            r == (if self.view == ListView::History {
                self.all@.len()
            } else {
                self.favorites.blocks@.len()
            }),
    {
        match self.view {
            ListView::History => self.all.len(),
            ListView::Favorites => self.favorites.blocks.len(),
        }
    }

    /// The cursor of the shown list.
    pub fn active_cursor(&self) -> (r: usize)
        ensures
            r == (if self.view == ListView::History {
                self.cursor
            } else {
                self.favorite_cursor
            }),
    {
        match self.view {
            ListView::History => self.cursor,
            ListView::Favorites => self.favorite_cursor,
        }
    }

    /// Whether the history list shows a time column: some entry has a time.
    pub fn has_timestamps(&self) -> (r: bool)
        ensures
            r == (self.view == ListView::History && exists|i: int|
                0 <= i < self.all@.len() && (#[trigger] self.all@[i]).timestamp is Some),
    {
        if self.view != ListView::History {
            return false;
        }
        let mut i: usize = 0;
        while i < self.all.len()
            invariant
                0 <= i <= self.all.len(),
                self.view == ListView::History,
                forall|k: int| 0 <= k < i ==> (#[trigger] self.all@[k]).timestamp is None,
            decreases self.all.len() - i,
        {
            if self.all[i].timestamp.is_some() {
                assert(self.all@[i as int].timestamp is Some);
                return true;
            }
            i = i + 1;
        }
        false
    }

    /// Hands over the accepted text, once.
    pub fn take_accepted_output(&mut self) -> (r: Option<String>)
        ensures
            r == old(self).accepted_output,
            *final(self) == (App { accepted_output: None, ..*old(self) }),
    {
        self.accepted_output.take()
    }

    /// The index in `all` of the entry under the history cursor.
    pub open spec fn current_entry_index(self) -> Option<int> {
        if self.cursor < self.filtered@.len() && self.filtered@[self.cursor as int]
            < self.all@.len() {
            Some(self.filtered@[self.cursor as int] as int)
        } else {
            None
        }
    }

    /// The entry under the history cursor.
    pub fn current_entry(&self) -> (r: Option<&Entry>)
        ensures
            match self.current_entry_index() {
                Some(i) => r == Some(&self.all@[i]),
                None => r is None,
            },
    {
        if self.cursor < self.filtered.len() && self.filtered[self.cursor] < self.all.len() {
            Some(&self.all[self.filtered[self.cursor]])
        } else {
            None
        }
    }

    /// The favorites row under the cursor.
    pub fn current_favorite_row(&self) -> (r: Option<FavoriteRow>)
        ensures
            r == (if self.favorite_cursor < self.favorite_rows@.len() {
                Some(self.favorite_rows@[self.favorite_cursor as int])
            } else {
                None
            }),
    {
        if self.favorite_cursor < self.favorite_rows.len() {
            Some(self.favorite_rows[self.favorite_cursor])
        } else {
            None
        }
    }

    /// The index of the block under the favorites cursor.
    pub open spec fn current_block_index(self) -> Option<int> {
        if self.favorite_cursor < self.favorite_rows@.len() && self.favorite_rows@[
            self.favorite_cursor as int
        ].block_index < self.favorites.blocks@.len() {
            Some(self.favorite_rows@[self.favorite_cursor as int].block_index as int)
        } else {
            None
        }
    }

    /// The block under the favorites cursor.
    pub fn current_favorite_block(&self) -> (r: Option<&FavoriteBlock>)
        ensures
            match self.current_block_index() {
                Some(i) => r == Some(&self.favorites.blocks@[i]),
                None => r is None,
            },
    {
        match self.current_favorite_row() {
            Some(row) => self.favorite_block(row.block_index),
            None => None,
        }
    }

    /// Favorite block `block_index`, if there is one.
    pub fn favorite_block(&self, block_index: usize) -> (r: Option<&FavoriteBlock>)
        ensures
            r == (if block_index < self.favorites.blocks@.len() {
                Some(&self.favorites.blocks@[block_index as int])
            } else {
                None
            }),
    {
        if block_index < self.favorites.blocks.len() {
            Some(&self.favorites.blocks[block_index])
        } else {
            None
        }
    }

    /// The line under the favorites cursor: on a header, the block's first
    /// line.
    pub open spec fn current_line_spec(self) -> Option<Seq<char>> {
        match self.current_block_index() {
            Some(b) => {
                let lines = self.favorites.model()[b].2;
                let l = match self.favorite_rows@[self.favorite_cursor as int].line_index {
                    Some(l) => l as int,
                    None => 0,
                };
                if l < lines.len() {
                    Some(lines[l])
                } else {
                    None
                }
            },
            None => None,
        }
    }

    /// The line under the favorites cursor (see `current_line_spec`).
    pub fn current_favorite_line(&self) -> (r: Option<&str>)
        ensures
            match self.current_line_spec() {
                Some(l) => r matches Some(s) && s@ == l,
                None => r is None,
            },
    {
        let row = match self.current_favorite_row() {
            Some(row) => row,
            None => {
                return None;
            },
        };
        let block = match self.favorite_block(row.block_index) {
            Some(b) => b,
            None => {
                return None;
            },
        };
        let l = match row.line_index {
            Some(l) => l,
            None => 0,
        };
        if l < block.lines.len() {
            Some(block.lines[l].as_str())
        } else {
            None
        }
    }

    /// Sets the number of list rows on screen (at least one).
    pub fn set_viewport_height(&mut self, viewport_height: usize)
        ensures
            *final(self) == (App {
                viewport_height: if viewport_height > 1 {
                    viewport_height
                } else {
                    1
                },
                ..*old(self)
            }),
    {
        self.viewport_height = if viewport_height > 1 {
            viewport_height
        } else {
            1
        };
    }

    // -----------------------------------------------------------------
    // Messages and time
    // -----------------------------------------------------------------
    pub(crate) fn set_toast(&mut self, kind: ToastKind, message: String)
        ensures
            old(self).toasted(kind, message@, *final(self)),
    {
        let ttl = match kind {
            ToastKind::Info => INFO_TOAST_TTL_MS,
            ToastKind::Error => ERROR_TOAST_TTL_MS,
        };
        let expires_at_ms = if self.clock_ms > u64::MAX - ttl {
            u64::MAX
        } else {
            self.clock_ms + ttl
        };
        self.toast = Some(Toast { message, kind, expires_at_ms });
    }

    pub(crate) fn info(&mut self, message: &str)
        ensures
            old(self).toasted(ToastKind::Info, message@, *final(self)),
    {
        self.set_toast(ToastKind::Info, string_from_chars(chars_of(message).as_slice()));
    }

    pub(crate) fn error(&mut self, message: &str)
        ensures
            old(self).toasted(ToastKind::Error, message@, *final(self)),
    {
        self.set_toast(ToastKind::Error, string_from_chars(chars_of(message).as_slice()));
    }

    /// Sets the application clock (milliseconds); messages set afterwards
    /// expire relative to it.
    pub fn set_clock(&mut self, now_ms: u64)
        ensures
            *final(self) == (App { clock_ms: now_ms, ..*old(self) }),
    {
        self.clock_ms = now_ms;
    }

    /// Advances the clock to `now_ms` and drops an expired message.
    pub fn tick(&mut self, now_ms: u64)
        ensures
            final(self).clock_ms == now_ms,
            match old(self).toast {
                Some(t) => if now_ms >= t.expires_at_ms {
                    *final(self) == (App { clock_ms: now_ms, toast: None, ..*old(self) })
                } else {
                    *final(self) == (App { clock_ms: now_ms, ..*old(self) })
                },
                None => *final(self) == (App { clock_ms: now_ms, ..*old(self) }),
            },
    {
        self.clock_ms = now_ms;
        let expired = match &self.toast {
            Some(t) => now_ms >= t.expires_at_ms,
            None => false,
        };
        if expired {
            self.toast = None;
        }
    }

    // -----------------------------------------------------------------
    // Moving
    // -----------------------------------------------------------------
    pub(crate) fn move_by(&mut self, delta: i128)
        requires
            -0x1_0000_0000_0000_0000_0000 <= delta <= 0x1_0000_0000_0000_0000_0000,
        ensures
            old(self).moved(delta as int, *final(self)),
    {
        match self.view {
            ListView::History => {
                self.cursor = step_cursor(self.cursor, delta, self.filtered.len());
            },
            ListView::Favorites => {
                self.favorite_cursor = step_cursor(
                    self.favorite_cursor,
                    delta,
                    self.favorite_rows.len(),
                );
            },
        }
    }
}

/// `c` moved by `delta` on a list of `len` rows (see `move_target`).
fn step_cursor(c: usize, delta: i128, len: usize) -> (r: usize)
    requires
        -0x1_0000_0000_0000_0000_0000 <= delta <= 0x1_0000_0000_0000_0000_0000,
    ensures
        r == move_target(c as int, delta as int, len as int),
{
    if len == 0 {
        return 0;
    }
    let target: i128 = (c as i128) + delta;
    if target < 0 {
        0
    } else if target > (len - 1) as i128 {
        len - 1
    } else {
        target as usize
    }
}

/// The empty query has one reading: no text and no time window.
proof fn lemma_empty_query_parses_once()
    ensures
        forall|q: QueryModel|
            parses_to(Seq::empty(), q) <==> q == (Seq::<char>::empty(), None::<i64>, None::<i64>),
{
    assert(crate::text::words(Seq::empty()) =~= Seq::empty());
    assert forall|q: QueryModel| parses_to(Seq::empty(), q) implies q == (
        Seq::<char>::empty(),
        None::<i64>,
        None::<i64>,
    ) by {
        let outs = choose|outs: Seq<crate::query::TokenTime>| crate::query::parses_as(
            Seq::empty(),
            outs,
            q,
        );
        assert(outs =~= Seq::<crate::query::TokenTime>::empty());
    }
    let outs = Seq::<crate::query::TokenTime>::empty();
    let e = (Seq::<char>::empty(), None::<i64>, None::<i64>);
    assert(crate::query::query_model(Seq::empty(), outs) == e);
    assert(crate::query::parses_as(Seq::empty(), outs, e));
}


// ---------------------------------------------------------------------
// Selections, as values
// ---------------------------------------------------------------------
/// The entry with id `id`: the one at position `id` when it has that id,
/// else the first entry with it.
pub open spec fn entry_index_for_id(all: Seq<Entry>, id: u64) -> Option<int> {
    let k = (id as usize) as int;
    if 0 <= k < all.len() && all[k].id == id {
        Some(k)
    } else {
        all.map_values(|e: Entry| e.id).index_of_first(id)
    }
}

/// The commands of the entries with these ids, in the ids' order, skipping
/// ids of no entry.
pub open spec fn lines_for_ids(all: Seq<Entry>, ids: Seq<u64>) -> Seq<Seq<char>>
    decreases ids.len(),
{
    if ids.len() == 0 {
        Seq::empty()
    } else {
        let prev = lines_for_ids(all, ids.drop_last());
        match entry_index_for_id(all, ids.last()) {
            Some(i) => prev.push(all[i].cmd@),
            None => prev,
        }
    }
}

/// `order` without `id`.
pub open spec fn without_id(order: Seq<u64>, id: u64) -> Seq<u64>
    decreases order.len(),
{
    if order.len() == 0 {
        Seq::empty()
    } else {
        let prev = without_id(order.drop_last(), id);
        if order.last() == id {
            prev
        } else {
            prev.push(order.last())
        }
    }
}

/// `order` with each of `ids` appended, in turn, unless already there.
pub open spec fn add_ids(order: Seq<u64>, ids: Seq<u64>) -> Seq<u64>
    decreases ids.len(),
{
    if ids.len() == 0 {
        order
    } else {
        let prev = add_ids(order, ids.drop_last());
        if prev.contains(ids.last()) {
            prev
        } else {
            prev.push(ids.last())
        }
    }
}

/// The block indices of the header rows, in order.
pub open spec fn header_blocks(rows: Seq<FavoriteRow>) -> Seq<usize>
    decreases rows.len(),
{
    if rows.len() == 0 {
        Seq::empty()
    } else {
        let prev = header_blocks(rows.drop_last());
        if rows.last().line_index is None {
            prev.push(rows.last().block_index)
        } else {
            prev
        }
    }
}

/// Lines joined with newlines.
pub open spec fn join_lines(ls: Seq<Seq<char>>) -> Seq<char>
    decreases ls.len(),
{
    if ls.len() == 0 {
        Seq::empty()
    } else if ls.len() == 1 {
        ls[0]
    } else {
        join_lines(ls.drop_last()) + seq!['\n'] + ls.last()
    }
}

/// `""` for one, `"s"` otherwise.
pub open spec fn plural(n: int) -> Seq<char> {
    if n == 1 {
        Seq::empty()
    } else {
        seq!['s']
    }
}

/// The message of a history copy.
pub open spec fn copied_lines_message(n: nat) -> Seq<char> {
    "Copied "@ + decimal_text(n) + " line"@ + plural(n as int)
}

/// The message of a favorite copy.
pub open spec fn copied_favorite_message(n: nat) -> Seq<char> {
    "Copied favorite with "@ + decimal_text(n) + " line"@ + plural(n as int)
}

/// The effect puts `payload` on the clipboard and then reports `message`.
pub open spec fn copies(e: Effect, payload: Seq<char>, message: Seq<char>) -> bool {
    e matches Effect::CopyToClipboard { payload: p, success_message: m } && p@ == payload && m@
        == message
}

/// The effect asks for the favorites file to be written, then for
/// `message` to be reported.
pub open spec fn persists(e: Effect, message: Seq<char>) -> bool {
    e matches Effect::PersistFavorites { success_message: m } && m@ == message
}

/// `t` is a message of `kind` reading `msg`, set at `clock`.
pub open spec fn toast_is(t: Option<Toast>, kind: ToastKind, msg: Seq<char>, clock: u64) -> bool {
    t matches Some(x) && x.kind == kind && x.message@ == msg && x.expires_at_ms == toast_expiry(
        clock,
        kind,
    )
}

/// `v` kept within `lo..=hi`.
pub open spec fn clamp_range(v: int, lo: int, hi: int) -> int {
    if v < lo {
        lo
    } else if v > hi {
        hi
    } else {
        v
    }
}

impl App {
    /// The lines a copy, accept or save of the history takes: the selected
    /// entries' commands in selection order, else the command under the
    /// cursor.
    pub open spec fn selected_lines_spec(self) -> Seq<Seq<char>> {
        if self.selected@.is_empty() {
            match self.current_entry_index() {
                Some(i) => seq![self.all@[i].cmd@],
                None => Seq::empty(),
            }
        } else {
            lines_for_ids(self.all@, self.selected_order@)
        }
    }

    /// The ids of the listed entries, in list order.
    pub open spec fn filtered_ids(self) -> Seq<u64> {
        self.filtered@.map_values(|k: usize| self.all@[k as int].id)
    }

    /// `id` was selected (appended to the selection order unless already
    /// selected).
    pub open spec fn selected_with(self, id: u64, n: App) -> bool {
        if self.selected@.contains(id) {
            n == self
        } else {
            &&& n == (App { selected: n.selected, selected_order: n.selected_order, ..self })
            &&& n.selected@ == self.selected@.insert(id)
            &&& n.selected_order@ == self.selected_order@.push(id)
        }
    }

    /// `id` was deselected.
    pub open spec fn deselected(self, id: u64, n: App) -> bool {
        &&& n == (App { selected: n.selected, selected_order: n.selected_order, ..self })
        &&& n.selected@ == self.selected@.remove(id)
        &&& n.selected_order@ == without_id(self.selected_order@, id)
    }

    /// Space: in the history, the entry under the cursor is selected or
    /// deselected.
    pub open spec fn selection_toggled(self, n: App) -> bool {
        if self.view == ListView::Favorites {
            self.toasted(ToastKind::Info, "Favorites use block copy, not selection"@, n)
        } else {
            match self.current_entry_index() {
                None => n == self,
                Some(i) => {
                    let id = self.all@[i].id;
                    if self.selected@.contains(id) {
                        self.deselected(id, n)
                    } else {
                        self.selected_with(id, n)
                    }
                },
            }
        }
    }

    /// `a`: in the history, every listed entry is selected, in list order.
    pub open spec fn all_selected(self, n: App) -> bool {
        if self.view == ListView::Favorites {
            self.toasted(ToastKind::Info, "Favorites use block copy, not selection"@, n)
        } else {
            &&& n == (App {
                selected: n.selected,
                selected_order: n.selected_order,
                toast: n.toast,
                ..self
            })
            &&& n.selected_order@ == add_ids(self.selected_order@, self.filtered_ids())
            &&& n.selected@ == n.selected_order@.to_set()
            &&& toast_is(
                n.toast,
                ToastKind::Info,
                "Selected "@ + decimal_text(self.filtered@.len()) + " shown entries"@,
                self.clock_ms,
            )
        }
    }

    /// `c`: the history selection is cleared; in the favorites, the search.
    pub open spec fn selection_cleared(self, n: App) -> bool {
        if self.view == ListView::Favorites {
            &&& n.query@ == Seq::<char>::empty()
            &&& toast_is(n.toast, ToastKind::Info, "Cleared favorites filter"@, self.clock_ms)
            &&& self.rows_rebuilt(Seq::empty(), App { toast: self.toast, ..n })
        } else {
            &&& n == (App {
                selected: n.selected,
                selected_order: n.selected_order,
                toast: n.toast,
                ..self
            })
            &&& n.selected@.is_empty()
            &&& n.selected_order@.len() == 0
            &&& toast_is(n.toast, ToastKind::Info, "Cleared selections"@, self.clock_ms)
        }
    }

    /// `y`: the history selection (or the line under the cursor), or the
    /// whole favorite block, goes to the clipboard.
    pub open spec fn scope_copied(self, n: App, e: Effect) -> bool {
        if self.view == ListView::History {
            let lines = self.selected_lines_spec();
            if lines.len() == 0 {
                self.toasted(ToastKind::Error, "Nothing to copy"@, n) && e is Nothing
            } else {
                n == self && copies(e, join_lines(lines), copied_lines_message(lines.len()))
            }
        } else {
            match self.current_block_index() {
                None => self.toasted(ToastKind::Error, "No favorite selected"@, n) && e is Nothing,
                Some(b) => {
                    let lines = self.favorites.model()[b].2;
                    n == self && copies(e, join_lines(lines), copied_favorite_message(lines.len()))
                },
            }
        }
    }

    /// `Y`: the line under the cursor goes to the clipboard.
    pub open spec fn line_copied(self, n: App, e: Effect) -> bool {
        let line = if self.view == ListView::History {
            match self.current_entry_index() {
                Some(i) => Some(self.all@[i].cmd@),
                None => None,
            }
        } else {
            self.current_line_spec()
        };
        match line {
            None => self.toasted(ToastKind::Error, "Nothing to copy"@, n) && e is Nothing,
            Some(l) => n == self && copies(e, l, "Copied current line"@),
        }
    }

    /// Enter: the history selection (or the line under the cursor), or the
    /// whole favorite block, becomes the output, and the list quits.
    pub open spec fn scope_accepted(self, n: App) -> bool {
        let out = if self.view == ListView::History {
            let lines = self.selected_lines_spec();
            if lines.len() == 0 {
                None
            } else {
                Some(join_lines(lines))
            }
        } else {
            match self.current_block_index() {
                Some(b) => Some(join_lines(self.favorites.model()[b].2)),
                None => None,
            }
        };
        match out {
            Some(text) => {
                &&& n == (App { accepted_output: n.accepted_output, should_quit: true, ..self })
                &&& n.accepted_output matches Some(a) && a@ == text
            },
            None => self.toasted(
                ToastKind::Error,
                if self.view == ListView::History {
                    "Nothing to accept"@
                } else {
                    "No favorite selected"@
                },
                n,
            ),
        }
    }

    /// The favorite rows were rebuilt for the favorites as they stand; a
    /// store in memory reports `message` at once, a store with a file asks
    /// for the file to be written and reports `message` afterwards.
    pub open spec fn rows_refreshed(self, message: Seq<char>, n: App, e: Effect) -> bool {
        &&& n.favorites == self.favorites
        &&& self.rows_rebuilt(self.query@, App { toast: self.toast, ..n })
        &&& if self.favorites.path_spec() is None {
            toast_is(n.toast, ToastKind::Info, message, self.clock_ms) && e is Nothing
        } else {
            n.toast == self.toast && persists(e, message)
        }
    }

    /// The favorites changed to `blocks`, keeping their file, and then their
    /// rows were refreshed (see `rows_refreshed`).
    pub open spec fn favorites_changed(
        self,
        blocks: Seq<BlockModel>,
        message: Seq<char>,
        n: App,
        e: Effect,
    ) -> bool {
        &&& n.favorites.model() == blocks
        &&& n.favorites.path_spec() == self.favorites.path_spec()
        &&& App { favorites: n.favorites, ..self }.rows_refreshed(message, n, e)
    }

    /// `f`: in the history, the selection (or the line under the cursor) is
    /// saved as a favorite block (see `add_spec`); in the favorites, the
    /// block under the cursor is removed (see `remove_spec`).
    pub open spec fn favorite_saved(self, n: App, e: Effect) -> bool {
        if self.view == ListView::Favorites {
            match self.current_block_index() {
                None => self.toasted(ToastKind::Error, "No favorite selected"@, n) && e is Nothing,
                Some(b) => self.favorites_changed(
                    remove_spec(self.favorites.model(), b).1,
                    "Removed favorite"@,
                    n,
                    e,
                ),
            }
        } else {
            let (r, blocks) = add_spec(self.favorites.model(), self.selected_lines_spec());
            match r {
                AddFavoriteResult::Empty => self.toasted(ToastKind::Error, "Nothing to favorite"@, n)
                    && e is Nothing,
                AddFavoriteResult::Duplicate(_) => self.toasted(
                    ToastKind::Info,
                    "Favorite already saved"@,
                    n,
                ) && e is Nothing,
                AddFavoriteResult::Added(_) => self.favorites_changed(
                    blocks,
                    "Saved favorite"@,
                    n,
                    e,
                ),
            }
        }
    }

    /// `g`: to the top of the shown list.
    pub open spec fn jumped_top(self, n: App) -> bool {
        if self.view == ListView::History {
            n == (App { cursor: 0, ..self })
        } else {
            n == (App { favorite_cursor: 0, ..self })
        }
    }

    /// `G`: to the bottom of the shown list.
    pub open spec fn jumped_bottom(self, n: App) -> bool {
        if self.view == ListView::History {
            n == (App {
                cursor: clamp_cursor(usize::MAX as int, self.filtered@.len() as int) as usize,
                ..self
            })
        } else {
            n == (App {
                favorite_cursor: clamp_cursor(usize::MAX as int, self.favorite_rows@.len() as int)
                    as usize,
                ..self
            })
        }
    }

    /// `J`/`K`: in the favorites, to the header of the next or previous
    /// listed block (in the history, one row).
    pub open spec fn block_moved(self, dir: int, n: App) -> bool {
        if self.view == ListView::History {
            self.moved(dir, n)
        } else if self.favorite_rows@.len() == 0 {
            n == (App { favorite_cursor: 0, ..self })
        } else {
            let rows = self.favorite_rows@;
            let vb = header_blocks(rows);
            let cur = rows[self.favorite_cursor as int].block_index;
            let cv = match vb.index_of_first(cur) {
                Some(k) => k,
                None => 0,
            };
            let target = vb[clamp_range(cv + dir, 0, vb.len() - 1)];
            match rows.map_values(|r: FavoriteRow| r.block_index).index_of_first(target) {
                Some(p) => n == (App { favorite_cursor: p as usize, ..self }),
                None => n == self,
            }
        }
    }

    /// `F`: the other list is shown, rebuilt, outside search.
    pub open spec fn view_toggled(self, n: App) -> bool {
        let flipped = App {
            mode: Mode::Normal,
            view: if self.view == ListView::History {
                ListView::Favorites
            } else {
                ListView::History
            },
            ..self
        };
        flipped.active_rebuilt(self.query@, n)
    }

    /// The history list re-sorted with the current order; the cursor stays
    /// on the list.
    pub open spec fn resorted(self, n: App) -> bool {
        &&& n == (App { filtered: n.filtered, cursor: n.cursor, ..self })
        &&& n.filtered@ == self.filtered@.sort_by(sort_leq(self.all@, self.sort, self.sort_desc))
        &&& n.cursor as int == clamp_cursor(self.cursor as int, n.filtered@.len() as int)
    }

    /// What a key outside search does.
    pub open spec fn normal_post(self, a: NormalAction, n: App, e: Effect) -> bool {
        match a {
            NormalAction::Quit => n == (App { should_quit: true, ..self }) && e is Nothing,
            NormalAction::ToggleHelp => n == (App { show_help: true, ..self }) && e is Nothing,
            NormalAction::Move(d) => self.moved(d as int, n) && e is Nothing,
            NormalAction::MoveHalfPage(d) => self.moved(
                (if self.viewport_height / 2 > 1 {
                    self.viewport_height / 2
                } else {
                    1
                }) * d,
                n,
            ) && e is Nothing,
            NormalAction::MoveBlock(d) => self.block_moved(d as int, n) && e is Nothing,
            NormalAction::JumpTop => self.jumped_top(n) && e is Nothing,
            NormalAction::JumpBottom => self.jumped_bottom(n) && e is Nothing,
            NormalAction::ToggleSelection => self.selection_toggled(n) && e is Nothing,
            NormalAction::SelectAllShown => self.all_selected(n) && e is Nothing,
            NormalAction::ClearSelection => self.selection_cleared(n) && e is Nothing,
            NormalAction::Copy => self.scope_copied(n, e),
            NormalAction::CopyLine => self.line_copied(n, e),
            NormalAction::Accept => self.scope_accepted(n) && e is Nothing,
            NormalAction::SaveFavorite => self.favorite_saved(n, e),
            NormalAction::ToggleFavoritesView => self.view_toggled(n) && e is Nothing,
            NormalAction::EnterSearch => n == (App { mode: Mode::Search, ..self }) && e is Nothing,
            NormalAction::CycleSort => e is Nothing && if self.view == ListView::History {
                App { sort: self.sort.cycle_spec(), ..self }.resorted(n)
            } else {
                self.toasted(ToastKind::Info, "Favorites keep saved order"@, n)
            },
            NormalAction::ToggleSortDirection => e is Nothing && if self.view == ListView::History {
                App { sort_desc: !self.sort_desc, ..self }.resorted(n)
            } else {
                self.toasted(ToastKind::Info, "Favorites keep saved order"@, n)
            },
            NormalAction::Rename => self.rename_started(n) && e is Nothing,
        }
    }

    /// `r`: in the favorites, editing starts on the title of the block under
    /// the cursor, from its custom title (empty when it has none); in the
    /// history, nothing happens.
    pub open spec fn rename_started(self, n: App) -> bool {
        if self.view == ListView::History {
            n == self
        } else {
            match self.current_block_index() {
                None => self.toasted(ToastKind::Error, "No favorite selected"@, n),
                Some(b) => {
                    &&& n == (App { mode: Mode::Rename, rename_input: n.rename_input, ..self })
                    &&& n.rename_input@ == match self.favorites.model()[b].1 {
                        Some(t) => t,
                        None => Seq::empty(),
                    }
                },
            }
        }
    }

    /// What a key does while a title is edited: Enter gives the block under
    /// the cursor the typed title (none when it is empty, which brings back
    /// the default title) and refreshes the favorites (see
    /// `favorites_changed`); Esc leaves the title as it was.
    pub open spec fn rename_post(self, a: RenameAction, n: App, e: Effect) -> bool {
        match a {
            RenameAction::Cancel => n == (App { mode: Mode::Normal, ..self }) && e is Nothing,
            RenameAction::Clear => {
                &&& n == (App { rename_input: n.rename_input, ..self })
                &&& n.rename_input@ == Seq::<char>::empty()
                &&& e is Nothing
            },
            RenameAction::DeleteLastChar => {
                &&& n == (App { rename_input: n.rename_input, ..self })
                &&& n.rename_input@ == (if self.rename_input@.len() == 0 {
                    self.rename_input@
                } else {
                    self.rename_input@.drop_last()
                })
                &&& e is Nothing
            },
            RenameAction::InsertChar(c) => {
                &&& n == (App { rename_input: n.rename_input, ..self })
                &&& n.rename_input@ == self.rename_input@.push(c)
                &&& e is Nothing
            },
            RenameAction::Commit => {
                let done = App { mode: Mode::Normal, ..self };
                match self.current_block_index() {
                    None => done.toasted(ToastKind::Error, "No favorite selected"@, n) && e is Nothing,
                    Some(b) => done.favorites_changed(
                        rename_spec(self.favorites.model(), b, title_for_input(self.rename_input@)).1,
                        "Renamed favorite"@,
                        n,
                        e,
                    ),
                }
            },
        }
    }

    /// What a key while searching does.
    pub open spec fn search_post(self, a: SearchAction, n: App, e: Effect) -> bool {
        e is Nothing && match a {
            SearchAction::ExitSearch => n == (App { mode: Mode::Normal, ..self }),
            SearchAction::ClearQuery => if self.query@.len() == 0 {
                n == self
            } else {
                self.active_rebuilt(Seq::empty(), n)
            },
            SearchAction::DeleteLastWord => self.active_rebuilt(drop_last_word(self.query@), n),
            SearchAction::DeleteLastChar => self.active_rebuilt(
                if self.query@.len() == 0 {
                    self.query@
                } else {
                    self.query@.drop_last()
                },
                n,
            ),
            SearchAction::InsertChar(c) => self.active_rebuilt(self.query@.push(c), n),
        }
    }

    /// What a key does: with the help shown, Esc or `?` hides it and other
    /// keys do nothing; otherwise the key's action in the current mode.
    pub open spec fn key_post(self, key: KeyInput, n: App, e: Effect) -> bool {
        if self.show_help {
            e is Nothing && if key.code == KeyCode::Esc || key.code == KeyCode::Char('?') {
                n == (App { show_help: false, ..self })
            } else {
                n == self
            }
        } else if self.mode == Mode::Normal {
            match normal_action_spec(key) {
                Some(a) => self.normal_post(a, n, e),
                None => n == self && e is Nothing,
            }
        } else if self.mode == Mode::Search {
            match search_action_spec(key) {
                Some(a) => self.search_post(a, n, e),
                None => n == self && e is Nothing,
            }
        } else {
            match rename_action_spec(key) {
                Some(a) => self.rename_post(a, n, e),
                None => n == self && e is Nothing,
            }
        }
    }
}

/// The title a typed text gives: none for an empty text.
pub open spec fn title_for_input(input: Seq<char>) -> Option<Seq<char>> {
    if input.len() == 0 {
        None
    } else {
        Some(input)
    }
}

/// The query with its last word (and the white space after it) removed.
pub open spec fn drop_last_word(q: Seq<char>) -> Seq<char> {
    drop_trailing_word(crate::text::trim_end_spaces(q))
}

/// `q` without its trailing non-space characters.
pub open spec fn drop_trailing_word(q: Seq<char>) -> Seq<char>
    decreases q.len(),
{
    if q.len() > 0 && !crate::text::is_space(q.last()) {
        drop_trailing_word(q.drop_last())
    } else {
        q
    }
}

} // verus!
