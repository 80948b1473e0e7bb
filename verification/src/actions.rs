//! What the keys do to the list: selecting, copying, accepting, saving
//! favorites, switching lists, sorting and editing the search.
use vstd::prelude::*;

use crate::app::{
    add_ids, drop_last_word, drop_trailing_word, entry_index_for_id, filtered_for, header_blocks,
    join_lines, lines_for_ids, matching_indices, normal_action_for_key, normal_action_spec, plural,
    search_action_for_key, without_id, App, Effect, rows_valid, clamp_cursor, FavoriteRow, KeyCode,
    KeyInput, ListView, Mode,
    NormalAction, QueryModel, RenameAction, SearchAction, ToastKind, rename_action_for_key,
};
use crate::favorites::{lines_model, AddFavoriteResult};
use crate::history::Entry;
use crate::sort::{apply_sort, SortMode};
use crate::text::{
    chars_of, decimal_text, is_whitespace, lemma_first_index, lemma_no_index, push_all, push_str,
    string_from_chars, trim_end_spaces, u64_to_text,
};

verus! {

broadcast use vstd::std_specs::hash::group_hash_axioms;

/// `without_id` keeps every other id, and no id twice.
proof fn lemma_without_id(order: Seq<u64>, id: u64)
    ensures
        forall|x: u64| without_id(order, id).contains(x) <==> (order.contains(x) && x != id),
        order.no_duplicates() ==> without_id(order, id).no_duplicates(),
    decreases order.len(),
{
    if order.len() > 0 {
        let rest = order.drop_last();
        lemma_without_id(rest, id);
        assert forall|x: u64| order.contains(x) <==> (rest.contains(x) || x == order.last()) by {
            if order.contains(x) {
                let k = choose|k: int| 0 <= k < order.len() && order[k] == x;
                if k < rest.len() {
                    assert(rest[k] == x);
                }
            }
            if rest.contains(x) {
                let k = choose|k: int| 0 <= k < rest.len() && rest[k] == x;
                assert(order[k] == x);
            }
            if x == order.last() {
                assert(order[order.len() - 1] == x);
            }
        }
        let prev = without_id(rest, id);
        if order.last() != id {
            assert forall|x: u64| prev.push(order.last()).contains(x) <==> (prev.contains(x) || x
                == order.last()) by {
                if prev.push(order.last()).contains(x) {
                    let k = choose|k: int|
                        0 <= k < prev.push(order.last()).len() && prev.push(order.last())[k] == x;
                    if k < prev.len() {
                        assert(prev[k] == x);
                    }
                }
                if prev.contains(x) {
                    let k = choose|k: int| 0 <= k < prev.len() && prev[k] == x;
                    assert(prev.push(order.last())[k] == x);
                }
                if x == order.last() {
                    assert(prev.push(order.last())[prev.len() as int] == x);
                }
            }
            if order.no_duplicates() {
                assert(rest.no_duplicates());
                assert(!rest.contains(order.last())) by {
                    if rest.contains(order.last()) {
                        let k = choose|k: int| 0 <= k < rest.len() && rest[k] == order.last();
                        assert(order[k] == order[order.len() - 1]);
                    }
                }
                let p = prev.push(order.last());
                assert forall|i: int, j: int|
                    0 <= i < p.len() && 0 <= j < p.len() && i != j implies p[i] != p[j] by {
                    if i < prev.len() && j < prev.len() {
                        assert(p[i] == prev[i] && p[j] == prev[j]);
                    } else if i < prev.len() {
                        assert(p[i] == prev[i]);
                        assert(prev.contains(prev[i]));
                    } else if j < prev.len() {
                        assert(p[j] == prev[j]);
                        assert(prev.contains(prev[j]));
                    }
                }
            }
        } else {
            if order.no_duplicates() {
                assert(rest.no_duplicates());
            }
        }
    }
}

/// `order` without `id` (see `without_id`).
fn remove_id(order: &Vec<u64>, id: u64) -> (out: Vec<u64>)
    ensures
        out@ == without_id(order@, id),
{
    let mut out: Vec<u64> = Vec::new();
    let mut i: usize = 0;
    assert(order@.take(0) =~= Seq::<u64>::empty());
    while i < order.len()
        invariant
            0 <= i <= order.len(),
            out@ == without_id(order@.take(i as int), id),
        decreases order.len() - i,
    {
        assert(order@.take(i + 1).drop_last() =~= order@.take(i as int));
        if order[i] != id {
            out.push(order[i]);
        }
        i = i + 1;
    }
    assert(order@.take(order.len() as int) =~= order@);
    out
}

impl App {
    /// The position in `all` of the entry with id `entry_id` (see
    /// `entry_index_for_id`).
    fn entry_index_by_id(&self, entry_id: u64) -> (r: Option<usize>)
        ensures
            match entry_index_for_id(self.all@, entry_id) {
                Some(i) => 0 <= i < self.all@.len() && (r matches Some(k) && k as int == i),
                None => r is None,
            },
    {
        let k = entry_id as usize;
        if k < self.all.len() && self.all[k].id == entry_id {
            return Some(k);
        }
        let ghost ids = self.all@.map_values(|e: Entry| e.id);
        let mut i: usize = 0;
        while i < self.all.len()
            invariant
                0 <= i <= self.all.len(),
                ids == self.all@.map_values(|e: Entry| e.id),
                forall|j: int| 0 <= j < i ==> ids[j] != entry_id,
                !(0 <= ((entry_id as usize) as int) < self.all@.len() && self.all@[(
                entry_id as usize) as int].id == entry_id),
            decreases self.all.len() - i,
        {
            if self.all[i].id == entry_id {
                proof {
                    lemma_first_index(ids, entry_id, i as int);
                }
                return Some(i);
            }
            i = i + 1;
        }
        proof {
            lemma_no_index(ids, entry_id);
        }
        None
    }

    /// The lines a copy, accept or save of the history takes (see
    /// `selected_lines_spec`).
    pub fn selected_lines_in_order(&self) -> (r: Vec<String>)
        ensures
            lines_model(r@) == self.selected_lines_spec(),
    {
        let mut out: Vec<String> = Vec::new();
        if self.selected.is_empty() {
            match self.current_entry() {
                Some(e) => {
                    out.push(e.cmd.clone());
                },
                None => {},
            }
            assert(lines_model(out@) =~= self.selected_lines_spec());
            return out;
        }
        let mut i: usize = 0;
        assert(self.selected_order@.take(0) =~= Seq::<u64>::empty());
        assert(lines_model(out@) =~= Seq::<Seq<char>>::empty());
        while i < self.selected_order.len()
            invariant
                0 <= i <= self.selected_order.len(),
                lines_model(out@) == lines_for_ids(self.all@, self.selected_order@.take(i as int)),
            decreases self.selected_order.len() - i,
        {
            let ghost before = out@;
            assert(self.selected_order@.take(i + 1).drop_last() =~= self.selected_order@.take(
                i as int,
            ));
            assert(self.selected_order@.take(i + 1).last() == self.selected_order@[i as int]);
            match self.entry_index_by_id(self.selected_order[i]) {
                Some(k) => {
                    out.push(self.all[k].cmd.clone());
                    assert(lines_model(out@) =~= lines_model(before).push(self.all@[k as int].cmd@));
                },
                None => {},
            }
            i = i + 1;
        }
        assert(self.selected_order@.take(self.selected_order.len() as int) =~= self.selected_order@);
        out
    }

    /// Selects the entry with id `entry_id`, after those already selected.
    pub fn select_entry_by_id(&mut self, entry_id: u64)
        requires
            old(self).wf(),
        ensures
            old(self).selected_with(entry_id, *final(self)),
            final(self).wf(),
    {
        if !self.selected.contains(&entry_id) {
            self.selected.insert(entry_id);
            self.selected_order.push(entry_id);
            proof {
                let o = old(self).selected_order@;
                o.lemma_push_to_set_commute(entry_id);
                assert(!o.contains(entry_id));
                let p = o.push(entry_id);
                assert forall|i: int, j: int|
                    0 <= i < p.len() && 0 <= j < p.len() && i != j implies p[i] != p[j] by {
                    if i < o.len() && j < o.len() {
                        assert(p[i] == o[i] && p[j] == o[j]);
                    } else if i < o.len() {
                        assert(p[i] == o[i]);
                        assert(o.contains(o[i]));
                    } else if j < o.len() {
                        assert(p[j] == o[j]);
                        assert(o.contains(o[j]));
                    }
                }
            }
        }
    }

    /// Deselects the entry with id `entry_id`.
    pub fn deselect_entry_by_id(&mut self, entry_id: u64)
        requires
            old(self).wf(),
        ensures
            old(self).deselected(entry_id, *final(self)),
            final(self).wf(),
    {
        self.selected.remove(&entry_id);
        let order = remove_id(&self.selected_order, entry_id);
        self.selected_order = order;
        proof {
            lemma_without_id(old(self).selected_order@, entry_id);
            assert(self.selected_order@.to_set() =~= old(self).selected_order@.to_set().remove(
                entry_id,
            ));
        }
    }
}


/// The lines joined with newlines (see `join_lines`).
pub fn join_with_newlines(lines: &Vec<String>) -> (s: String)
    ensures
        s@ == join_lines(lines_model(lines@)),
{
    let ghost ls = lines_model(lines@);
    let mut acc: Vec<char> = Vec::new();
    let mut k: usize = 0;
    assert(ls.take(0) =~= Seq::<Seq<char>>::empty());
    while k < lines.len()
        invariant
            0 <= k <= lines.len(),
            ls == lines_model(lines@),
            acc@ == join_lines(ls.take(k as int)),
        decreases lines.len() - k,
    {
        assert(ls.take(k + 1).drop_last() =~= ls.take(k as int));
        assert(ls.take(k + 1).last() == lines@[k as int]@);
        if k > 0 {
            acc.push('\n');
        } else {
            assert(ls.take(1) =~= seq![lines@[0]@]);
        }
        push_str(&mut acc, lines[k].as_str());
        k = k + 1;
    }
    assert(ls.take(lines.len() as int) =~= ls);
    string_from_chars(acc.as_slice())
}

/// `prefix`, the count `n`, then `" line"` or `" lines"`.
fn count_message(prefix: &str, n: usize) -> (s: String)
    ensures
        s@ == prefix@ + decimal_text(n as nat) + " line"@ + plural(n as int),
{
    let mut out = chars_of(prefix);
    let digits = u64_to_text(n as u64);
    push_all(&mut out, digits.as_slice());
    push_str(&mut out, " line");
    if n != 1 {
        out.push('s');
    }
    proof {
        reveal_strlit("s");
    }
    string_from_chars(out.as_slice())
}

impl App {
    /// Space: selects or deselects the entry under the history cursor (see
    /// `selection_toggled`).
    pub(crate) fn toggle_current_selection(&mut self)
        requires
            old(self).wf(),
        ensures
            old(self).selection_toggled(*final(self)),
            final(self).wf(),
    {
        if self.view != ListView::History {
            self.info("Favorites use block copy, not selection");
            return;
        }
        let entry_id = match self.current_entry() {
            Some(e) => e.id,
            None => {
                return;
            },
        };
        if self.selected.contains(&entry_id) {
            self.deselect_entry_by_id(entry_id);
        } else {
            self.select_entry_by_id(entry_id);
        }
    }

    /// `a`: selects every listed entry, in list order (see `all_selected`).
    pub(crate) fn select_all_filtered(&mut self)
        requires
            old(self).wf(),
        ensures
            old(self).all_selected(*final(self)),
            final(self).wf(),
    {
        if self.view != ListView::History {
            self.info("Favorites use block copy, not selection");
            return;
        }
        let ghost ids = old(self).filtered_ids();
        let mut k: usize = 0;
        assert(ids.take(0) =~= Seq::<u64>::empty());
        while k < self.filtered.len()
            invariant
                0 <= k <= self.filtered.len(),
                self.wf(),
                ids == old(self).filtered_ids(),
                ids.len() == self.filtered@.len(),
                *self == (App {
                    selected: self.selected,
                    selected_order: self.selected_order,
                    ..*old(self)
                }),
                self.selected_order@ == add_ids(old(self).selected_order@, ids.take(k as int)),
            decreases self.filtered.len() - k,
        {
            let idx = self.filtered[k];
            assert(self.filtered@[k as int] < self.all@.len());
            let id = self.all[idx].id;
            assert(ids[k as int] == id);
            assert(ids.take(k + 1).drop_last() =~= ids.take(k as int));
            assert(ids.take(k + 1).last() == id);
            self.select_entry_by_id(id);
            k = k + 1;
        }
        assert(ids.take(self.filtered.len() as int) =~= ids);
        let message = count_message_plain("Selected ", self.filtered.len(), " shown entries");
        self.set_toast(ToastKind::Info, message);
    }

    /// `c`: clears the history selection; in the favorites, the search
    /// (see `selection_cleared`).
    pub(crate) fn clear_selection(&mut self)
        requires
            old(self).wf(),
        ensures
            old(self).selection_cleared(*final(self)),
            final(self).wf(),
    {
        if self.view != ListView::History {
            self.query = String::new();
            self.rebuild_active_view();
            self.info("Cleared favorites filter");
            return;
        }
        self.selected.clear();
        self.selected_order.clear();
        assert(self.selected_order@.to_set() =~= Set::<u64>::empty());
        self.info("Cleared selections");
    }
}

/// `prefix`, the decimal `n`, then `suffix`.
fn count_message_plain(prefix: &str, n: usize, suffix: &str) -> (s: String)
    ensures
        s@ == prefix@ + decimal_text(n as nat) + suffix@,
{
    let mut out = chars_of(prefix);
    let digits = u64_to_text(n as u64);
    push_all(&mut out, digits.as_slice());
    push_str(&mut out, suffix);
    string_from_chars(out.as_slice())
}


/// `prefix` followed by `rest`.
fn prefixed(prefix: &str, rest: &str) -> (s: String)
    ensures
        s@ == prefix@ + rest@,
{
    let mut out = chars_of(prefix);
    push_str(&mut out, rest);
    string_from_chars(out.as_slice())
}

/// A `String` with the characters of `s`.
fn owned(s: &str) -> (r: String)
    ensures
        r@ == s@,
{
    string_from_chars(chars_of(s).as_slice())
}

impl App {
    /// `y`: hands the history selection (or the line under the cursor), or
    /// the whole favorite block, to the clipboard (see `scope_copied`).
    pub(crate) fn copy_current_scope(&mut self) -> (e: Effect)
        requires
            old(self).wf(),
        ensures
            old(self).scope_copied(*final(self), e),
            final(self).wf(),
    {
        match self.view {
            ListView::History => {
                let lines = self.selected_lines_in_order();
                if lines.len() == 0 {
                    self.error("Nothing to copy");
                    return Effect::Nothing;
                }
                let payload = join_with_newlines(&lines);
                let success_message = count_message("Copied ", lines.len());
                Effect::CopyToClipboard { payload, success_message }
            },
            ListView::Favorites => {
                match self.current_favorite_block() {
                    None => {
                        self.error("No favorite selected");
                        Effect::Nothing
                    },
                    Some(block) => {
                        let payload = join_with_newlines(&block.lines);
                        let success_message = count_message(
                            "Copied favorite with ",
                            block.lines.len(),
                        );
                        Effect::CopyToClipboard { payload, success_message }
                    },
                }
            },
        }
    }

    /// `Y`: hands the line under the cursor to the clipboard (see
    /// `line_copied`).
    pub(crate) fn copy_current_line_only(&mut self) -> (e: Effect)
        requires
            old(self).wf(),
        ensures
            old(self).line_copied(*final(self), e),
            final(self).wf(),
    {
        let payload: Option<String> = match self.view {
            ListView::History => match self.current_entry() {
                Some(entry) => Some(entry.cmd.clone()),
                None => None,
            },
            ListView::Favorites => match self.current_favorite_line() {
                Some(line) => Some(owned(line)),
                None => None,
            },
        };
        match payload {
            None => {
                self.error("Nothing to copy");
                Effect::Nothing
            },
            Some(payload) => Effect::CopyToClipboard {
                payload,
                success_message: owned("Copied current line"),
            },
        }
    }

    /// Enter: the history selection (or the line under the cursor), or the
    /// whole favorite block, becomes the output, and the list quits (see
    /// `scope_accepted`).
    pub(crate) fn accept_current_scope(&mut self)
        requires
            old(self).wf(),
        ensures
            old(self).scope_accepted(*final(self)),
            final(self).wf(),
    {
        match self.view {
            ListView::History => {
                let lines = self.selected_lines_in_order();
                if lines.len() == 0 {
                    self.error("Nothing to accept");
                    return;
                }
                self.accepted_output = Some(join_with_newlines(&lines));
            },
            ListView::Favorites => {
                let text = match self.current_favorite_block() {
                    None => {
                        self.error("No favorite selected");
                        return;
                    },
                    Some(block) => join_with_newlines(&block.lines),
                };
                self.accepted_output = Some(text);
            },
        }
        self.should_quit = true;
    }

    /// After the favorites changed: their rows are rebuilt, and `message`
    /// is reported now (a store in memory) or after the file is written.
    fn after_favorites_change(&mut self, message: &str) -> (e: Effect)
        ensures
            old(self).rows_refreshed(message@, *final(self), e),
            rows_valid(final(self).favorite_rows@, final(self).favorites.model()),
            final(self).favorite_cursor as int == clamp_cursor(
                final(self).favorite_cursor as int,
                final(self).favorite_rows@.len() as int,
            ),
    {
        self.rebuild_favorite_rows();
        if self.favorites.path.is_none() {
            self.info(message);
            Effect::Nothing
        } else {
            Effect::PersistFavorites { success_message: owned(message) }
        }
    }

    /// `f`: saves the history selection (or the line under the cursor) as a
    /// favorite block; in the favorites, removes the block under the cursor
    /// (see `favorite_saved`).
    pub(crate) fn save_current_or_selected_favorite(&mut self) -> (e: Effect)
        requires
            old(self).wf(),
        ensures
            old(self).favorite_saved(*final(self), e),
            final(self).wf(),
    {
        if self.view != ListView::History {
            let block_index = match self.current_favorite_row() {
                Some(row) => row.block_index,
                None => {
                    self.error("No favorite selected");
                    return Effect::Nothing;
                },
            };
            if block_index >= self.favorites.blocks.len() {
                self.error("No favorite selected");
                return Effect::Nothing;
            }
            let _removed = self.favorites.remove_block(block_index);
            return self.after_favorites_change("Removed favorite");
        }
        let lines = self.selected_lines_in_order();
        match self.favorites.add_block(lines) {
            AddFavoriteResult::Added(_) => self.after_favorites_change("Saved favorite"),
            AddFavoriteResult::Duplicate(_) => {
                self.info("Favorite already saved");
                Effect::Nothing
            },
            AddFavoriteResult::Empty => {
                self.error("Nothing to favorite");
                Effect::Nothing
            },
        }
    }

    /// Reports how a copy went: `error` is none when the clipboard took the
    /// text, else what went wrong.
    pub fn finish_copy(&mut self, success_message: String, error: Option<String>)
        ensures
            match error {
                None => old(self).toasted(ToastKind::Info, success_message@, *final(self)),
                Some(e) => old(self).toasted(
                    ToastKind::Error,
                    "Clipboard error: "@ + e@,
                    *final(self),
                ),
            },
    {
        match error {
            None => self.set_toast(ToastKind::Info, success_message),
            Some(e) => {
                let message = prefixed("Clipboard error: ", e.as_str());
                self.set_toast(ToastKind::Error, message);
            },
        }
    }

    /// Reports how writing the favorites file went: `error` is none when it
    /// was written (then `success_message`, which the effect carried, is
    /// shown), else what went wrong.
    pub fn finish_save_favorite(&mut self, success_message: String, error: Option<String>)
        ensures
            match error {
                None => old(self).toasted(ToastKind::Info, success_message@, *final(self)),
                Some(e) => old(self).toasted(
                    ToastKind::Error,
                    "Favorites error: "@ + e@,
                    *final(self),
                ),
            },
    {
        match error {
            None => self.set_toast(ToastKind::Info, success_message),
            Some(e) => {
                let message = prefixed("Favorites error: ", e.as_str());
                self.set_toast(ToastKind::Error, message);
            },
        }
    }
}


/// A non-empty list of rows that starts with a header has a header block.
proof fn lemma_header_blocks_nonempty(rows: Seq<FavoriteRow>)
    requires
        rows.len() > 0,
        rows[0].line_index is None,
    ensures
        header_blocks(rows).len() > 0,
    decreases rows.len(),
{
    if rows.len() > 1 {
        lemma_header_blocks_nonempty(rows.drop_last());
    }
}

/// The characters of `q` without its last word (see `drop_last_word`).
fn without_last_word(q: &str) -> (r: String)
    ensures
        r@ == drop_last_word(q@),
{
    let mut cs = chars_of(q);
    while cs.len() > 0 && is_whitespace(cs[cs.len() - 1])
        invariant
            trim_end_spaces(q@) == trim_end_spaces(cs@),
        decreases cs.len(),
    {
        cs.pop();
    }
    let ghost trimmed = cs@;
    assert(trim_end_spaces(cs@) == cs@);
    while cs.len() > 0 && !is_whitespace(cs[cs.len() - 1])
        invariant
            drop_trailing_word(trimmed) == drop_trailing_word(cs@),
        decreases cs.len(),
    {
        cs.pop();
    }
    string_from_chars(cs.as_slice())
}

/// The characters of `q` without the last one.
fn without_last_char(q: &str) -> (r: String)
    ensures
        r@ == (if q@.len() == 0 {
            q@
        } else {
            q@.drop_last()
        }),
{
    let mut cs = chars_of(q);
    if cs.len() > 0 {
        cs.pop();
    }
    string_from_chars(cs.as_slice())
}

/// The characters of `q` followed by `c`.
fn with_char(q: &str, c: char) -> (r: String)
    ensures
        r@ == q@.push(c),
{
    let mut cs = chars_of(q);
    cs.push(c);
    string_from_chars(cs.as_slice())
}

/// The first row of block `target` (see `Seq::index_of_first`).
fn first_row_of_block(rows: &Vec<FavoriteRow>, target: usize) -> (r: Option<usize>)
    ensures
        match rows@.map_values(|x: FavoriteRow| x.block_index).index_of_first(target) {
            Some(p) => r matches Some(q) && q as int == p,
            None => r is None,
        },
        r matches Some(q) ==> q < rows@.len(),
{
    let ghost blocks_of = rows@.map_values(|x: FavoriteRow| x.block_index);
    let mut p: usize = 0;
    while p < rows.len()
        invariant
            0 <= p <= rows.len(),
            blocks_of == rows@.map_values(|x: FavoriteRow| x.block_index),
            forall|j: int| 0 <= j < p ==> blocks_of[j] != target,
        decreases rows.len() - p,
    {
        if rows[p].block_index == target {
            proof {
                lemma_first_index(blocks_of, target, p as int);
            }
            return Some(p);
        }
        p = p + 1;
    }
    proof {
        lemma_no_index(blocks_of, target);
    }
    None
}

impl App {
    /// A list over `all` with no favorites (see `with_favorites`).
    pub fn new(all: Vec<Entry>) -> (app: App)
        ensures
            app.wf(),
            app.all@ == all@,
            app.favorites.blocks@.len() == 0,
            app.favorites.path_spec() is None,
            app.view == ListView::History,
            app.mode == Mode::Normal,
            app.query@ == Seq::<char>::empty(),
            app.sort == SortMode::Recency,
            !app.sort_desc,
            app.selected@.is_empty(),
            app.toast is None,
            !app.show_help,
            !app.should_quit,
            app.accepted_output is None,
            app.viewport_height == 10,
            app.cursor == 0,
            app.favorite_cursor == 0,
            app.favorite_rows@.len() == 0,
            app.filtered@ == crate::app::matching_indices(
                all@,
                (Seq::<char>::empty(), None, None),
                all@.len() as int,
            ).sort_by(crate::sort::sort_leq(all@, SortMode::Recency, false)),
    {
        let favorites = crate::favorites::FavoritesStore::new_in_memory();
        let app = App::with_favorites(all, favorites);
        proof {
            let q = choose|q: crate::app::QueryModel|
                crate::query::parses_to(Seq::empty(), q) && app.filtered@
                    == crate::app::filtered_for(all@, q, SortMode::Recency, false)
                    && app.favorite_rows@ == crate::app::rows_for(
                    favorites.model(),
                    q.0,
                    favorites.model().len() as int,
                );
            assert(favorites.model().len() == 0);
        }
        app
    }

    /// `F`: shows the other list, rebuilt, outside search (see
    /// `view_toggled`).
    pub(crate) fn toggle_favorites_view(&mut self)
        requires
            old(self).wf(),
        ensures
            old(self).view_toggled(*final(self)),
            final(self).wf(),
    {
        self.mode = Mode::Normal;
        self.view = match self.view {
            ListView::History => ListView::Favorites,
            ListView::Favorites => ListView::History,
        };
        self.rebuild_active_view();
    }

    /// Sorts the history list again in the current order (see `resorted`).
    pub(crate) fn apply_sort_only(&mut self)
        requires
            old(self).wf(),
        ensures
            old(self).resorted(*final(self)),
            final(self).wf(),
    {
        let ghost before = self.filtered@;
        apply_sort(&mut self.filtered, self.all.as_slice(), self.sort, self.sort_desc);
        proof {
            crate::app::lemma_same_multiset_no_duplicates(before, self.filtered@);
            self.filtered@.to_multiset_ensures();
            before.to_multiset_ensures();
            assert forall|k: int| 0 <= k < self.filtered@.len() implies #[trigger] self.filtered@[k]
                < self.all@.len() by {
                assert(self.filtered@.contains(self.filtered@[k]));
                assert(self.filtered@.to_multiset().count(self.filtered@[k]) > 0);
                assert(before.to_multiset().count(self.filtered@[k]) > 0);
                assert(before.contains(self.filtered@[k]));
            }
        }
        self.clamp_history_cursor();
    }

    /// Moves half a page (at least one row) in direction `dir`.
    pub(crate) fn move_half_page(&mut self, dir: i8)
        ensures
            old(self).moved(
                (if old(self).viewport_height / 2 > 1 {
                    old(self).viewport_height / 2
                } else {
                    1
                }) * dir,
                *final(self),
            ),
    {
        let half = self.viewport_height / 2;
        let step: usize = if half > 1 {
            half
        } else {
            1
        };
        assert(step * dir <= 0x1_0000_0000_0000_0000_0000 && step * dir >= -0x1_0000_0000_0000_0000_0000)
            by (nonlinear_arith)
            requires
                step <= usize::MAX,
                -128 <= dir <= 127,
        ;
        let delta: i128 = (step as i128) * (dir as i128);
        self.move_by(delta);
    }

    /// `J`/`K`: in the favorites, to the header of the next or previous
    /// listed block; in the history, one row (see `block_moved`).
    pub(crate) fn move_block(&mut self, dir: i8)
        requires
            old(self).wf(),
        ensures
            old(self).block_moved(dir as int, *final(self)),
            final(self).wf(),
    {
        if self.view != ListView::Favorites {
            self.move_by(dir as i128);
            return;
        }
        if self.favorite_rows.len() == 0 {
            self.favorite_cursor = 0;
            return;
        }
        let ghost rows = self.favorite_rows@;
        let mut visible: Vec<usize> = Vec::new();
        let mut i: usize = 0;
        assert(rows.take(0) =~= Seq::<FavoriteRow>::empty());
        while i < self.favorite_rows.len()
            invariant
                0 <= i <= self.favorite_rows.len(),
                rows == self.favorite_rows@,
                visible@ == header_blocks(rows.take(i as int)),
            decreases self.favorite_rows.len() - i,
        {
            assert(rows.take(i + 1).drop_last() =~= rows.take(i as int));
            assert(rows.take(i + 1).last() == rows[i as int]);
            let row = self.favorite_rows[i];
            if row.line_index.is_none() {
                visible.push(row.block_index);
            }
            i = i + 1;
        }
        assert(rows.take(rows.len() as int) =~= rows);
        proof {
            lemma_header_blocks_nonempty(rows);
        }
        let current_block = self.favorite_rows[self.favorite_cursor].block_index;
        let mut cv: usize = 0;
        let mut k: usize = 0;
        let mut found = false;
        while k < visible.len() && !found
            invariant
                0 <= k <= visible.len(),
                forall|j: int| 0 <= j < k ==> visible@[j] != current_block,
                found ==> k < visible.len() && visible@[k as int] == current_block && cv == k,
                !found ==> cv == 0,
            decreases visible.len() - k + (if found { 0int } else { 1int }),
        {
            if visible[k] == current_block {
                cv = k;
                found = true;
            } else {
                k = k + 1;
            }
        }
        proof {
            if found {
                lemma_first_index(visible@, current_block, cv as int);
            } else {
                lemma_no_index(visible@, current_block);
            }
        }
        let wanted: i128 = (cv as i128) + (dir as i128);
        let last: i128 = (visible.len() - 1) as i128;
        let tv: usize = if wanted < 0 {
            0
        } else if wanted > last {
            visible.len() - 1
        } else {
            wanted as usize
        };
        let target = visible[tv];
        match first_row_of_block(&self.favorite_rows, target) {
            Some(p) => {
                self.favorite_cursor = p;
            },
            None => {},
        }
    }

    /// `g`: to the top of the shown list.
    pub(crate) fn jump_top(&mut self)
        ensures
            old(self).jumped_top(*final(self)),
    {
        match self.view {
            ListView::History => self.cursor = 0,
            ListView::Favorites => self.favorite_cursor = 0,
        }
    }

    /// `G`: to the bottom of the shown list.
    pub(crate) fn jump_bottom(&mut self)
        ensures
            old(self).jumped_bottom(*final(self)),
    {
        match self.view {
            ListView::History => self.cursor = self.filtered.len().saturating_sub(1),
            ListView::Favorites => self.favorite_cursor = self.favorite_rows.len().saturating_sub(1),
        }
    }
}


impl App {
    /// Does what `a` does outside search (see `normal_post`).
    pub(crate) fn apply_normal_action(&mut self, a: NormalAction) -> (e: Effect)
        requires
            old(self).wf(),
        ensures
            old(self).normal_post(a, *final(self), e),
            final(self).wf(),
    {
        match a {
            NormalAction::Quit => {
                self.should_quit = true;
                Effect::Nothing
            },
            NormalAction::ToggleHelp => {
                self.show_help = true;
                Effect::Nothing
            },
            NormalAction::Move(d) => {
                self.move_by(d as i128);
                Effect::Nothing
            },
            NormalAction::MoveHalfPage(d) => {
                self.move_half_page(d);
                Effect::Nothing
            },
            NormalAction::MoveBlock(d) => {
                self.move_block(d);
                Effect::Nothing
            },
            NormalAction::JumpTop => {
                self.jump_top();
                Effect::Nothing
            },
            NormalAction::JumpBottom => {
                self.jump_bottom();
                Effect::Nothing
            },
            NormalAction::ToggleSelection => {
                self.toggle_current_selection();
                Effect::Nothing
            },
            NormalAction::SelectAllShown => {
                self.select_all_filtered();
                Effect::Nothing
            },
            NormalAction::ClearSelection => {
                self.clear_selection();
                Effect::Nothing
            },
            NormalAction::Copy => self.copy_current_scope(),
            NormalAction::CopyLine => self.copy_current_line_only(),
            NormalAction::Accept => {
                self.accept_current_scope();
                Effect::Nothing
            },
            NormalAction::SaveFavorite => self.save_current_or_selected_favorite(),
            NormalAction::ToggleFavoritesView => {
                self.toggle_favorites_view();
                Effect::Nothing
            },
            NormalAction::EnterSearch => {
                self.mode = Mode::Search;
                Effect::Nothing
            },
            NormalAction::CycleSort => {
                if self.view == ListView::History {
                    self.sort = self.sort.cycle();
                    self.apply_sort_only();
                } else {
                    self.info("Favorites keep saved order");
                }
                Effect::Nothing
            },
            NormalAction::ToggleSortDirection => {
                if self.view == ListView::History {
                    self.sort_desc = !self.sort_desc;
                    self.apply_sort_only();
                } else {
                    self.info("Favorites keep saved order");
                }
                Effect::Nothing
            },
            NormalAction::Rename => {
                self.start_rename();
                Effect::Nothing
            },
        }
    }

    /// `r`: starts editing the title of the favorite under the cursor (see
    /// `rename_started`).
    pub(crate) fn start_rename(&mut self)
        requires
            old(self).wf(),
        ensures
            old(self).rename_started(*final(self)),
            final(self).wf(),
    {
        if self.view == ListView::History {
            return;
        }
        let block = match self.current_favorite_block() {
            Some(b) => b,
            None => {
                self.error("No favorite selected");
                return;
            },
        };
        let input = match &block.title {
            Some(t) => owned(t.as_str()),
            None => String::new(),
        };
        self.rename_input = input;
        self.mode = Mode::Rename;
    }

    /// Does what `a` does while a title is edited (see `rename_post`).
    pub(crate) fn apply_rename_action(&mut self, a: RenameAction) -> (e: Effect)
        requires
            old(self).wf(),
        ensures
            old(self).rename_post(a, *final(self), e),
            final(self).wf(),
    {
        match a {
            RenameAction::Cancel => {
                self.mode = Mode::Normal;
                Effect::Nothing
            },
            RenameAction::Clear => {
                self.rename_input = String::new();
                Effect::Nothing
            },
            RenameAction::DeleteLastChar => {
                self.rename_input = without_last_char(self.rename_input.as_str());
                Effect::Nothing
            },
            RenameAction::InsertChar(c) => {
                self.rename_input = with_char(self.rename_input.as_str(), c);
                Effect::Nothing
            },
            RenameAction::Commit => {
                self.mode = Mode::Normal;
                let block_index = match self.current_favorite_row() {
                    Some(row) => row.block_index,
                    None => {
                        self.error("No favorite selected");
                        return Effect::Nothing;
                    },
                };
                if block_index >= self.favorites.blocks.len() {
                    self.error("No favorite selected");
                    return Effect::Nothing;
                }
                let title = if self.rename_input.as_str().is_empty() {
                    None
                } else {
                    Some(owned(self.rename_input.as_str()))
                };
                let _renamed = self.favorites.rename_block(block_index, title);
                self.after_favorites_change("Renamed favorite")
            },
        }
    }

    /// Does what `a` does while searching (see `search_post`).
    pub(crate) fn apply_search_action(&mut self, a: SearchAction) -> (e: Effect)
        requires
            old(self).wf(),
        ensures
            old(self).search_post(a, *final(self), e),
            final(self).wf(),
    {
        match a {
            SearchAction::ExitSearch => {
                self.mode = Mode::Normal;
            },
            SearchAction::ClearQuery => {
                if !self.query.as_str().is_empty() {
                    self.query = String::new();
                    self.rebuild_active_view();
                }
            },
            SearchAction::DeleteLastWord => {
                self.query = without_last_word(self.query.as_str());
                self.rebuild_active_view();
            },
            SearchAction::DeleteLastChar => {
                self.query = without_last_char(self.query.as_str());
                self.rebuild_active_view();
            },
            SearchAction::InsertChar(c) => {
                self.query = with_char(self.query.as_str(), c);
                self.rebuild_active_view();
            },
        }
        Effect::Nothing
    }

    /// What a key press does (see `key_post`). The effect is work for the
    /// caller: putting text on the clipboard, or writing the favorites
    /// file; the caller then reports how it went with `finish_copy` or
    /// `finish_save_favorite`.
    pub fn handle_key(&mut self, key: KeyInput) -> (e: Effect)
        requires
            old(self).wf(),
        ensures
            old(self).key_post(key, *final(self), e),
            final(self).wf(),
    {
        if self.show_help {
            if key.code == KeyCode::Esc || key.code == KeyCode::Char('?') {
                self.show_help = false;
            }
            return Effect::Nothing;
        }
        match self.mode {
            Mode::Normal => match normal_action_for_key(key) {
                Some(a) => self.apply_normal_action(a),
                None => Effect::Nothing,
            },
            Mode::Search => match search_action_for_key(key) {
                Some(a) => self.apply_search_action(a),
                None => Effect::Nothing,
            },
            Mode::Rename => match rename_action_for_key(key) {
                Some(a) => self.apply_rename_action(a),
                None => Effect::Nothing,
            },
        }
    }
}


// ---------------------------------------------------------------------
// Laws
// ---------------------------------------------------------------------
/// An id that is not in `order` leaves it unchanged when taken out.
proof fn lemma_without_absent(order: Seq<u64>, id: u64)
    requires
        !order.contains(id),
    ensures
        without_id(order, id) == order,
    decreases order.len(),
{
    if order.len() > 0 {
        assert(!order.drop_last().contains(id)) by {
            if order.drop_last().contains(id) {
                let k = choose|k: int| 0 <= k < order.drop_last().len() && order.drop_last()[k] == id;
                assert(order[k] == id);
            }
        }
        lemma_without_absent(order.drop_last(), id);
        assert(order.last() != id) by {
            assert(order[order.len() - 1] == order.last());
        }
        assert(order.drop_last().push(order.last()) =~= order);
    }
}

/// Selecting an entry that was not selected and then deselecting it gives
/// back the selection as it was, in the same order.
pub proof fn law_select_then_deselect_restores(a: App, id: u64, b: App, c: App)
    requires
        a.wf(),
        !a.selected@.contains(id),
        a.selected_with(id, b),
        b.deselected(id, c),
    ensures
        c.selected@ == a.selected@,
        c.selected_order@ == a.selected_order@,
{
    assert(!a.selected_order@.contains(id));
    let o = a.selected_order@;
    lemma_without_absent(o, id);
    assert(o.push(id).drop_last() =~= o);
    assert(without_id(o.push(id), id) == without_id(o, id));
    assert(c.selected@ =~= a.selected@);
}

/// Typing a character into the search and deleting it again gives back
/// the query, and the shown list is again the one that query shows.
pub proof fn law_type_then_delete_restores_query(a: App, ch: char, b: App, d: App, e1: Effect, e2: Effect)
    requires
        a.search_post(SearchAction::InsertChar(ch), b, e1),
        b.search_post(SearchAction::DeleteLastChar, d, e2),
    ensures
        d.query@ == a.query@,
        d.view == a.view,
        d.all == a.all,
        d.selected_order == a.selected_order,
        d.view == ListView::History ==> exists|q: QueryModel|
            crate::query::parses_to(a.query@, q) && d.filtered@ == filtered_for(
                a.all@,
                q,
                a.sort,
                a.sort_desc,
            ),
{
    assert(a.query@.push(ch).drop_last() =~= a.query@);
}

/// With an empty search the history list holds every entry: the query
/// with no text and no time window matches all of them.
pub proof fn law_empty_query_matches_everything(all: Seq<Entry>, n: int)
    requires
        0 <= n <= all.len(),
    ensures
        matching_indices(all, (Seq::empty(), None, None), n) == Seq::new(
            n as nat,
            |i: int| i as usize,
        ),
    decreases n,
{
    if n > 0 {
        law_empty_query_matches_everything(all, n - 1);
        assert(Seq::new(n as nat, |i: int| i as usize) =~= Seq::new(
            (n - 1) as nat,
            |i: int| i as usize,
        ).push((n - 1) as usize));
    }
}

/// `y` and Enter take the same text: what a copy would put on the
/// clipboard is what accepting prints, and where there is nothing to copy
/// there is nothing to accept.
pub proof fn law_copy_and_accept_agree(a: App, n1: App, e: Effect, n2: App)
    requires
        a.accepted_output is None,
        !a.should_quit,
        a.scope_copied(n1, e),
        a.scope_accepted(n2),
    ensures
        match e {
            Effect::CopyToClipboard { payload, .. } => n2.should_quit && (
            n2.accepted_output matches Some(t) && t@ == payload@),
            _ => !n2.should_quit && n2.accepted_output is None,
        },
{
}


/// No key changes the history: whatever a key does, the entries stay as
/// they were; and only `f` outside search (saving or removing a favorite)
/// and Enter while a title is edited change the favorites.
pub proof fn law_keys_keep_history(a: App, key: KeyInput, n: App, e: Effect)
    requires
        a.key_post(key, n, e),
    ensures
        n.all == a.all,
        n.favorites == a.favorites || (!a.show_help && a.mode == Mode::Normal
            && normal_action_spec(key) == Some(NormalAction::SaveFavorite)) || (!a.show_help
            && a.mode == Mode::Rename && key.code == KeyCode::Enter),
{
}


/// `k` (and Up) move the cursor one row up, stopping at the first row; no
/// other part of the state changes and nothing is asked of the outside.
pub proof fn law_k_moves_one_row_up(a: App, key: KeyInput, n: App, e: Effect)
    requires
        a.wf(),
        !a.show_help,
        a.mode == Mode::Normal,
        key.code == KeyCode::Char('k') || (key.code == KeyCode::Up && !key.shift),
        a.key_post(key, n, e),
    ensures
        e is Nothing,
        a.view == ListView::History ==> n == (App {
            cursor: if a.cursor > 0 {
                (a.cursor - 1) as usize
            } else {
                0usize
            },
            ..a
        }),
        a.view == ListView::Favorites ==> n == (App {
            favorite_cursor: if a.favorite_cursor > 0 {
                (a.favorite_cursor - 1) as usize
            } else {
                0usize
            },
            ..a
        }),
{
}

/// `j` (and Down) move the cursor one row down, stopping at the last row;
/// no other part of the state changes and nothing is asked of the outside.
pub proof fn law_j_moves_one_row_down(a: App, key: KeyInput, n: App, e: Effect)
    requires
        a.wf(),
        !a.show_help,
        a.mode == Mode::Normal,
        key.code == KeyCode::Char('j') || (key.code == KeyCode::Down && !key.shift),
        a.key_post(key, n, e),
    ensures
        e is Nothing,
        a.view == ListView::History ==> n == (App {
            cursor: if a.cursor + 1 < a.filtered@.len() {
                (a.cursor + 1) as usize
            } else {
                a.cursor
            },
            ..a
        }),
        a.view == ListView::Favorites ==> n == (App {
            favorite_cursor: if a.favorite_cursor + 1 < a.favorite_rows@.len() {
                (a.favorite_cursor + 1) as usize
            } else {
                a.favorite_cursor
            },
            ..a
        }),
{
}

} // verus!
