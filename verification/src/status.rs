//! The text around the list: its title, the status bar, and the label of
//! each row.
use vstd::prelude::*;

use crate::app::{plural, App, FavoriteRow, ListView};
use crate::favorites::BlockModel;
use crate::sort::SortMode;
use crate::text::{chars_of, decimal_text, push_all, push_str, string_from_chars, u64_to_text};
use crate::ui::{format_history_label, history_label_spec, no_time_text, stamp_text_ok};

verus! {

broadcast use vstd::std_specs::hash::group_hash_axioms;

/// The name of a sort mode.
pub open spec fn sort_label(m: SortMode) -> Seq<char> {
    match m {
        SortMode::Recency => "Recency"@,
        SortMode::Alpha => "Alpha"@,
        SortMode::Length => "Length"@,
        SortMode::Timestamp => "Timestamp"@,
    }
}

/// How the history list runs in mode `m`, reversed or not.
pub open spec fn sort_direction(m: SortMode, desc: bool) -> Seq<char> {
    match m {
        SortMode::Recency | SortMode::Timestamp => if desc {
            "oldest-first"@
        } else {
            "newest-first"@
        },
        SortMode::Alpha => if desc {
            "Z->A"@
        } else {
            "A->Z"@
        },
        SortMode::Length => if desc {
            "long->short"@
        } else {
            "short->long"@
        },
    }
}

/// The sort shown in the status bar: the mode's name and its direction.
pub open spec fn sort_text_spec(m: SortMode, desc: bool) -> Seq<char> {
    sort_label(m) + " ("@ + sort_direction(m, desc) + ")"@
}

/// The search shown in the status bar.
pub open spec fn filter_text_spec(query: Seq<char>) -> Seq<char> {
    if query.len() == 0 {
        "no filter"@
    } else {
        query
    }
}

/// The key reminder of each list.
pub open spec fn hint_text_spec(view: ListView) -> Seq<char> {
    match view {
        ListView::History => "enter=accept  y=copy  f=save fav  F=favorites  /=search  s=sort  space=select  q=quit"@,
        ListView::Favorites => "enter=accept fav  y=copy fav  Y=copy line  J/K=block  F=history  /=search  q=quit"@,
    }
}

/// The label of a favorites row: a block's header shows its id and line
/// count; a line is indented under it.
pub open spec fn favorite_label_spec(blocks: Seq<BlockModel>, row: FavoriteRow) -> Seq<char> {
    if row.block_index < blocks.len() {
        let b = blocks[row.block_index as int];
        match row.line_index {
            None => "[ ] favorite "@ + decimal_text(b.0 as nat) + " ("@ + decimal_text(b.2.len())
                + " line"@ + plural(b.2.len() as int) + ")"@,
            Some(l) => "    [ ] "@ + b.2[l as int],
        }
    } else {
        "[ ] missing favorite"@
    }
}

/// The mark of a history row: `[x]` when selected.
pub open spec fn selection_mark(selected: bool) -> Seq<char> {
    if selected {
        "[x]"@
    } else {
        "[ ]"@
    }
}

/// Appends the decimal text of `n`.
fn push_count(out: &mut Vec<char>, n: usize)
    ensures
        final(out)@ == old(out)@ + decimal_text(n as nat),
{
    let digits = u64_to_text(n as u64);
    push_all(out, digits.as_slice());
}

/// The label of a favorites row (see `favorite_label_spec`).
pub fn format_favorite_label(app: &App, row: FavoriteRow) -> (s: String)
    requires
        row.block_index < app.favorites.blocks@.len() ==> (row.line_index matches Some(l) ==> l
            < app.favorites.blocks@[row.block_index as int].lines@.len()),
    ensures
        s@ == favorite_label_spec(app.favorites.model(), row),
{
    let block = match app.favorite_block(row.block_index) {
        Some(b) => b,
        None => {
            return string_from_chars(chars_of("[ ] missing favorite").as_slice());
        },
    };
    let mut out: Vec<char> = Vec::new();
    match row.line_index {
        None => {
            push_str(&mut out, "[ ] favorite ");
            let digits = u64_to_text(block.id);
            push_all(&mut out, digits.as_slice());
            push_str(&mut out, " (");
            push_count(&mut out, block.lines.len());
            push_str(&mut out, " line");
            if block.lines.len() != 1 {
                out.push('s');
            }
            push_str(&mut out, ")");
            proof {
                reveal_strlit("s");
            }
        },
        Some(l) => {
            push_str(&mut out, "    [ ] ");
            push_str(&mut out, block.lines[l].as_str());
        },
    }
    string_from_chars(out.as_slice())
}

impl App {
    /// The sort shown in the status bar (see `sort_text_spec`).
    pub fn status_sort_text(&self) -> (s: String)
        ensures
            s@ == sort_text_spec(self.sort, self.sort_desc),
    {
        let direction: &str = match self.sort {
            SortMode::Recency | SortMode::Timestamp => if self.sort_desc {
                "oldest-first"
            } else {
                "newest-first"
            },
            SortMode::Alpha => if self.sort_desc {
                "Z->A"
            } else {
                "A->Z"
            },
            SortMode::Length => if self.sort_desc {
                "long->short"
            } else {
                "short->long"
            },
        };
        let mut out = chars_of(self.sort.label());
        push_str(&mut out, " (");
        push_str(&mut out, direction);
        push_str(&mut out, ")");
        string_from_chars(out.as_slice())
    }

    /// The search shown in the status bar (see `filter_text_spec`).
    pub fn status_filter_text(&self) -> (s: &str)
        ensures
            s@ == filter_text_spec(self.query@),
    {
        if self.query.as_str().is_empty() {
            "no filter"
        } else {
            self.query.as_str()
        }
    }

    /// The key reminder of the shown list (see `hint_text_spec`).
    pub fn status_hint_text(&self) -> (s: &'static str)
        ensures
            s@ == hint_text_spec(self.view),
    {
        match self.view {
            ListView::History => "enter=accept  y=copy  f=save fav  F=favorites  /=search  s=sort  space=select  q=quit",
            ListView::Favorites => "enter=accept fav  y=copy fav  Y=copy line  J/K=block  F=history  /=search  q=quit",
        }
    }

    /// The first part of the status bar: the sort in the history, the
    /// number of saved blocks in the favorites.
    pub open spec fn context_text_spec(self) -> Seq<char> {
        match self.view {
            ListView::History => "sort: "@ + sort_text_spec(self.sort, self.sort_desc),
            ListView::Favorites => "favorites: "@ + decimal_text(self.favorites.blocks@.len())
                + " blocks"@,
        }
    }

    /// The first part of the status bar (see `context_text_spec`).
    pub fn status_context_text(&self) -> (s: String)
        ensures
            s@ == self.context_text_spec(),
    {
        let mut out: Vec<char> = Vec::new();
        match self.view {
            ListView::History => {
                push_str(&mut out, "sort: ");
                let sort = self.status_sort_text();
                push_str(&mut out, sort.as_str());
            },
            ListView::Favorites => {
                push_str(&mut out, "favorites: ");
                push_count(&mut out, self.favorites.blocks.len());
                push_str(&mut out, " blocks");
            },
        }
        string_from_chars(out.as_slice())
    }

    /// The title of the list's frame.
    pub fn list_title(&self) -> (s: &'static str)
        ensures
            s@ == (match self.view {
                ListView::History => "hline"@,
                ListView::Favorites => "favorites"@,
            }),
    {
        match self.view {
            ListView::History => "hline",
            ListView::Favorites => "favorites",
        }
    }

    /// What an empty list says instead of rows.
    pub fn empty_list_text(&self) -> (s: &'static str)
        ensures
            s@ == (match self.view {
                ListView::History => "No matches"@,
                ListView::Favorites => "No favorites"@,
            }),
    {
        match self.view {
            ListView::History => "No matches",
            ListView::Favorites => "No favorites",
        }
    }

    /// The status bar: context, search and counts, the key reminder, then
    /// the current message, each part after ` | `.
    pub open spec fn status_line_spec(self) -> Seq<char> {
        let base = match self.view {
            ListView::History => self.context_text_spec() + " | filter: "@ + filter_text_spec(
                self.query@,
            ) + " | "@ + decimal_text(self.all@.len()) + " total | "@ + decimal_text(
                self.filtered@.len(),
            ) + " shown | "@ + decimal_text(self.selected@.len()) + " selected | "@
                + hint_text_spec(self.view),
            ListView::Favorites => self.context_text_spec() + " | filter: "@ + filter_text_spec(
                self.query@,
            ) + " | "@ + decimal_text(self.favorite_rows@.len()) + " rows shown | "@
                + hint_text_spec(self.view),
        };
        match self.toast {
            Some(t) => base + " | "@ + t.message@,
            None => base,
        }
    }

    /// The status bar (see `status_line_spec`).
    pub fn status_line(&self) -> (s: String)
        ensures
            s@ == self.status_line_spec(),
    {
        let mut out: Vec<char> = Vec::new();
        let context = self.status_context_text();
        push_str(&mut out, context.as_str());
        push_str(&mut out, " | filter: ");
        push_str(&mut out, self.status_filter_text());
        match self.view {
            ListView::History => {
                push_str(&mut out, " | ");
                push_count(&mut out, self.all.len());
                push_str(&mut out, " total | ");
                push_count(&mut out, self.filtered.len());
                push_str(&mut out, " shown | ");
                push_count(&mut out, self.selected.len());
                push_str(&mut out, " selected | ");
            },
            ListView::Favorites => {
                push_str(&mut out, " | ");
                push_count(&mut out, self.favorite_rows.len());
                push_str(&mut out, " rows shown | ");
            },
        }
        push_str(&mut out, self.status_hint_text());
        match &self.toast {
            Some(t) => {
                push_str(&mut out, " | ");
                push_str(&mut out, t.message.as_str());
            },
            None => {},
        }
        string_from_chars(out.as_slice())
    }

    /// The label of history row `pos`: `[x]` for a selected entry, else
    /// `[ ]`, then the command, with the time when `show_timestamps` (see
    /// `format_history_label`).
    pub fn history_row_label(&self, pos: usize, show_timestamps: bool) -> (s: String)
        requires
            pos < self.filtered@.len(),
            self.filtered@[pos as int] < self.all@.len(),
        ensures
            ({
                let e = self.all@[self.filtered@[pos as int] as int];
                let checked = selection_mark(self.selected@.contains(e.id));
                &&& !show_timestamps ==> s@ == history_label_spec(checked, e.cmd@, None)
                &&& show_timestamps && e.timestamp is None ==> s@ == history_label_spec(
                    checked,
                    e.cmd@,
                    Some(no_time_text()),
                )
                &&& show_timestamps && e.timestamp is Some ==> exists|t: Seq<char>|
                    #![trigger history_label_spec(checked, e.cmd@, Some(t))]
                    stamp_text_ok(t, e.timestamp->0) && s@ == history_label_spec(
                        checked,
                        e.cmd@,
                        Some(t),
                    )
            }),
    {
        let entry = &self.all[self.filtered[pos]];
        let checked: &str = if self.selected.contains(&entry.id) {
            "[x]"
        } else {
            "[ ]"
        };
        assert(checked@ == selection_mark(self.selected@.contains(entry.id)));
        let s = format_history_label(checked, entry.cmd.as_str(), entry.timestamp, show_timestamps);
        s
    }
}

} // verus!
