//! Favorites: saved blocks of command lines, newest first, each with an id
//! and an optional title. Reading and writing the favorites file is left to
//! the caller, which persists after each change.
use vstd::prelude::*;

use crate::text::{
    chars_of, decimal_text, has_prefix, lemma_first_index, lemma_no_index, push_all, push_str,
    same_chars, starts_with, string_from_chars,
    to_lowercase, u64_to_text, unicode_lowercase,
};

verus! {

/// A saved block of command lines.
#[derive(Debug, Clone, PartialEq, Eq)]
pub struct FavoriteBlock {
    pub id: u64,
    pub title: Option<String>,
    pub lines: Vec<String>,
}

/// A block as values: id, title, lines.
pub type BlockModel = (u64, Option<Seq<char>>, Seq<Seq<char>>);

/// The characters of each string.
pub open spec fn lines_model(lines: Seq<String>) -> Seq<Seq<char>> {
    lines.map_values(|l: String| l@)
}

/// The characters of an optional string.
pub open spec fn title_model(t: Option<String>) -> Option<Seq<char>> {
    match t {
        Some(s) => Some(s@),
        None => None,
    }
}

/// The blocks as values.
pub open spec fn blocks_model(blocks: Seq<FavoriteBlock>) -> Seq<BlockModel> {
    blocks.map_values(|b: FavoriteBlock| b.model())
}

/// The name a block is shown and called by: its title, else `fav<id>`,
/// which works as an alias from the start.
pub open spec fn display_title_of(b: BlockModel) -> Seq<char> {
    match b.1 {
        Some(t) => t,
        None => "fav"@ + decimal_text(b.0 as nat),
    }
}

impl FavoriteBlock {
    /// This block as values.
    pub open spec fn model(self) -> BlockModel {
        (self.id, title_model(self.title), lines_model(self.lines@))
    }

    /// The name this block is shown and called by (see `display_title_of`).
    pub fn display_title(&self) -> (s: String)
        ensures
            s@ == display_title_of(self.model()),
    {
        match &self.title {
            Some(t) => t.clone(),
            None => {
                let mut out = chars_of("fav");
                let digits = u64_to_text(self.id);
                push_all(&mut out, digits.as_slice());
                string_from_chars(out.as_slice())
            },
        }
    }
}

/// What adding a block did.
#[derive(Debug, Clone, Copy, PartialEq, Eq, Structural)]
pub enum AddFavoriteResult {
    /// Saved as a new block with this id.
    Added(u64),
    /// The same lines are already saved in the block with this id.
    Duplicate(u64),
    /// Nothing to save.
    Empty,
}

/// The favorites, newest first, and the file they are kept in (none for a
/// store that lives in memory only).
#[derive(Debug, Clone)]
pub struct FavoritesStore {
    pub path: Option<String>,
    pub blocks: Vec<FavoriteBlock>,
}

// ---------------------------------------------------------------------
// Operations as values
// ---------------------------------------------------------------------
/// The largest id among `blocks`, 0 when there is none.
pub open spec fn max_id(blocks: Seq<BlockModel>) -> u64
    decreases blocks.len(),
{
    if blocks.len() == 0 {
        0
    } else {
        let rest = max_id(blocks.drop_last());
        if blocks.last().0 > rest {
            blocks.last().0
        } else {
            rest
        }
    }
}

/// The id a new block gets: one past the largest, saturating.
pub open spec fn next_id(blocks: Seq<BlockModel>) -> u64 {
    if max_id(blocks) == u64::MAX {
        u64::MAX
    } else {
        (max_id(blocks) + 1) as u64
    }
}

/// Block `i` is the first to hold exactly `lines`.
pub open spec fn first_with_lines(blocks: Seq<BlockModel>, lines: Seq<Seq<char>>, i: int) -> bool {
    &&& 0 <= i < blocks.len()
    &&& blocks[i].2 == lines
    &&& forall|j: int| 0 <= j < i ==> blocks[j].2 != lines
}

/// Adding `lines`: empty lines are refused; lines already saved give the id
/// of the first block holding them; other lines become a new untitled block
/// in front, with the next id.
pub open spec fn add_spec(blocks: Seq<BlockModel>, lines: Seq<Seq<char>>) -> (
    AddFavoriteResult,
    Seq<BlockModel>,
) {
    if lines.len() == 0 {
        (AddFavoriteResult::Empty, blocks)
    } else if exists|i: int| first_with_lines(blocks, lines, i) {
        let i = choose|i: int| first_with_lines(blocks, lines, i);
        (AddFavoriteResult::Duplicate(blocks[i].0), blocks)
    } else {
        let id = next_id(blocks);
        (AddFavoriteResult::Added(id), blocks.insert(0, (id, None, lines)))
    }
}

/// Removing block `i`: the block taken out, when `i` is a block.
pub open spec fn remove_spec(blocks: Seq<BlockModel>, i: int) -> (Option<BlockModel>, Seq<
    BlockModel,
>) {
    if 0 <= i < blocks.len() {
        (Some(blocks[i]), blocks.remove(i))
    } else {
        (None, blocks)
    }
}

/// Renaming block `i`, when it is a block.
pub open spec fn rename_spec(blocks: Seq<BlockModel>, i: int, title: Option<Seq<char>>) -> (
    bool,
    Seq<BlockModel>,
) {
    if 0 <= i < blocks.len() {
        (true, blocks.update(i, (blocks[i].0, title, blocks[i].2)))
    } else {
        (false, blocks)
    }
}

proof fn lemma_first_with_lines_unique(blocks: Seq<BlockModel>, lines: Seq<Seq<char>>, i: int)
    requires
        first_with_lines(blocks, lines, i),
    ensures
        (choose|k: int| first_with_lines(blocks, lines, k)) == i,
{
    let k = choose|k: int| first_with_lines(blocks, lines, k);
    assert(first_with_lines(blocks, lines, k));
    if k < i {
        assert(blocks[k].2 != lines);
    }
    if k > i {
        assert(blocks[i].2 != lines);
    }
}

proof fn lemma_max_id_bound(blocks: Seq<BlockModel>)
    ensures
        forall|j: int| 0 <= j < blocks.len() ==> blocks[j].0 <= max_id(blocks),
    decreases blocks.len(),
{
    if blocks.len() > 0 {
        lemma_max_id_bound(blocks.drop_last());
        assert forall|j: int| 0 <= j < blocks.len() implies blocks[j].0 <= max_id(blocks) by {
            if j < blocks.len() - 1 {
                assert(blocks[j] == blocks.drop_last()[j]);
            }
        }
    }
}

/// Adding lines that were just added finds them: the second add reports a
/// duplicate of the block the first one created, and changes nothing.
pub proof fn law_add_twice_is_duplicate(blocks: Seq<BlockModel>, lines: Seq<Seq<char>>)
    requires
        add_spec(blocks, lines).0 is Added,
    ensures
        add_spec(add_spec(blocks, lines).1, lines) == (
            AddFavoriteResult::Duplicate(add_spec(blocks, lines).0->Added_0),
            add_spec(blocks, lines).1,
        ),
{
    let after = add_spec(blocks, lines).1;
    assert(first_with_lines(after, lines, 0));
    lemma_first_with_lines_unique(after, lines, 0);
}

/// Removing the block that an add created gives back the blocks as they
/// were, and the block holds the added lines, untitled.
pub proof fn law_add_then_remove_restores(blocks: Seq<BlockModel>, lines: Seq<Seq<char>>)
    requires
        add_spec(blocks, lines).0 is Added,
    ensures
        remove_spec(add_spec(blocks, lines).1, 0) == (
            Some((add_spec(blocks, lines).0->Added_0, None::<Seq<char>>, lines)),
            blocks,
        ),
{
    let after = add_spec(blocks, lines).1;
    assert(after.remove(0) =~= blocks);
}

/// A new block's id is larger than every id already saved, unless the
/// largest id is already `u64::MAX`; so ids stay distinct.
pub proof fn law_added_id_is_fresh(blocks: Seq<BlockModel>, lines: Seq<Seq<char>>)
    requires
        add_spec(blocks, lines).0 is Added,
        max_id(blocks) < u64::MAX,
    ensures
        forall|j: int|
            0 <= j < blocks.len() ==> blocks[j].0 < add_spec(blocks, lines).0->Added_0,
{
    lemma_max_id_bound(blocks);
}

/// A renamed block is shown and called by its new title; clearing the title
/// brings back `fav<id>`.
pub proof fn law_rename_sets_display_title(
    blocks: Seq<BlockModel>,
    i: int,
    title: Option<Seq<char>>,
)
    requires
        0 <= i < blocks.len(),
    ensures
        display_title_of(rename_spec(blocks, i, title).1[i]) == match title {
            Some(t) => t,
            None => "fav"@ + decimal_text(blocks[i].0 as nat),
        },
        rename_spec(blocks, i, title).1[i].2 == blocks[i].2,
{
}

// ---------------------------------------------------------------------
// The store
// ---------------------------------------------------------------------
fn same_lines(a: &Vec<String>, b: &Vec<String>) -> (r: bool)
    ensures
        r == (lines_model(a@) == lines_model(b@)),
{
    if a.len() != b.len() {
        assert(lines_model(a@).len() != lines_model(b@).len());
        return false;
    }
    let mut i: usize = 0;
    while i < a.len()
        invariant
            a.len() == b.len(),
            0 <= i <= a.len(),
            forall|j: int| 0 <= j < i ==> a@[j]@ == b@[j]@,
        decreases a.len() - i,
    {
        if a[i] != b[i] {
            assert(lines_model(a@)[i as int] != lines_model(b@)[i as int]);
            return false;
        }
        i = i + 1;
    }
    assert(lines_model(a@) =~= lines_model(b@));
    true
}

impl FavoritesStore {
    /// The blocks as values.
    pub open spec fn model(self) -> Seq<BlockModel> {
        blocks_model(self.blocks@)
    }

    /// The favorites file, if any.
    pub open spec fn path_spec(self) -> Option<Seq<char>> {
        title_model(self.path)
    }

    /// An empty store kept in memory only.
    pub fn new_in_memory() -> (s: FavoritesStore)
        ensures
            s.blocks@.len() == 0,
            s.path_spec() is None,
    {
        FavoritesStore { path: None, blocks: Vec::new() }
    }

    /// A store of `blocks` kept in the file at `path`.
    pub fn with_path(path: String, blocks: Vec<FavoriteBlock>) -> (s: FavoritesStore)
        ensures
            s.blocks@ == blocks@,
            s.path_spec() == Some(path@),
    {
        FavoritesStore { path: Some(path), blocks }
    }

    /// The favorites file, if the store has one.
    pub fn path(&self) -> (p: Option<&str>)
        ensures
            p matches Some(s) ==> self.path_spec() == Some(s@),
            p is None ==> self.path_spec() is None,
    {
        match &self.path {
            Some(p) => Some(p.as_str()),
            None => None,
        }
    }

    /// Saves `lines` as a new block in front, unless they are empty or
    /// already saved (see `add_spec`). The caller persists the store when
    /// a block was added.
    pub fn add_block(&mut self, lines: Vec<String>) -> (r: AddFavoriteResult)
        ensures
            (r, final(self).model()) == add_spec(old(self).model(), lines_model(lines@)),
            final(self).path_spec() == old(self).path_spec(),
            !(r is Added) ==> *final(self) == *old(self),
    {
        let ghost m = self.model();
        let ghost lm = lines_model(lines@);
        assert(lm.len() == lines@.len());
        if lines.len() == 0 {
            return AddFavoriteResult::Empty;
        }
        let mut i: usize = 0;
        let mut max: u64 = 0;
        while i < self.blocks.len()
            invariant
                m == self.model(),
                m == old(self).model(),
                *self == *old(self),
                lm == lines_model(lines@),
                lm.len() == lines@.len(),
                lm.len() > 0,
                0 <= i <= self.blocks.len(),
                forall|j: int| 0 <= j < i ==> m[j].2 != lm,
                max == max_id(m.take(i as int)),
            decreases self.blocks.len() - i,
        {
            assert(m.take(i + 1).drop_last() =~= m.take(i as int));
            if same_lines(&self.blocks[i].lines, &lines) {
                proof {
                    assert(m[i as int].2 == lines_model(self.blocks@[i as int].lines@));
                    assert(first_with_lines(m, lm, i as int));
                    lemma_first_with_lines_unique(m, lm, i as int);
                }
                return AddFavoriteResult::Duplicate(self.blocks[i].id);
            }
            if self.blocks[i].id > max {
                max = self.blocks[i].id;
            }
            i = i + 1;
        }
        assert(m.take(m.len() as int) =~= m);
        assert(!exists|k: int| first_with_lines(m, lm, k));
        let id = if max == u64::MAX {
            u64::MAX
        } else {
            max + 1
        };
        let block = FavoriteBlock { id, title: None, lines };
        self.blocks.insert(0, block);
        assert(self.model() =~= m.insert(0, (id, None, lm)));
        AddFavoriteResult::Added(id)
    }

    /// Takes out block `block_index`, if there is one (see `remove_spec`).
    /// The caller persists the store when a block was removed.
    pub fn remove_block(&mut self, block_index: usize) -> (r: Option<FavoriteBlock>)
        ensures
            (match r {
                Some(b) => Some(b.model()),
                None => None,
            }, final(self).model()) == remove_spec(old(self).model(), block_index as int),
            final(self).path_spec() == old(self).path_spec(),
    {
        if block_index >= self.blocks.len() {
            return None;
        }
        let removed = self.blocks.remove(block_index);
        assert(self.model() =~= old(self).model().remove(block_index as int));
        Some(removed)
    }

    /// Sets the title of block `block_index`, if there is one (see
    /// `rename_spec`). The caller persists the store when it returns true.
    pub fn rename_block(&mut self, block_index: usize, title: Option<String>) -> (r: bool)
        ensures
            (r, final(self).model()) == rename_spec(
                old(self).model(),
                block_index as int,
                title_model(title),
            ),
            final(self).path_spec() == old(self).path_spec(),
    {
        if block_index >= self.blocks.len() {
            return false;
        }
        let mut block = self.blocks.remove(block_index);
        block.title = title;
        self.blocks.insert(block_index, block);
        assert(self.model() =~= old(self).model().update(
            block_index as int,
            (
                old(self).model()[block_index as int].0,
                title_model(title),
                old(self).model()[block_index as int].2,
            ),
        ));
        true
    }
}


// ---------------------------------------------------------------------
// Aliases
// ---------------------------------------------------------------------
/// The titles of the blocks, in lower case.
pub open spec fn lowered_titles(blocks: Seq<BlockModel>) -> Seq<Seq<char>> {
    blocks.map_values(|b: BlockModel| unicode_lowercase(display_title_of(b)))
}

/// The positions below `n` of the blocks whose lower-case title starts
/// with `lname`.
pub open spec fn prefix_positions(blocks: Seq<BlockModel>, lname: Seq<char>, n: int) -> Seq<int>
    decreases n,
{
    if n <= 0 {
        Seq::empty()
    } else {
        let prev = prefix_positions(blocks, lname, n - 1);
        if has_prefix(lowered_titles(blocks)[n - 1], lname) {
            prev.push(n - 1)
        } else {
            prev
        }
    }
}

/// Looking up a favorite by name, ignoring case: the first block whose
/// title is the name; else the one block whose title starts with it; else
/// the titles of the blocks that start with it (none, or several).
pub open spec fn alias_spec(blocks: Seq<BlockModel>, name: Seq<char>) -> Result<int, Seq<Seq<char>>> {
    let lname = unicode_lowercase(name);
    match lowered_titles(blocks).index_of_first(lname) {
        Some(i) => Ok(i),
        None => {
            let c = prefix_positions(blocks, lname, blocks.len() as int);
            if c.len() == 1 {
                Ok(c[0])
            } else {
                Err(c.map_values(|k: int| display_title_of(blocks[k])))
            }
        },
    }
}

/// The listing of the favorites: each title, then its lines indented by two
/// spaces.
pub open spec fn listing_spec(blocks: Seq<BlockModel>) -> Seq<Seq<char>>
    decreases blocks.len(),
{
    if blocks.len() == 0 {
        Seq::empty()
    } else {
        listing_spec(blocks.drop_last()) + seq![display_title_of(blocks.last())]
            + blocks.last().2.map_values(|l: Seq<char>| "  "@ + l)
    }
}

/// Every position that `prefix_positions` lists is a block whose lower-case
/// title starts with `lname`.
proof fn lemma_prefix_positions(blocks: Seq<BlockModel>, lname: Seq<char>, n: int)
    requires
        n <= blocks.len(),
    ensures
        forall|k: int|
            0 <= k < prefix_positions(blocks, lname, n).len() ==> {
                let p = #[trigger] prefix_positions(blocks, lname, n)[k];
                0 <= p < n && has_prefix(lowered_titles(blocks)[p], lname)
            },
    decreases n,
{
    if n > 0 {
        lemma_prefix_positions(blocks, lname, n - 1);
        let prev = prefix_positions(blocks, lname, n - 1);
        assert forall|k: int| 0 <= k < prefix_positions(blocks, lname, n).len() implies {
            let p = #[trigger] prefix_positions(blocks, lname, n)[k];
            0 <= p < n && has_prefix(lowered_titles(blocks)[p], lname)
        } by {
            if k < prev.len() {
                assert(prefix_positions(blocks, lname, n)[k] == prev[k]);
            }
        }
    }
}

/// A favorite found by name is one whose title, in lower case, starts with
/// the name in lower case (an exact title being the longest such start).
pub proof fn law_alias_title_starts_with_name(blocks: Seq<BlockModel>, name: Seq<char>)
    ensures
        alias_spec(blocks, name) matches Ok(i) ==> 0 <= i < blocks.len() && has_prefix(
            lowered_titles(blocks)[i],
            unicode_lowercase(name),
        ),
{
    let lname = unicode_lowercase(name);
    let lt = lowered_titles(blocks);
    lt.index_of_first_ensures(lname);
    lemma_prefix_positions(blocks, lname, blocks.len() as int);
    match lt.index_of_first(lname) {
        Some(i) => {
            assert(lt[i].take(lname.len() as int) =~= lname);
        },
        None => {
            let c = prefix_positions(blocks, lname, blocks.len() as int);
            if c.len() == 1 {
                assert(c[0] == prefix_positions(blocks, lname, blocks.len() as int)[0]);
            }
        },
    }
}

impl FavoritesStore {
    /// The lower-case titles of the blocks, in order.
    fn lowered_titles_exec(&self) -> (r: Vec<Vec<char>>)
        ensures
            r@.len() == self.blocks@.len(),
            forall|k: int| 0 <= k < r@.len() ==> (#[trigger] r@[k])@ == lowered_titles(self.model())[k],
    {
        let mut out: Vec<Vec<char>> = Vec::new();
        let mut i: usize = 0;
        while i < self.blocks.len()
            invariant
                0 <= i <= self.blocks.len(),
                out@.len() == i,
                forall|k: int| 0 <= k < i ==> (#[trigger] out@[k])@ == lowered_titles(self.model())[k],
            decreases self.blocks.len() - i,
        {
            let title = self.blocks[i].display_title();
            let lowered = to_lowercase(title.as_str());
            out.push(chars_of(lowered.as_str()));
            i = i + 1;
        }
        out
    }

    /// Finds a favorite by name (see `alias_spec`): `Ok` with its position,
    /// or `Err` with the titles that start with the name, empty when none
    /// does.
    pub fn find_by_alias(&self, name: &str) -> (r: Result<usize, Vec<String>>)
        ensures
            match alias_spec(self.model(), name@) {
                Ok(i) => r matches Ok(k) && k as int == i,
                Err(ts) => r matches Err(v) && lines_model(v@) == ts,
            },
    {
        let ghost blocks = self.model();
        let lname_s = to_lowercase(name);
        let lname = chars_of(lname_s.as_str());
        let titles = self.lowered_titles_exec();
        let ghost lt = lowered_titles(blocks);
        let mut i: usize = 0;
        while i < titles.len()
            invariant
                0 <= i <= titles.len(),
                titles@.len() == blocks.len(),
                lt == lowered_titles(blocks),
                blocks == self.model(),
                lname@ == unicode_lowercase(name@),
                lname_s@ == lname@,
                forall|k: int| 0 <= k < titles@.len() ==> (#[trigger] titles@[k])@ == lt[k],
                forall|j: int| 0 <= j < i ==> lt[j] != lname@,
            decreases titles.len() - i,
        {
            if same_chars(titles[i].as_slice(), lname.as_slice()) {
                proof {
                    lemma_first_index(lt, lname@, i as int);
                }
                return Ok(i);
            }
            i = i + 1;
        }
        proof {
            lemma_no_index(lt, lname@);
        }
        let mut found: Vec<usize> = Vec::new();
        let mut k: usize = 0;
        while k < titles.len()
            invariant
                0 <= k <= titles.len(),
                titles@.len() == blocks.len(),
                lt == lowered_titles(blocks),
                blocks == self.model(),
                lname@ == unicode_lowercase(name@),
                lname_s@ == lname@,
                forall|m: int| 0 <= m < titles@.len() ==> (#[trigger] titles@[m])@ == lt[m],
                found@.map_values(|x: usize| x as int) == prefix_positions(blocks, lname@, k as int),
                forall|m: int| 0 <= m < found@.len() ==> found@[m] < k,
            decreases titles.len() - k,
        {
            let ghost before = found@;
            assert(titles@[k as int]@ == lt[k as int]);
            if starts_with(titles[k].as_slice(), lname_s.as_str()) {
                found.push(k);
                assert(found@.map_values(|x: usize| x as int) =~= before.map_values(
                    |x: usize| x as int,
                ).push(k as int));
                assert(prefix_positions(blocks, lname@, k + 1) == prefix_positions(
                    blocks,
                    lname@,
                    k as int,
                ).push(k as int));
            } else {
                assert(prefix_positions(blocks, lname@, k + 1) == prefix_positions(
                    blocks,
                    lname@,
                    k as int,
                ));
            }
            k = k + 1;
        }
        let ghost c = prefix_positions(blocks, lname@, blocks.len() as int);
        assert(found@.map_values(|x: usize| x as int) == c);
        if found.len() == 1 {
            assert(c[0] == found@[0] as int);
            return Ok(found[0]);
        }
        let mut names: Vec<String> = Vec::new();
        let mut m: usize = 0;
        while m < found.len()
            invariant
                0 <= m <= found.len(),
                found@.map_values(|x: usize| x as int) == c,
                forall|q: int| 0 <= q < found@.len() ==> found@[q] < self.blocks@.len(),
                blocks == self.model(),
                lines_model(names@) == c.take(m as int).map_values(
                    |j: int| display_title_of(blocks[j]),
                ),
            decreases found.len() - m,
        {
            let ghost before = names@;
            assert(c[m as int] == found@[m as int] as int);
            let t = self.blocks[found[m]].display_title();
            assert(t@ == display_title_of(blocks[c[m as int]]));
            names.push(t);
            let ghost title = display_title_of(blocks[c[m as int]]);
            assert(lines_model(names@) =~= lines_model(before).push(title));
            assert(c.take(m + 1).map_values(|j: int| display_title_of(blocks[j])) =~= c.take(
                m as int,
            ).map_values(|j: int| display_title_of(blocks[j])).push(title));
            assert(lines_model(names@) =~= c.take(m + 1).map_values(
                |j: int| display_title_of(blocks[j]),
            ));
            m = m + 1;
        }
        assert(c.take(found.len() as int) =~= c);
        Err(names)
    }

    /// The listing of the favorites (see `listing_spec`).
    pub fn listing(&self) -> (r: Vec<String>)
        ensures
            lines_model(r@) == listing_spec(self.model()),
    {
        let ghost blocks = self.model();
        let mut out: Vec<String> = Vec::new();
        let mut i: usize = 0;
        assert(blocks.take(0) =~= Seq::<BlockModel>::empty());
        while i < self.blocks.len()
            invariant
                0 <= i <= self.blocks.len(),
                blocks == self.model(),
                lines_model(out@) == listing_spec(blocks.take(i as int)),
            decreases self.blocks.len() - i,
        {
            let block = &self.blocks[i];
            let ghost start = lines_model(out@);
            out.push(block.display_title());
            let mut j: usize = 0;
            while j < block.lines.len()
                invariant
                    0 <= j <= block.lines.len(),
                    block == &self.blocks@[i as int],
                    lines_model(out@) == start + seq![display_title_of(blocks[i as int])]
                        + lines_model(block.lines@).take(j as int).map_values(
                        |l: Seq<char>| "  "@ + l,
                    ),
                decreases block.lines.len() - j,
            {
                let mut line = chars_of("  ");
                push_str(&mut line, block.lines[j].as_str());
                let ghost prev = lines_model(out@);
                out.push(string_from_chars(line.as_slice()));
                assert(lines_model(out@) =~= prev.push("  "@ + block.lines@[j as int]@));
                assert(lines_model(block.lines@).take(j + 1).map_values(|l: Seq<char>| "  "@ + l)
                    =~= lines_model(block.lines@).take(j as int).map_values(
                    |l: Seq<char>| "  "@ + l,
                ).push("  "@ + block.lines@[j as int]@));
                j = j + 1;
            }
            assert(lines_model(block.lines@).take(block.lines.len() as int) =~= lines_model(
                block.lines@,
            ));
            assert(blocks.take(i + 1).drop_last() =~= blocks.take(i as int));
            assert(blocks.take(i + 1).last() == blocks[i as int]);
            i = i + 1;
        }
        assert(blocks.take(self.blocks.len() as int) =~= blocks);
        out
    }
}

} // verus!
