//! Sort orders of the history list: by recency (file order), alphabetically
//! ignoring ASCII case, by length, or by timestamp, each ascending or
//! reversed.
use vstd::prelude::*;
use vstd::relations::{sorted_by, total_ordering};
use vstd::seq_lib::{group_to_multiset_ensures, lemma_multiset_commutative};
use vstd::utf8::encode_utf8;

use crate::history::Entry;

verus! {

/// How the history list is ordered.
#[derive(Debug, Clone, Copy, PartialEq, Eq, Structural)]
pub enum SortMode {
    Recency,
    Alpha,
    Length,
    Timestamp,
}

impl SortMode {
    /// The mode after this one: Recency, Alpha, Length, Timestamp, then
    /// Recency again.
    pub open spec fn cycle_spec(self) -> SortMode {
        match self {
            SortMode::Recency => SortMode::Alpha,
            SortMode::Alpha => SortMode::Length,
            SortMode::Length => SortMode::Timestamp,
            SortMode::Timestamp => SortMode::Recency,
        }
    }

    /// The mode after this one (see `cycle_spec`).
    pub fn cycle(self) -> (next: SortMode)
        ensures
            next == self.cycle_spec(),
    {
        match self {
            SortMode::Recency => SortMode::Alpha,
            SortMode::Alpha => SortMode::Length,
            SortMode::Length => SortMode::Timestamp,
            SortMode::Timestamp => SortMode::Recency,
        }
    }

    /// The name shown in the status bar.
    pub fn label(self) -> (s: &'static str)
        ensures
            s@ == match self {
                SortMode::Recency => "Recency"@,
                SortMode::Alpha => "Alpha"@,
                SortMode::Length => "Length"@,
                SortMode::Timestamp => "Timestamp"@,
            },
    {
        match self {
            SortMode::Recency => "Recency",
            SortMode::Alpha => "Alpha",
            SortMode::Length => "Length",
            SortMode::Timestamp => "Timestamp",
        }
    }
}

// ---------------------------------------------------------------------
// Orders
// ---------------------------------------------------------------------
/// Lexicographic comparison of byte strings: -1, 0 or 1.
pub open spec fn lex(x: Seq<u8>, y: Seq<u8>) -> int
    decreases x.len(),
{
    if x.len() == 0 {
        if y.len() == 0 {
            0
        } else {
            -1
        }
    } else if y.len() == 0 {
        1
    } else if x[0] < y[0] {
        -1
    } else if x[0] > y[0] {
        1
    } else {
        lex(x.drop_first(), y.drop_first())
    }
}

/// `b` with ASCII upper case mapped to lower case.
pub open spec fn ascii_lower(b: u8) -> u8 {
    if 65 <= b <= 90 {
        (b + 32) as u8
    } else {
        b
    }
}

/// `x` with ASCII upper case mapped to lower case.
pub open spec fn lower_bytes(x: Seq<u8>) -> Seq<u8> {
    x.map_values(|b: u8| ascii_lower(b))
}

/// Comparison ignoring ASCII case, ties broken by the bytes themselves.
pub open spec fn compare_ignoring_case(x: Seq<u8>, y: Seq<u8>) -> int {
    let c = lex(lower_bytes(x), lower_bytes(y));
    if c != 0 {
        c
    } else {
        lex(x, y)
    }
}

/// -1, 0 or 1 by the sign of `d`.
pub open spec fn sign(d: int) -> int {
    if d < 0 {
        -1
    } else if d > 0 {
        1
    } else {
        0
    }
}

/// The UTF-8 bytes of an entry's command.
pub open spec fn cmd_bytes(e: Entry) -> Seq<u8> {
    encode_utf8(e.cmd@)
}

/// How entry index `a` compares to `b` in `mode`, ascending: recency by
/// index; alpha by command ignoring ASCII case, then by index; length by
/// command length in bytes, then by index; timestamp newest first, the
/// entries without a time after all others, then by index.
pub open spec fn key_compare(entries: Seq<Entry>, mode: SortMode, a: usize, b: usize) -> int {
    match mode {
        SortMode::Recency => sign(a - b),
        SortMode::Alpha => {
            let c = compare_ignoring_case(cmd_bytes(entries[a as int]), cmd_bytes(entries[b as int]));
            if c != 0 {
                c
            } else {
                sign(a - b)
            }
        },
        SortMode::Length => {
            let d = cmd_bytes(entries[a as int]).len() - cmd_bytes(entries[b as int]).len();
            if d != 0 {
                sign(d)
            } else {
                sign(a - b)
            }
        },
        SortMode::Timestamp => match (entries[a as int].timestamp, entries[b as int].timestamp) {
            (Some(ta), Some(tb)) => if ta != tb {
                sign(tb - ta)
            } else {
                sign(a - b)
            },
            (Some(_), None) => -1,
            (None, Some(_)) => 1,
            (None, None) => sign(a - b),
        },
    }
}

/// `a` may come before `b`: ascending by `key_compare`, or descending when
/// `reverse`.
pub open spec fn sort_leq(entries: Seq<Entry>, mode: SortMode, reverse: bool) -> spec_fn(
    usize,
    usize,
) -> bool {
    |a: usize, b: usize|
        if reverse {
            key_compare(entries, mode, b, a) <= 0
        } else {
            key_compare(entries, mode, a, b) <= 0
        }
}

proof fn lemma_lex_antisym(x: Seq<u8>, y: Seq<u8>)
    ensures
        lex(x, y) == -lex(y, x),
        -1 <= lex(x, y) <= 1,
        lex(x, y) == 0 <==> x == y,
    decreases x.len(),
{
    if x.len() > 0 && y.len() > 0 && x[0] == y[0] {
        lemma_lex_antisym(x.drop_first(), y.drop_first());
        if x.drop_first() == y.drop_first() {
            assert(x =~= seq![x[0]] + x.drop_first());
            assert(y =~= seq![y[0]] + y.drop_first());
        }
    } else if x.len() > 0 && y.len() > 0 {
        assert(x[0] != y[0]);
    } else if x.len() == 0 && y.len() == 0 {
        assert(x =~= y);
    }
}

proof fn lemma_lex_trans(x: Seq<u8>, y: Seq<u8>, z: Seq<u8>)
    requires
        lex(x, y) <= 0,
        lex(y, z) <= 0,
    ensures
        lex(x, z) <= 0,
    decreases x.len(),
{
    if x.len() > 0 && y.len() > 0 && z.len() > 0 && x[0] == y[0] && y[0] == z[0] {
        lemma_lex_trans(x.drop_first(), y.drop_first(), z.drop_first());
    }
}

proof fn lemma_compare_ignoring_case(x: Seq<u8>, y: Seq<u8>, z: Seq<u8>)
    ensures
        compare_ignoring_case(x, y) == -compare_ignoring_case(y, x),
        compare_ignoring_case(x, y) == 0 <==> x == y,
        compare_ignoring_case(x, y) <= 0 && compare_ignoring_case(y, z) <= 0
            ==> compare_ignoring_case(x, z) <= 0,
{
    let (lx, ly, lz) = (lower_bytes(x), lower_bytes(y), lower_bytes(z));
    lemma_lex_antisym(lx, ly);
    lemma_lex_antisym(ly, lz);
    lemma_lex_antisym(lx, lz);
    lemma_lex_antisym(x, y);
    lemma_lex_antisym(y, z);
    lemma_lex_antisym(x, z);
    if compare_ignoring_case(x, y) <= 0 && compare_ignoring_case(y, z) <= 0 {
        lemma_lex_trans(lx, ly, lz);
        if lex(lx, lz) == 0 {
            // equal folded bytes all along: the raw comparison decides
            if lex(lx, ly) != 0 {
                lemma_lex_trans(ly, lz, lx);
            } else if lex(ly, lz) != 0 {
                lemma_lex_trans(lz, lx, ly);
            } else {
                lemma_lex_trans(x, y, z);
            }
        }
    }
}

/// The order of the history list is total: it never ties two different
/// indices, whatever the commands hold.
pub proof fn law_sort_order_is_total(entries: Seq<Entry>, mode: SortMode, reverse: bool)
    ensures
        total_ordering(sort_leq(entries, mode, reverse)),
{
    let leq = sort_leq(entries, mode, reverse);
    assert forall|a: usize, b: usize|
        key_compare(entries, mode, a, b) == -key_compare(entries, mode, b, a) && (key_compare(
            entries,
            mode,
            a,
            b,
        ) == 0 <==> a == b) by {
        let (x, y) = (cmd_bytes(entries[a as int]), cmd_bytes(entries[b as int]));
        lemma_compare_ignoring_case(x, y, x);
    }
    assert forall|a: usize, b: usize, c: usize|
        #[trigger] key_compare(entries, mode, a, b) <= 0 && #[trigger] key_compare(
            entries,
            mode,
            b,
            c,
        ) <= 0 implies key_compare(entries, mode, a, c) <= 0 by {
        let (x, y, z) = (
            cmd_bytes(entries[a as int]),
            cmd_bytes(entries[b as int]),
            cmd_bytes(entries[c as int]),
        );
        lemma_compare_ignoring_case(x, y, z);
        lemma_compare_ignoring_case(x, z, x);
        lemma_compare_ignoring_case(y, z, x);
        lemma_compare_ignoring_case(x, y, x);
    }
    assert(vstd::relations::reflexive(leq));
    assert(vstd::relations::antisymmetric(leq));
    assert forall|a: usize, b: usize, c: usize| #[trigger] leq(a, b) && #[trigger] leq(b, c) implies leq(
        a,
        c,
    ) by {
        if reverse {
            assert(key_compare(entries, mode, c, b) <= 0 && key_compare(entries, mode, b, a) <= 0);
        } else {
            assert(key_compare(entries, mode, a, b) <= 0 && key_compare(entries, mode, b, c) <= 0);
        }
    }
    assert(vstd::relations::strongly_connected(leq));
}

/// Under a total order there is one sorted arrangement of a multiset: two
/// sorted sequences with the same elements are equal.
pub proof fn law_sorted_arrangement_unique<T>(s1: Seq<T>, s2: Seq<T>, leq: spec_fn(T, T) -> bool)
    requires
        total_ordering(leq),
        sorted_by(s1, leq),
        sorted_by(s2, leq),
        s1.to_multiset() == s2.to_multiset(),
    ensures
        s1 == s2,
    decreases s1.len(),
{
    broadcast use group_to_multiset_ensures;

    s1.to_multiset_ensures();
    s2.to_multiset_ensures();
    if s1.len() == 0 {
        assert(s2.len() == 0);
        assert(s1 =~= s2);
    } else {
        assert(s1.contains(s1[0]));
        assert(s2.to_multiset().count(s1[0]) > 0);
        assert(s2.contains(s1[0]));
        assert(s2.len() > 0);
        assert(s2.contains(s2[0]));
        assert(s1.to_multiset().count(s2[0]) > 0);
        assert(s1.contains(s2[0]));
        let k1 = choose|k: int| 0 <= k < s1.len() && s1[k] == s2[0];
        let k2 = choose|k: int| 0 <= k < s2.len() && s2[k] == s1[0];
        assert(leq(s1[0], s1[k1]) || k1 == 0);
        assert(leq(s2[0], s2[k2]) || k2 == 0);
        assert(s1[0] == s2[0]);
        assert(s1.remove(0) =~= s1.drop_first());
        assert(s2.remove(0) =~= s2.drop_first());
        assert(s1.drop_first().to_multiset() =~= s2.drop_first().to_multiset());
        law_sorted_arrangement_unique(s1.drop_first(), s2.drop_first(), leq);
        assert(s1 =~= seq![s1[0]] + s1.drop_first());
        assert(s2 =~= seq![s2[0]] + s2.drop_first());
    }
}

/// Reversing the direction reverses the list: the descending arrangement
/// of any indices is the ascending one read backwards.
pub proof fn law_reverse_sort_is_reversed(s: Seq<usize>, entries: Seq<Entry>, mode: SortMode)
    ensures
        s.sort_by(sort_leq(entries, mode, true)) == s.sort_by(sort_leq(entries, mode, false)).reverse(),
{
    let up = sort_leq(entries, mode, false);
    let down = sort_leq(entries, mode, true);
    law_sort_order_is_total(entries, mode, false);
    law_sort_order_is_total(entries, mode, true);
    s.lemma_sort_by_ensures(up);
    s.lemma_sort_by_ensures(down);
    let t = s.sort_by(up);
    let r = t.reverse();
    assert forall|i: int, j: int| 0 <= i < j < r.len() implies #[trigger] down(r[i], r[j]) by {
        assert(r[i] == t[t.len() - 1 - i]);
        assert(r[j] == t[t.len() - 1 - j]);
        assert(up(t[t.len() - 1 - j], t[t.len() - 1 - i]));
    }
    t.lemma_reverse_to_multiset();
    law_sorted_arrangement_unique(s.sort_by(down), r, down);
}

// ---------------------------------------------------------------------
// Comparisons
// ---------------------------------------------------------------------
fn lower_byte(b: u8) -> (r: u8)
    ensures
        r == ascii_lower(b),
{
    if 65 <= b && b <= 90 {
        b + 32
    } else {
        b
    }
}

/// Compares two byte strings ignoring ASCII case, then by their bytes.
pub fn compare_bytes_ignoring_case(x: &[u8], y: &[u8]) -> (r: i8)
    ensures
        r == compare_ignoring_case(x@, y@),
{
    let ghost lx = lower_bytes(x@);
    let ghost ly = lower_bytes(y@);
    let n = if x.len() < y.len() {
        x.len()
    } else {
        y.len()
    };
    let mut i: usize = 0;
    assert(lx.skip(0) =~= lx && ly.skip(0) =~= ly);
    while i < n
        invariant
            n <= x.len(),
            n <= y.len(),
            n == x.len() || n == y.len(),
            0 <= i <= n,
            lx == lower_bytes(x@),
            ly == lower_bytes(y@),
            lex(lx, ly) == lex(lx.skip(i as int), ly.skip(i as int)),
        decreases n - i,
    {
        let a = lower_byte(x[i]);
        let b = lower_byte(y[i]);
        assert(lx.skip(i as int)[0] == a && ly.skip(i as int)[0] == b);
        if a < b {
            return -1;
        }
        if a > b {
            return 1;
        }
        assert(lx.skip(i as int).drop_first() =~= lx.skip(i + 1));
        assert(ly.skip(i as int).drop_first() =~= ly.skip(i + 1));
        i = i + 1;
    }
    if x.len() < y.len() {
        return -1;
    }
    if x.len() > y.len() {
        return 1;
    }
    // equal when folded: compare the bytes themselves
    let mut k: usize = 0;
    assert(x@.skip(0) =~= x@ && y@.skip(0) =~= y@);
    while k < n
        invariant
            n == x.len(),
            n == y.len(),
            0 <= k <= n,
            lx == lower_bytes(x@),
            ly == lower_bytes(y@),
            lex(lx, ly) == 0,
            lex(x@, y@) == lex(x@.skip(k as int), y@.skip(k as int)),
        decreases n - k,
    {
        if x[k] < y[k] {
            return -1;
        }
        if x[k] > y[k] {
            return 1;
        }
        assert(x@.skip(k as int).drop_first() =~= x@.skip(k + 1));
        assert(y@.skip(k as int).drop_first() =~= y@.skip(k + 1));
        k = k + 1;
    }
    0
}

fn compare_usize(a: usize, b: usize) -> (r: i8)
    ensures
        r == sign(a - b),
{
    if a < b {
        -1
    } else if a > b {
        1
    } else {
        0
    }
}

/// How entry index `a` compares to `b` in `mode` (see `key_compare`).
fn compare_entries(entries: &[Entry], mode: SortMode, a: usize, b: usize) -> (r: i8)
    requires
        mode != SortMode::Recency ==> a < entries@.len() && b < entries@.len(),
    ensures
        r == key_compare(entries@, mode, a, b),
{
    match mode {
        SortMode::Recency => {
            compare_usize(a, b)
        },
        SortMode::Alpha => {
            let x = entries[a].cmd.as_str().as_bytes();
            let y = entries[b].cmd.as_str().as_bytes();
            let c = compare_bytes_ignoring_case(x, y);
            if c != 0 {
                c
            } else {
                compare_usize(a, b)
            }
        },
        SortMode::Length => {
            let la = entries[a].cmd.as_str().as_bytes().len();
            let lb = entries[b].cmd.as_str().as_bytes().len();
            let c = compare_usize(la, lb);
            if c != 0 {
                c
            } else {
                compare_usize(a, b)
            }
        },
        SortMode::Timestamp => match (entries[a].timestamp, entries[b].timestamp) {
            (Some(ta), Some(tb)) => if ta > tb {
                -1
            } else if ta < tb {
                1
            } else {
                compare_usize(a, b)
            },
            (Some(_), None) => -1,
            (None, Some(_)) => 1,
            (None, None) => compare_usize(a, b),
        },
    }
}

/// Whether `a` may come before `b` (see `sort_leq`).
fn in_order(entries: &[Entry], mode: SortMode, reverse: bool, a: usize, b: usize) -> (r: bool)
    requires
        mode != SortMode::Recency ==> a < entries@.len() && b < entries@.len(),
    ensures
        r == sort_leq(entries@, mode, reverse)(a, b),
{
    if reverse {
        compare_entries(entries, mode, b, a) <= 0
    } else {
        compare_entries(entries, mode, a, b) <= 0
    }
}

// ---------------------------------------------------------------------
// Merge sort
// ---------------------------------------------------------------------
/// The indices are all valid positions of `entries` where the mode reads
/// the entries.
pub open spec fn indices_valid(indices: Seq<usize>, entries: Seq<Entry>, mode: SortMode) -> bool {
    mode != SortMode::Recency ==> forall|i: int| 0 <= i < indices.len() ==> #[trigger] indices[i]
        < entries.len()
}

fn merge(
    left: Vec<usize>,
    right: Vec<usize>,
    entries: &[Entry],
    mode: SortMode,
    reverse: bool,
) -> (out: Vec<usize>)
    requires
        total_ordering(sort_leq(entries@, mode, reverse)),
        sorted_by(left@, sort_leq(entries@, mode, reverse)),
        sorted_by(right@, sort_leq(entries@, mode, reverse)),
        indices_valid(left@, entries@, mode),
        indices_valid(right@, entries@, mode),
    ensures
        sorted_by(out@, sort_leq(entries@, mode, reverse)),
        out@.to_multiset() == left@.to_multiset().add(right@.to_multiset()),
        indices_valid(out@, entries@, mode),
{
    broadcast use group_to_multiset_ensures;

    let ghost leq = sort_leq(entries@, mode, reverse);
    let mut out: Vec<usize> = Vec::new();
    let mut i: usize = 0;
    let mut j: usize = 0;
    while i < left.len() || j < right.len()
        invariant
            leq == sort_leq(entries@, mode, reverse),
            total_ordering(leq),
            sorted_by(left@, leq),
            sorted_by(right@, leq),
            indices_valid(left@, entries@, mode),
            indices_valid(right@, entries@, mode),
            indices_valid(out@, entries@, mode),
            0 <= i <= left.len(),
            0 <= j <= right.len(),
            sorted_by(out@, leq),
            out@.to_multiset() == left@.take(i as int).to_multiset().add(
                right@.take(j as int).to_multiset(),
            ),
            forall|p: int, q: int|
                0 <= p < out@.len() && i <= q < left@.len() ==> leq(out@[p], left@[q]),
            forall|p: int, q: int|
                0 <= p < out@.len() && j <= q < right@.len() ==> leq(out@[p], right@[q]),
        decreases left.len() + right.len() - i - j,
    {
        let take_left = if i < left.len() && j < right.len() {
            in_order(entries, mode, reverse, left[i], right[j])
        } else {
            i < left.len()
        };
        let ghost before = out@;
        let ghost lt = left@.take(i as int);
        let ghost rt = right@.take(j as int);
        if take_left {
            let x = left[i];
            out.push(x);
            assert(left@.take(i + 1) =~= left@.take(i as int).push(x));
            proof {
                broadcast use vstd::multiset::group_multiset_axioms;
                assert(out@ =~= before.push(x));
                before.to_multiset_ensures();
                lt.to_multiset_ensures();
                assert(out@.to_multiset() =~= lt.push(x).to_multiset().add(rt.to_multiset()));
                if j < right.len() {
                    assert(leq(x, right@[j as int]));
                }
                assert forall|q: int| j <= q < right@.len() implies leq(x, right@[q]) by {
                    if q > j {
                        assert(leq(right@[j as int], right@[q]));
                    }
                }
                assert forall|q: int| i + 1 <= q < left@.len() implies leq(x, left@[q]) by {}
            }
            i = i + 1;
        } else {
            let y = right[j];
            out.push(y);
            assert(right@.take(j + 1) =~= right@.take(j as int).push(y));
            proof {
                broadcast use vstd::multiset::group_multiset_axioms;
                assert(out@ =~= before.push(y));
                before.to_multiset_ensures();
                rt.to_multiset_ensures();
                assert(out@.to_multiset() =~= lt.to_multiset().add(rt.push(y).to_multiset()));
                if i < left.len() {
                    assert(!leq(left@[i as int], y));
                    assert(leq(y, left@[i as int]));
                }
                assert forall|q: int| i <= q < left@.len() implies leq(y, left@[q]) by {
                    if q > i {
                        assert(leq(left@[i as int], left@[q]));
                    }
                }
                assert forall|q: int| j + 1 <= q < right@.len() implies leq(y, right@[q]) by {}
            }
            j = j + 1;
        }
        assert(out@ =~= before.push(out@.last()));
    }
    assert(left@.take(left.len() as int) =~= left@);
    assert(right@.take(right.len() as int) =~= right@);
    out
}

/// `v[lo..hi]` sorted.
fn merge_sort_range(
    v: &Vec<usize>,
    lo: usize,
    hi: usize,
    entries: &[Entry],
    mode: SortMode,
    reverse: bool,
) -> (out: Vec<usize>)
    requires
        lo <= hi <= v.len(),
        total_ordering(sort_leq(entries@, mode, reverse)),
        indices_valid(v@, entries@, mode),
    ensures
        sorted_by(out@, sort_leq(entries@, mode, reverse)),
        out@.to_multiset() == v@.subrange(lo as int, hi as int).to_multiset(),
        indices_valid(out@, entries@, mode),
    decreases hi - lo,
{
    broadcast use group_to_multiset_ensures;

    if hi - lo <= 1 {
        let mut out: Vec<usize> = Vec::new();
        if hi - lo == 1 {
            out.push(v[lo]);
            assert(out@ =~= v@.subrange(lo as int, hi as int));
        } else {
            assert(out@ =~= v@.subrange(lo as int, hi as int));
        }
        return out;
    }
    let mid = lo + (hi - lo) / 2;
    let left = merge_sort_range(v, lo, mid, entries, mode, reverse);
    let right = merge_sort_range(v, mid, hi, entries, mode, reverse);
    proof {
        assert(v@.subrange(lo as int, hi as int) =~= v@.subrange(lo as int, mid as int) + v@.subrange(
            mid as int,
            hi as int,
        ));
        lemma_multiset_commutative(
            v@.subrange(lo as int, mid as int),
            v@.subrange(mid as int, hi as int),
        );
    }
    merge(left, right, entries, mode, reverse)
}

/// Sorts the indices of `entries` in `mode`, descending when `reverse`.
/// The result is the one arrangement of the same indices that is sorted by
/// `sort_leq` (see `law_sorted_arrangement_unique`).
pub fn apply_sort(indices: &mut Vec<usize>, entries: &[Entry], mode: SortMode, reverse: bool)
    requires
        indices_valid(old(indices)@, entries@, mode),
    ensures
        final(indices)@ == old(indices)@.sort_by(sort_leq(entries@, mode, reverse)),
        final(indices)@.to_multiset() == old(indices)@.to_multiset(),
        sorted_by(final(indices)@, sort_leq(entries@, mode, reverse)),
{
    proof {
        law_sort_order_is_total(entries@, mode, reverse);
    }
    let sorted = merge_sort_range(indices, 0, indices.len(), entries, mode, reverse);
    proof {
        let leq = sort_leq(entries@, mode, reverse);
        assert(indices@.subrange(0, indices@.len() as int) =~= indices@);
        indices@.lemma_sort_by_ensures(leq);
        law_sorted_arrangement_unique(sorted@, indices@.sort_by(leq), leq);
    }
    *indices = sorted;
}

} // verus!
