//! Character-level helpers shared by the parsers: copying a string's
//! characters into a vector, building strings back, Unicode white space,
//! line and word splitting, prefixes and decimal integers.
use vstd::prelude::*;

verus! {

/// Copies the characters of `s` into a vector.
pub fn chars_of(s: &str) -> (out: Vec<char>)
    ensures
        out@ == s@,
{
    let mut out: Vec<char> = Vec::new();
    for c in it: s.chars()
        invariant
            out@ == it.seq().take(it.index() as int),
            it.seq() == s@,
    {
        out.push(c);
    }
    out
}

/// Builds a `String` from a slice of characters.
///
/// Trusted: calls std's `String::from_iter` (its `FromIterator<&char>`
/// impl), which appends the characters in order, so the string's characters
/// are exactly `chars`.
#[verifier::external_body]
pub fn string_from_chars(chars: &[char]) -> (s: String)
    ensures
        s@ == chars@,
{
    String::from_iter(chars.iter())
}

/// What std's `str::to_lowercase` gives for text `s`: the Unicode lower
/// case mapping of each character, which depends on `s` alone.
pub uninterp spec fn unicode_lowercase(s: Seq<char>) -> Seq<char>;

/// The Unicode lower case of `s`.
///
/// Trusted: calls std's `str::to_lowercase`; its result is named
/// `unicode_lowercase` of the characters of `s`, and nothing more is
/// claimed of it.
#[verifier::external_body]
pub fn to_lowercase(s: &str) -> (out: String)
    ensures
        out@ == unicode_lowercase(s@),
{
    s.to_lowercase()
}

/// Copies `v[start..end]` into a new vector.
pub fn copy_range(v: &Vec<char>, start: usize, end: usize) -> (out: Vec<char>)
    requires
        start <= end <= v.len(),
    ensures
        out@ == v@.subrange(start as int, end as int),
{
    let mut out: Vec<char> = Vec::new();
    let mut i = start;
    while i < end
        invariant
            start <= i <= end <= v.len(),
            out@ == v@.subrange(start as int, i as int),
        decreases end - i,
    {
        out.push(v[i]);
        i = i + 1;
    }
    out
}

/// Appends all of `extra` to `out`.
pub fn push_all(out: &mut Vec<char>, extra: &[char])
    ensures
        final(out)@ == old(out)@ + extra@,
{
    let mut i: usize = 0;
    while i < extra.len()
        invariant
            0 <= i <= extra.len(),
            out@ == old(out)@ + extra@.take(i as int),
        decreases extra.len() - i,
    {
        out.push(extra[i]);
        i = i + 1;
    }
}

/// Appends the characters of `extra` to `out`.
pub fn push_str(out: &mut Vec<char>, extra: &str)
    ensures
        final(out)@ == old(out)@ + extra@,
{
    let cs = chars_of(extra);
    push_all(out, cs.as_slice());
}

/// Whether two character sequences are equal.
pub fn same_chars(a: &[char], b: &[char]) -> (r: bool)
    ensures
        r == (a@ == b@),
{
    if a.len() != b.len() {
        return false;
    }
    let mut i: usize = 0;
    while i < a.len()
        invariant
            a.len() == b.len(),
            0 <= i <= a.len(),
            forall|j: int| 0 <= j < i ==> a@[j] == b@[j],
        decreases a.len() - i,
    {
        if a[i] != b[i] {
            return false;
        }
        i = i + 1;
    }
    assert(a@ =~= b@);
    true
}

/// Whether the characters of `a` equal those of `b`.
pub fn str_equals(a: &str, b: &str) -> (r: bool)
    ensures
        r == (a@ == b@),
{
    let x = chars_of(a);
    let y = chars_of(b);
    same_chars(x.as_slice(), y.as_slice())
}

/// `p` is a prefix of `s`.
pub open spec fn has_prefix(s: Seq<char>, p: Seq<char>) -> bool {
    p.len() <= s.len() && s.take(p.len() as int) == p
}

/// Whether `s` starts with the characters of `p`.
pub fn starts_with(s: &[char], p: &str) -> (r: bool)
    ensures
        r == has_prefix(s@, p@),
{
    let pc = chars_of(p);
    if pc.len() > s.len() {
        return false;
    }
    let mut i: usize = 0;
    while i < pc.len()
        invariant
            pc@ == p@,
            pc.len() <= s.len(),
            0 <= i <= pc.len(),
            forall|j: int| 0 <= j < i ==> s@[j] == pc@[j],
        decreases pc.len() - i,
    {
        if s[i] != pc[i] {
            assert(s@.take(pc.len() as int)[i as int] != pc@[i as int]);
            return false;
        }
        i = i + 1;
    }
    assert(s@.take(pc.len() as int) =~= pc@);
    true
}

/// Unicode `White_Space`, the property behind std's `char::is_whitespace`.
pub open spec fn is_space(c: char) -> bool {
    ||| ('\u{9}' <= c && c <= '\u{d}')
    ||| c == ' '
    ||| c == '\u{85}'
    ||| c == '\u{a0}'
    ||| c == '\u{1680}'
    ||| ('\u{2000}' <= c && c <= '\u{200a}')
    ||| c == '\u{2028}'
    ||| c == '\u{2029}'
    ||| c == '\u{202f}'
    ||| c == '\u{205f}'
    ||| c == '\u{3000}'
}

/// Whether `c` is Unicode white space.
pub fn is_whitespace(c: char) -> (r: bool)
    ensures
        r == is_space(c),
{
    ('\u{9}' <= c && c <= '\u{d}') || c == ' ' || c == '\u{85}' || c == '\u{a0}' || c
        == '\u{1680}' || ('\u{2000}' <= c && c <= '\u{200a}') || c == '\u{2028}' || c
        == '\u{2029}' || c == '\u{202f}' || c == '\u{205f}' || c == '\u{3000}'
}

/// `c` is an ASCII decimal digit.
pub open spec fn is_digit(c: char) -> bool {
    '0' <= c && c <= '9'
}

/// `s` is made of ASCII digits only.
pub open spec fn all_digits(s: Seq<char>) -> bool {
    forall|i: int| 0 <= i < s.len() ==> is_digit(#[trigger] s[i])
}

/// The numeric value of an ASCII digit.
pub open spec fn digit_value(c: char) -> int {
    (c as int) - ('0' as int)
}

/// The value of a string of decimal digits, most significant first.
pub open spec fn decimal_value(s: Seq<char>) -> int
    decreases s.len(),
{
    if s.len() == 0 {
        0
    } else {
        decimal_value(s.drop_last()) * 10 + digit_value(s.last())
    }
}

/// What std's `str::parse::<i64>` gives: an optional `+` or `-`, then one
/// or more ASCII digits whose signed value fits in an `i64`.
pub open spec fn parse_i64_spec(s: Seq<char>) -> Option<i64> {
    let negative = s.len() > 0 && s[0] == '-';
    let digits = if s.len() > 0 && (s[0] == '-' || s[0] == '+') {
        s.skip(1)
    } else {
        s
    };
    let value = if negative {
        -decimal_value(digits)
    } else {
        decimal_value(digits)
    };
    if digits.len() > 0 && all_digits(digits) && i64::MIN <= value <= i64::MAX {
        Some(value as i64)
    } else {
        None
    }
}

/// What std's `str::parse::<u64>` gives: an optional `+`, then one or more
/// ASCII digits whose value fits in a `u64`.
pub open spec fn parse_u64_spec(s: Seq<char>) -> Option<u64> {
    let digits = if s.len() > 0 && s[0] == '+' {
        s.skip(1)
    } else {
        s
    };
    if digits.len() > 0 && all_digits(digits) && decimal_value(digits) <= u64::MAX {
        Some(decimal_value(digits) as u64)
    } else {
        None
    }
}

proof fn lemma_decimal_value_nonneg(s: Seq<char>)
    requires
        all_digits(s),
    ensures
        decimal_value(s) >= 0,
    decreases s.len(),
{
    if s.len() > 0 {
        lemma_decimal_value_nonneg(s.drop_last());
    }
}

/// The value of `s[start..]` when it is a non-empty run of digits whose
/// value is at most `limit`; `None` when a character is not a digit, the
/// run is empty, or the value exceeds `limit`.
fn digits_value_upto(s: &[char], start: usize, limit: u64) -> (r: Option<u64>)
    requires
        start <= s.len(),
    ensures
        r is Some <==> (s@.skip(start as int).len() > 0 && all_digits(s@.skip(start as int))
            && decimal_value(s@.skip(start as int)) <= limit),
        r matches Some(v) ==> v == decimal_value(s@.skip(start as int)),
{
    let ghost d = s@.skip(start as int);
    if start >= s.len() {
        return None;
    }
    let mut acc: u64 = 0;
    let mut over = false;
    let mut i = start;
    while i < s.len()
        invariant
            start <= i <= s.len(),
            d == s@.skip(start as int),
            all_digits(d.take(i - start)),
            !over ==> acc == decimal_value(d.take(i - start)) && acc <= limit,
            over ==> decimal_value(d.take(i - start)) > limit,
        decreases s.len() - i,
    {
        let c = s[i];
        if !('0' <= c && c <= '9') {
            assert(d[i - start] == c);
            return None;
        }
        let dv = (c as u64) - ('0' as u64);
        assert(d.take(i - start + 1).drop_last() =~= d.take(i - start));
        assert(d.take(i - start + 1).last() == c);
        proof {
            lemma_decimal_value_nonneg(d.take(i - start));
        }
        if !over {
            if dv > limit || acc > (limit - dv) / 10 {
                over = true;
                assert(decimal_value(d.take(i - start + 1)) > limit) by (nonlinear_arith)
                    requires
                        decimal_value(d.take(i - start + 1)) == acc * 10 + dv,
                        dv > limit || acc > (limit - dv) / 10,
                        dv <= 9,
                        acc >= 0,
                ;
            } else {
                assert(acc * 10 + dv <= limit) by (nonlinear_arith)
                    requires
                        acc <= (limit - dv) / 10,
                        dv <= limit,
                ;
                acc = acc * 10 + dv;
            }
        } else {
            assert(decimal_value(d.take(i - start + 1)) >= decimal_value(d.take(i - start)))
                by (nonlinear_arith)
                requires
                    decimal_value(d.take(i - start + 1)) == decimal_value(d.take(i - start)) * 10
                        + dv,
                    decimal_value(d.take(i - start)) >= 0,
            ;
        }
        assert forall|j: int| 0 <= j < i - start + 1 implies is_digit(
            #[trigger] d.take(i - start + 1)[j],
        ) by {
            if j < i - start {
                assert(d.take(i - start + 1)[j] == d.take(i - start)[j]);
            }
        }
        i = i + 1;
    }
    assert(d.take(i - start) =~= d);
    if over {
        None
    } else {
        Some(acc)
    }
}

/// Parses a decimal `i64` as std's `str::parse::<i64>` does.
pub fn parse_i64(s: &[char]) -> (r: Option<i64>)
    ensures
        r == parse_i64_spec(s@),
{
    let negative = s.len() > 0 && s[0] == '-';
    let start: usize = if s.len() > 0 && (s[0] == '-' || s[0] == '+') {
        1
    } else {
        0
    };
    let ghost digits = s@.skip(start as int);
    assert(digits =~= (if s@.len() > 0 && (s@[0] == '-' || s@[0] == '+') {
        s@.skip(1)
    } else {
        s@
    }));
    // 9223372036854775808 is |i64::MIN|
    let limit: u64 = if negative {
        9223372036854775808
    } else {
        9223372036854775807
    };
    match digits_value_upto(s, start, limit) {
        None => {
            proof {
                if digits.len() > 0 && all_digits(digits) {
                    lemma_decimal_value_nonneg(digits);
                }
            }
            None
        },
        Some(v) => {
            proof {
                lemma_decimal_value_nonneg(digits);
            }
            if negative {
                if v == 9223372036854775808 {
                    Some(i64::MIN)
                } else {
                    Some(-(v as i64))
                }
            } else {
                Some(v as i64)
            }
        },
    }
}

/// Parses a decimal `u64` as std's `str::parse::<u64>` does.
pub fn parse_u64(s: &[char]) -> (r: Option<u64>)
    ensures
        r == parse_u64_spec(s@),
{
    let start: usize = if s.len() > 0 && s[0] == '+' {
        1
    } else {
        0
    };
    let ghost digits = s@.skip(start as int);
    assert(digits =~= (if s@.len() > 0 && s@[0] == '+' {
        s@.skip(1)
    } else {
        s@
    }));
    digits_value_upto(s, start, u64::MAX)
}

/// The decimal digits of `n`, most significant first.
pub open spec fn decimal_text(n: nat) -> Seq<char>
    decreases n,
{
    if n < 10 {
        seq![digit_char(n)]
    } else {
        decimal_text(n / 10) + seq![digit_char(n % 10)]
    }
}

/// The ASCII digit for `d < 10`.
pub open spec fn digit_char(d: nat) -> char {
    (('0' as nat) + d) as char
}

/// The decimal text of `n`, as std's `Display` for integers writes it.
pub fn u64_to_text(n: u64) -> (out: Vec<char>)
    ensures
        out@ == decimal_text(n as nat),
    decreases n,
{
    if n < 10 {
        let c = digit_of(n as u8);
        let mut out: Vec<char> = Vec::new();
        out.push(c);
        out
    } else {
        let mut out = u64_to_text(n / 10);
        out.push(digit_of((n % 10) as u8));
        out
    }
}

/// The decimal text of a signed `n`, with a leading `-` when negative.
pub open spec fn int_text(n: int) -> Seq<char> {
    if n < 0 {
        seq!['-'] + decimal_text((-n) as nat)
    } else {
        decimal_text(n as nat)
    }
}

/// The decimal text of `n`, as std's `Display` for `i64` writes it.
pub fn i64_to_text(n: i64) -> (out: Vec<char>)
    ensures
        out@ == int_text(n as int),
{
    if n < 0 {
        let magnitude: u64 = if n == i64::MIN {
            9223372036854775808
        } else {
            (-n) as u64
        };
        let digits = u64_to_text(magnitude);
        let mut out: Vec<char> = Vec::new();
        out.push('-');
        push_all(&mut out, digits.as_slice());
        out
    } else {
        u64_to_text(n as u64)
    }
}

fn digit_of(d: u8) -> (c: char)
    requires
        d < 10,
    ensures
        c == digit_char(d as nat),
{
    if d == 0 {
        '0'
    } else if d == 1 {
        '1'
    } else if d == 2 {
        '2'
    } else if d == 3 {
        '3'
    } else if d == 4 {
        '4'
    } else if d == 5 {
        '5'
    } else if d == 6 {
        '6'
    } else if d == 7 {
        '7'
    } else if d == 8 {
        '8'
    } else {
        '9'
    }
}

// ---------------------------------------------------------------------
// Splitting
// ---------------------------------------------------------------------
/// The pieces of `s` split at `sep`, with the piece being built last.
pub open spec fn split_state(s: Seq<char>, sep: char) -> (Seq<Seq<char>>, Seq<char>)
    decreases s.len(),
{
    if s.len() == 0 {
        (Seq::empty(), Seq::empty())
    } else {
        let (done, cur) = split_state(s.drop_last(), sep);
        if s.last() == sep {
            (done.push(cur), Seq::empty())
        } else {
            (done, cur.push(s.last()))
        }
    }
}

/// `s` without its trailing carriage returns (`trim_end_matches('\r')`).
pub open spec fn trim_end_cr(s: Seq<char>) -> Seq<char>
    decreases s.len(),
{
    if s.len() > 0 && s.last() == '\r' {
        trim_end_cr(s.drop_last())
    } else {
        s
    }
}

/// The lines of `s` as std's `str::lines` yields them, each with its
/// trailing carriage returns removed: pieces between `'\n'`, where a last
/// empty piece (after a final newline, or of an empty text) is dropped.
pub open spec fn text_lines(s: Seq<char>) -> Seq<Seq<char>> {
    let (done, cur) = split_state(s, '\n');
    let raw = if cur.len() > 0 {
        done.push(cur)
    } else {
        done
    };
    raw.map_values(|l: Seq<char>| trim_end_cr(l))
}

/// A text without the separator is one piece, still being built.
proof fn lemma_split_without_sep(l: Seq<char>, sep: char)
    requires
        forall|i: int| 0 <= i < l.len() ==> l[i] != sep,
    ensures
        split_state(l, sep) == (Seq::<Seq<char>>::empty(), l),
    decreases l.len(),
{
    if l.len() > 0 {
        lemma_split_without_sep(l.drop_last(), sep);
        assert(l.drop_last().push(l.last()) =~= l);
    }
}

/// Splitting a text that ends at a separator, then more: the pieces of
/// the first part come first.
proof fn lemma_split_append(p: Seq<char>, r: Seq<char>, sep: char)
    requires
        split_state(p, sep).1.len() == 0,
    ensures
        split_state(p + r, sep) == (split_state(p, sep).0 + split_state(r, sep).0, split_state(
            r,
            sep,
        ).1),
    decreases r.len(),
{
    if r.len() == 0 {
        assert(p + r =~= p);
        assert(split_state(p, sep).0 + Seq::<Seq<char>>::empty() =~= split_state(p, sep).0);
        assert(split_state(p, sep).1 =~= Seq::<char>::empty());
    } else {
        lemma_split_append(p, r.drop_last(), sep);
        assert((p + r).drop_last() =~= p + r.drop_last());
        assert((p + r).last() == r.last());
        let a = split_state(p, sep).0;
        let d = split_state(r.drop_last(), sep).0;
        assert((a + d).push(split_state(r.drop_last(), sep).1) =~= a + d.push(
            split_state(r.drop_last(), sep).1,
        ));
    }
}

/// The lines of a text are what `str::lines` gives: none for an empty
/// text; a text that starts with a line and a newline gives that line
/// (without trailing carriage returns), then the lines of what follows;
/// a last line needs no newline after it, so a text with no newline and
/// at least one character is one line; and whatever came before, a text
/// that ends with a character other than a newline or carriage return
/// has a last line that ends with that character. Only carriage returns
/// at the end of a line are removed.
pub proof fn law_lines_split_at_newlines(l: Seq<char>, rest: Seq<char>, c: char)
    requires
        forall|i: int| 0 <= i < l.len() ==> l[i] != '\n',
    ensures
        text_lines(Seq::empty()) == Seq::<Seq<char>>::empty(),
        text_lines(l + seq!['\n'] + rest) == seq![trim_end_cr(l)] + text_lines(rest),
        l.len() > 0 ==> text_lines(l) == seq![trim_end_cr(l)],
        c != '\n' && c != '\r' ==> {
            let ls = text_lines(rest + seq![c]);
            ls.len() > 0 && ls.last().len() > 0 && ls.last().last() == c
        },
        trim_end_cr(l + seq!['\r']) == trim_end_cr(l),
        (l.len() == 0 || l.last() != '\r') ==> trim_end_cr(l) == l,
        c != '\r' ==> trim_end_cr(l + seq![c]) == l + seq![c],
{
    assert((l + seq!['\r']).drop_last() =~= l);
    assert((l + seq![c]).last() == c);
    let f = |x: Seq<char>| trim_end_cr(x);
    assert(text_lines(Seq::empty()) =~= Seq::<Seq<char>>::empty());
    lemma_split_without_sep(l, '\n');
    let p = l + seq!['\n'];
    assert(p.drop_last() =~= l);
    assert(split_state(p, '\n') == (seq![l], Seq::<char>::empty()));
    lemma_split_append(p, rest, '\n');
    let (d, cur) = split_state(rest, '\n');
    let raw_rest = if cur.len() > 0 {
        d.push(cur)
    } else {
        d
    };
    let raw_all = if cur.len() > 0 {
        (seq![l] + d).push(cur)
    } else {
        seq![l] + d
    };
    assert(raw_all =~= seq![l] + raw_rest);
    assert(raw_all.map_values(f) =~= seq![trim_end_cr(l)] + raw_rest.map_values(f));
    if l.len() > 0 {
        assert(Seq::<Seq<char>>::empty().push(l).map_values(f) =~= seq![trim_end_cr(l)]);
    }
    if c != '\n' && c != '\r' {
        let x = rest + seq![c];
        assert(x.drop_last() =~= rest);
        let line = cur.push(c);
        assert(trim_end_cr(line) == line);
        assert(text_lines(x) =~= d.push(line).map_values(f));
    }
}

/// Removes trailing carriage returns from `v`.
pub fn trim_end_cr_vec(v: &mut Vec<char>)
    ensures
        final(v)@ == trim_end_cr(old(v)@),
{
    while v.len() > 0 && v[v.len() - 1] == '\r'
        invariant
            trim_end_cr(v@) == trim_end_cr(old(v)@),
        decreases v.len(),
    {
        let ghost before = v@;
        v.pop();
        assert(v@ =~= before.drop_last());
    }
}

/// The lines of `s` (see `text_lines`).
pub fn lines_of(s: &Vec<char>) -> (out: Vec<Vec<char>>)
    ensures
        out@.len() == text_lines(s@).len(),
        forall|i: int| 0 <= i < out@.len() ==> #[trigger] out@[i]@ == text_lines(s@)[i],
{
    let mut raw: Vec<Vec<char>> = Vec::new();
    let mut cur: Vec<char> = Vec::new();
    let mut i: usize = 0;
    while i < s.len()
        invariant
            0 <= i <= s.len(),
            raw@.len() == split_state(s@.take(i as int), '\n').0.len(),
            forall|k: int|
                0 <= k < raw@.len() ==> #[trigger] raw@[k]@ == split_state(
                    s@.take(i as int),
                    '\n',
                ).0[k],
            cur@ == split_state(s@.take(i as int), '\n').1,
        decreases s.len() - i,
    {
        assert(s@.take(i + 1).drop_last() =~= s@.take(i as int));
        let c = s[i];
        if c == '\n' {
            let piece = cur;
            cur = Vec::new();
            raw.push(piece);
        } else {
            cur.push(c);
        }
        i = i + 1;
    }
    assert(s@.take(s.len() as int) =~= s@);
    if cur.len() > 0 {
        raw.push(cur);
    }
    let ghost st = split_state(s@, '\n');
    let ghost rawv = if st.1.len() > 0 {
        st.0.push(st.1)
    } else {
        st.0
    };
    assert(raw@.len() == rawv.len());
    assert forall|k: int| 0 <= k < raw@.len() implies #[trigger] raw@[k]@ == rawv[k] by {}
    let mut out: Vec<Vec<char>> = Vec::new();
    let mut j: usize = 0;
    while j < raw.len()
        invariant
            0 <= j <= raw.len(),
            raw@.len() == rawv.len(),
            forall|k: int| 0 <= k < raw@.len() ==> #[trigger] raw@[k]@ == rawv[k],
            out@.len() == j,
            forall|k: int| 0 <= k < j ==> #[trigger] out@[k]@ == trim_end_cr(rawv[k]),
        decreases raw.len() - j,
    {
        let mut line = copy_range(&raw[j], 0, raw[j].len());
        assert(line@ =~= raw@[j as int]@);
        trim_end_cr_vec(&mut line);
        out.push(line);
        j = j + 1;
    }
    out
}

/// The words of `s` as std's `str::split_whitespace` yields them, the piece
/// being built last.
pub open spec fn words_state(s: Seq<char>) -> (Seq<Seq<char>>, Seq<char>)
    decreases s.len(),
{
    if s.len() == 0 {
        (Seq::empty(), Seq::empty())
    } else {
        let (done, cur) = words_state(s.drop_last());
        if is_space(s.last()) {
            if cur.len() > 0 {
                (done.push(cur), Seq::empty())
            } else {
                (done, Seq::empty())
            }
        } else {
            (done, cur.push(s.last()))
        }
    }
}

/// The non-empty runs of non-space characters of `s`, in order.
pub open spec fn words(s: Seq<char>) -> Seq<Seq<char>> {
    let (done, cur) = words_state(s);
    if cur.len() > 0 {
        done.push(cur)
    } else {
        done
    }
}

/// The words of `s` (see `words`).
pub fn words_of(s: &Vec<char>) -> (out: Vec<Vec<char>>)
    ensures
        out@.len() == words(s@).len(),
        forall|i: int| 0 <= i < out@.len() ==> #[trigger] out@[i]@ == words(s@)[i],
{
    let mut out: Vec<Vec<char>> = Vec::new();
    let mut cur: Vec<char> = Vec::new();
    let mut i: usize = 0;
    while i < s.len()
        invariant
            0 <= i <= s.len(),
            out@.len() == words_state(s@.take(i as int)).0.len(),
            forall|k: int|
                0 <= k < out@.len() ==> #[trigger] out@[k]@ == words_state(s@.take(i as int)).0[k],
            cur@ == words_state(s@.take(i as int)).1,
        decreases s.len() - i,
    {
        assert(s@.take(i + 1).drop_last() =~= s@.take(i as int));
        let c = s[i];
        if is_whitespace(c) {
            if cur.len() > 0 {
                let piece = cur;
                cur = Vec::new();
                out.push(piece);
            }
        } else {
            cur.push(c);
        }
        i = i + 1;
    }
    assert(s@.take(s.len() as int) =~= s@);
    if cur.len() > 0 {
        out.push(cur);
    }
    out
}

/// `s` without leading and trailing white space (std's `str::trim`).
pub open spec fn trim_spaces(s: Seq<char>) -> Seq<char> {
    trim_start_spaces(trim_end_spaces(s))
}

/// `s` without trailing white space.
pub open spec fn trim_end_spaces(s: Seq<char>) -> Seq<char>
    decreases s.len(),
{
    if s.len() > 0 && is_space(s.last()) {
        trim_end_spaces(s.drop_last())
    } else {
        s
    }
}

/// `s` without leading white space.
pub open spec fn trim_start_spaces(s: Seq<char>) -> Seq<char>
    decreases s.len(),
{
    if s.len() > 0 && is_space(s[0]) {
        trim_start_spaces(s.drop_first())
    } else {
        s
    }
}

/// `s` without leading and trailing white space.
pub fn trim_vec(s: &Vec<char>) -> (out: Vec<char>)
    ensures
        out@ == trim_spaces(s@),
{
    let mut end = s.len();
    assert(s@.take(end as int) =~= s@);
    while end > 0 && is_whitespace(s[end - 1])
        invariant
            end <= s.len(),
            trim_end_spaces(s@) == trim_end_spaces(s@.take(end as int)),
        decreases end,
    {
        assert(s@.take(end as int).drop_last() =~= s@.take(end - 1));
        end = end - 1;
    }
    let mut start: usize = 0;
    let ghost e = s@.take(end as int);
    assert(trim_end_spaces(e) == e);
    assert(e.skip(0) =~= e);
    while start < end && is_whitespace(s[start])
        invariant
            start <= end <= s.len(),
            e == s@.take(end as int),
            trim_start_spaces(e) == trim_start_spaces(e.skip(start as int)),
        decreases end - start,
    {
        assert(e.skip(start as int).drop_first() =~= e.skip(start + 1));
        start = start + 1;
    }
    assert(e.skip(start as int) =~= s@.subrange(start as int, end as int));
    copy_range(s, start, end)
}

/// The first position of `needle` in `s` is `i`.
pub proof fn lemma_first_index<T>(s: Seq<T>, needle: T, i: int)
    requires
        0 <= i < s.len(),
        s[i] == needle,
        forall|j: int| 0 <= j < i ==> s[j] != needle,
    ensures
        s.index_of_first(needle) == Some(i),
{
    s.index_of_first_ensures(needle);
    assert(s.contains(needle));
}

/// `needle` is nowhere in `s`.
pub proof fn lemma_no_index<T>(s: Seq<T>, needle: T)
    requires
        forall|j: int| 0 <= j < s.len() ==> s[j] != needle,
    ensures
        s.index_of_first(needle) is None,
{
    s.index_of_first_ensures(needle);
}

} // verus!
