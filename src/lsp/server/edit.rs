//! Applying the client's edits to the server's copy of a document.
//!
//! A document is its text. Its lines are the runs between `\n` characters,
//! so a text with `k` newlines has `k + 1` lines. A position's character
//! offset counts Unicode scalar values from the start of its line.

use crate::lsp::common::text_document::{lemma_chars_within_bytes, Position, Range};
use crate::lsp::error::EditError;
use vstd::prelude::*;
use vstd::string::StrSliceExecFns;
use vstd::string::StringExecFns;

verus! {

/// The offset of the first character of each line of `t`.
pub open spec fn line_starts(t: Seq<char>) -> Seq<int>
    decreases t.len(),
{
    if t.len() == 0 {
        seq![0int]
    } else if t.last() == '\n' {
        line_starts(t.drop_last()).push(t.len() as int)
    } else {
        line_starts(t.drop_last())
    }
}

pub open spec fn line_count(t: Seq<char>) -> int {
    line_starts(t).len() as int
}

/// The offset just past the last character of line `line` (its newline
/// excluded).
pub open spec fn line_end(t: Seq<char>, line: int) -> int {
    if line + 1 < line_count(t) {
        line_starts(t)[line + 1] - 1
    } else {
        t.len() as int
    }
}

/// `p` names an existing line and a character offset within it, or just past
/// its last character.
pub open spec fn position_valid(t: Seq<char>, p: Position) -> bool {
    &&& p.line < line_count(t)
    &&& line_starts(t)[p.line as int] + p.character <= line_end(t, p.line as int)
}

/// The offset in `t` that `p` names.
pub open spec fn offset_of(t: Seq<char>, p: Position) -> int {
    line_starts(t)[p.line as int] + p.character
}

/// Replaces the text that `r` covers with `text`.
pub open spec fn apply_range_edit(t: Seq<char>, r: Range, text: Seq<char>) -> Result<
    Seq<char>,
    EditError,
> {
    if !position_valid(t, r.start) || !position_valid(t, r.end) {
        Err(EditError::PositionOutOfRange)
    } else if offset_of(t, r.end) < offset_of(t, r.start) {
        Err(EditError::ReversedRange)
    } else {
        Ok(t.take(offset_of(t, r.start)) + text + t.skip(offset_of(t, r.end)))
    }
}

/// One change: a range edit, or, without a range, the whole new text.
pub open spec fn apply_change(t: Seq<char>, change: (Option<Range>, Seq<char>)) -> Result<
    Seq<char>,
    EditError,
> {
    match change.0 {
        None => Ok(change.1),
        Some(r) => apply_range_edit(t, r, change.1),
    }
}

/// The changes applied in order, each to the text the previous ones left;
/// the first that does not fit stops the whole.
pub open spec fn apply_changes(t: Seq<char>, changes: Seq<(Option<Range>, Seq<char>)>) -> Result<
    Seq<char>,
    EditError,
>
    decreases changes.len(),
{
    if changes.len() == 0 {
        Ok(t)
    } else {
        match apply_changes(t, changes.drop_last()) {
            Ok(u) => apply_change(u, changes.last()),
            Err(e) => Err(e),
        }
    }
}

/// `v` lists exactly the offsets `s`.
pub open spec fn same_offsets(v: Seq<usize>, s: Seq<int>) -> bool {
    v.len() == s.len() && forall|i: int| 0 <= i < v.len() ==> v[i] as int == #[trigger] s[i]
}

/// The shape of the line table: it starts at 0, rises strictly, stays within
/// the text, and each later line follows a newline.
pub proof fn lemma_line_starts(t: Seq<char>)
    ensures
        line_starts(t).len() >= 1,
        line_starts(t)[0] == 0,
        forall|i: int|
            #![trigger line_starts(t)[i], line_starts(t)[i + 1]]
            0 <= i < line_starts(t).len() - 1 ==> line_starts(t)[i] < line_starts(t)[i + 1],
        forall|i: int|
            0 <= i < line_starts(t).len() ==> 0 <= #[trigger] line_starts(t)[i] <= t.len(),
        forall|i: int| 1 <= i < line_starts(t).len() ==> 1 <= #[trigger] line_starts(t)[i],
        forall|i: int|
            1 <= i < line_starts(t).len() ==> t[#[trigger] line_starts(t)[i] - 1] == '\n',
    decreases t.len(),
{
    if t.len() > 0 {
        let d = t.drop_last();
        let ls = line_starts(t);
        let ds = line_starts(d);
        lemma_line_starts(d);
        assert forall|i: int| 1 <= i < ds.len() implies t[#[trigger] ds[i] - 1] == '\n' by {
            assert(1 <= ds[i] <= d.len());
            assert(d[ds[i] - 1] == '\n');
            assert(d[ds[i] - 1] == t[ds[i] - 1]);
        }
        if t.last() == '\n' {
            assert(ls == ds.push(t.len() as int));
            assert forall|i: int|
                #![trigger ls[i], ls[i + 1]]
                0 <= i < ls.len() - 1 implies ls[i] < ls[i + 1] by {
                if i + 1 < ds.len() {
                    assert(ds[i] < ds[i + 1]);
                } else {
                    assert(ds[i] <= d.len());
                }
            }
            assert forall|i: int| 1 <= i < ls.len() implies t[#[trigger] ls[i] - 1] == '\n' by {
                if i < ds.len() {
                    assert(ls[i] == ds[i]);
                }
            }
        } else {
            assert(ls == ds);
        }
    }
}

/// The line table of `text`, and the number of its characters.
pub(crate) fn compute_line_starts(text: &str) -> (r: (Vec<usize>, usize))
    ensures
        same_offsets(r.0@, line_starts(text@)),
        r.1 == text@.len(),
{
    let bytes = text.as_bytes().len();
    proof {
        lemma_chars_within_bytes(text@);
    }
    let mut starts: Vec<usize> = Vec::new();
    starts.push(0);
    assert(text@.take(0) =~= Seq::<char>::empty());
    let mut n: usize = 0;
    for c in it: text.chars()
        invariant
            n == it.index(),
            text@.len() <= bytes,
            it.seq() == text@,
            same_offsets(starts@, line_starts(text@.take(n as int))),
    {
        proof {
            let p = text@.take(n + 1);
            assert(p.drop_last() =~= text@.take(n as int));
            assert(p.last() == c);
        }
        n = n + 1;
        if c == '\n' {
            starts.push(n);
        }
    }
    assert(text@.take(n as int) =~= text@);
    (starts, n)
}

/// Applies one range edit to `text`, whose line table is `starts` and whose
/// length is `len`.
pub(crate) fn splice(text: &str, len: usize, starts: &Vec<usize>, range: Range, repl: &str) -> (r: Result<
    String,
    EditError,
>)
    requires
        len == text@.len(),
        same_offsets(starts@, line_starts(text@)),
    ensures
        match (r, apply_range_edit(text@, range, repl@)) {
            (Ok(s), Ok(u)) => s@ == u,
            (Err(e), Err(f)) => e == f,
            _ => false,
        },
{
    proof {
        lemma_line_starts(text@);
    }
    let start = match offset_in(text, len, starts, range.start) {
        Some(o) => o,
        None => return Err(EditError::PositionOutOfRange),
    };
    let end = match offset_in(text, len, starts, range.end) {
        Some(o) => o,
        None => return Err(EditError::PositionOutOfRange),
    };
    if end < start {
        return Err(EditError::ReversedRange);
    }
    let mut s = text.substring_char(0, start).to_owned();
    s.append(repl);
    s.append(text.substring_char(end, len));
    assert(text@.subrange(0, start as int) =~= text@.take(start as int));
    assert(text@.subrange(end as int, len as int) =~= text@.skip(end as int));
    Ok(s)
}

/// The offset that `p` names in `text`, whose length is `len` and whose
/// line table is `starts`, when `p` is valid there.
fn offset_in(text: &str, len: usize, starts: &Vec<usize>, p: Position) -> (r: Option<usize>)
    requires
        len == text@.len(),
        same_offsets(starts@, line_starts(text@)),
    ensures
        r is Some <==> position_valid(text@, p),
        r matches Some(o) ==> o == offset_of(text@, p) && o <= len,
{
    proof {
        lemma_line_starts(text@);
    }
    if p.line >= starts.len() {
        return None;
    }
    let first = starts[p.line];
    assert(first as int == line_starts(text@)[p.line as int]);
    if p.line + 1 < starts.len() {
        assert(starts@[p.line + 1] as int == line_starts(text@)[p.line + 1]);
        assert(line_starts(text@)[p.line as int] < line_starts(text@)[p.line + 1]);
    }
    let last = if p.line + 1 < starts.len() {
        starts[p.line + 1] - 1
    } else {
        len
    };
    if p.character > last - first {
        None
    } else {
        Some(first + p.character)
    }
}

/// The range that covers all of `t`: from the start of its first line to
/// the end of its last.
pub open spec fn whole_range(t: Seq<char>) -> Range {
    Range {
        start: Position { line: 0, character: 0 },
        end: Position {
            line: (line_count(t) - 1) as usize,
            character: (t.len() - line_starts(t).last()) as usize,
        },
    }
}

proof fn lemma_line_count_bound(t: Seq<char>)
    ensures
        line_starts(t).len() <= t.len() + 1,
    decreases t.len(),
{
    if t.len() > 0 {
        lemma_line_count_bound(t.drop_last());
    }
}

/// Sending the whole new text is the same as replacing the range that
/// covers the whole old text.
pub proof fn lemma_full_replacement(t: Seq<char>, text: Seq<char>)
    requires
        t.len() <= usize::MAX,
    ensures
        apply_change(t, (None, text)) == apply_change(t, (Some(whole_range(t)), text)),
{
    lemma_line_starts(t);
    lemma_line_count_bound(t);
    let r = whole_range(t);
    let last = line_count(t) - 1;
    assert(r.end.line == last);
    assert(r.end.character == t.len() - line_starts(t)[last]);
    if line_count(t) > 1 {
        assert(line_starts(t)[0] < line_starts(t)[1]);
    }
    assert(position_valid(t, r.start));
    assert(position_valid(t, r.end));
    assert(offset_of(t, r.end) == t.len());
    assert(t.take(0) + text + t.skip(t.len() as int) =~= text);
}

/// Changes sent together in one notification give the same text as the same
/// changes sent in two notifications, the first part and then the rest.
pub proof fn lemma_changes_compose(
    t: Seq<char>,
    first: Seq<(Option<Range>, Seq<char>)>,
    rest: Seq<(Option<Range>, Seq<char>)>,
)
    ensures
        apply_changes(t, first + rest) == match apply_changes(t, first) {
            Ok(u) => apply_changes(u, rest),
            Err(e) => Err(e),
        },
    decreases rest.len(),
{
    if rest.len() == 0 {
        assert(first + rest =~= first);
    } else {
        assert((first + rest).drop_last() =~= first + rest.drop_last());
        assert((first + rest).last() == rest.last());
        lemma_changes_compose(t, first, rest.drop_last());
    }
}

/// Applying an edit once more, at the positions its text now occupies, leaves
/// the text that the first application produced.
pub proof fn lemma_reapply_stable(t: Seq<char>, r: Range, text: Seq<char>, again: Range)
    requires
        apply_range_edit(t, r, text) is Ok,
        position_valid(apply_range_edit(t, r, text)->Ok_0, again.start),
        position_valid(apply_range_edit(t, r, text)->Ok_0, again.end),
        offset_of(apply_range_edit(t, r, text)->Ok_0, again.start) == offset_of(t, r.start),
        offset_of(apply_range_edit(t, r, text)->Ok_0, again.end) == offset_of(t, r.start)
            + text.len(),
    ensures
        apply_range_edit(apply_range_edit(t, r, text)->Ok_0, again, text) == apply_range_edit(
            t,
            r,
            text,
        ),
{
    let u = apply_range_edit(t, r, text)->Ok_0;
    let a = offset_of(t, r.start);
    let b = offset_of(t, r.end);
    lemma_line_starts(t);
    let e = r.end.line as int;
    if e + 1 < line_count(t) {
        assert(line_starts(t)[e + 1] <= t.len());
    }
    assert(0 <= a <= b <= t.len());
    assert(u == t.take(a) + text + t.skip(b));
    assert(u.take(a) =~= t.take(a));
    assert(u.skip(a + text.len()) =~= t.skip(b));
    assert(u.take(a) + text + u.skip(a + text.len()) =~= u);
}

/// `p` comes before `q`, or is `q`: by line, then by character.
pub open spec fn position_le(p: Position, q: Position) -> bool {
    p.line < q.line || (p.line == q.line && p.character <= q.character)
}

proof fn lemma_line_starts_rise(t: Seq<char>, a: int, b: int)
    requires
        0 <= a < b < line_starts(t).len(),
    ensures
        line_starts(t)[a] < line_starts(t)[b],
    decreases b - a,
{
    lemma_line_starts(t);
    let k = b - 1;
    assert(line_starts(t)[k] < line_starts(t)[k + 1]);
    assert(k + 1 == b);
    if a < b - 1 {
        lemma_line_starts_rise(t, a, b - 1);
    }
}

/// For positions inside the text, the order of their offsets is the order
/// of their lines and then characters; so a range is reversed exactly when
/// its start comes after its end.
pub proof fn lemma_offset_order(t: Seq<char>, p: Position, q: Position)
    requires
        position_valid(t, p),
        position_valid(t, q),
    ensures
        offset_of(t, p) <= offset_of(t, q) <==> position_le(p, q),
{
    lemma_line_starts(t);
    if p.line < q.line {
        lemma_line_starts_rise(t, p.line as int, q.line as int);
        if p.line + 1 < q.line {
            lemma_line_starts_rise(t, p.line + 1, q.line as int);
        }
    } else if q.line < p.line {
        lemma_line_starts_rise(t, q.line as int, p.line as int);
        if q.line + 1 < p.line {
            lemma_line_starts_rise(t, q.line + 1, p.line as int);
        }
    }
}

/// The line table of a prefix of a text begins the line table of the text.
proof fn lemma_starts_of_prefix(x: Seq<char>, m: int)
    requires
        0 <= m <= x.len(),
    ensures
        line_starts(x.take(m)).len() <= line_starts(x).len(),
        forall|i: int|
            0 <= i < line_starts(x.take(m)).len() ==> #[trigger] line_starts(x.take(m))[i]
                == line_starts(x)[i],
    decreases x.len(),
{
    if m == x.len() {
        assert(x.take(m) =~= x);
    } else {
        let d = x.drop_last();
        assert(d.take(m) =~= x.take(m));
        lemma_starts_of_prefix(d, m);
    }
}

/// A line that starts within the first `m` characters is a line of that
/// prefix too, with the same start.
proof fn lemma_start_in_prefix(x: Seq<char>, m: int, i: int)
    requires
        0 <= i < line_starts(x).len(),
        line_starts(x)[i] <= m <= x.len(),
    ensures
        i < line_starts(x.take(m)).len(),
        line_starts(x.take(m))[i] == line_starts(x)[i],
    decreases x.len(),
{
    lemma_line_starts(x);
    if m == x.len() {
        assert(x.take(m) =~= x);
    } else {
        let d = x.drop_last();
        assert(d.take(m) =~= x.take(m));
        lemma_line_starts(d);
        if x.last() == '\n' {
            assert(line_starts(x) == line_starts(d).push(x.len() as int));
        }
        assert(i < line_starts(d).len());
        assert(line_starts(d)[i] == line_starts(x)[i]);
        lemma_start_in_prefix(d, m, i);
    }
}

/// A line starts just after every newline.
proof fn lemma_newline_starts_line(x: Seq<char>, q: int)
    requires
        0 <= q < x.len(),
        x[q] == '\n',
    ensures
        exists|i: int| 0 <= i < line_starts(x).len() && line_starts(x)[i] == q + 1,
    decreases x.len(),
{
    let d = x.drop_last();
    if q == x.len() - 1 {
        assert(line_starts(x) == line_starts(d).push(x.len() as int));
        assert(line_starts(x)[line_starts(d).len() as int] == q + 1);
    } else {
        assert(d[q] == '\n');
        lemma_newline_starts_line(d, q);
        let i = choose|i: int| 0 <= i < line_starts(d).len() && line_starts(d)[i] == q + 1;
        if x.last() == '\n' {
            assert(line_starts(x) == line_starts(d).push(x.len() as int));
        }
        assert(line_starts(x)[i] == q + 1);
    }
}

/// No newline stands inside a line.
proof fn lemma_no_newline_in_line(x: Seq<char>, k: int, q: int)
    requires
        0 <= k < line_count(x),
        line_starts(x)[k] <= q < line_end(x, k),
    ensures
        x[q] != '\n',
{
    lemma_line_starts(x);
    if x[q] == '\n' {
        lemma_newline_starts_line(x, q);
        let i = choose|i: int| 0 <= i < line_starts(x).len() && line_starts(x)[i] == q + 1;
        if i <= k {
            if i < k {
                lemma_line_starts_rise(x, i, k);
            }
        } else if k + 1 < line_count(x) {
            if k + 1 < i {
                lemma_line_starts_rise(x, k + 1, i);
            }
        }
    }
}

/// The range that a replacement's text occupies once applied, when that
/// text holds no newline: from the edit's start to as many characters
/// further along the same line.
pub open spec fn replaced_span(r: Range, text: Seq<char>) -> Range {
    Range {
        start: r.start,
        end: Position { line: r.start.line, character: (r.start.character + text.len()) as usize },
    }
}

/// Applying a replacement without newlines once more, over the span that
/// its text now occupies, leaves the text that the first application
/// produced.
pub proof fn lemma_reapply_at_positions(t: Seq<char>, r: Range, text: Seq<char>)
    requires
        apply_range_edit(t, r, text) is Ok,
        forall|i: int| 0 <= i < text.len() ==> text[i] != '\n',
        r.start.character + text.len() <= usize::MAX,
    ensures
        apply_range_edit(apply_range_edit(t, r, text)->Ok_0, replaced_span(r, text), text)
            == apply_range_edit(t, r, text),
{
    let u = apply_range_edit(t, r, text)->Ok_0;
    let again = replaced_span(r, text);
    let sl = r.start.line as int;
    let a = offset_of(t, r.start);
    let b = offset_of(t, r.end);
    lemma_line_starts(t);
    lemma_line_starts(u);
    let e = r.end.line as int;
    if e + 1 < line_count(t) {
        assert(line_starts(t)[e + 1] <= t.len());
    }
    if sl + 1 < line_count(t) {
        assert(line_starts(t)[sl + 1] <= t.len());
    }
    assert(0 <= a <= b <= t.len());
    assert(u == t.take(a) + text + t.skip(b));
    assert(u.take(a) =~= t.take(a));
    lemma_start_in_prefix(t, a, sl);
    lemma_starts_of_prefix(u, a);
    assert(line_starts(u.take(a))[sl] == line_starts(u)[sl]);
    assert(line_starts(u)[sl] == line_starts(t)[sl]);
    assert(offset_of(u, again.start) == a);
    assert(offset_of(u, again.end) == a + text.len());
    if sl + 1 < line_count(u) {
        let q = line_starts(u)[sl + 1] - 1;
        assert(line_starts(u)[sl] < line_starts(u)[sl + 1]);
        assert(u[q] == '\n');
        if q < a + text.len() {
            if q < a {
                assert(u[q] == t[q]);
                lemma_no_newline_in_line(t, sl, q);
            } else {
                assert(u[q] == text[q - a]);
            }
        }
    }
    assert(position_valid(u, again.start));
    assert(position_valid(u, again.end));
    lemma_reapply_stable(t, r, text, again);
}

/// One notification holding the whole new text gives the same document as
/// one holding a range edit over the whole old text.
pub proof fn lemma_full_replacement_changes(t: Seq<char>, text: Seq<char>)
    requires
        t.len() <= usize::MAX,
    ensures
        apply_changes(t, seq![(None::<Range>, text)]) == apply_changes(
            t,
            seq![(Some(whole_range(t)), text)],
        ),
{
    lemma_full_replacement(t, text);
    let a = seq![(None::<Range>, text)];
    let b = seq![(Some(whole_range(t)), text)];
    let none = Seq::<(Option<Range>, Seq<char>)>::empty();
    assert(a.drop_last() =~= none);
    assert(b.drop_last() =~= none);
    assert(apply_changes(t, none) == Ok::<Seq<char>, EditError>(t));
    assert(a.last() == (None::<Range>, text));
    assert(b.last() == (Some(whole_range(t)), text));
}

} // verus!
