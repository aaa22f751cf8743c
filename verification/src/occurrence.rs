//! Where one text stands inside another.
//!
//! Besides the search itself, the module proves when a text put together
//! from fixed parts and free parts cannot hold a given run of characters.

use vstd::prelude::*;
use crate::text::joined;

verus! {

/// Whether `part` stands in `text` at position `at`.
pub open spec fn occurs_at(text: Seq<char>, part: Seq<char>, at: int) -> bool {
    0 <= at && at + part.len() <= text.len() && text.subrange(at, at + part.len()) == part
}

/// Whether a line of `text` begins at position `at`: at the very start, or
/// right after a newline.
pub open spec fn starts_line(text: Seq<char>, at: int) -> bool {
    at == 0 || (0 < at <= text.len() && text[at - 1] == '\n')
}

/// Whether `part` stands somewhere in `text`, as one unbroken run.
pub open spec fn occurs(text: Seq<char>, part: Seq<char>) -> bool {
    exists|at: int| occurs_at(text, part, at)
}

/// The characters of a string.
pub fn chars_of(text: &str) -> (chars: Vec<char>)
    ensures
        chars@ == text@,
{
    let mut chars: Vec<char> = Vec::new();
    for c in it: text.chars()
        invariant
            it.seq() == text@,
            chars@ == it.seq().take(it.index() as int),
    {
        chars.push(c);
    }
    chars
}

/// Whether `part` stands somewhere in `text`.
pub fn contains(text: &str, part: &str) -> (found: bool)
    ensures
        found == occurs(text@, part@),
{
    let text_chars = chars_of(text);
    let part_chars = chars_of(part);
    let n = text_chars.len();
    let m = part_chars.len();
    if m > n {
        return false;
    }
    let mut at: usize = 0;
    while at <= n - m
        invariant
            m <= n,
            n == text_chars.len(),
            m == part_chars.len(),
            text_chars@ == text@,
            part_chars@ == part@,
            at <= n - m + 1,
            forall|k: int| 0 <= k < at ==> !occurs_at(text@, part@, k),
        decreases n - m + 1 - at,
    {
        let mut j: usize = 0;
        while j < m && text_chars[at + j] == part_chars[j]
            invariant
                at + m <= n,
                n == text_chars.len(),
                m == part_chars.len(),
                text_chars@ == text@,
                part_chars@ == part@,
                j <= m,
                forall|k: int| 0 <= k < j ==> text@[at + k] == part@[k],
            decreases m - j,
        {
            j = j + 1;
        }
        if j == m {
            assert(text@.subrange(at as int, at + m) =~= part@);
            assert(occurs_at(text@, part@, at as int));
            return true;
        }
        assert(!occurs_at(text@, part@, at as int)) by {
            if occurs_at(text@, part@, at as int) {
                assert(text@.subrange(at as int, at + m)[j as int] == part@[j as int]);
            }
        }
        at = at + 1;
    }
    false
}

/// Whether `text` has a line that begins with `start`.
pub open spec fn has_line_start(text: Seq<char>, start: Seq<char>) -> bool {
    exists|at: int| starts_line(text, at) && occurs_at(text, start, at)
}

/// Whether the comparison of `part` with `lit` from position `from` fails
/// within the first three characters, and before `lit` ends.
pub open spec fn fails_from(lit: Seq<char>, part: Seq<char>, from: int) -> bool {
    ||| lit[from] != part[0]
    ||| (from + 1 < lit.len() && lit[from + 1] != part[1])
    ||| (from + 2 < lit.len() && lit[from + 2] != part[2])
}

/// Whether no run of `part` can begin inside `lit`, whatever follows `lit`.
pub open spec fn breaks_inside(lit: Seq<char>, part: Seq<char>) -> bool {
    forall|from: int| 0 <= from < lit.len() ==> #[trigger] fails_from(lit, part, from)
}

/// Whether a run of `part` of which `done` characters are read cannot go on
/// into `text`: not with its first character, or not with its second.
pub open spec fn ends_run(text: Seq<char>, part: Seq<char>, done: int) -> bool {
    text.len() > 0 && (text[0] != part[done] || (done + 1 < part.len() && text.len() > 1
        && text[1] != part[done + 1]))
}

/// Whether `text` ends every run of `part` that began before it.
pub open spec fn blocks(text: Seq<char>, part: Seq<char>) -> bool {
    forall|done: int| 1 <= done < part.len() ==> #[trigger] ends_run(text, part, done)
}

/// A text shorter than `part` does not hold it.
pub proof fn lemma_short_text_is_free(text: Seq<char>, part: Seq<char>)
    requires
        text.len() < part.len(),
    ensures
        !occurs(text, part),
{
}

/// A text without the first character of `part` does not hold `part`.
pub proof fn lemma_text_without_first_is_free(text: Seq<char>, part: Seq<char>)
    requires
        part.len() > 0,
        forall|i: int| 0 <= i < text.len() ==> text[i] != part[0],
    ensures
        !occurs(text, part),
{
    assert forall|at: int| !occurs_at(text, part, at) by {
        if occurs_at(text, part, at) {
            assert(text.subrange(at, at + part.len())[0] == part[0]);
        }
    }
}

/// What blocks a run goes on blocking it with anything appended.
pub proof fn lemma_blocks_with_more(lit: Seq<char>, more: Seq<char>, part: Seq<char>)
    requires
        blocks(lit, part),
    ensures
        blocks(lit + more, part),
{
    assert forall|done: int| 1 <= done < part.len() implies #[trigger] ends_run(
        lit + more,
        part,
        done,
    ) by {
        assert(ends_run(lit, part, done));
    }
}

/// A fixed part, then a free part, then the rest: the whole does not hold
/// `part` if no run can begin in the fixed part, the free part and the rest
/// do not hold it, and the rest ends every run that began before it.
pub proof fn lemma_free_step(lit: Seq<char>, field: Seq<char>, rest: Seq<char>, part: Seq<char>)
    requires
        part.len() >= 3,
        breaks_inside(lit, part),
        !occurs(field, part),
        !occurs(rest, part),
        blocks(rest, part),
    ensures
        !occurs(lit + field + rest, part),
{
    let whole = lit + field + rest;
    let a = lit.len() as int;
    let b = (lit.len() + field.len()) as int;
    let n = part.len() as int;
    assert forall|at: int| !occurs_at(whole, part, at) by {
        if occurs_at(whole, part, at) {
            let run = whole.subrange(at, at + n);
            assert(forall|i: int| 0 <= i < n ==> whole[at + i] == #[trigger] run[i]);
            if at < a {
                assert(fails_from(lit, part, at));
                assert(run[0] == part[0] && run[1] == part[1] && run[2] == part[2]);
            } else if at + n <= b {
                assert(field.subrange(at - a, at - a + n) =~= run);
                assert(occurs_at(field, part, at - a));
            } else if at < b {
                let done = b - at;
                assert(ends_run(rest, part, done));
                assert(whole[b] == rest[0]);
                assert(run[done] == part[done]);
                if done + 1 < n {
                    assert(whole[b + 1] == rest[1]);
                    assert(run[done + 1] == part[done + 1]);
                }
            } else {
                assert(rest.subrange(at - b, at - b + n) =~= run);
                assert(occurs_at(rest, part, at - b));
            }
        }
    }
}

/// A fixed part, then free parts joined by a separator, then the rest: the
/// whole does not hold `part` under the conditions of [`lemma_free_step`],
/// asked of the separator as of a fixed part and as of a rest.
pub proof fn lemma_free_join(
    lit: Seq<char>,
    parts: Seq<Seq<char>>,
    sep: Seq<char>,
    rest: Seq<char>,
    part: Seq<char>,
)
    requires
        part.len() >= 3,
        breaks_inside(lit, part),
        breaks_inside(sep, part),
        blocks(sep, part),
        forall|i: int| 0 <= i < parts.len() ==> !occurs(#[trigger] parts[i], part),
        !occurs(rest, part),
        blocks(rest, part),
    ensures
        !occurs(lit + joined(parts, sep) + rest, part),
    decreases parts.len(),
{
    if parts.len() == 0 {
        lemma_short_text_is_free(Seq::<char>::empty(), part);
        lemma_free_step(lit, Seq::<char>::empty(), rest, part);
    } else if parts.len() == 1 {
        lemma_free_step(lit, parts[0], rest, part);
    } else {
        let tail = sep + parts.last() + rest;
        lemma_free_step(sep, parts.last(), rest, part);
        lemma_blocks_with_more(sep, parts.last() + rest, part);
        assert(sep + (parts.last() + rest) =~= tail);
        lemma_free_join(lit, parts.drop_last(), sep, tail, part);
        assert(lit + joined(parts, sep) + rest =~= lit + joined(parts.drop_last(), sep) + tail);
    }
}

/// What a part of a text holds, the text holds.
pub proof fn lemma_occurs_inside(
    before: Seq<char>,
    inner: Seq<char>,
    after: Seq<char>,
    part: Seq<char>,
)
    requires
        occurs(inner, part),
    ensures
        occurs(before + inner + after, part),
{
    let at = choose|at: int| occurs_at(inner, part, at);
    let whole = before + inner + after;
    let moved = before.len() + at;
    assert(whole.subrange(moved, moved + part.len()) =~= inner.subrange(at, at + part.len()));
    assert(occurs_at(whole, part, moved));
}

/// What one of the joined items holds, the joined text holds.
pub proof fn lemma_occurs_in_joined(
    parts: Seq<Seq<char>>,
    sep: Seq<char>,
    which: int,
    part: Seq<char>,
)
    requires
        0 <= which < parts.len(),
        occurs(parts[which], part),
    ensures
        occurs(joined(parts, sep), part),
    decreases parts.len(),
{
    let empty = Seq::<char>::empty();
    if parts.len() == 1 {
    } else if which == parts.len() - 1 {
        lemma_occurs_inside(joined(parts.drop_last(), sep) + sep, parts.last(), empty, part);
        assert(joined(parts.drop_last(), sep) + sep + parts.last() + empty =~= joined(parts, sep));
    } else {
        lemma_occurs_in_joined(parts.drop_last(), sep, which, part);
        lemma_occurs_inside(empty, joined(parts.drop_last(), sep), sep + parts.last(), part);
        assert(empty + joined(parts.drop_last(), sep) + (sep + parts.last()) =~= joined(
            parts,
            sep,
        ));
    }
}

} // verus!
