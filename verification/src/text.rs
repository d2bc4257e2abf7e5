//! Building blocks for fixed-width text: runs of one character and
//! right-aligned fields.

use vstd::prelude::*;

verus! {

/// `count` copies of `glyph`.
pub open spec fn run(glyph: char, count: nat) -> Seq<char> {
    Seq::new(count, |i: int| glyph)
}

/// `text` at the right edge of a field of `width` characters, filled with
/// spaces on its left. A text that is wider than the field stays as it is.
pub open spec fn right_aligned(text: Seq<char>, width: nat) -> Seq<char> {
    let fill = if text.len() < width {
        (width - text.len()) as nat
    } else {
        0
    };
    run(' ', fill) + text
}

/// `part` stands in `text`, starting at the offset `at`.
pub open spec fn occurs_at(text: Seq<char>, part: Seq<char>, at: int) -> bool {
    &&& 0 <= at
    &&& at + part.len() <= text.len()
    &&& text.subrange(at, at + part.len()) == part
}

/// `part` stands somewhere in `text`.
pub open spec fn occurs_in(text: Seq<char>, part: Seq<char>) -> bool {
    exists|at: int| occurs_at(text, part, at)
}

/// A run of `count` copies of `glyph` starts in `text` at the offset `at`, and
/// it is no part of a longer run: the characters next to it, where there are
/// any, differ from `glyph`.
pub open spec fn exact_run_at(text: Seq<char>, glyph: char, at: int, count: nat) -> bool {
    &&& occurs_at(text, run(glyph, count), at)
    &&& at > 0 ==> text[at - 1] != glyph
    &&& at + count < text.len() ==> text[at + count] != glyph
}

/// How many of the characters of `text` are `glyph`.
pub open spec fn occurrences(text: Seq<char>, glyph: char) -> nat
    decreases text.len(),
{
    if text.len() == 0 {
        0
    } else {
        occurrences(text.drop_last(), glyph) + if text.last() == glyph {
            1nat
        } else {
            0nat
        }
    }
}

/// A text occurs in itself, at its start.
pub proof fn lemma_occurs_at_start(text: Seq<char>)
    ensures
        occurs_at(text, text, 0),
{
    assert(text.subrange(0, text.len() as int) =~= text);
}

/// What occurs in a text occurs, at the same offset, in every text that
/// continues it.
pub proof fn lemma_occurs_at_extended(text: Seq<char>, part: Seq<char>, at: int, more: Seq<char>)
    requires
        occurs_at(text, part, at),
    ensures
        occurs_at(text + more, part, at),
{
    assert((text + more).subrange(at, at + part.len()) =~= text.subrange(at, at + part.len()));
}

/// What occurs in a text occurs in every text that ends with it, further
/// along by the length of what was put in front.
pub proof fn lemma_occurs_at_shifted(before: Seq<char>, text: Seq<char>, part: Seq<char>, at: int)
    requires
        occurs_at(text, part, at),
    ensures
        occurs_at(before + text, part, before.len() + at),
{
    assert((before + text).subrange(before.len() + at, before.len() + at + part.len())
        =~= text.subrange(at, at + part.len()));
}

/// A part of what occurs in a text occurs in that text too.
pub proof fn lemma_occurs_at_within(
    text: Seq<char>,
    whole: Seq<char>,
    at: int,
    part: Seq<char>,
    inner: int,
)
    requires
        occurs_at(text, whole, at),
        occurs_at(whole, part, inner),
    ensures
        occurs_at(text, part, at + inner),
{
    assert(text.subrange(at + inner, at + inner + part.len()) =~= text.subrange(
        at,
        at + whole.len(),
    ).subrange(inner, inner + part.len()));
}

/// The occurrences in a text made of two are those in the one and those in
/// the other.
pub proof fn lemma_occurrences_concat(first: Seq<char>, second: Seq<char>, glyph: char)
    ensures
        occurrences(first + second, glyph) == occurrences(first, glyph) + occurrences(
            second,
            glyph,
        ),
    decreases second.len(),
{
    if second.len() == 0 {
        assert(first + second =~= first);
    } else {
        assert((first + second).drop_last() =~= first + second.drop_last());
        lemma_occurrences_concat(first, second.drop_last(), glyph);
    }
}

/// A text in which `glyph` does not stand has no occurrence of it.
pub proof fn lemma_occurrences_absent(text: Seq<char>, glyph: char)
    requires
        !text.contains(glyph),
    ensures
        occurrences(text, glyph) == 0,
    decreases text.len(),
{
    if text.len() > 0 {
        assert(text.last() == text[text.len() - 1]);
        assert forall|i: int| 0 <= i < text.drop_last().len() implies text.drop_last()[i]
            != glyph by {
            assert(text.drop_last()[i] == text[i]);
        }
        lemma_occurrences_absent(text.drop_last(), glyph);
    }
}

/// A run of one character holds that character as often as it is long, and no
/// other character.
pub proof fn lemma_occurrences_in_run(of: char, count: nat, glyph: char)
    ensures
        occurrences(run(of, count), glyph) == if of == glyph {
            count
        } else {
            0
        },
    decreases count,
{
    if count > 0 {
        assert(run(of, count).drop_last() =~= run(of, (count - 1) as nat));
        lemma_occurrences_in_run(of, (count - 1) as nat, glyph);
    }
}

/// Appends `count` copies of the one character that `glyph` holds.
pub(crate) fn append_run(out: &mut String, glyph: &str, count: usize)
    requires
        glyph@.len() == 1,
    ensures
        final(out)@ == old(out)@ + run(glyph@[0], count as nat),
{
    let mut done: usize = 0;
    assert(out@ =~= old(out)@ + run(glyph@[0], 0));
    while done < count
        invariant
            done <= count,
            glyph@.len() == 1,
            out@ == old(out)@ + run(glyph@[0], done as nat),
        decreases count - done,
    {
        out.append(glyph);
        done = done + 1;
        assert(out@ =~= old(out)@ + run(glyph@[0], done as nat));
    }
}

/// Appends `text`, right-aligned in a field of `width` characters.
pub(crate) fn append_right_aligned(out: &mut String, text: &str, width: usize)
    ensures
        final(out)@ == old(out)@ + right_aligned(text@, width as nat),
{
    let len: usize = text.unicode_len();
    let fill: usize = if len < width {
        width - len
    } else {
        0
    };
    proof {
        reveal_strlit(" ");
    }
    append_run(out, " ", fill);
    out.append(text);
    assert(out@ =~= old(out)@ + right_aligned(text@, width as nat));
}

} // verus!
