//! The lines of a source text, and the one line that a diagnostic points at.

use vstd::prelude::*;
use vstd::std_specs::iter::IteratorSpec;
use vstd::utf8::encode_utf8;
use crate::text::{
    lemma_occurrences_absent, lemma_occurrences_concat, lemma_occurs_at_shifted,
    lemma_occurs_at_start, occurrences, occurs_at, occurs_in,
};

verus! {

broadcast use vstd::string::group_string_axioms;

/// How many characters stand before the first line feed of `text`, or in all of
/// `text` when it holds no line feed.
pub open spec fn first_line_len(text: Seq<char>) -> nat
    decreases text.len(),
{
    if text.len() == 0 || text[0] == '\n' {
        0
    } else {
        1 + first_line_len(text.drop_first())
    }
}

/// `line` without the carriage return at its end, if it has one there.
pub open spec fn without_trailing_return(line: Seq<char>) -> Seq<char> {
    if line.len() > 0 && line.last() == '\r' {
        line.drop_last()
    } else {
        line
    }
}

/// The lines of `text`, in order.
///
/// A line ends at a line feed, or at the end of the text. The line feed is not
/// part of the line, and neither is a carriage return that stands directly
/// before it. What follows the last line feed is a line only when it is not
/// empty, so a final line feed adds no empty line and the empty text has no
/// lines. A carriage return that no line feed follows stays in its line.
pub open spec fn source_lines(text: Seq<char>) -> Seq<Seq<char>>
    decreases text.len(),
{
    let len = first_line_len(text) as int;
    if text.len() == 0 {
        Seq::empty()
    } else if len >= text.len() {
        seq![text]
    } else {
        seq![without_trailing_return(text.take(len))] + source_lines(text.skip(len + 1))
    }
}

/// The line of `code` that the one-based `line_num` names, or the empty text
/// when `line_num` is zero or greater than the number of lines.
pub open spec fn excerpt(code: Seq<char>, line_num: nat) -> Seq<char> {
    let lines = source_lines(code);
    if 1 <= line_num <= lines.len() {
        lines[line_num - 1]
    } else {
        Seq::empty()
    }
}

/// A stretch from the start of the text that holds no line feed, and that
/// ends at a line feed or at the end of the text, is the first line: no other
/// length fits.
pub proof fn lemma_first_line_len_is_unique(text: Seq<char>, len: int)
    requires
        0 <= len <= text.len(),
        forall|i: int| 0 <= i < len ==> text[i] != '\n',
        len == text.len() || text[len] == '\n',
    ensures
        first_line_len(text) == len,
    decreases len,
{
    if len > 0 {
        lemma_first_line_len_is_unique(text.drop_first(), len - 1);
    }
}

/// The first line ends at the first line feed of the text, or at the end of
/// the text where it holds none.
pub proof fn lemma_first_line_ends_at_first_line_feed(text: Seq<char>)
    ensures
        first_line_len(text) <= text.len(),
        forall|i: int| 0 <= i < first_line_len(text) ==> text[i] != '\n',
        first_line_len(text) < text.len() ==> text[first_line_len(text) as int] == '\n',
    decreases text.len(),
{
    if text.len() > 0 && text[0] != '\n' {
        let rest = text.drop_first();
        lemma_first_line_ends_at_first_line_feed(rest);
        assert forall|i: int| 0 <= i < first_line_len(text) implies text[i] != '\n' by {
            if i > 0 {
                assert(text[i] == rest[i - 1]);
            }
        }
    }
}

/// No line of a text holds a line feed.
pub proof fn lemma_lines_hold_no_line_feed(text: Seq<char>)
    ensures
        forall|k: int|
            #![trigger source_lines(text)[k]]
            0 <= k < source_lines(text).len() ==> !source_lines(text)[k].contains('\n'),
    decreases text.len(),
{
    lemma_first_line_ends_at_first_line_feed(text);
    let len = first_line_len(text) as int;
    if text.len() > 0 && len < text.len() {
        let rest = text.skip(len + 1);
        lemma_lines_hold_no_line_feed(rest);
        assert forall|k: int|
            #![trigger source_lines(text)[k]]
            0 <= k < source_lines(text).len() implies !source_lines(text)[k].contains('\n') by {
            if k > 0 {
                assert(source_lines(text)[k] == source_lines(rest)[k - 1]);
            }
        }
    }
}

/// Where the source has a line of the number given, the excerpt is that line.
pub proof fn lemma_excerpt_is_the_line_named(code: Seq<char>, line_num: nat)
    requires
        1 <= line_num <= source_lines(code).len(),
    ensures
        excerpt(code, line_num) == source_lines(code)[line_num - 1],
{
}

/// Every line of a text stands in the text as it is.
pub proof fn lemma_lines_occur_in_text(text: Seq<char>)
    ensures
        forall|k: int|
            #![trigger source_lines(text)[k]]
            0 <= k < source_lines(text).len() ==> occurs_in(text, source_lines(text)[k]),
    decreases text.len(),
{
    lemma_first_line_ends_at_first_line_feed(text);
    let len = first_line_len(text) as int;
    if text.len() > 0 && len >= text.len() {
        lemma_occurs_at_start(text);
    } else if text.len() > 0 {
        let first = without_trailing_return(text.take(len));
        let rest = text.skip(len + 1);
        lemma_lines_occur_in_text(rest);
        assert forall|k: int|
            #![trigger source_lines(text)[k]]
            0 <= k < source_lines(text).len() implies occurs_in(text, source_lines(text)[k]) by {
            if k == 0 {
                assert(text.subrange(0, first.len() as int) =~= first);
                assert(occurs_at(text, first, 0));
            } else {
                let line = source_lines(rest)[k - 1];
                assert(source_lines(text)[k] == line);
                let at = choose|at: int| occurs_at(rest, line, at);
                assert(text =~= text.take(len + 1) + rest);
                lemma_occurs_at_shifted(text.take(len + 1), rest, line, at);
            }
        }
    }
}

/// The excerpt stands in the source as it is.
pub proof fn lemma_excerpt_occurs_in_source(code: Seq<char>, line_num: nat)
    ensures
        occurs_in(code, excerpt(code, line_num)),
{
    lemma_lines_occur_in_text(code);
    if !(1 <= line_num <= source_lines(code).len()) {
        assert(code.subrange(0, 0) =~= Seq::<char>::empty());
        assert(occurs_at(code, Seq::<char>::empty(), 0));
    }
}

/// A text has one line for each line feed, and one more where it does not end
/// with a line feed and is not empty.
pub proof fn lemma_line_count(text: Seq<char>)
    ensures
        text.len() == 0 ==> source_lines(text).len() == 0,
        text.len() > 0 && text.last() == '\n' ==> source_lines(text).len() == occurrences(
            text,
            '\n',
        ),
        text.len() > 0 && text.last() != '\n' ==> source_lines(text).len() == occurrences(
            text,
            '\n',
        ) + 1,
    decreases text.len(),
{
    lemma_first_line_ends_at_first_line_feed(text);
    let len = first_line_len(text) as int;
    if text.len() == 0 {
    } else if len >= text.len() {
        lemma_occurrences_absent(text, '\n');
    } else {
        let first = text.take(len);
        let feed = text.subrange(len, len + 1);
        let rest = text.skip(len + 1);
        lemma_line_count(rest);
        assert(text =~= first + feed + rest);
        lemma_occurrences_absent(first, '\n');
        assert(occurrences(feed, '\n') == 1) by {
            assert(feed.drop_last() =~= Seq::<char>::empty());
            assert(occurrences(Seq::<char>::empty(), '\n') == 0);
        }
        lemma_occurrences_concat(first, feed, '\n');
        lemma_occurrences_concat(first + feed, rest, '\n');
        if rest.len() > 0 {
            assert(rest.last() == text.last());
        }
    }
}

/// The excerpt is one line: it holds no line feed, whatever the line number.
pub proof fn lemma_excerpt_holds_no_line_feed(code: Seq<char>, line_num: nat)
    ensures
        !excerpt(code, line_num).contains('\n'),
{
    lemma_lines_hold_no_line_feed(code);
}

/// How the excerpt of a text follows from its first line and from the text
/// behind that line.
proof fn lemma_excerpt_unfold(text: Seq<char>, line_num: nat)
    ensures
        ({
            let len = first_line_len(text) as int;
            excerpt(text, line_num) == if text.len() == 0 || line_num == 0 {
                Seq::empty()
            } else if len >= text.len() {
                if line_num == 1 {
                    text
                } else {
                    Seq::empty()
                }
            } else if line_num == 1 {
                without_trailing_return(text.take(len))
            } else {
                excerpt(text.skip(len + 1), (line_num - 1) as nat)
            }
        }),
{
}

/// A text has no more lines than characters.
pub proof fn lemma_no_more_lines_than_chars(text: Seq<char>)
    ensures
        source_lines(text).len() <= text.len(),
    decreases text.len(),
{
    if text.len() > 0 && first_line_len(text) < text.len() {
        lemma_no_more_lines_than_chars(text.skip(first_line_len(text) as int + 1));
    }
}

/// A text has no more characters than its UTF-8 encoding has bytes.
proof fn lemma_no_more_chars_than_bytes(text: Seq<char>)
    ensures
        text.len() <= encode_utf8(text).len(),
    decreases text.len(),
{
    if text.len() > 0 {
        lemma_no_more_chars_than_bytes(text.drop_first());
    }
}

/// Returns the line of `code` that the one-based `line_num` names, without its
/// line ending, or the empty text when `code` has no such line.
pub fn source_line<'a>(code: &'a str, line_num: usize) -> (line: &'a str)
    ensures
        line@ == excerpt(code@, line_num as nat),
{
    let size: usize = code.as_bytes().len();
    proof {
        reveal_strlit("");
        lemma_no_more_chars_than_bytes(code@);
        lemma_no_more_lines_than_chars(code@);
    }
    if line_num == 0 || line_num > size {
        return "";
    }
    let mut chars = code.chars();
    let mut current: usize = 1;
    let mut start: usize = 0;
    let mut pos: usize = 0;
    let mut after_return: bool = false;
    assert(code@.skip(0) =~= code@);
    loop
        invariant
            code@.len() <= size,
            ""@.len() == 0,
            1 <= current <= line_num,
            start <= pos <= code@.len(),
            chars.obeys_prophetic_iter_laws(),
            chars.decrease() is Some,
            chars.remaining() == code@.skip(pos as int),
            forall|i: int| start <= i < pos ==> code@[i] != '\n',
            after_return <==> start < pos && code@[pos - 1] == '\r',
            excerpt(code@, line_num as nat) == excerpt(
                code@.skip(start as int),
                (line_num - current + 1) as nat,
            ),
        decreases code@.len() - pos,
    {
        let ghost rest = code@.skip(start as int);
        proof {
            lemma_excerpt_unfold(rest, (line_num - current + 1) as nat);
        }
        match chars.next() {
            None => {
                proof {
                    lemma_first_line_len_is_unique(rest, pos - start);
                }
                if current == line_num && start < pos {
                    let found = code.substring_char(start, pos);
                    assert(found@ =~= rest);
                    return found;
                }
                return "";
            },
            Some(c) => {
                assert(c == code@[pos as int]);
                if c == '\n' {
                    proof {
                        lemma_first_line_len_is_unique(rest, pos - start);
                    }
                    if current == line_num {
                        let end: usize = if after_return {
                            pos - 1
                        } else {
                            pos
                        };
                        let found = code.substring_char(start, end);
                        assert(found@ =~= without_trailing_return(rest.take(pos - start)));
                        return found;
                    }
                    assert(code@.skip(pos + 1) =~= rest.skip(pos - start + 1));
                    current = current + 1;
                    start = pos + 1;
                    after_return = false;
                } else {
                    after_return = c == '\r';
                }
                pos = pos + 1;
                assert(chars.remaining() =~= code@.skip(pos as int));
            },
        }
    }
}

} // verus!
