//! Laws on bytes, lines, indents and the order of texts.

use vstd::prelude::*;
use vstd::utf8::{decode_utf8, encode_utf8, valid_utf8};

use crate::ascii::{
    alphabetic, alphanumeric, equal_ignoring_case, lower, lowered, BACKSLASH, DOLLAR, HYPHEN,
    NEWLINE, SPACE, TAB, UNDERSCORE,
};
use crate::domain::{bytes_of, text_of};
use crate::file::{begins_line, line_start, lists_lines, newlines_before, tokens_fit, with_texts};
use crate::indent::blanks;
use crate::outside::{lossy, occurs_at};
use crate::text::{bytes_precede, text_precedes};
use crate::token::RawToken;

verus! {

/// Letters are `A` to `Z` and `a` to `z`, digits `0` to `9`.
pub proof fn law_letters_and_digits(byte: u8)
    ensures
        alphabetic(byte) <==> 0x41 <= byte <= 0x5a || 0x61 <= byte <= 0x7a,
        alphanumeric(byte) <==> 0x41 <= byte <= 0x5a || 0x61 <= byte <= 0x7a || 0x30 <= byte
            <= 0x39,
{
}

/// The marks that the code tells apart are the ASCII ones.
pub proof fn law_marks()
    ensures
        NEWLINE == 10,
        TAB == 9,
        SPACE == 32,
        DOLLAR == 36,
        HYPHEN == 45,
        BACKSLASH == 92,
        UNDERSCORE == 95,
{
}

/// Two byte strings agree but for case exactly when, byte by byte, they are equal
/// or a capital stands against its small letter.
pub proof fn law_case_is_ignored(left: Seq<u8>, right: Seq<u8>)
    ensures
        equal_ignoring_case(left, right) <==> left.len() == right.len() && forall|i: int|
            0 <= i < left.len() ==> #[trigger] left[i] == right[i] || (0x41 <= left[i] <= 0x5a
                && right[i] == left[i] + 32) || (0x41 <= right[i] <= 0x5a && left[i] == right[i]
                + 32),
{
    if equal_ignoring_case(left, right) {
        assert(lowered(left).len() == left.len() && lowered(right).len() == right.len());
        assert forall|i: int| 0 <= i < left.len() implies #[trigger] left[i] == right[i] || (0x41
            <= left[i] <= 0x5a && right[i] == left[i] + 32) || (0x41 <= right[i] <= 0x5a && left[i]
            == right[i] + 32) by {
            assert(lowered(left)[i] == lower(left[i]) && lowered(right)[i] == lower(right[i]));
        }
    }
    if left.len() == right.len() && forall|i: int|
        0 <= i < left.len() ==> #[trigger] left[i] == right[i] || (0x41 <= left[i] <= 0x5a
            && right[i] == left[i] + 32) || (0x41 <= right[i] <= 0x5a && left[i] == right[i] + 32) {
        assert forall|i: int| 0 <= i < left.len() implies lowered(left)[i] == lowered(right)[i] by {
            assert(left[i] == right[i] || (0x41 <= left[i] <= 0x5a && right[i] == left[i] + 32) || (
            0x41 <= right[i] <= 0x5a && left[i] == right[i] + 32));
        }
        assert(lowered(left) =~= lowered(right));
    }
}

/// An offset falls on the line numbered by the newlines before it. Past the end
/// there are no more of them.
pub proof fn law_lines_are_counted_by_newlines(contents: Seq<u8>, offset: int)
    requires
        0 <= offset,
    ensures
        offset <= contents.len() ==> newlines_before(contents, offset) == contents.take(
            offset,
        ).filter(|byte: u8| byte == 10).len(),
        offset > contents.len() ==> newlines_before(contents, offset) == newlines_before(
            contents,
            contents.len() as int,
        ),
    decreases offset,
{
    reveal(Seq::filter);
    if offset > 0 {
        law_lines_are_counted_by_newlines(contents, offset - 1);
        if offset <= contents.len() {
            assert(contents.take(offset).drop_last() =~= contents.take(offset - 1));
            assert(contents.take(offset).last() == contents[offset - 1]);
        }
    }
}

/// A line starts at the beginning of the file or right behind a newline, and no
/// newline stands between its start and the offset. Past the end the last line
/// goes on.
pub proof fn law_line_starts_behind_a_newline(contents: Seq<u8>, offset: int)
    requires
        0 <= offset,
    ensures
        0 <= line_start(contents, offset) <= offset,
        offset <= contents.len() ==> (line_start(contents, offset) == 0 || contents[line_start(
            contents,
            offset,
        ) - 1] == 10) && forall|i: int|
            line_start(contents, offset) <= i < offset ==> #[trigger] contents[i] != 10,
        offset > contents.len() ==> line_start(contents, offset) == line_start(
            contents,
            contents.len() as int,
        ),
    decreases offset,
{
    if offset > 0 {
        law_line_starts_behind_a_newline(contents, offset - 1);
    }
}

/// A line table has one entry for each newline and one more, each at the start of
/// its line.
pub proof fn law_line_table(contents: Seq<u8>, lines: Seq<u32>)
    ensures
        lists_lines(contents, lines) <==> lines.len() == newlines_before(
            contents,
            contents.len() as int,
        ) + 1 && forall|k: int|
            0 <= k < lines.len() ==> begins_line(contents, k, #[trigger] lines[k] as int),
{
}

/// A line begins where that many newlines stand before, at the beginning of the
/// file or right behind a newline.
pub proof fn law_line_beginning(contents: Seq<u8>, line: int, start: int)
    ensures
        begins_line(contents, line, start) <==> 0 <= start <= contents.len() && newlines_before(
            contents,
            start,
        ) == line && (start == 0 || contents[start - 1] == 10),
{
}

/// A token covers the bytes from its start up to its end.
pub proof fn law_token_texts(contents: Seq<u8>, tokens: Seq<RawToken>, i: int)
    requires
        0 <= i < tokens.len(),
    ensures
        with_texts(contents, tokens).len() == tokens.len(),
        with_texts(contents, tokens)[i].kind == tokens[i].kind,
        with_texts(contents, tokens)[i].start == tokens[i].start,
        with_texts(contents, tokens)[i].value == contents.subrange(
            tokens[i].start as int,
            tokens[i].end as int,
        ),
{
}

/// Tokens fit a file when each ends inside it and before the next starts.
pub proof fn law_fitting_tokens(tokens: Seq<RawToken>, length: nat)
    ensures
        tokens_fit(tokens, length) <==> (forall|i: int|
            0 <= i < tokens.len() ==> (#[trigger] tokens[i]).start <= tokens[i].end <= length) && (
        forall|i: int, j: int|
            0 <= i < j < tokens.len() ==> (#[trigger] tokens[i]).end <= (
            #[trigger] tokens[j]).start),
{
}

/// A space is shown for a space, a tab for a tab.
pub open spec fn shows_blank(byte: u8, c: char) -> bool {
    (byte == 32 && c == ' ') || (byte == 9 && c == '\t')
}

/// An indent repeats the spaces and tabs that stand at `from`, and stops at the
/// first other byte.
pub proof fn law_indent_repeats_the_blanks(bytes: Seq<u8>, from: int, to: int)
    requires
        0 <= from <= to <= bytes.len(),
    ensures
        ({
            let indent = blanks(bytes, from, to);
            &&& from + indent.len() <= to
            &&& forall|i: int|
                0 <= i < indent.len() ==> shows_blank(bytes[from + i], #[trigger] indent[i])
            &&& from + indent.len() == to || (bytes[from + indent.len()] != 32 && bytes[from
                + indent.len()] != 9)
        }),
    decreases to - from,
{
    let indent = blanks(bytes, from, to);
    if from < to && (bytes[from] == 32 || bytes[from] == 9) {
        law_indent_repeats_the_blanks(bytes, from + 1, to);
        let rest = blanks(bytes, from + 1, to);
        assert(indent.len() == rest.len() + 1);
        assert(from + indent.len() == from + 1 + rest.len());
        assert forall|i: int| 0 <= i < indent.len() implies shows_blank(
            bytes[from + i],
            #[trigger] indent[i],
        ) by {
            if i > 0 {
                assert(indent[i] == rest[i - 1]);
                assert(shows_blank(bytes[from + 1 + (i - 1)], rest[i - 1]));
            }
        }
        assert(from + indent.len() == to || (bytes[from + indent.len()] != 32 && bytes[from
            + indent.len()] != 9));
    } else {
        assert(indent.len() == 0);
        assert(from + indent.len() == from);
    }
}

/// `left` and `right` agree before `at`, and there `left` ends or has the smaller
/// byte.
pub open spec fn parts_at(left: Seq<u8>, right: Seq<u8>, at: int) -> bool {
    &&& 0 <= at <= left.len()
    &&& at < right.len()
    &&& forall|i: int| 0 <= i < at ==> #[trigger] left[i] == right[i]
    &&& at == left.len() || left[at] < right[at]
}

/// Byte strings are ordered by the first byte in which they differ, a beginning
/// before what goes on.
pub proof fn law_order_of_bytes(left: Seq<u8>, right: Seq<u8>)
    ensures
        bytes_precede(left, right) <==> exists|at: int| parts_at(left, right, at),
    decreases left.len(),
{
    if right.len() == 0 {
        assert forall|at: int| !parts_at(left, right, at) by {}
    } else if left.len() == 0 {
        assert(parts_at(left, right, 0));
    } else if left[0] == right[0] {
        let l = left.drop_first();
        let r = right.drop_first();
        law_order_of_bytes(l, r);
        if bytes_precede(l, r) {
            let at = choose|at: int| parts_at(l, r, at);
            assert forall|i: int| 0 <= i < at + 1 implies #[trigger] left[i] == right[i] by {
                if i > 0 {
                    assert(l[i - 1] == r[i - 1]);
                }
            }
            assert(parts_at(left, right, at + 1));
        }
        if exists|at: int| parts_at(left, right, at) {
            let at = choose|at: int| parts_at(left, right, at);
            assert forall|i: int| 0 <= i < at - 1 implies #[trigger] l[i] == r[i] by {
                assert(left[i + 1] == right[i + 1]);
            }
            assert(parts_at(l, r, at - 1));
        }
    } else if left[0] < right[0] {
        assert(parts_at(left, right, 0));
    } else {
        assert forall|at: int| !parts_at(left, right, at) by {
            if parts_at(left, right, at) && at > 0 {
                assert(left[0] == right[0]);
            }
        }
    }
}

/// Texts are ordered by their UTF-8 bytes.
pub proof fn law_order_of_texts(left: Seq<char>, right: Seq<char>)
    ensures
        text_precedes(left, right) <==> exists|at: int|
            parts_at(encode_utf8(left), encode_utf8(right), at),
{
    law_order_of_bytes(encode_utf8(left), encode_utf8(right));
}

/// Bytes that are UTF-8 are shown as the text they encode.
pub proof fn law_text_is_shown_as_it_is(text: Seq<char>)
    ensures
        lossy(encode_utf8(text)) == text,
{
    vstd::utf8::encode_utf8_valid_utf8(text);
    vstd::utf8::encode_utf8_decode_utf8(text);
}

/// Bytes are shown as the text that they decode to, where they do.
pub proof fn law_valid_bytes_are_decoded(bytes: Seq<u8>)
    requires
        valid_utf8(bytes),
    ensures
        lossy(bytes) == decode_utf8(bytes),
{
}

/// A needle occurs where its bytes stand one by one.
pub proof fn law_occurrence(haystack: Seq<u8>, needle: Seq<u8>, at: int)
    ensures
        occurs_at(haystack, needle, at) <==> 0 <= at && at + needle.len() <= haystack.len()
            && forall|i: int| 0 <= i < needle.len() ==> haystack[at + i] == #[trigger] needle[i],
{
    if occurs_at(haystack, needle, at) {
        assert forall|i: int| 0 <= i < needle.len() implies haystack[at + i]
            == #[trigger] needle[i] by {
            assert(haystack.subrange(at, at + needle.len())[i] == needle[i]);
        }
    } else if 0 <= at && at + needle.len() <= haystack.len() && forall|i: int|
        0 <= i < needle.len() ==> haystack[at + i] == #[trigger] needle[i] {
        assert(haystack.subrange(at, at + needle.len()) =~= needle);
    }
}

/// What is optional is shown where it is there.
pub proof fn law_optional_values(text: String, bytes: Vec<u8>)
    ensures
        text_of(Some(text)) == Some(text@),
        text_of(None) is None,
        bytes_of(Some(bytes)) == Some(bytes@),
        bytes_of(None) is None,
{
}

} // verus!
