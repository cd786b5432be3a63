//! Laws on docblocks: the declaration that one belongs to, the tag that is added, and
//! the text of a type.

use vstd::prelude::*;
use vstd::utf8::{decode_utf8, encode_utf8, valid_utf8};

use crate::domain::Range;
use crate::file::line_start;
use crate::indent::blanks;
use crate::outside::occurs_at;
use crate::phpdoc::{
    abbreviated, docblock_text, faithful, first_spelling, law_title_keeps_the_longest_beginning,
    lemma_quote_ends_inside, lemma_wrapper_lies_inside, literal_form, prefix_within, reads_back,
    spells_at, type_name_char, unwrapped_from, wrapper_at, InferredType, Reread, 
};
use crate::return_tag::{
    docblock_body, has_return_tag, innermost_site, law_innermost_site_is_tightest, lengths_known,
    reflowed, return_tag_at, tag_edit, trimmed, trimmed_end, white_space,
    TextReplacement,
};
use crate::server::FunctionLikeSite;

verus! {

// ---- The tightest declaration --------------------------------------------

/// The declaration starts at or before `start` and ends at or behind `end`.
pub open spec fn holds(site: FunctionLikeSite, start: u32, end: u32) -> bool {
    site.span.start <= start && end <= site.span.end
}

/// How many bytes the declaration takes up.
pub open spec fn size(site: FunctionLikeSite) -> int {
    site.span.end - site.span.start
}

proof fn lemma_innermost_site_is_first(
    sites: Seq<FunctionLikeSite>,
    start: u32,
    end: u32,
    count: int,
    index: int,
)
    requires
        0 <= index < count <= sites.len(),
        holds(sites[index], start, end),
        forall|i: int|
            0 <= i < count && holds(#[trigger] sites[i], start, end) ==> size(sites[index]) <= size(
                sites[i],
            ) && (i < index ==> size(sites[index]) < size(sites[i])),
    ensures
        innermost_site(sites, start, end, count) == Some(sites[index]),
    decreases count,
{
    if index < count - 1 {
        lemma_innermost_site_is_first(sites, start, end, count - 1, index);
        assert(holds(sites[count - 1], start, end) ==> size(sites[index]) <= size(
            sites[count - 1],
        ));
    } else {
        law_innermost_site_is_tightest(sites, start, end, count - 1);
        if let Some(best) = innermost_site(sites, start, end, count - 1) {
            lemma_innermost_site_is_listed(sites, start, end, count - 1);
            let i = choose|i: int| 0 <= i < count - 1 && #[trigger] sites[i] == best;
            assert(holds(sites[i], start, end));
        }
    }
}

proof fn lemma_innermost_site_is_listed(
    sites: Seq<FunctionLikeSite>,
    start: u32,
    end: u32,
    count: int,
)
    requires
        0 <= count <= sites.len(),
    ensures
        innermost_site(sites, start, end, count) matches Some(best) ==> holds(best, start, end)
            && exists|i: int| 0 <= i < count && #[trigger] sites[i] == best,
    decreases count,
{
    if count > 0 {
        lemma_innermost_site_is_listed(sites, start, end, count - 1);
        if let Some(best) = innermost_site(sites, start, end, count) {
            if innermost_site(sites, start, end, count - 1) == Some(best) {
                let i = choose|i: int| 0 <= i < count - 1 && #[trigger] sites[i] == best;
                assert(sites[i] == best);
            } else {
                assert(sites[count - 1] == best);
            }
        }
    }
}

/// The declaration around a stretch is the shortest that holds it, among equally
/// short ones the first, and there is none where no declaration holds it.
pub proof fn law_declaration_around(
    sites: Seq<FunctionLikeSite>,
    start: u32,
    end: u32,
    index: int,
)
    ensures
        0 <= index < sites.len() && holds(sites[index], start, end) && (forall|i: int|
            0 <= i < sites.len() && holds(#[trigger] sites[i], start, end) ==> size(sites[index])
                <= size(sites[i]) && (i < index ==> size(sites[index]) < size(sites[i])))
            ==> innermost_site(sites, start, end, sites.len() as int) == Some(sites[index]),
        (forall|i: int| 0 <= i < sites.len() ==> !holds(#[trigger] sites[i], start, end))
            ==> innermost_site(sites, start, end, sites.len() as int) is None,
{
    if 0 <= index < sites.len() && holds(sites[index], start, end) && (forall|i: int|
        0 <= i < sites.len() && holds(#[trigger] sites[i], start, end) ==> size(sites[index])
            <= size(sites[i]) && (i < index ==> size(sites[index]) < size(sites[i]))) {
        lemma_innermost_site_is_first(sites, start, end, sites.len() as int, index);
    }
    lemma_innermost_site_is_listed(sites, start, end, sites.len() as int);
}

/// The lengths are known of declarations that do not end before they start, as far as
/// they hold the stretch.
pub proof fn law_known_lengths(sites: Seq<FunctionLikeSite>, start: u32, end: u32)
    ensures
        lengths_known(sites, start, end) <==> forall|i: int|
            0 <= i < sites.len() && holds(#[trigger] sites[i], start, end) ==> sites[i].span.start
                <= sites[i].span.end,
{
    if lengths_known(sites, start, end) {
        assert forall|i: int|
            0 <= i < sites.len() && holds(#[trigger] sites[i], start, end) implies sites[i].span.start
            <= sites[i].span.end by {
            assert(crate::return_tag::site_contains(sites[i], start, end));
        }
    }
}

// ---- Existing tags -------------------------------------------------------

/// The byte would make a longer word of a tag beside it.
pub open spec fn joins_a_tag(byte: u8) -> bool {
    0x41 <= byte <= 0x5a || 0x61 <= byte <= 0x7a || 0x30 <= byte <= 0x39 || byte == 0x2d || byte
        == 0x5f
}

/// A docblock has a return tag where `@return` stands with neither a letter, a digit,
/// `-` nor `_` on either side.
pub proof fn law_return_tag(docblock: Seq<u8>, at: int)
    ensures
        return_tag_at(docblock, at) <==> {
            &&& 0 <= at
            &&& at + 7 <= docblock.len()
            &&& docblock[at] == 0x40
            &&& docblock[at + 1] == 0x72
            &&& docblock[at + 2] == 0x65
            &&& docblock[at + 3] == 0x74
            &&& docblock[at + 4] == 0x75
            &&& docblock[at + 5] == 0x72
            &&& docblock[at + 6] == 0x6e
            &&& at == 0 || !joins_a_tag(docblock[at - 1])
            &&& at + 7 == docblock.len() || !joins_a_tag(docblock[at + 7])
        },
        has_return_tag(docblock) <==> exists|found: int| return_tag_at(docblock, found),
{
    let word = seq![0x40u8, 0x72u8, 0x65u8, 0x74u8, 0x75u8, 0x72u8, 0x6eu8];
    assert(crate::return_tag::return_word() =~= word);
    if 0 <= at && at + 7 <= docblock.len() {
        let there = docblock.subrange(at, at + 7);
        assert(there[0] == docblock[at] && there[1] == docblock[at + 1] && there[2]
            == docblock[at + 2] && there[3] == docblock[at + 3] && there[4] == docblock[at + 4]
            && there[5] == docblock[at + 5] && there[6] == docblock[at + 6]);
        if there[0] == 0x40 && there[1] == 0x72 && there[2] == 0x65 && there[3] == 0x74 && there[4]
            == 0x75 && there[5] == 0x72 && there[6] == 0x6e {
            assert(there =~= word);
        }
        if occurs_at(docblock, word, at) {
            assert(there == word);
        }
    }
}

// ---- Trimming ------------------------------------------------------------

/// White space is what Unicode calls so.
pub proof fn law_white_space(c: char)
    ensures
        white_space(c) <==> c == '\u{9}' || c == '\u{a}' || c == '\u{b}' || c == '\u{c}' || c
            == '\u{d}' || c == '\u{20}' || c == '\u{85}' || c == '\u{a0}' || c == '\u{1680}' || (
        '\u{2000}' <= c <= '\u{200a}') || c == '\u{2028}' || c == '\u{2029}' || c == '\u{202f}' || c
            == '\u{205f}' || c == '\u{3000}',
{
}

/// `inner` is `text` from `from` to `to`, all around it is white space, and it does not
/// start or end with any.
pub open spec fn is_trimmed(text: Seq<char>, inner: Seq<char>, from: int, to: int) -> bool {
    &&& 0 <= from <= to <= text.len()
    &&& inner == text.subrange(from, to)
    &&& forall|i: int|
        (0 <= i < from || to <= i < text.len()) ==> white_space(#[trigger] text[i])
    &&& from < to ==> !white_space(text[from]) && !white_space(text[to - 1])
}

/// Trimming takes away the white space at both ends and nothing else.
pub proof fn law_trimming(text: Seq<char>)
    ensures
        exists|from: int, to: int| is_trimmed(text, trimmed(text), from, to),
    decreases text.len(),
{
    if text.len() > 0 && white_space(text[0]) {
        let rest = text.drop_first();
        law_trimming(rest);
        let (from, to) = choose|from: int, to: int| is_trimmed(rest, trimmed(rest), from, to);
        assert forall|i: int| (0 <= i < from + 1 || to + 1 <= i < text.len()) implies white_space(
            #[trigger] text[i],
        ) by {
            if i > 0 {
                assert(rest[i - 1] == text[i]);
            }
        }
        assert(rest.subrange(from, to) =~= text.subrange(from + 1, to + 1));
        if from < to {
            assert(rest[from] == text[from + 1] && rest[to - 1] == text[to]);
        }
        assert(is_trimmed(text, trimmed(text), from + 1, to + 1));
    } else {
        lemma_trimmed_end(text);
        assert(trimmed(text) == trimmed_end(text));
        let (from, to) = choose|from: int, to: int| is_trimmed(text, trimmed_end(text), from, to);
        assert(is_trimmed(text, trimmed(text), from, to));
    }
}

proof fn lemma_trimmed_end(text: Seq<char>)
    requires
        text.len() > 0 ==> !white_space(text[0]),
    ensures
        exists|from: int, to: int| is_trimmed(text, trimmed_end(text), from, to),
    decreases text.len(),
{
    if text.len() > 0 && white_space(text.last()) {
        let rest = text.drop_last();
        assert(rest.len() > 0 ==> rest[0] == text[0]);
        lemma_trimmed_end(rest);
        let (from, to) = choose|from: int, to: int| is_trimmed(rest, trimmed_end(rest), from, to);
        assert forall|i: int| (0 <= i < from || to <= i < text.len()) implies white_space(
            #[trigger] text[i],
        ) by {
            if i < rest.len() {
                assert(rest[i] == text[i]);
            }
        }
        assert(rest.subrange(from, to) =~= text.subrange(from, to));
        if from < to {
            assert(rest[from] == text[from] && rest[to - 1] == text[to - 1]);
        }
        assert(is_trimmed(text, trimmed_end(text), from, to));
    } else {
        assert(text.subrange(0, text.len() as int) =~= text);
        assert(is_trimmed(text, trimmed_end(text), 0, text.len() as int));
    }
}

// ---- The edit ------------------------------------------------------------

/// The body of a docblock is what stands between `/**` and `*/`, trimmed; a text
/// without both has none.
pub proof fn law_docblock_body(text: Seq<char>)
    ensures
        ({
            let count = text.len() as int;
            let framed = count >= 5 && text[0] == '/' && text[1] == '*' && text[2] == '*'
                && text[count - 2] == '*' && text[count - 1] == '/';
            &&& framed ==> docblock_body(text) == Some(trimmed(text.subrange(3, count - 2)))
            &&& !framed ==> docblock_body(text) is None
        }),
{
    reveal_strlit("/**");
    reveal_strlit("*/");
    let count = text.len() as int;
    if count >= 5 {
        let head = text.take(3);
        let tail = text.skip(count - 2);
        assert(head[0] == text[0] && head[1] == text[1] && head[2] == text[2]);
        assert(tail[0] == text[count - 2] && tail[1] == text[count - 1]);
        if text[0] == '/' && text[1] == '*' && text[2] == '*' {
            assert(head =~= "/**"@);
        }
        if text[count - 2] == '*' && text[count - 1] == '/' {
            assert(tail =~= "*/"@);
        }
    }
}

/// A docblock of one line becomes one of several: what it said on a line of its own,
/// if it said anything, and the tag on the next, all at one indent.
pub proof fn law_reflowed_docblock(indent: Seq<char>, body: Seq<char>, rendered: Seq<char>)
    ensures
        ({
            let tag = indent + " * @return "@ + rendered + "\n"@;
            let close = indent + " */"@;
            let open = indent + "/**\n"@;
            &&& body.len() == 0 ==> reflowed(indent, body, rendered) == open + tag + close
            &&& body.len() > 0 ==> reflowed(indent, body, rendered) == open + (indent + " * "@
                + body + "\n"@) + tag + close
        }),
{
    let tag = indent + " * @return "@ + rendered + "\n"@;
    let close = indent + " */"@;
    let open = indent + "/**\n"@;
    if body.len() == 0 {
        assert(reflowed(indent, body, rendered) =~= open + tag + close);
    } else {
        assert(reflowed(indent, body, rendered) =~= open + (indent + " * "@ + body + "\n"@) + tag
            + close);
    }
}

/// Without a docblock, one that holds the tag is put in on a line of its own above
/// the declaration's line, indented as that is.
pub proof fn law_tag_without_a_docblock(
    contents: Seq<u8>,
    site: FunctionLikeSite,
    rendered: Seq<char>,
)
    requires
        site.docblock is None,
    ensures
        ({
            let at = line_start(contents, site.span.start as int);
            let edit = tag_edit(contents, site, rendered);
            &&& edit is Some
            &&& edit->0.range.start == at as u32 && edit->0.range.end == at as u32
            &&& edit->0.new_text == blanks(contents, at, contents.len() as int) + "/** @return "@
                + rendered + " */\n"@
        }),
{
}

/// A docblock that lies outside the file, has a return tag or is no text is left
/// alone.
pub proof fn law_docblocks_left_alone(
    contents: Seq<u8>,
    site: FunctionLikeSite,
    docblock: Range,
    rendered: Seq<char>,
)
    requires
        site.docblock == Some(docblock),
        docblock.start > docblock.end || docblock.end > contents.len() || has_return_tag(
            contents.subrange(docblock.start as int, docblock.end as int),
        ) || !valid_utf8(contents.subrange(docblock.start as int, docblock.end as int)),
    ensures
        tag_edit(contents, site, rendered) is None,
{
}

/// In a docblock of several lines the tag goes on a line of its own in front of the
/// last, its star where that line starts.
pub proof fn law_tag_in_a_docblock_of_lines(
    contents: Seq<u8>,
    site: FunctionLikeSite,
    docblock: Range,
    rendered: Seq<char>,
    newline: int,
)
    requires
        site.docblock == Some(docblock),
        docblock.start <= newline < docblock.end <= contents.len(),
        contents[newline] == 10,
        forall|i: int| newline < i < docblock.end ==> #[trigger] contents[i] != 10,
        !has_return_tag(contents.subrange(docblock.start as int, docblock.end as int)),
        valid_utf8(contents.subrange(docblock.start as int, docblock.end as int)),
    ensures
        ({
            let edit = tag_edit(contents, site, rendered);
            &&& edit is Some
            &&& edit->0.range.start == newline + 1 && edit->0.range.end == newline + 1
            &&& edit->0.new_text == blanks(contents, newline + 1, contents.len() as int)
                + "* @return "@ + rendered + "\n"@
        }),
{
    let text = contents.subrange(docblock.start as int, docblock.end as int);
    let at = newline - docblock.start;
    assert(text[at] == 10);
    assert(text.contains(10u8));
    lemma_line_start_is(text, text.len() as int, at + 1);
}

proof fn lemma_line_start_is(bytes: Seq<u8>, offset: int, start: int)
    requires
        0 < start <= offset <= bytes.len(),
        bytes[start - 1] == 10,
        forall|i: int| start <= i < offset ==> #[trigger] bytes[i] != 10,
    ensures
        line_start(bytes, offset) == start,
    decreases offset,
{
    if start < offset {
        assert(bytes[offset - 1] != 10);
        lemma_line_start_is(bytes, offset - 1, start);
    }
}

/// A docblock of one line is replaced by one of several that says the same and has
/// the tag, at the indent of the declaration; where it is not framed by `/**` and `*/`
/// it is left alone.
pub proof fn law_tag_in_a_docblock_of_one_line(
    contents: Seq<u8>,
    site: FunctionLikeSite,
    docblock: Range,
    rendered: Seq<char>,
)
    requires
        site.docblock == Some(docblock),
        docblock.start <= docblock.end <= contents.len(),
        forall|i: int| docblock.start <= i < docblock.end ==> #[trigger] contents[i] != 10,
        !has_return_tag(contents.subrange(docblock.start as int, docblock.end as int)),
        valid_utf8(contents.subrange(docblock.start as int, docblock.end as int)),
    ensures
        ({
            let text = decode_utf8(
                contents.subrange(docblock.start as int, docblock.end as int),
            );
            let indent = blanks(
                contents,
                line_start(contents, site.span.start as int),
                contents.len() as int,
            );
            let edit = tag_edit(contents, site, rendered);
            match docblock_body(text) {
                Some(body) => edit is Some && edit->0.range == docblock && edit->0.new_text
                    == reflowed(indent, body, rendered),
                None => edit is None,
            }
        }),
{
    let text = contents.subrange(docblock.start as int, docblock.end as int);
    assert(!text.contains(10u8)) by {
        if text.contains(10u8) {
            let i = choose|i: int| 0 <= i < text.len() && text[i] == 10;
            assert(contents[docblock.start + i] == 10);
        }
    }
}

/// The view of a replacement tells its stretch and its text.
pub proof fn law_replacement_view(replacement: TextReplacement)
    ensures
        replacement@.range == replacement.range,
        replacement@.new_text == replacement.new_text@,
{
}

// ---- Literal wrappers ----------------------------------------------------

/// A type name is made of ASCII letters, digits, `_`, `-` and `\`.
pub proof fn law_type_name_characters(c: char)
    ensures
        type_name_char(c) <==> 'a' <= c <= 'z' || 'A' <= c <= 'Z' || '0' <= c <= '9' || c == '_'
            || c == '-' || c == '\\',
{
}

/// A word stands where its characters do, one by one.
pub proof fn law_spelling(text: Seq<char>, at: int, word: Seq<char>)
    ensures
        spells_at(text, at, word) <==> 0 <= at && at + word.len() <= text.len() && forall|i: int|
            0 <= i < word.len() ==> text[at + i] == #[trigger] word[i],
{
    if spells_at(text, at, word) {
        assert forall|i: int| 0 <= i < word.len() implies text[at + i] == #[trigger] word[i] by {
            assert(text.subrange(at, at + word.len())[i] == word[i]);
        }
    } else if 0 <= at && at + word.len() <= text.len() && forall|i: int|
        0 <= i < word.len() ==> text[at + i] == #[trigger] word[i] {
        assert(text.subrange(at, at + word.len()) =~= word);
    }
}

/// A word is found at the first place behind `from` where it stands.
pub proof fn law_first_spelling(text: Seq<char>, from: int, word: Seq<char>, at: int)
    requires
        0 <= from,
        word.len() > 0,
    ensures
        from <= at && spells_at(text, at, word) && (forall|i: int|
            from <= i < at ==> !spells_at(text, i, word)) ==> first_spelling(text, from, word)
            == Some(at),
        (forall|i: int| from <= i < text.len() ==> !spells_at(text, i, word)) ==> first_spelling(
            text,
            from,
            word,
        ) is None,
    decreases text.len() - from,
{
    if from < text.len() {
        law_first_spelling(text, from + 1, word, at);
    }
}

/// No wrapper starts inside a longer name, nor where neither `string('`, `int(` nor
/// `float(` stands.
pub proof fn law_no_wrapper(text: Seq<char>, index: int)
    requires
        0 <= index,
        (index > 0 && type_name_char(text[index - 1])) || (!spells_at(text, index, "string('"@)
            && !spells_at(text, index, "int("@) && !spells_at(text, index, "float("@)),
    ensures
        wrapper_at(text, index) is None,
{
}

/// A literal string's source text is the quoted string, quotes and all, up to the
/// first `')`; an integer's or a float's is what stands in the parentheses, up to the
/// first `)`. What is not closed is no wrapper.
pub proof fn law_wrappers(text: Seq<char>, index: int)
    requires
        0 <= index,
        index == 0 || !type_name_char(text[index - 1]),
    ensures
        spells_at(text, index, "string('"@) ==> match first_spelling(text, index + 8, "')"@) {
            Some(close) => wrapper_at(text, index) == Some((index + 7, close + 1, close + 2)),
            None => wrapper_at(text, index) is None,
        },
        spells_at(text, index, "int("@) ==> match first_spelling(text, index + 4, ")"@) {
            Some(close) => wrapper_at(text, index) == Some((index + 4, close, close + 1)),
            None => wrapper_at(text, index) is None,
        },
        spells_at(text, index, "float("@) ==> match first_spelling(text, index + 6, ")"@) {
            Some(close) => wrapper_at(text, index) == Some((index + 6, close, close + 1)),
            None => wrapper_at(text, index) is None,
        },
{
    reveal_strlit("string('");
    reveal_strlit("int(");
    reveal_strlit("float(");
    law_spelling(text, index, "string('"@);
    law_spelling(text, index, "int("@);
    law_spelling(text, index, "float("@);
    if spells_at(text, index, "string('"@) {
        assert(text[index + 0] == "string('"@[0]);
    }
    if spells_at(text, index, "int("@) {
        assert(text[index + 0] == "int("@[0]);
    }
    if spells_at(text, index, "float("@) {
        assert(text[index + 0] == "float("@[0]);
    }
}

/// Rewriting goes through the text once: a quoted run is kept as it is, a wrapper is
/// replaced by its source text, any other character is kept. A quoted run that does
/// not end makes the whole text be given up.
pub proof fn law_rewriting(text: Seq<char>, index: int)
    requires
        0 <= index,
    ensures
        index >= text.len() ==> unwrapped_from(text, index) == Some((Seq::<char>::empty(), false)),
        index < text.len() && text[index] == '\'' ==> match first_spelling(text, index + 1, "'"@) {
            Some(close) => match unwrapped_from(text, close + 1) {
                Some((rest, changed)) => unwrapped_from(text, index) == Some(
                    (text.subrange(index, close + 1) + rest, changed),
                ),
                None => unwrapped_from(text, index) is None,
            },
            None => unwrapped_from(text, index) is None,
        },
        index < text.len() && text[index] != '\'' ==> match wrapper_at(text, index) {
            Some((from, to, after)) => match unwrapped_from(text, after) {
                Some((rest, changed)) => unwrapped_from(text, index) == Some(
                    (text.subrange(from, to) + rest, true),
                ),
                None => unwrapped_from(text, index) is None,
            },
            None => match unwrapped_from(text, index + 1) {
                Some((rest, changed)) => unwrapped_from(text, index) == Some(
                    (seq![text[index]] + rest, changed),
                ),
                None => unwrapped_from(text, index) is None,
            },
        },
{
    lemma_quote_ends_inside(text, index);
    lemma_wrapper_lies_inside(text, index);
}

/// The source form is the rewritten text, where a wrapper was rewritten; where none
/// was, or the text was given up, there is none.
pub proof fn law_source_form(text: Seq<char>)
    ensures
        match unwrapped_from(text, 0) {
            Some((form, changed)) => if changed {
                literal_form(text) == Some(form)
            } else {
                literal_form(text) is None
            },
            None => literal_form(text) is None,
        },
{
}

proof fn lemma_string_wrapper(content: Seq<char>)
    requires
        !content.contains('\''),
    ensures
        wrapper_at("string('"@ + content + "')"@, 0) == Some(
            (7int, 9 + content.len() as int, 10 + content.len() as int),
        ),
{
    reveal_strlit("string('");
    reveal_strlit("')");
    let text = "string('"@ + content + "')"@;
    let close = 8 + content.len() as int;
    assert(text.subrange(0, 8) =~= "string('"@);
    assert(text.subrange(close, close + 2) =~= "')"@);
    assert forall|i: int| 8 <= i < close implies !spells_at(text, i, "')"@) by {
        if spells_at(text, i, "')"@) {
            assert(text.subrange(i, i + 2)[0] == '\'');
            assert(text[i] == content[i - 8]);
            assert(content.contains('\''));
        }
    }
    law_first_spelling(text, 8, "')"@, close);
}

/// The literal string with the text `content`, which holds no quote, is written
/// `'content'`.
pub proof fn law_literal_string(content: Seq<char>)
    requires
        !content.contains('\''),
    ensures
        literal_form("string('"@ + content + "')"@) == Some("'"@ + content + "'"@),
{
    lemma_string_wrapper(content);
    let text = "string('"@ + content + "')"@;
    let last = 10 + content.len() as int;
    law_rewriting(text, 0);
    law_rewriting(text, last);
    reveal_strlit("string('");
    reveal_strlit("')");
    reveal_strlit("'");
    assert(text[0] == 's');
    assert(text.len() == last);
    assert(text.subrange(7, last - 1) + Seq::<char>::empty() =~= "'"@ + content + "'"@);
}

/// The literal integer `content`, which holds no parenthesis, is written `content`.
pub proof fn law_literal_integer(content: Seq<char>)
    requires
        !content.contains(')'),
    ensures
        literal_form("int("@ + content + ")"@) == Some(content),
{
    reveal_strlit("int(");
    reveal_strlit(")");
    let text = "int("@ + content + ")"@;
    let close = 4 + content.len() as int;
    law_spelling(text, 0, "int("@);
    assert forall|i: int| 0 <= i < 4 implies text[0 + i] == #[trigger] "int("@[i] by {}
    assert(spells_at(text, 0, "int("@));
    law_spelling(text, close, ")"@);
    assert forall|i: int| 0 <= i < 1 implies text[close + i] == #[trigger] ")"@[i] by {}
    assert(spells_at(text, close, ")"@));
    assert forall|i: int| 4 <= i < close implies !spells_at(text, i, ")"@) by {
        law_spelling(text, i, ")"@);
        assert(text[i] == content[i - 4]);
        if text[i] == ')' {
            assert(content.contains(')'));
        }
        if spells_at(text, i, ")"@) {
            assert(text[i + 0] == ")"@[0]);
        }
    }
    law_first_spelling(text, 4, ")"@, close);
    law_wrappers(text, 0);
    law_rewriting(text, 0);
    law_rewriting(text, close + 1);
    assert(text[0] == 'i');
    assert(text.subrange(4, close) + Seq::<char>::empty() =~= content);
}

// ---- Choosing a rendering ------------------------------------------------

/// A text reads back as a type when parsing it gave exactly that type.
pub proof fn law_reading_back(rereads: Seq<Reread>, text: Seq<char>, id: Seq<char>)
    ensures
        reads_back(rereads, text, id) <==> exists|i: int|
            0 <= i < rereads.len() && (#[trigger] rereads[i]).text@ == text && rereads[i].id@ == id,
{
}

/// The rendering of a type is its source form where that reads back as the type, else
/// the type as it is shown where that does, and else there is none.
pub proof fn law_faithful_rendering(rereads: Seq<Reread>, id: Seq<char>)
    ensures
        ({
            let form = literal_form(id);
            let by_form = form is Some && reads_back(rereads, form->0, id);
            &&& by_form ==> faithful(rereads, id) == form
            &&& !by_form && reads_back(rereads, id, id) ==> faithful(rereads, id) == Some(id)
            &&& !by_form && !reads_back(rereads, id, id) ==> faithful(rereads, id) is None
        }),
{
}

/// A type that says nothing has no text; any other has its own rendering, and only
/// where it has none that of the type widened.
pub proof fn law_text_of_a_type(rereads: Seq<Reread>, ty: InferredType)
    ensures
        ty.is_mixed ==> docblock_text(rereads, ty) is None,
        !ty.is_mixed && faithful(rereads, ty.id@) is Some ==> docblock_text(rereads, ty)
            == faithful(rereads, ty.id@),
        !ty.is_mixed && faithful(rereads, ty.id@) is None ==> docblock_text(rereads, ty)
            == faithful(rereads, ty.widened_id@),
{
}

/// A title shows a type of up to sixty bytes whole, and of a longer one the longest
/// beginning that takes no more, with three dots behind it.
pub proof fn law_title(text: Seq<char>)
    ensures
        encode_utf8(text).len() <= 60 ==> abbreviated(text) == text,
        encode_utf8(text).len() > 60 ==> {
            let shown = prefix_within(text, 60);
            &&& abbreviated(text) == shown + "..."@
            &&& shown.len() <= text.len()
            &&& shown == text.take(shown.len() as int)
            &&& encode_utf8(shown).len() <= 60
            &&& shown.len() < text.len() ==> encode_utf8(text.take(shown.len() as int + 1)).len()
                > 60
        },
{
    law_title_keeps_the_longest_beginning(text, 60);
}

} // verus!
