//! Recording an inferred return type as a `@return` tag.

use vstd::prelude::*;
use vstd::string::StringExecFns;
use vstd::utf8::{decode_utf8, valid_utf8};

use crate::ascii::{alphanumeric, is_ascii_alphanumeric, HYPHEN, NEWLINE, UNDERSCORE};
use crate::domain::Range;
use crate::file::{line_start, File};
use crate::indent::{blank, blanks, blanks_from};
use crate::outside::{find_bytes, occurs_at, utf8_text};
use crate::server::FunctionLikeSite;
use crate::text::{chars_of, push_between};

verus! {

/// A stretch of a file, and the text to put in its place.
#[derive(Debug)]
pub struct TextReplacement {
    pub range: Range,
    pub new_text: String,
}

/// What a [`TextReplacement`] says.
pub struct ReplacementView {
    pub range: Range,
    pub new_text: Seq<char>,
}

impl View for TextReplacement {
    type V = ReplacementView;

    open spec fn view(&self) -> ReplacementView {
        ReplacementView { range: self.range, new_text: self.new_text@ }
    }
}

// ---- The tightest declaration --------------------------------------------

/// The declaration wholly contains `start` to `end`.
pub open spec fn site_contains(site: FunctionLikeSite, start: u32, end: u32) -> bool {
    site.span.start <= start && end <= site.span.end
}

/// Every declaration that contains `start` to `end` has a length. That is so of
/// any row of declarations when `start` is not past `end`.
pub open spec fn lengths_known(sites: Seq<FunctionLikeSite>, start: u32, end: u32) -> bool {
    forall|i: int|
        0 <= i < sites.len() && site_contains(#[trigger] sites[i], start, end)
            ==> sites[i].span.start <= sites[i].span.end
}

/// The first of the shortest among the first `count` declarations that contain
/// `start` to `end`.
pub open spec fn innermost_site(
    sites: Seq<FunctionLikeSite>,
    start: u32,
    end: u32,
    count: int,
) -> Option<FunctionLikeSite>
    decreases count,
{
    if count <= 0 {
        None
    } else {
        let best = innermost_site(sites, start, end, count - 1);
        let last = sites[count - 1];
        if site_contains(last, start, end) && (best is None || last.span.end - last.span.start
            < best->0.span.end - best->0.span.start) {
            Some(last)
        } else {
            best
        }
    }
}

/// What [`innermost_site`] finds contains the stretch, and no declaration that
/// does is shorter.
pub proof fn law_innermost_site_is_tightest(
    sites: Seq<FunctionLikeSite>,
    start: u32,
    end: u32,
    count: int,
)
    requires
        0 <= count <= sites.len(),
    ensures
        match innermost_site(sites, start, end, count) {
            Some(site) => site_contains(site, start, end) && forall|i: int|
                0 <= i < count && site_contains(#[trigger] sites[i], start, end) ==> site.span.end
                    - site.span.start <= sites[i].span.end - sites[i].span.start,
            None => forall|i: int|
                0 <= i < count ==> !site_contains(#[trigger] sites[i], start, end),
        },
    decreases count,
{
    if count > 0 {
        law_innermost_site_is_tightest(sites, start, end, count - 1);
    }
}

/// The tightest function-like declaration wholly containing `start` to `end`.
///
/// Innermost rather than first so that a cursor inside a method of a class
/// resolves to the method, and a nested declaration wins over its parent.
pub fn innermost_function_like(sites: &[FunctionLikeSite], start: u32, end: u32) -> (found: Option<
    FunctionLikeSite,
>)
    requires
        lengths_known(sites@, start, end),
    ensures
        found == innermost_site(sites@, start, end, sites@.len() as int),
{
    let mut best: Option<FunctionLikeSite> = None;
    let mut i: usize = 0;
    while i < sites.len()
        invariant
            i <= sites@.len(),
            lengths_known(sites@, start, end),
            best == innermost_site(sites@, start, end, i as int),
            best matches Some(site) ==> site.span.start <= site.span.end,
        decreases sites.len() - i,
    {
        let site = sites[i];
        assert(sites@[i as int] == site);
        if site.span.start <= start && end <= site.span.end {
            let shorter = match best {
                Some(best) => site.span.end - site.span.start < best.span.end - best.span.start,
                None => true,
            };
            if shorter {
                best = Some(site);
            }
        }
        i += 1;
    }
    best
}

// ---- Existing tags -------------------------------------------------------

/// The bytes of `@return`.
pub open spec fn return_word() -> Seq<u8> {
    seq![0x40u8, 0x72u8, 0x65u8, 0x74u8, 0x75u8, 0x72u8, 0x6eu8]
}

/// A byte that makes a longer word of the tag beside it.
pub open spec fn tag_byte(byte: u8) -> bool {
    alphanumeric(byte) || byte == HYPHEN || byte == UNDERSCORE
}

/// A `@return` tag stands at `at`, and not inside a longer word.
pub open spec fn return_tag_at(docblock: Seq<u8>, at: int) -> bool {
    &&& occurs_at(docblock, return_word(), at)
    &&& at == 0 || !tag_byte(docblock[at - 1])
    &&& at + 7 == docblock.len() || !tag_byte(docblock[at + 7])
}

/// The docblock carries a `@return` tag.
pub open spec fn has_return_tag(docblock: Seq<u8>) -> bool {
    exists|at: int| return_tag_at(docblock, at)
}

/// Two occurrences of `@return` do not overlap.
proof fn lemma_return_words_apart(docblock: Seq<u8>, one: int, other: int)
    requires
        occurs_at(docblock, return_word(), one),
        occurs_at(docblock, return_word(), other),
        one < other,
    ensures
        one + 7 <= other,
{
    let word = return_word();
    if other < one + 7 {
        assert(docblock.subrange(one, one + 7)[other - one] == word[other - one]);
        assert(docblock.subrange(other, other + 7)[0] == word[0]);
    }
}

fn is_tag_byte(byte: u8) -> (yes: bool)
    ensures
        yes == tag_byte(byte),
{
    is_ascii_alphanumeric(byte) || byte == HYPHEN || byte == UNDERSCORE
}

/// Whether a docblock already carries a `@return` tag.
///
/// Matched on a word boundary so `@returns` (which the analyzer does not honour)
/// and prose mentioning `@return` inside a longer word do not count as one.
pub fn contains_return_tag(docblock: &[u8]) -> (yes: bool)
    ensures
        yes == has_return_tag(docblock@),
{
    let word: [u8; 7] = [0x40, 0x72, 0x65, 0x74, 0x75, 0x72, 0x6e];
    assert(word@ =~= return_word());
    let mut from: usize = 0;
    let mut haystack: &[u8] = docblock;
    assert(docblock@.skip(0) =~= docblock@);
    loop
        invariant
            word@ == return_word(),
            from <= docblock@.len() == docblock.len(),
            haystack@ == docblock@.skip(from as int),
            forall|at: int| return_tag_at(docblock@, at) ==> at >= from,
        decreases docblock@.len() - from,
    {
        let at: usize = match find_bytes(haystack, word.as_slice()) {
            Some(at) => at,
            None => {
                proof {
                    if has_return_tag(docblock@) {
                        let at = choose|at: int| return_tag_at(docblock@, at);
                        assert(haystack@.subrange(at - from, at - from + 7)
                            =~= docblock@.subrange(at, at + 7));
                        assert(occurs_at(haystack@, return_word(), at - from));
                    }
                }
                return false;
            },
        };
        let ghost found = from + at;
        proof {
            assert(haystack@.subrange(at as int, at + 7) =~= docblock@.subrange(found, found + 7));
            assert(occurs_at(docblock@, return_word(), found));
            assert forall|other: int| return_tag_at(docblock@, other) implies other >= found by {
                assert(haystack@.subrange(other - from, other - from + 7) =~= docblock@.subrange(
                    other,
                    other + 7,
                ));
                if other < found {
                    assert(occurs_at(haystack@, return_word(), other - from));
                }
            }
        }
        let after: usize = at + 7;
        assert(found < docblock.len());
        let opens = from + at == 0 || !is_tag_byte(docblock[from + at - 1]);
        let closes = after >= haystack.len() || !is_tag_byte(haystack[after]);
        if opens && closes {
            assert(return_tag_at(docblock@, found));
            return true;
        }
        proof {
            assert(!return_tag_at(docblock@, found));
            assert forall|other: int| return_tag_at(docblock@, other) implies other >= from
                + after by {
                lemma_return_words_apart(docblock@, found, other);
            }
            assert(haystack@.subrange(after as int, haystack@.len() as int) =~= docblock@.skip(
                from + after,
            ));
        }
        haystack = vstd::slice::slice_subrange(haystack, after, haystack.len());
        from = from + after;
    }
}

// ---- Trimming ------------------------------------------------------------

/// The characters with the Unicode property White_Space.
pub open spec fn white_space(c: char) -> bool {
    ||| '\u{9}' <= c <= '\u{d}'
    ||| c == ' '
    ||| c == '\u{85}'
    ||| c == '\u{a0}'
    ||| c == '\u{1680}'
    ||| '\u{2000}' <= c <= '\u{200a}'
    ||| c == '\u{2028}'
    ||| c == '\u{2029}'
    ||| c == '\u{202f}'
    ||| c == '\u{205f}'
    ||| c == '\u{3000}'
}

/// `text` without the white space at its end.
pub open spec fn trimmed_end(text: Seq<char>) -> Seq<char>
    decreases text.len(),
{
    if text.len() > 0 && white_space(text.last()) {
        trimmed_end(text.drop_last())
    } else {
        text
    }
}

/// `text` without the white space at its ends.
pub open spec fn trimmed(text: Seq<char>) -> Seq<char>
    decreases text.len(),
{
    if text.len() > 0 && white_space(text[0]) {
        trimmed(text.drop_first())
    } else {
        trimmed_end(text)
    }
}

fn is_white_space(c: char) -> (yes: bool)
    ensures
        yes == white_space(c),
{
    ('\u{9}' <= c && c <= '\u{d}') || c == ' ' || c == '\u{85}' || c == '\u{a0}' || c == '\u{1680}'
        || ('\u{2000}' <= c && c <= '\u{200a}') || c == '\u{2028}' || c == '\u{2029}' || c
        == '\u{202f}' || c == '\u{205f}' || c == '\u{3000}'
}

/// Where the text between `from` and `to` begins and ends without the white space
/// at its ends.
fn trim_between(chars: &[char], from: usize, to: usize) -> (bounds: (usize, usize))
    requires
        from <= to <= chars@.len(),
    ensures
        from <= bounds.0 <= bounds.1 <= to,
        chars@.subrange(bounds.0 as int, bounds.1 as int) == trimmed(
            chars@.subrange(from as int, to as int),
        ),
{
    let ghost goal = trimmed(chars@.subrange(from as int, to as int));
    let mut start: usize = from;
    while start < to && is_white_space(chars[start])
        invariant
            from <= start <= to <= chars@.len(),
            goal == trimmed(chars@.subrange(start as int, to as int)),
        decreases to - start,
    {
        assert(chars@.subrange(start as int, to as int).drop_first() =~= chars@.subrange(
            start + 1,
            to as int,
        ));
        start += 1;
    }
    let mut end: usize = to;
    assert(goal == trimmed_end(chars@.subrange(start as int, to as int)));
    while end > start && is_white_space(chars[end - 1])
        invariant
            from <= start <= end <= to <= chars@.len(),
            goal == trimmed_end(chars@.subrange(start as int, end as int)),
        decreases end,
    {
        assert(chars@.subrange(start as int, end as int).drop_last() =~= chars@.subrange(
            start as int,
            end - 1,
        ));
        end -= 1;
    }
    (start, end)
}

// ---- The edit ------------------------------------------------------------

/// What stands between `/**` and `*/` of a docblock, without the white space at
/// its ends.
pub open spec fn docblock_body(text: Seq<char>) -> Option<Seq<char>> {
    if text.len() >= 5 && text.take(3) == "/**"@ && text.skip(text.len() - 2) == "*/"@ {
        Some(trimmed(text.subrange(3, text.len() - 2)))
    } else {
        None
    }
}

/// A docblock of several lines that says `body`, if that is anything, and
/// `@return rendered`.
pub open spec fn reflowed(indent: Seq<char>, body: Seq<char>, rendered: Seq<char>) -> Seq<char> {
    let said = if body.len() > 0 {
        indent + " * "@ + body + "\n"@
    } else {
        Seq::empty()
    };
    indent + "/**\n"@ + said + indent + " * @return "@ + rendered + "\n"@ + indent + " */"@
}

/// The edit for a declaration under a docblock that takes up `range`.
pub open spec fn tag_in_docblock(
    contents: Seq<u8>,
    range: Range,
    indent: Seq<char>,
    rendered: Seq<char>,
) -> Option<ReplacementView> {
    let docblock = contents.subrange(range.start as int, range.end as int);
    if !(range.start <= range.end <= contents.len()) || has_return_tag(docblock) || !valid_utf8(
        docblock,
    ) {
        None
    } else if docblock.contains(NEWLINE) {
        let closing = range.start + line_start(docblock, docblock.len() as int);
        Some(
            ReplacementView {
                range: Range { start: closing as u32, end: closing as u32 },
                new_text: blanks(contents, closing, contents.len() as int) + "* @return "@
                    + rendered + "\n"@,
            },
        )
    } else {
        match docblock_body(decode_utf8(docblock)) {
            Some(body) => Some(
                ReplacementView { range, new_text: reflowed(indent, body, rendered) },
            ),
            None => None,
        }
    }
}

/// The edit that records `@return rendered` for `site`: a docblock of its own
/// above the declaration where there is none, else a tag in the one there is,
/// unless that has a `@return` tag already.
pub open spec fn tag_edit(
    contents: Seq<u8>,
    site: FunctionLikeSite,
    rendered: Seq<char>,
) -> Option<ReplacementView> {
    let start = line_start(contents, site.span.start as int);
    let indent = blanks(contents, start, contents.len() as int);
    match site.docblock {
        Some(range) => tag_in_docblock(contents, range, indent, rendered),
        None => Some(
            ReplacementView {
                range: Range { start: start as u32, end: start as u32 },
                new_text: indent + "/** @return "@ + rendered + " */\n"@,
            },
        ),
    }
}

/// [`docblock_body`] of a text: where the body begins and ends.
fn body_bounds(chars: &Vec<char>) -> (bounds: Option<(usize, usize)>)
    ensures
        match bounds {
            Some((start, end)) => start <= end <= chars@.len() && docblock_body(chars@) == Some(
                chars@.subrange(start as int, end as int),
            ),
            None => docblock_body(chars@) is None,
        },
{
    let length: usize = chars.len();
    proof {
        reveal_strlit("/**");
        reveal_strlit("*/");
    }
    if length < 5 {
        return None;
    }
    let opens = chars[0] == '/' && chars[1] == '*' && chars[2] == '*';
    let closes = chars[length - 2] == '*' && chars[length - 1] == '/';
    proof {
        let head = chars@.take(3);
        let tail = chars@.skip(length - 2);
        assert(head[0] == chars@[0] && head[1] == chars@[1] && head[2] == chars@[2]);
        assert(tail[0] == chars@[length - 2] && tail[1] == chars@[length - 1]);
        assert(opens ==> head =~= "/**"@);
        assert(closes ==> tail =~= "*/"@);
    }
    if !opens || !closes {
        return None;
    }
    Some(trim_between(chars.as_slice(), 3, length - 2))
}

/// A docblock of several lines with the body between `from` and `to`.
fn reflow(indent: &str, chars: &Vec<char>, from: usize, to: usize, rendered: &str) -> (text: String)
    requires
        from <= to <= chars@.len(),
    ensures
        text@ == reflowed(indent@, chars@.subrange(from as int, to as int), rendered@),
{
    let mut text = indent.to_string();
    text.append("/**\n");
    if from < to {
        text.append(indent);
        text.append(" * ");
        push_between(&mut text, chars.as_slice(), from, to);
        text.append("\n");
    }
    text.append(indent);
    text.append(" * @return ");
    text.append(rendered);
    text.append("\n");
    text.append(indent);
    text.append(" */");
    assert(text@ =~= reflowed(indent@, chars@.subrange(from as int, to as int), rendered@));
    text
}

/// The leading blanks of `line`.
pub fn line_indent(line: &[u8]) -> (indent: String)
    ensures
        indent@ == blanks(line@, 0, line@.len() as int),
{
    blanks_from(line, 0, line.len())
}

proof fn lemma_blanks_of_rest(contents: Seq<u8>, start: int, from: int)
    requires
        0 <= start <= contents.len(),
        0 <= from <= contents.len() - start,
    ensures
        blanks(contents.skip(start), from, contents.len() - start) == blanks(
            contents,
            start + from,
            contents.len() as int,
        ),
    decreases contents.len() - start - from,
{
    if from < contents.len() - start && blank(contents[start + from]) {
        lemma_blanks_of_rest(contents, start, from + 1);
    }
}

/// The leading blanks of the line that begins at `start`.
pub fn indent_at(contents: &[u8], start: u32) -> (indent: String)
    requires
        start <= contents@.len(),
    ensures
        indent@ == blanks(contents@, start as int, contents@.len() as int),
{
    let line: &[u8] = vstd::slice::slice_subrange(contents, start as usize, contents.len());
    proof {
        assert(line@ =~= contents@.skip(start as int));
        lemma_blanks_of_rest(contents@, start as int, 0);
    }
    line_indent(line)
}

/// Build the edit that records `@return {rendered}` for `site`, or `None` when
/// the declaration already documents a return type.
pub fn return_tag_edit(file: &File, site: &FunctionLikeSite, rendered: &str) -> (edit: Option<
    TextReplacement,
>)
    requires
        file.wf(),
    ensures
        tag_edit(file.contents@, *site, rendered@) == match edit {
            Some(edit) => Some(edit@),
            None => None,
        },
{
    let contents: &[u8] = file.contents.as_slice();
    let start: u32 = file.line_start_at(site.span.start);
    let indent = indent_at(contents, start);
    let range = match site.docblock {
        Some(range) => range,
        None => {
            // No docblock at all: introduce one on its own line above the
            // declaration, matching the declaration's indentation.
            let mut new_text = indent;
            new_text.append("/** @return ");
            new_text.append(rendered);
            new_text.append(" */\n");
            return Some(TextReplacement { range: Range::new(start, start), new_text });
        },
    };
    if range.start > range.end || range.end as usize > contents.len() {
        return None;
    }
    let docblock: &[u8] = vstd::slice::slice_subrange(
        contents,
        range.start as usize,
        range.end as usize,
    );
    if contains_return_tag(docblock) {
        return None;
    }
    let text = match utf8_text(docblock) {
        Some(text) => text,
        None => return None,
    };
    let mut closing: usize = docblock.len();
    while closing > 0 && docblock[closing - 1] != NEWLINE
        invariant
            closing <= docblock@.len(),
            line_start(docblock@, docblock@.len() as int) == line_start(docblock@, closing as int),
            forall|k: int| closing <= k < docblock@.len() ==> docblock@[k] != NEWLINE,
        decreases closing,
    {
        closing -= 1;
    }
    if closing > 0 {
        // Multi-line: splice a tag line in ahead of the closing delimiter, taking
        // the star column from the closing line so the block stays aligned
        // however the author indented it.
        assert(docblock@[closing - 1] == NEWLINE);
        let closing_start: u32 = range.start + closing as u32;
        let mut new_text = indent_at(contents, closing_start);
        new_text.append("* @return ");
        new_text.append(rendered);
        new_text.append("\n");
        return Some(
            TextReplacement { range: Range::new(closing_start, closing_start), new_text },
        );
    }
    assert(!docblock@.contains(NEWLINE));
    // Single-line: a tag has to start its own line to parse, so the block is
    // reflowed rather than appended to.
    let chars = chars_of(text);
    match body_bounds(&chars) {
        Some((from, to)) => Some(
            TextReplacement { range, new_text: reflow(indent.as_str(), &chars, from, to, rendered) },
        ),
        None => None,
    }
}

/// A declaration that documents its return type is left alone.
pub proof fn law_documented_return_is_left_alone(
    contents: Seq<u8>,
    site: FunctionLikeSite,
    docblock: Range,
    rendered: Seq<char>,
)
    requires
        site.docblock == Some(docblock),
        has_return_tag(contents.subrange(docblock.start as int, docblock.end as int)),
    ensures
        tag_edit(contents, site, rendered) is None,
{
}

/// Nothing is deleted, except where a docblock of one line is reflowed.
pub proof fn law_tag_is_inserted(contents: Seq<u8>, site: FunctionLikeSite, rendered: Seq<char>)
    ensures
        tag_edit(contents, site, rendered) matches Some(edit) ==> edit.range.start
            == edit.range.end || site.docblock == Some(edit.range),
{
}

} // verus!
