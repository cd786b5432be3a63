//! Inferred types as PHPDoc text.

use vstd::prelude::*;
use vstd::utf8::{encode_scalar, encode_utf8};

use crate::text::{chars_of, push_between, same_text};

verus! {

// ---- Literal wrappers ----------------------------------------------------

/// A character that can appear inside a PHPDoc type name.
pub open spec fn type_name_char(c: char) -> bool {
    ||| 'a' <= c <= 'z'
    ||| 'A' <= c <= 'Z'
    ||| '0' <= c <= '9'
    ||| c == '_'
    ||| c == '-'
    ||| c == '\\'
}

/// `word` stands in `text` at `at`.
pub open spec fn spells_at(text: Seq<char>, at: int, word: Seq<char>) -> bool {
    0 <= at <= text.len() - word.len() && text.subrange(at, at + word.len()) == word
}

/// Where `word` first stands in `text`, at or behind `from`.
pub open spec fn first_spelling(text: Seq<char>, from: int, word: Seq<char>) -> Option<int>
    decreases text.len() - from,
{
    if from < 0 || from >= text.len() {
        None
    } else if spells_at(text, from, word) {
        Some(from)
    } else {
        first_spelling(text, from + 1, word)
    }
}

/// The literal-scalar wrapper that starts at `index`: where its source text
/// begins, where that ends, and where the wrapper ends.
///
/// Only a token boundary starts a wrapper, so the `string(` tail of
/// `lowercase-string(` is not mistaken for one. A literal string keeps its
/// quotes, and ends at the pair `')`, so a `)` inside it does not end it early.
pub open spec fn wrapper_at(text: Seq<char>, index: int) -> Option<(int, int, int)> {
    if index > 0 && type_name_char(text[index - 1]) {
        None
    } else if spells_at(text, index, "string('"@) {
        match first_spelling(text, index + 8, "')"@) {
            Some(close) => Some((index + 7, close + 1, close + 2)),
            None => None,
        }
    } else if spells_at(text, index, "int("@) {
        match first_spelling(text, index + 4, ")"@) {
            Some(close) => Some((index + 4, close, close + 1)),
            None => None,
        }
    } else if spells_at(text, index, "float("@) {
        match first_spelling(text, index + 6, ")"@) {
            Some(close) => Some((index + 6, close, close + 1)),
            None => None,
        }
    } else {
        None
    }
}

/// `text` from `index` on, with quoted runs left as they are and literal
/// wrappers replaced by their source text, and whether any was replaced. `None`
/// when a quoted run does not end.
pub open spec fn unwrapped_from(text: Seq<char>, index: int) -> Option<(Seq<char>, bool)>
    decreases text.len() - index,
{
    if index < 0 || index >= text.len() {
        Some((Seq::empty(), false))
    } else if text[index] == '\'' {
        proof {
            lemma_quote_ends_inside(text, index);
        }
        match first_spelling(text, index + 1, "'"@) {
            Some(close) => match unwrapped_from(text, close + 1) {
                Some((rest, changed)) => Some((text.subrange(index, close + 1) + rest, changed)),
                None => None,
            },
            None => None,
        }
    } else {
        proof {
            lemma_wrapper_lies_inside(text, index);
        }
        match wrapper_at(text, index) {
            Some((from, to, after)) => match unwrapped_from(text, after) {
                Some((rest, _)) => Some((text.subrange(from, to) + rest, true)),
                None => None,
            },
            None => match unwrapped_from(text, index + 1) {
                Some((rest, changed)) => Some((seq![text[index]] + rest, changed)),
                None => None,
            },
        }
    }
}

/// `text` with its literal wrappers replaced by their source text; `None` when
/// there are none, or when a quoted run does not end.
pub open spec fn literal_form(text: Seq<char>) -> Option<Seq<char>> {
    match unwrapped_from(text, 0) {
        Some((form, changed)) => if changed {
            Some(form)
        } else {
            None
        },
        None => None,
    }
}

proof fn lemma_first_spelling(text: Seq<char>, from: int, word: Seq<char>)
    requires
        0 <= from,
        word.len() > 0,
    ensures
        match first_spelling(text, from, word) {
            Some(at) => from <= at && spells_at(text, at, word) && forall|i: int|
                from <= i < at ==> !spells_at(text, i, word),
            None => forall|i: int| from <= i ==> !spells_at(text, i, word),
        },
    decreases text.len() - from,
{
    if from < text.len() && !spells_at(text, from, word) {
        lemma_first_spelling(text, from + 1, word);
    }
}

/// A quoted run that ends does so inside the text.
pub proof fn lemma_quote_ends_inside(text: Seq<char>, index: int)
    requires
        0 <= index,
    ensures
        first_spelling(text, index + 1, "'"@) matches Some(close) ==> index < close < text.len(),
{
    reveal_strlit("'");
    lemma_first_spelling(text, index + 1, "'"@);
}

/// A wrapper and its source text lie inside the text.
pub proof fn lemma_wrapper_lies_inside(text: Seq<char>, index: int)
    requires
        0 <= index,
    ensures
        wrapper_at(text, index) matches Some((from, to, after)) ==> index < from <= to < after
            <= text.len(),
{
    reveal_strlit("string('");
    reveal_strlit("')");
    reveal_strlit("int(");
    reveal_strlit("float(");
    reveal_strlit(")");
    lemma_first_spelling(text, index + 8, "')"@);
    lemma_first_spelling(text, index + 4, ")"@);
    lemma_first_spelling(text, index + 6, ")"@);
}

/// Whether `c` can appear inside a PHPDoc type name, used to tell a real `int(`
/// wrapper from the tail of a longer name.
pub fn is_type_name_char(c: char) -> (yes: bool)
    ensures
        yes == type_name_char(c),
{
    ('a' <= c && c <= 'z') || ('A' <= c && c <= 'Z') || ('0' <= c && c <= '9') || c == '_' || c
        == '-' || c == '\\'
}

/// Does `word` stand in `text` at `at`?
fn stands_at(text: &[char], at: usize, word: &[char]) -> (yes: bool)
    ensures
        yes == spells_at(text@, at as int, word@),
{
    if word.len() > text.len() || at > text.len() - word.len() {
        return false;
    }
    let mut i: usize = 0;
    while i < word.len()
        invariant
            i <= word@.len(),
            at + word@.len() <= text.len(),
            forall|k: int| 0 <= k < i ==> text@[at + k] == word@[k],
        decreases word.len() - i,
    {
        if text[at + i] != word[i] {
            assert(text@.subrange(at as int, at + word@.len())[i as int] != word@[i as int]);
            return false;
        }
        i += 1;
    }
    assert(text@.subrange(at as int, at + word@.len()) =~= word@);
    true
}

/// Where `word` first stands in `text`, at or behind `from`.
fn find_from(text: &[char], from: usize, word: &[char]) -> (at: Option<usize>)
    ensures
        first_spelling(text@, from as int, word@) == match at {
            Some(at) => Some(at as int),
            None => None,
        },
{
    let mut i: usize = from;
    while i < text.len()
        invariant
            from <= i,
            first_spelling(text@, from as int, word@) == first_spelling(text@, i as int, word@),
        decreases text@.len() - i,
    {
        if stands_at(text, i, word) {
            return Some(i);
        }
        i += 1;
    }
    None
}

/// The extent of the source text, and the end, of the literal-scalar wrapper
/// starting at `index`, if one starts there.
pub fn literal_wrapper_at(rendered: &[char], index: usize) -> (wrapper: Option<
    (usize, usize, usize),
>)
    requires
        index <= rendered@.len(),
    ensures
        wrapper_at(rendered@, index as int) == match wrapper {
            Some((from, to, after)) => Some((from as int, to as int, after as int)),
            None => None,
        },
        wrapper matches Some((from, to, after)) ==> index < from <= to < after
            <= rendered@.len(),
{
    proof {
        reveal_strlit("string('");
        reveal_strlit("')");
        reveal_strlit("int(");
        reveal_strlit("float(");
        reveal_strlit(")");
        lemma_wrapper_lies_inside(rendered@, index as int);
    }
    assert(rendered@.len() == rendered.len());
    if index > 0 && is_type_name_char(rendered[index - 1]) {
        return None;
    }
    let string_open: [char; 8] = ['s', 't', 'r', 'i', 'n', 'g', '(', '\''];
    let string_close: [char; 2] = ['\'', ')'];
    let int_open: [char; 4] = ['i', 'n', 't', '('];
    let float_open: [char; 6] = ['f', 'l', 'o', 'a', 't', '('];
    let close: [char; 1] = [')'];
    assert(string_open@ =~= "string('"@);
    assert(string_close@ =~= "')"@);
    assert(int_open@ =~= "int("@);
    assert(float_open@ =~= "float("@);
    assert(close@ =~= ")"@);
    if stands_at(rendered, index, string_open.as_slice()) {
        proof {
            lemma_first_spelling(rendered@, index + 8, "')"@);
        }
        return match find_from(rendered, index + 8, string_close.as_slice()) {
            Some(at) => Some((index + 7, at + 1, at + 2)),
            None => None,
        };
    }
    if stands_at(rendered, index, int_open.as_slice()) {
        proof {
            lemma_first_spelling(rendered@, index + 4, ")"@);
        }
        return match find_from(rendered, index + 4, close.as_slice()) {
            Some(at) => Some((index + 4, at, at + 1)),
            None => None,
        };
    }
    if stands_at(rendered, index, float_open.as_slice()) {
        proof {
            lemma_first_spelling(rendered@, index + 6, ")"@);
        }
        return match find_from(rendered, index + 6, close.as_slice()) {
            Some(at) => Some((index + 6, at, at + 1)),
            None => None,
        };
    }
    None
}

/// Rewrite the literal-scalar wrappers of a rendered type into the source syntax
/// PHPDoc actually uses: `string('pro')` to `'pro'`, `int(3)` to `3`, and
/// `float(0.5)` to `0.5`.
///
/// Returns `None` when there is nothing to rewrite, so the caller does not test
/// the same candidate twice.
///
/// Rendering does not escape quotes inside a literal string, so its output is
/// genuinely ambiguous for a string containing `')`. This scans quoted runs as
/// opaque and gives up rather than guessing; anything it still gets wrong is
/// caught when the candidate is read back.
pub fn phpdoc_literal_form(rendered: &str) -> (form: Option<String>)
    ensures
        literal_form(rendered@) == match form {
            Some(form) => Some(form@),
            None => None,
        },
{
    let chars = chars_of(rendered);
    let text: &[char] = chars.as_slice();
    let mut out = String::new();
    let mut index: usize = 0;
    let mut rewrote: bool = false;
    let quote: [char; 1] = ['\''];
    proof {
        reveal_strlit("'");
    }
    assert(quote@ =~= "'"@);
    proof {
        if let Some((rest, changed)) = unwrapped_from(text@, 0) {
            assert(Seq::<char>::empty() + rest =~= rest);
        }
    }
    while index < text.len()
        invariant
            index <= text@.len(),
            quote@ == "'"@,
            "'"@.len() == 1,
            match unwrapped_from(text@, index as int) {
                Some((rest, changed)) => unwrapped_from(text@, 0) == Some(
                    (out@ + rest, rewrote || changed),
                ),
                None => unwrapped_from(text@, 0) is None,
            },
            text@ == rendered@,
        decreases text@.len() - index,
    {
        let ghost before = out@;
        // A quoted run is the author's data, not type syntax: copy it verbatim
        // so a shape key like `'int('` is never read as a wrapper.
        if text[index] == '\'' {
            proof {
                lemma_first_spelling(text@, index + 1, "'"@);
            }
            let close: usize = match find_from(text, index + 1, quote.as_slice()) {
                Some(close) => close,
                None => return None,
            };
            push_between(&mut out, text, index, close + 1);
            proof {
                if let Some((rest, changed)) = unwrapped_from(text@, close + 1) {
                    assert(before + (text@.subrange(index as int, close + 1) + rest) =~= out@
                        + rest);
                }
            }
            index = close + 1;
        } else if let Some((from, to, after)) = literal_wrapper_at(text, index) {
            push_between(&mut out, text, from, to);
            proof {
                if let Some((rest, changed)) = unwrapped_from(text@, after as int) {
                    assert(before + (text@.subrange(from as int, to as int) + rest) =~= out@
                        + rest);
                }
            }
            index = after;
            rewrote = true;
        } else {
            let character = text[index];
            out.push(character);
            proof {
                if let Some((rest, changed)) = unwrapped_from(text@, index + 1) {
                    assert(before + (seq![character] + rest) =~= out@ + rest);
                }
            }
            index += 1;
        }
    }
    assert(out@ + Seq::<char>::empty() =~= out@);
    if rewrote {
        Some(out)
    } else {
        None
    }
}

/// Text in which no wrapper starts is left alone.
pub proof fn law_nothing_to_rewrite(text: Seq<char>)
    requires
        forall|index: int| 0 <= index < text.len() ==> wrapper_at(text, index) is None,
    ensures
        literal_form(text) is None,
{
    lemma_unchanged_from(text, 0);
}

proof fn lemma_unchanged_from(text: Seq<char>, index: int)
    requires
        0 <= index,
        forall|at: int| 0 <= at < text.len() ==> wrapper_at(text, at) is None,
    ensures
        unwrapped_from(text, index) matches Some((form, changed)) ==> !changed,
    decreases text.len() - index,
{
    if index < text.len() {
        lemma_quote_ends_inside(text, index);
        if text[index] != '\'' {
            lemma_unchanged_from(text, index + 1);
        } else if let Some(close) = first_spelling(text, index + 1, "'"@) {
            lemma_unchanged_from(text, close + 1);
        }
    }
}

// ---- Choosing a rendering ------------------------------------------------

/// A type that the analyzer inferred, with the renderings that can stand for it.
#[derive(Debug)]
pub struct InferredType {
    /// The type says nothing at all.
    pub is_mixed: bool,
    /// How the analyzer renders the type.
    pub id: String,
    /// How it renders the type with its literals widened away.
    pub widened_id: String,
}

/// What a text parses to as a PHPDoc type. A text that does not parse has no
/// entry.
#[derive(Debug)]
pub struct Reread {
    pub text: String,
    /// How the analyzer renders the type that `text` denotes.
    pub id: String,
}

/// `text`, parsed as a PHPDoc type, yields exactly the type rendered as `id`.
pub open spec fn reads_back(rereads: Seq<Reread>, text: Seq<char>, id: Seq<char>) -> bool {
    exists|i: int|
        0 <= i < rereads.len() && (#[trigger] rereads[i]).text@ == text && rereads[i].id@ == id
}

/// The most precise rendering of the type rendered as `id` that reads back as
/// that type.
pub open spec fn faithful(rereads: Seq<Reread>, id: Seq<char>) -> Option<Seq<char>> {
    match literal_form(id) {
        Some(form) if reads_back(rereads, form, id) => Some(form),
        _ => if reads_back(rereads, id, id) {
            Some(id)
        } else {
            None
        },
    }
}

/// The text for a `@return` tag: a faithful rendering of the type, else of the
/// type widened, and none for a type that says nothing.
pub open spec fn docblock_text(rereads: Seq<Reread>, ty: InferredType) -> Option<Seq<char>> {
    if ty.is_mixed {
        None
    } else {
        match faithful(rereads, ty.id@) {
            Some(text) => Some(text),
            None => faithful(rereads, ty.widened_id@),
        }
    }
}

/// Whether `text`, parsed as a PHPDoc type, yields exactly `expected`.
///
/// This is the guarantee the whole rendering path rests on. Parsing alone is
/// not enough: `string('pro')` parses cleanly and silently degrades to
/// `string`, so fidelity has to be checked against the type itself rather than
/// against the parser's willingness to accept the text.
pub fn reads_back_as(rereads: &[Reread], text: &str, expected: &str) -> (yes: bool)
    ensures
        yes == reads_back(rereads@, text@, expected@),
{
    let mut i: usize = 0;
    while i < rereads.len()
        invariant
            i <= rereads@.len(),
            forall|k: int|
                0 <= k < i ==> !((#[trigger] rereads@[k]).text@ == text@ && rereads@[k].id@
                    == expected@),
        decreases rereads.len() - i,
    {
        let reread = &rereads[i];
        if same_text(reread.text.as_str(), text) && same_text(reread.id.as_str(), expected) {
            assert(rereads@[i as int].text@ == text@);
            return true;
        }
        i += 1;
    }
    false
}

/// The texts that [`faithful_rendering`] considers for the type rendered as
/// `id`, the most precise first.
pub fn rendering_candidates(id: &str) -> (candidates: Vec<String>)
    ensures
        match literal_form(id@) {
            Some(form) => candidates@.len() == 2 && candidates@[0]@ == form && candidates@[1]@
                == id@,
            None => candidates@.len() == 1 && candidates@[0]@ == id@,
        },
{
    let mut candidates: Vec<String> = Vec::new();
    if let Some(form) = phpdoc_literal_form(id) {
        candidates.push(form);
    }
    candidates.push(id.to_string());
    candidates
}

/// The most precise rendering of a type that reads back as that type, if either
/// candidate does.
pub fn faithful_rendering(rereads: &[Reread], id: &str) -> (text: Option<String>)
    ensures
        faithful(rereads@, id@) == match text {
            Some(text) => Some(text@),
            None => None,
        },
{
    if let Some(form) = phpdoc_literal_form(id) {
        if reads_back_as(rereads, form.as_str(), id) {
            return Some(form);
        }
    }
    if reads_back_as(rereads, id, id) {
        Some(id.to_string())
    } else {
        None
    }
}

/// Render `ty` as text fit for a `@return` tag, or `None` when it says nothing
/// worth writing down.
///
/// The analyzer's rendering is made for messages, and it is not PHPDoc source: a
/// literal string renders as `string('pro')`, which the type parser accepts but
/// reads back as plain `string`, and a literal nested in a shape renders as
/// `array{'a': int(1)}`, which it rejects outright. Emitting either would
/// quietly weaken or destroy the very type there is to record.
///
/// So nothing is offered on trust. Each candidate is parsed back and compared
/// with the type it came from, and only a candidate that reproduces it exactly
/// is used. Candidates are tried most precise first: the literal-corrected
/// rendering, then the raw rendering, then the same two with literals widened
/// away. When none survives, there is no text at all — a docblock that lies
/// about the type is worse than no docblock.
pub fn render_docblock_type(rereads: &[Reread], ty: &InferredType) -> (text: Option<String>)
    ensures
        docblock_text(rereads@, *ty) == match text {
            Some(text) => Some(text@),
            None => None,
        },
{
    if ty.is_mixed {
        return None;
    }
    if let Some(text) = faithful_rendering(rereads, ty.id.as_str()) {
        return Some(text);
    }
    // A precise type that cannot be expressed is still worth something widened:
    // `@return list<string>` beats saying nothing about a `list{'a', 'b'}`.
    faithful_rendering(rereads, ty.widened_id.as_str())
}

/// Whatever text is offered reads back as the type it was made from, or as that
/// type with its literals widened.
pub proof fn law_offered_text_is_faithful(rereads: Seq<Reread>, ty: InferredType)
    ensures
        docblock_text(rereads, ty) matches Some(text) ==> !ty.is_mixed && (reads_back(
            rereads,
            text,
            ty.id@,
        ) || reads_back(rereads, text, ty.widened_id@)),
{
}

/// Literals are widened away only when no precise rendering reads back.
pub proof fn law_precise_text_comes_first(rereads: Seq<Reread>, ty: InferredType, form: Seq<char>)
    requires
        !ty.is_mixed,
        form == ty.id@ || literal_form(ty.id@) == Some(form),
        reads_back(rereads, form, ty.id@),
    ensures
        docblock_text(rereads, ty) matches Some(text) && reads_back(rereads, text, ty.id@),
{
}

// ---- Titles --------------------------------------------------------------

/// The most bytes of a type that a title shows.
pub const TITLE_LIMIT: usize = 60;

/// The longest beginning of `text` that takes at most `limit` bytes.
pub open spec fn prefix_within(text: Seq<char>, limit: int) -> Seq<char>
    decreases text.len(),
{
    if text.len() == 0 || encode_scalar(text[0] as u32).len() > limit {
        Seq::empty()
    } else {
        seq![text[0]] + prefix_within(
            text.drop_first(),
            limit - encode_scalar(text[0] as u32).len(),
        )
    }
}

/// `text`, cut short behind its first [`TITLE_LIMIT`] bytes.
pub open spec fn abbreviated(text: Seq<char>) -> Seq<char> {
    if encode_utf8(text).len() <= TITLE_LIMIT {
        text
    } else {
        prefix_within(text, TITLE_LIMIT as int) + "..."@
    }
}

/// [`prefix_within`] is a beginning of the text, it keeps to the limit, and with
/// one character more it would not.
pub proof fn law_title_keeps_the_longest_beginning(text: Seq<char>, limit: int)
    requires
        0 <= limit,
    ensures
        ({
            let prefix = prefix_within(text, limit);
            &&& prefix.len() <= text.len()
            &&& prefix == text.take(prefix.len() as int)
            &&& encode_utf8(prefix).len() <= limit
            &&& prefix.len() < text.len() ==> encode_utf8(
                text.take(prefix.len() as int + 1),
            ).len() > limit
        }),
    decreases text.len(),
{
    let prefix = prefix_within(text, limit);
    if text.len() == 0 {
    } else if encode_scalar(text[0] as u32).len() > limit {
        assert(text.take(1).drop_first() =~= Seq::empty());
        assert(text.take(1)[0] == text[0]);
        reveal_with_fuel(encode_utf8, 2);
    } else {
        let width = encode_scalar(text[0] as u32).len() as int;
        let rest = text.drop_first();
        law_title_keeps_the_longest_beginning(rest, limit - width);
        let tail = prefix_within(rest, limit - width);
        assert(prefix.drop_first() =~= tail);
        assert(prefix =~= text.take(prefix.len() as int));
        if prefix.len() < text.len() {
            let longer = text.take(prefix.len() as int + 1);
            assert(longer.drop_first() =~= rest.take(tail.len() as int + 1));
        }
    }
}

/// The number of bytes that `c` takes in UTF-8.
fn utf8_width(c: char) -> (width: usize)
    ensures
        width == encode_scalar(c as u32).len(),
        1 <= width <= 4,
{
    let scalar: u32 = c as u32;
    if scalar <= 0x7f {
        1
    } else if scalar <= 0x7ff {
        2
    } else if scalar <= 0xffff {
        3
    } else {
        4
    }
}

/// Shorten a rendered type for use in an action title, which editors show on a
/// single line.
pub fn abbreviate(rendered: &str) -> (title: String)
    ensures
        title@ == abbreviated(rendered@),
{
    if rendered.as_bytes().len() <= TITLE_LIMIT {
        return rendered.to_string();
    }
    let chars = chars_of(rendered);
    let mut title = String::new();
    let mut room: usize = TITLE_LIMIT;
    let mut i: usize = 0;
    assert(chars@.skip(0) =~= chars@);
    assert(Seq::<char>::empty() + prefix_within(chars@, TITLE_LIMIT as int) =~= prefix_within(
        chars@,
        TITLE_LIMIT as int,
    ));
    while i < chars.len() && utf8_width(chars[i]) <= room
        invariant
            i <= chars@.len(),
            prefix_within(chars@, TITLE_LIMIT as int) == title@ + prefix_within(
                chars@.skip(i as int),
                room as int,
            ),
        decreases chars.len() - i,
    {
        let c = chars[i];
        let ghost before = title@;
        let ghost rest = chars@.skip(i as int);
        let width: usize = utf8_width(c);
        title.push(c);
        room -= width;
        i += 1;
        proof {
            assert(rest[0] == c);
            assert(rest.drop_first() =~= chars@.skip(i as int));
            assert(before + (seq![c] + prefix_within(chars@.skip(i as int), room as int))
                =~= title@ + prefix_within(chars@.skip(i as int), room as int));
        }
    }
    assert(prefix_within(chars@.skip(i as int), room as int) =~= Seq::empty()) by {
        if i < chars@.len() {
            assert(chars@.skip(i as int)[0] == chars@[i as int]);
        }
    }
    assert(title@ + Seq::<char>::empty() =~= title@);
    title.append("...");
    title
}

} // verus!
