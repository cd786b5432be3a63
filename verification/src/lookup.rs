//! Token-at-position lookup, shared by hover, definition, rename, and semantic
//! highlighting.

use vstd::prelude::*;

use crate::ascii::{
    alphabetic, alphanumeric, equal_ignoring_case, is_ascii_alphabetic, is_ascii_alphanumeric,
    same_ignoring_case, DOLLAR, UNDERSCORE,
};
use crate::domain::Position;
use crate::file::File;
use crate::token::{token_views, RawToken, Token, TokenKind, TokenView};

verus! {

// ---- Variables -----------------------------------------------------------

/// A byte that can begin a variable's name.
pub open spec fn var_first_char(byte: u8) -> bool {
    byte == UNDERSCORE || alphabetic(byte)
}

/// A byte that can stand in a variable's name.
pub open spec fn var_char(byte: u8) -> bool {
    byte == UNDERSCORE || alphanumeric(byte)
}

/// `bytes[start..end]` is a variable: a `$`, then a name that runs on for as
/// long as it can.
pub open spec fn is_variable(bytes: Seq<u8>, start: int, end: int) -> bool {
    &&& 0 <= start
    &&& start + 1 < end <= bytes.len()
    &&& bytes[start] == DOLLAR
    &&& var_first_char(bytes[start + 1])
    &&& forall|i: int| start < i < end ==> var_char(#[trigger] bytes[i])
    &&& end == bytes.len() || !var_char(bytes[end])
}

/// `bytes[start..end]` is a variable, and `offset` is on it.
pub open spec fn variable_covers(bytes: Seq<u8>, start: int, end: int, offset: int) -> bool {
    is_variable(bytes, start, end) && start <= offset < end
}

/// The extent of the variable that `offset` is on, if it is on one.
pub open spec fn variable_extent(bytes: Seq<u8>, offset: int) -> Option<(int, int)> {
    if exists|start: int, end: int| variable_covers(bytes, start, end, offset) {
        Some(choose|start: int, end: int| variable_covers(bytes, start, end, offset))
    } else {
        None
    }
}

/// No offset is on two variables.
pub proof fn lemma_one_variable(
    bytes: Seq<u8>,
    start: int,
    end: int,
    other_start: int,
    other_end: int,
    offset: int,
)
    requires
        variable_covers(bytes, start, end, offset),
        variable_covers(bytes, other_start, other_end, offset),
    ensures
        start == other_start,
        end == other_end,
{
    if start < other_start {
        assert(var_char(bytes[other_start]));
    }
    if other_start < start {
        assert(var_char(bytes[start]));
    }
    if end < other_end {
        assert(var_char(bytes[end]));
    }
    if other_end < end {
        assert(var_char(bytes[other_end]));
    }
}

/// Variable token (`$foo`) under the cursor.
///
/// Name resolution does not track variables, so this byte-level scan handles
/// the only case it cannot.
#[derive(Debug, Clone, Copy)]
pub struct VarAtCursor<'file> {
    /// Identifier text including the leading `$`.
    pub raw: &'file [u8],
    /// Identifier text without the leading `$`.
    pub name: &'file [u8],
    pub start: u32,
    pub end: u32,
}

/// Find the variable token (`$foo`) whose span covers `offset`. Operates on
/// file bytes directly: walks back from the cursor to the `$` and forward to
/// the end of the identifier.
#[must_use]
pub fn variable_at_offset(file: &File, offset: u32) -> (var: Option<VarAtCursor<'_>>)
    requires
        file.contents@.len() <= u32::MAX,
    ensures
        match var {
            Some(var) => {
                &&& variable_covers(
                    file.contents@,
                    var.start as int,
                    var.end as int,
                    offset as int,
                )
                &&& var.raw@ == file.contents@.subrange(var.start as int, var.end as int)
                &&& var.name@ == file.contents@.subrange(var.start + 1, var.end as int)
            },
            None => forall|start: int, end: int|
                !variable_covers(file.contents@, start, end, offset as int),
        },
        variable_extent(file.contents@, offset as int) == match var {
            Some(var) => Some((var.start as int, var.end as int)),
            None => None,
        },
{
    let bytes: &[u8] = file.contents.as_slice();
    let ghost off_int = offset as int;
    let off: usize = offset as usize;
    if off >= bytes.len() {
        return None;
    }
    let dollar: usize;
    if bytes[off] == DOLLAR {
        dollar = off;
    } else if is_var_char(bytes[off]) {
        let mut s: usize = off;
        while s > 0 && is_var_char(bytes[s - 1])
            invariant
                s <= off < bytes@.len(),
                forall|i: int| s <= i <= off ==> var_char(#[trigger] bytes@[i]),
            decreases s,
        {
            s -= 1;
        }
        if s == 0 || bytes[s - 1] != DOLLAR {
            proof {
                assert forall|start: int, end: int| !variable_covers(
                    bytes@,
                    start,
                    end,
                    off_int,
                ) by {
                    if variable_covers(bytes@, start, end, off_int) {
                        if start >= s {
                            assert(var_char(bytes@[start]));
                        } else if start < s - 1 {
                            assert(var_char(bytes@[s - 1]));
                        }
                    }
                }
            }
            return None;
        }
        dollar = s - 1;
    } else {
        proof {
            assert forall|start: int, end: int| !variable_covers(bytes@, start, end, off_int) by {
                if variable_covers(bytes@, start, end, off_int) && start < off_int {
                    assert(var_char(bytes@[off_int]));
                }
            }
        }
        return None;
    }
    assert(bytes@[dollar as int] == DOLLAR);
    assert(forall|i: int| dollar < i <= off ==> var_char(#[trigger] bytes@[i]));
    let name_start: usize = dollar + 1;
    proof {
        assert forall|start: int, end: int| variable_covers(
            bytes@,
            start,
            end,
            off_int,
        ) implies start == dollar by {
            if start < dollar {
                assert(var_char(bytes@[dollar as int]));
            } else if start > dollar {
                assert(var_char(bytes@[start]));
            }
        }
    }
    if name_start >= bytes.len() || !is_var_first_char(bytes[name_start]) {
        return None;
    }
    let mut end: usize = name_start;
    while end < bytes.len() && is_var_char(bytes[end])
        invariant
            dollar < name_start <= end <= bytes@.len(),
            forall|i: int| dollar < i < end ==> var_char(#[trigger] bytes@[i]),
        decreases bytes.len() - end,
    {
        end += 1;
    }
    proof {
        assert(var_char(bytes@[name_start as int]));
        if off_int >= end {
            assert(var_char(bytes@[end as int]));
        }
        assert(variable_covers(bytes@, dollar as int, end as int, off_int));
        let found = choose|s: int, e: int| variable_covers(bytes@, s, e, off_int);
        lemma_one_variable(bytes@, dollar as int, end as int, found.0, found.1, off_int);
    }
    let raw: &[u8] = vstd::slice::slice_subrange(bytes, dollar, end);
    let name: &[u8] = vstd::slice::slice_subrange(bytes, name_start, end);
    Some(VarAtCursor { raw, name, start: dollar as u32, end: end as u32 })
}

fn is_var_first_char(byte: u8) -> (yes: bool)
    ensures
        yes == var_first_char(byte),
{
    byte == UNDERSCORE || is_ascii_alphabetic(byte)
}

fn is_var_char(byte: u8) -> (yes: bool)
    ensures
        yes == var_char(byte),
{
    byte == UNDERSCORE || is_ascii_alphanumeric(byte)
}

// ---- Identifiers ---------------------------------------------------------

/// A byte that can begin a PHP identifier.
pub open spec fn identifier_first_byte(byte: u8) -> bool {
    alphabetic(byte) || byte == UNDERSCORE || byte >= 0x80
}

/// A byte that can stand in a PHP identifier.
pub open spec fn identifier_byte(byte: u8) -> bool {
    alphanumeric(byte) || byte == UNDERSCORE || byte >= 0x80
}

/// `bytes` are shaped like a PHP identifier.
pub open spec fn identifier(bytes: Seq<u8>) -> bool {
    &&& bytes.len() > 0
    &&& identifier_first_byte(bytes[0])
    &&& forall|i: int| 0 < i < bytes.len() ==> identifier_byte(#[trigger] bytes[i])
}

/// Is `bytes` shaped like a PHP identifier? PHP allows bytes >= 0x80 in
/// identifiers, so they're accepted too.
#[must_use]
pub fn is_identifier(bytes: &[u8]) -> (yes: bool)
    ensures
        yes == identifier(bytes@),
{
    if bytes.len() == 0 {
        return false;
    }
    let first: u8 = bytes[0];
    if !(is_ascii_alphabetic(first) || first == UNDERSCORE || first >= 0x80) {
        return false;
    }
    let mut i: usize = 1;
    while i < bytes.len()
        invariant
            1 <= i <= bytes@.len(),
            forall|k: int| 0 < k < i ==> identifier_byte(#[trigger] bytes@[k]),
        decreases bytes.len() - i,
    {
        if !is_identifier_byte(bytes[i]) {
            return false;
        }
        i += 1;
    }
    true
}

/// Can `byte` stand in an identifier?
pub fn is_identifier_byte(byte: u8) -> (yes: bool)
    ensures
        yes == identifier_byte(byte),
{
    is_ascii_alphanumeric(byte) || byte == UNDERSCORE || byte >= 0x80
}

// ---- Tokens --------------------------------------------------------------

/// Whitespace and comments.
pub open spec fn trivia(kind: TokenKind) -> bool {
    ||| kind == TokenKind::Whitespace
    ||| kind == TokenKind::SingleLineComment
    ||| kind == TokenKind::HashComment
    ||| kind == TokenKind::MultiLineComment
    ||| kind == TokenKind::DocBlockComment
}

/// Tokens in the order of their starts, each ending at a 32-bit offset.
pub open spec fn tokens_ordered(tokens: Seq<TokenView>) -> bool {
    &&& forall|i: int|
        0 <= i < tokens.len() ==> (#[trigger] tokens[i]).start + tokens[i].value.len() <= u32::MAX
    &&& forall|i: int, j: int|
        0 <= i <= j < tokens.len() ==> (#[trigger] tokens[i]).start <= (#[trigger] tokens[j]).start
}

/// Tokens in order that do not overlap.
pub open spec fn tokens_apart(tokens: Seq<TokenView>) -> bool {
    &&& tokens_ordered(tokens)
    &&& forall|i: int, j: int|
        0 <= i < j < tokens.len() ==> (#[trigger] tokens[i]).start + tokens[i].value.len()
            <= (#[trigger] tokens[j]).start
}

/// The token covers `offset`.
pub open spec fn token_covers(token: TokenView, offset: int) -> bool {
    token.start <= offset < token.start + token.value.len()
}

/// The last of the first `count` tokens that starts at or before `offset`.
pub open spec fn last_starting_by(tokens: Seq<TokenView>, offset: int, count: int) -> Option<int>
    decreases count,
{
    if count <= 0 {
        None
    } else if tokens[count - 1].start <= offset {
        Some(count - 1)
    } else {
        last_starting_by(tokens, offset, count - 1)
    }
}

/// The last token that starts at or before `offset`, if it covers `offset`.
pub open spec fn token_covering(tokens: Seq<TokenView>, offset: int) -> Option<int> {
    match last_starting_by(tokens, offset, tokens.len() as int) {
        Some(i) => if token_covers(tokens[i], offset) {
            Some(i)
        } else {
            None
        },
        None => None,
    }
}

/// The nearest token before `index` that is neither whitespace nor a comment.
pub open spec fn significant_before(tokens: Seq<TokenView>, index: int) -> Option<int>
    decreases index,
{
    if index <= 0 {
        None
    } else if !trivia(tokens[index - 1].kind) {
        Some(index - 1)
    } else {
        significant_before(tokens, index - 1)
    }
}

/// The nearest token after `index` that is neither whitespace nor a comment.
pub open spec fn significant_after(tokens: Seq<TokenView>, index: int) -> Option<int>
    decreases tokens.len() - index,
{
    if index + 1 >= tokens.len() {
        None
    } else if !trivia(tokens[index + 1].kind) {
        Some(index + 1)
    } else {
        significant_after(tokens, index + 1)
    }
}

proof fn lemma_last_starting_by(tokens: Seq<TokenView>, offset: int, count: int, skipped: int)
    requires
        0 <= skipped <= count <= tokens.len(),
        forall|i: int| skipped <= i < count ==> (#[trigger] tokens[i]).start > offset,
    ensures
        last_starting_by(tokens, offset, count) == last_starting_by(tokens, offset, skipped),
    decreases count - skipped,
{
    if skipped < count {
        lemma_last_starting_by(tokens, offset, count - 1, skipped);
    }
}

proof fn lemma_last_starting_by_bounds(tokens: Seq<TokenView>, offset: int, count: int)
    requires
        0 <= count <= tokens.len(),
    ensures
        last_starting_by(tokens, offset, count) matches Some(i) ==> 0 <= i < count
            && tokens[i].start <= offset,
        last_starting_by(tokens, offset, count) is None ==> forall|i: int|
            0 <= i < count ==> (#[trigger] tokens[i]).start > offset,
    decreases count,
{
    if count > 0 && tokens[count - 1].start > offset {
        lemma_last_starting_by_bounds(tokens, offset, count - 1);
    }
}

/// What [`significant_before`] finds is significant, and all between is not.
pub proof fn law_significant_before(tokens: Seq<TokenView>, index: int)
    requires
        0 <= index <= tokens.len(),
    ensures
        match significant_before(tokens, index) {
            Some(found) => 0 <= found < index && !trivia(tokens[found].kind) && forall|i: int|
                found < i < index ==> trivia((#[trigger] tokens[i]).kind),
            None => forall|i: int| 0 <= i < index ==> trivia((#[trigger] tokens[i]).kind),
        },
    decreases index,
{
    if index > 0 && trivia(tokens[index - 1].kind) {
        law_significant_before(tokens, index - 1);
    }
}

/// What [`significant_after`] finds is significant, and all between is not.
pub proof fn law_significant_after(tokens: Seq<TokenView>, index: int)
    requires
        -1 <= index,
    ensures
        match significant_after(tokens, index) {
            Some(found) => index < found < tokens.len() && !trivia(tokens[found].kind) && forall|
                i: int,
            |
                index < i < found ==> trivia((#[trigger] tokens[i]).kind),
            None => forall|i: int|
                index < i < tokens.len() ==> trivia((#[trigger] tokens[i]).kind),
        },
    decreases tokens.len() - index,
{
    if index + 1 < tokens.len() && trivia(tokens[index + 1].kind) {
        law_significant_after(tokens, index + 1);
    }
}

/// Among tokens that do not overlap, the lookup finds a token exactly when one
/// covers the offset, and then that one.
pub proof fn law_token_lookup_finds_the_cover(tokens: Seq<TokenView>, offset: int, index: int)
    requires
        0 <= index < tokens.len(),
        tokens_apart(tokens),
    ensures
        token_covering(tokens, offset) == Some(index) <==> token_covers(tokens[index], offset),
{
    let last = tokens.len() as int;
    lemma_last_starting_by_bounds(tokens, offset, last);
    if token_covers(tokens[index], offset) {
        assert forall|i: int| index + 1 <= i < last implies (#[trigger] tokens[i]).start
            > offset by {
            assert(tokens[index].start + tokens[index].value.len() <= tokens[i].start);
        }
        lemma_last_starting_by(tokens, offset, last, index + 1);
    }
}

/// Index of the token whose span covers `offset`, if any.
#[must_use]
pub fn token_at_offset(tokens: &[Token<'_>], offset: u32) -> (index: Option<usize>)
    requires
        tokens_ordered(token_views(tokens@)),
    ensures
        token_covering(token_views(tokens@), offset as int) == match index {
            Some(index) => Some(index as int),
            None => None,
        },
        index matches Some(index) ==> index < tokens@.len(),
{
    let ghost views = token_views(tokens@);
    let mut low: usize = 0;
    let mut high: usize = tokens.len();
    while low < high
        invariant
            views == token_views(tokens@),
            tokens_ordered(views),
            low <= high <= tokens@.len(),
            forall|i: int| 0 <= i < low ==> (#[trigger] views[i]).start <= offset,
            forall|i: int| high <= i < views.len() ==> (#[trigger] views[i]).start > offset,
        decreases high - low,
    {
        let middle: usize = low + (high - low) / 2;
        assert(views[middle as int] == tokens@[middle as int]@);
        if tokens[middle].start.offset <= offset {
            low = middle + 1;
        } else {
            high = middle;
        }
    }
    proof {
        lemma_last_starting_by(views, offset as int, views.len() as int, low as int);
    }
    if low == 0 {
        return None;
    }
    let index: usize = low - 1;
    let token = tokens[index];
    assert(views[index as int] == token@);
    if offset < token.start.offset + token.value.len() as u32 {
        Some(index)
    } else {
        None
    }
}

/// Index of the nearest non-trivia token before `index`.
#[must_use]
pub fn previous_significant(tokens: &[Token<'_>], index: usize) -> (found: Option<usize>)
    requires
        index <= tokens@.len(),
    ensures
        significant_before(token_views(tokens@), index as int) == match found {
            Some(found) => Some(found as int),
            None => None,
        },
        found matches Some(found) ==> found < index,
{
    let mut at: usize = index;
    while at > 0
        invariant
            at <= index <= tokens@.len(),
            significant_before(token_views(tokens@), index as int) == significant_before(
                token_views(tokens@),
                at as int,
            ),
        decreases at,
    {
        at -= 1;
        assert(token_views(tokens@)[at as int] == tokens@[at as int]@);
        if !is_trivia(tokens[at].kind) {
            return Some(at);
        }
    }
    None
}

/// Index of the nearest non-trivia token after `index`.
#[must_use]
pub fn next_significant(tokens: &[Token<'_>], index: usize) -> (found: Option<usize>)
    requires
        index < usize::MAX,
    ensures
        significant_after(token_views(tokens@), index as int) == match found {
            Some(found) => Some(found as int),
            None => None,
        },
        found matches Some(found) ==> index < found < tokens@.len(),
{
    let mut at: usize = index + 1;
    while at < tokens.len()
        invariant
            index < at,
            significant_after(token_views(tokens@), index as int) == significant_after(
                token_views(tokens@),
                at - 1,
            ),
        decreases tokens@.len() - at,
    {
        assert(token_views(tokens@)[at as int] == tokens@[at as int]@);
        if !is_trivia(tokens[at].kind) {
            return Some(at);
        }
        at += 1;
    }
    None
}

/// Returns `true` if a token is whitespace or a comment.
#[must_use]
pub fn is_trivia(kind: TokenKind) -> (yes: bool)
    ensures
        yes == trivia(kind),
{
    matches!(
        kind,
        TokenKind::Whitespace
            | TokenKind::SingleLineComment
            | TokenKind::HashComment
            | TokenKind::MultiLineComment
            | TokenKind::DocBlockComment
    )
}

/// The tokens of `file`, each with its text.
#[must_use]
pub fn lex(file: &File) -> (tokens: Vec<Token<'_>>)
    requires
        file.wf(),
    ensures
        token_views(tokens@) == file.token_seq(),
        tokens_apart(file.token_seq()),
        forall|i: int|
            0 <= i < tokens@.len() ==> (#[trigger] tokens@[i]).value@ == file.contents@.subrange(
                tokens@[i].start.offset as int,
                tokens@[i].start.offset + tokens@[i].value@.len(),
            ),
{
    let bytes: &[u8] = file.contents.as_slice();
    let mut tokens: Vec<Token<'_>> = Vec::with_capacity(file.tokens.len());
    let mut i: usize = 0;
    while i < file.tokens.len()
        invariant
            file.wf(),
            bytes@ == file.contents@,
            i <= file.tokens@.len(),
            tokens@.len() == i,
            forall|k: int| 0 <= k < i ==> (#[trigger] tokens@[k])@ == file.token_seq()[k],
            forall|k: int|
                0 <= k < i ==> (#[trigger] tokens@[k]).value@ == file.contents@.subrange(
                    tokens@[k].start.offset as int,
                    tokens@[k].start.offset + tokens@[k].value@.len(),
                ),
        decreases file.tokens.len() - i,
    {
        let raw = file.tokens[i];
        let value: &[u8] = vstd::slice::slice_subrange(bytes, raw.start as usize, raw.end as usize);
        tokens.push(
            Token { kind: raw.kind, start: Position { offset: raw.start }, value },
        );
        i += 1;
    }
    assert(token_views(tokens@) =~= file.token_seq());
    proof {
        lemma_file_tokens_apart(*file);
    }
    tokens
}

/// The tokens of a well-formed file come in order and do not overlap.
pub proof fn lemma_file_tokens_apart(file: File)
    requires
        file.wf(),
    ensures
        tokens_apart(file.token_seq()),
{
    let views = file.token_seq();
    assert forall|i: int| 0 <= i < views.len() implies (#[trigger] views[i]).start
        + views[i].value.len() <= u32::MAX by {
        assert(file.tokens@[i].start <= file.tokens@[i].end);
    }
    assert forall|i: int, j: int| 0 <= i < j < views.len() implies (#[trigger] views[i]).start
        + views[i].value.len() <= (#[trigger] views[j]).start by {
        assert(file.tokens@[i].start <= file.tokens@[i].end <= file.tokens@[j].start);
    }
    assert forall|i: int, j: int| 0 <= i <= j < views.len() implies (#[trigger] views[i]).start
        <= (#[trigger] views[j]).start by {
        if i < j {
            assert(views[i].start + views[i].value.len() <= views[j].start);
        }
    }
}

/// One step of the lexer that succeeded.
#[derive(Clone, Copy, Debug, PartialEq, Eq, Structural)]
pub struct Lexeme {
    pub kind: TokenKind,
    pub start: u32,
    pub length: u32,
}

/// The tokens of the steps that succeeded, in order.
pub open spec fn lexed(steps: Seq<Option<Lexeme>>) -> Seq<RawToken>
    decreases steps.len(),
{
    if steps.len() == 0 {
        Seq::empty()
    } else {
        match steps.last() {
            Some(lexeme) => lexed(steps.drop_last()).push(
                RawToken {
                    kind: lexeme.kind,
                    start: lexeme.start,
                    end: (lexeme.start + lexeme.length) as u32,
                },
            ),
            None => lexed(steps.drop_last()),
        }
    }
}

/// Every token ends at a 32-bit offset.
pub open spec fn steps_fit(steps: Seq<Option<Lexeme>>) -> bool {
    forall|i: int|
        0 <= i < steps.len() ==> (#[trigger] steps[i] matches Some(lexeme) ==> lexeme.start
            + lexeme.length <= u32::MAX)
}

/// Does every token end at a 32-bit offset?
pub fn have_ends(steps: &[Option<Lexeme>]) -> (yes: bool)
    ensures
        yes == steps_fit(steps@),
{
    let mut i: usize = 0;
    while i < steps.len()
        invariant
            i <= steps@.len(),
            forall|k: int|
                0 <= k < i ==> (#[trigger] steps@[k] matches Some(lexeme) ==> lexeme.start
                    + lexeme.length <= u32::MAX),
        decreases steps.len() - i,
    {
        if let Some(lexeme) = steps[i] {
            if lexeme.length > u32::MAX - lexeme.start {
                assert(steps@[i as int] == Some(lexeme));
                return false;
            }
        }
        i += 1;
    }
    true
}

/// The token table of a file, from the lexer's steps over its contents: `None`
/// stands for a step that failed, and leaves no token.
pub fn lex_uncached(steps: &[Option<Lexeme>]) -> (tokens: Vec<RawToken>)
    requires
        steps_fit(steps@),
    ensures
        tokens@ == lexed(steps@),
{
    let mut tokens: Vec<RawToken> = Vec::new();
    let mut i: usize = 0;
    assert(steps@.take(0) =~= Seq::empty());
    while i < steps.len()
        invariant
            i <= steps@.len(),
            steps_fit(steps@),
            tokens@ == lexed(steps@.take(i as int)),
        decreases steps.len() - i,
    {
        assert(steps@.take(i + 1).drop_last() =~= steps@.take(i as int));
        assert(steps@.take(i + 1).last() == steps@[i as int]);
        if let Some(lexeme) = steps[i] {
            tokens.push(
                RawToken {
                    kind: lexeme.kind,
                    start: lexeme.start,
                    end: lexeme.start + lexeme.length,
                },
            );
        }
        i += 1;
    }
    assert(steps@.take(i as int) =~= steps@);
    tokens
}

// ---- `::` members --------------------------------------------------------

/// How a `::` member access names its owning class-like.
#[derive(Debug, Clone, Copy, PartialEq, Eq, Structural)]
pub enum MemberQualifier {
    /// `self::` or `static::` — the class-like enclosing the cursor.
    Enclosing,
    /// `parent::` — the enclosing class-like's direct parent.
    Parent,
    /// An explicit name (`Foo::`, `Bar\Baz::`, `\Qux::`). The payload is the
    /// start offset of the name token, so the caller can resolve it and get the
    /// imported/aliased FQCN.
    Named(u32),
}

/// What follows the `::`, which decides how the member is looked up.
#[derive(Debug, Clone, Copy, PartialEq, Eq, Structural)]
pub enum MemberSelector {
    /// `Foo::BAR` — an enum case or a class constant.
    Constant,
    /// `Foo::bar(` — a static method.
    Method,
    /// `Foo::$bar` — a static property.
    Property,
}

/// A `::`-accessed class member under the cursor.
///
/// Purely syntactic: this reports *what was written*, not what it resolves to.
/// Turning it into a declaration is [`crate::member`]'s job, which needs the
/// codebase. Instance access (`->`) is deliberately not handled — resolving the
/// receiver needs type inference, whereas a `::` qualifier is always a name.
#[derive(Debug, Clone, Copy)]
pub struct StaticMemberAtCursor<'file> {
    /// Member name as written, without the leading `$` of a static property.
    pub name: &'file [u8],
    /// Span of the name, likewise excluding a static property's `$`.
    pub start: u32,
    pub end: u32,
    pub qualifier: MemberQualifier,
    pub selector: MemberSelector,
}

/// What a [`StaticMemberAtCursor`] says.
pub struct StaticMemberView {
    pub name: Seq<u8>,
    pub start: u32,
    pub end: u32,
    pub qualifier: MemberQualifier,
    pub selector: MemberSelector,
}

impl View for StaticMemberAtCursor<'_> {
    type V = StaticMemberView;

    open spec fn view(&self) -> StaticMemberView {
        StaticMemberView {
            name: self.name@,
            start: self.start,
            end: self.end,
            qualifier: self.qualifier,
            selector: self.selector,
        }
    }
}

/// How the token before a `::` names a class-like, if it does.
pub open spec fn qualifier_spelled(token: TokenView) -> Option<MemberQualifier> {
    if token.kind == TokenKind::Self_ || token.kind == TokenKind::Static {
        Some(MemberQualifier::Enclosing)
    } else if token.kind == TokenKind::Parent {
        Some(MemberQualifier::Parent)
    } else if token.kind == TokenKind::Identifier || token.kind == TokenKind::QualifiedIdentifier
        || token.kind == TokenKind::FullyQualifiedIdentifier {
        Some(MemberQualifier::Named(token.start))
    } else {
        None
    }
}

/// The qualifier of the `::` access whose right-hand side is token `index`.
pub open spec fn qualifier_before(tokens: Seq<TokenView>, index: int) -> Option<MemberQualifier> {
    match significant_before(tokens, index) {
        Some(colon) => if tokens[colon].kind == TokenKind::ColonColon {
            match significant_before(tokens, colon) {
                Some(owner) => qualifier_spelled(tokens[owner]),
                None => None,
            }
        } else {
            None
        },
        None => None,
    }
}

/// The bytes of `class`.
pub open spec fn class_word() -> Seq<u8> {
    seq![0x63u8, 0x6cu8, 0x61u8, 0x73u8, 0x73u8]
}

/// The member that token `index` names behind `qualifier::`, if it names one.
pub open spec fn member_spelled(
    tokens: Seq<TokenView>,
    index: int,
    qualifier: MemberQualifier,
) -> Option<StaticMemberView> {
    let token = tokens[index];
    let end = (token.start + token.value.len()) as u32;
    if token.kind == TokenKind::Variable {
        if token.value.len() > 1 {
            Some(
                StaticMemberView {
                    name: token.value.skip(1),
                    start: (token.start + 1) as u32,
                    end,
                    qualifier,
                    selector: MemberSelector::Property,
                },
            )
        } else {
            None
        }
    } else if identifier(token.value) && !equal_ignoring_case(token.value, class_word()) {
        let called = match significant_after(tokens, index) {
            Some(after) => tokens[after].kind == TokenKind::LeftParenthesis,
            None => false,
        };
        Some(
            StaticMemberView {
                name: token.value,
                start: token.start,
                end,
                qualifier,
                selector: if called {
                    MemberSelector::Method
                } else {
                    MemberSelector::Constant
                },
            },
        )
    } else {
        None
    }
}

/// The token that [`token_covering`] finds covers `offset` and ends at a 32-bit
/// offset.
pub proof fn lemma_token_covering(tokens: Seq<TokenView>, offset: int)
    requires
        tokens_ordered(tokens),
    ensures
        token_covering(tokens, offset) matches Some(index) ==> 0 <= index < tokens.len()
            && token_covers(tokens[index], offset) && tokens[index].start
            + tokens[index].value.len() <= u32::MAX,
{
    lemma_last_starting_by_bounds(tokens, offset, tokens.len() as int);
}

/// The `::`-accessed member whose name covers `offset`, as written.
pub open spec fn static_member(tokens: Seq<TokenView>, offset: int) -> Option<StaticMemberView> {
    match token_covering(tokens, offset) {
        Some(index) => match qualifier_before(tokens, index) {
            Some(qualifier) => member_spelled(tokens, index, qualifier),
            None => None,
        },
        None => None,
    }
}

/// Find the `::`-accessed member whose name covers `offset`.
///
/// Returns `None` when the cursor isn't on the right-hand side of a `::`, or
/// when the qualifier isn't a name (`$class::CONST`, `(expr)::CONST`).
/// `Foo::class` is excluded — it's a magic constant, not a member.
#[must_use]
pub fn static_member_at_offset(file: &File, offset: u32) -> (member: Option<StaticMemberAtCursor<'_>>)
    requires
        file.wf(),
    ensures
        static_member(file.token_seq(), offset as int) == match member {
            Some(member) => Some(member@),
            None => None,
        },
{
    let tokens = lex(file);
    let ghost views = file.token_seq();
    let index: usize = match token_at_offset(tokens.as_slice(), offset) {
        Some(index) => index,
        None => return None,
    };
    let token = tokens[index];
    proof {
        assert(views[index as int] == token@);
        lemma_last_starting_by_bounds(views, offset as int, views.len() as int);
    }
    let colon: usize = match previous_significant(tokens.as_slice(), index) {
        Some(colon) => colon,
        None => return None,
    };
    assert(views[colon as int] == tokens@[colon as int]@);
    if tokens[colon].kind != TokenKind::ColonColon {
        return None;
    }
    let owner: usize = match previous_significant(tokens.as_slice(), colon) {
        Some(owner) => owner,
        None => return None,
    };
    assert(views[owner as int] == tokens@[owner as int]@);
    let qualifier = match tokens[owner].kind {
        TokenKind::Self_ | TokenKind::Static => MemberQualifier::Enclosing,
        TokenKind::Parent => MemberQualifier::Parent,
        TokenKind::Identifier
        | TokenKind::QualifiedIdentifier
        | TokenKind::FullyQualifiedIdentifier => MemberQualifier::Named(tokens[owner].start.offset),
        _ => return None,
    };
    let end: u32 = token.start.offset + token.value.len() as u32;
    if token.kind == TokenKind::Variable {
        let start: u32 = token.start.offset + 1;
        if end <= start {
            return None;
        }
        let name: &[u8] = vstd::slice::slice_subrange(token.value, 1, token.value.len());
        return Some(
            StaticMemberAtCursor {
                name,
                start,
                end,
                qualifier,
                selector: MemberSelector::Property,
            },
        );
    }
    // Member names may be reserved words (`Foo::LIST`, `Foo::default`), so accept
    // any token whose text is identifier-shaped rather than filtering on kind.
    let class: [u8; 5] = [0x63, 0x6c, 0x61, 0x73, 0x73];
    assert(class@ =~= class_word());
    if !is_identifier(token.value) || same_ignoring_case(token.value, class.as_slice()) {
        return None;
    }
    assert(index < tokens.len());
    let selector = match next_significant(tokens.as_slice(), index) {
        Some(after) => {
            assert(views[after as int] == tokens@[after as int]@);
            if tokens[after].kind == TokenKind::LeftParenthesis {
                MemberSelector::Method
            } else {
                MemberSelector::Constant
            }
        },
        None => MemberSelector::Constant,
    };
    Some(
        StaticMemberAtCursor { name: token.value, start: token.start.offset, end, qualifier, selector },
    )
}

// ---- Names ---------------------------------------------------------------

/// An identifier or `$name` token under the cursor.
#[derive(Debug, Clone, Copy)]
pub struct NameAtCursor<'file> {
    /// Token text, without the leading `$` of a variable.
    pub name: &'file [u8],
    /// Span of the name, likewise excluding a leading `$`.
    pub start: u32,
    pub end: u32,
    /// Whether the token was written with a leading `$`.
    pub is_variable: bool,
}

/// What a [`NameAtCursor`] says.
pub struct NameView {
    pub name: Seq<u8>,
    pub start: u32,
    pub end: u32,
    pub is_variable: bool,
}

impl View for NameAtCursor<'_> {
    type V = NameView;

    open spec fn view(&self) -> NameView {
        NameView {
            name: self.name@,
            start: self.start,
            end: self.end,
            is_variable: self.is_variable,
        }
    }
}

/// The name that a token spells, if it spells one.
pub open spec fn name_spelled(token: TokenView) -> Option<NameView> {
    let end = (token.start + token.value.len()) as u32;
    if token.kind == TokenKind::Variable {
        if token.value.len() > 1 {
            Some(
                NameView {
                    name: token.value.skip(1),
                    start: (token.start + 1) as u32,
                    end,
                    is_variable: true,
                },
            )
        } else {
            None
        }
    } else if identifier(token.value) {
        Some(NameView { name: token.value, start: token.start, end, is_variable: false })
    } else {
        None
    }
}

/// The name whose token covers `offset`.
pub open spec fn name_at(tokens: Seq<TokenView>, offset: int) -> Option<NameView> {
    match token_covering(tokens, offset) {
        Some(index) => name_spelled(tokens[index]),
        None => None,
    }
}

/// Find the identifier (or `$name`) token whose span covers `offset`.
///
/// Unlike [`variable_at_offset`] this is token-based, so it won't mistake a
/// substring of some larger construct for a name.
#[must_use]
pub fn name_at_offset(file: &File, offset: u32) -> (name: Option<NameAtCursor<'_>>)
    requires
        file.wf(),
    ensures
        name_at(file.token_seq(), offset as int) == match name {
            Some(name) => Some(name@),
            None => None,
        },
{
    let tokens = lex(file);
    let ghost views = file.token_seq();
    let index: usize = match token_at_offset(tokens.as_slice(), offset) {
        Some(index) => index,
        None => return None,
    };
    let token = tokens[index];
    assert(views[index as int] == token@);
    let end: u32 = token.start.offset + token.value.len() as u32;
    if token.kind == TokenKind::Variable {
        if token.value.len() <= 1 {
            return None;
        }
        let name: &[u8] = vstd::slice::slice_subrange(token.value, 1, token.value.len());
        return Some(
            NameAtCursor { name, start: token.start.offset + 1, end, is_variable: true },
        );
    }
    if !is_identifier(token.value) {
        return None;
    }
    Some(NameAtCursor { name: token.value, start: token.start.offset, end, is_variable: false })
}

} // verus!
