//! Token-level highlighting.
//!
//! Classifies each token of a file to a [`SemanticTokenKind`], skipping tokens
//! that span multiple lines (semantic tokens are single-line in the protocol).
//! Offsets are absolute; the protocol layer encodes the differences.
//!
//! Semantic tokens *replace* the client's own highlighting wherever they land,
//! so the classifier deliberately stays silent on everything a client already
//! colours at least as well. In particular it emits nothing for strings and
//! comments: those are the injection points for embedded grammars — SQL in a
//! heredoc, HTML in an interpolated string, types in a PHPDoc block — and a
//! blanket `string` or `comment` token flattens all of that back to a single
//! colour.

use vstd::prelude::*;

use crate::ascii::BACKSLASH;
use crate::domain::FileId;
use crate::file::{lemma_newlines_grow, newlines_before, File};
use crate::lookup::{
    is_trivia, lemma_file_tokens_apart, lex, significant_after, significant_before, tokens_apart,
    trivia,
};
use crate::server::{lemma_server_file, Server};
use crate::token::{token_views, Token, TokenKind, TokenView};

verus! {

/// What a token stands for, in the client's terms.
#[derive(Clone, Copy, Debug, PartialEq, Eq, Structural)]
pub enum SemanticTokenKind {
    Namespace,
    Type,
    Function,
    Property,
    Variable,
    Keyword,
    Number,
    Operator,
}

/// A stretch of a file to highlight.
#[derive(Clone, Copy, Debug, PartialEq, Eq, Structural)]
pub struct SemanticTokenItem {
    pub offset: u32,
    pub length: u32,
    pub kind: SemanticTokenKind,
}

/// Anything after `->`, `?->` or `::` names a member.
pub open spec fn member_access(kind: TokenKind) -> bool {
    ||| kind == TokenKind::MinusGreaterThan
    ||| kind == TokenKind::QuestionMinusGreaterThan
    ||| kind == TokenKind::ColonColon
}

/// The words behind which an identifier names a class-like.
pub open spec fn introduces_type(kind: TokenKind) -> bool {
    ||| kind == TokenKind::Class
    ||| kind == TokenKind::Interface
    ||| kind == TokenKind::Trait
    ||| kind == TokenKind::Enum
    ||| kind == TokenKind::Extends
    ||| kind == TokenKind::Implements
    ||| kind == TokenKind::New
    ||| kind == TokenKind::Instanceof
    ||| kind == TokenKind::Insteadof
}

/// The words and magic constants that are highlighted as keywords.
pub open spec fn keyword_kind(kind: TokenKind) -> bool {
    match kind {
        TokenKind::Abstract | TokenKind::And | TokenKind::Array | TokenKind::As
        | TokenKind::Break | TokenKind::Callable | TokenKind::Case | TokenKind::Catch
        | TokenKind::Class | TokenKind::ClassConstant | TokenKind::Clone | TokenKind::Const
        | TokenKind::Continue | TokenKind::Declare | TokenKind::Default | TokenKind::Do
        | TokenKind::Echo | TokenKind::Else | TokenKind::ElseIf | TokenKind::Empty
        | TokenKind::EndDeclare | TokenKind::EndFor | TokenKind::EndForeach | TokenKind::EndIf
        | TokenKind::EndSwitch | TokenKind::EndWhile | TokenKind::Enum | TokenKind::Eval
        | TokenKind::Exit | TokenKind::Extends | TokenKind::False | TokenKind::Final
        | TokenKind::Finally | TokenKind::Fn | TokenKind::For | TokenKind::Foreach
        | TokenKind::From | TokenKind::Function | TokenKind::Global | TokenKind::Goto
        | TokenKind::HaltCompiler | TokenKind::If | TokenKind::Implements | TokenKind::Include
        | TokenKind::IncludeOnce | TokenKind::Instanceof | TokenKind::Insteadof
        | TokenKind::Interface | TokenKind::Isset | TokenKind::List | TokenKind::Match
        | TokenKind::Namespace | TokenKind::New | TokenKind::Null | TokenKind::Or
        | TokenKind::Parent | TokenKind::Print | TokenKind::Private | TokenKind::Protected
        | TokenKind::Public | TokenKind::Readonly | TokenKind::Require | TokenKind::RequireOnce
        | TokenKind::Return | TokenKind::Self_ | TokenKind::Static | TokenKind::Switch
        | TokenKind::Throw | TokenKind::Trait | TokenKind::Try | TokenKind::True
        | TokenKind::Unset | TokenKind::Use | TokenKind::Var | TokenKind::While
        | TokenKind::Xor | TokenKind::Yield | TokenKind::TraitConstant
        | TokenKind::FunctionConstant | TokenKind::MethodConstant | TokenKind::LineConstant
        | TokenKind::FileConstant | TokenKind::DirConstant | TokenKind::NamespaceConstant => true,
        _ => false,
    }
}

/// The words that PHP reserves, which can still name a member.
pub open spec fn reserved_word(kind: TokenKind) -> bool {
    keyword_kind(kind) || kind == TokenKind::OtherKeyword
}

/// The marks that are highlighted as operators.
pub open spec fn operator_kind(kind: TokenKind) -> bool {
    match kind {
        TokenKind::Ampersand | TokenKind::AmpersandEqual | TokenKind::AmpersandAmpersand
        | TokenKind::AmpersandAmpersandEqual | TokenKind::Asterisk | TokenKind::AsteriskEqual
        | TokenKind::Bang | TokenKind::BangEqual | TokenKind::BangEqualEqual | TokenKind::Caret
        | TokenKind::CaretEqual | TokenKind::Colon | TokenKind::ColonColon | TokenKind::Comma
        | TokenKind::Dot | TokenKind::DotEqual | TokenKind::DotDotDot | TokenKind::Equal
        | TokenKind::EqualEqual | TokenKind::EqualEqualEqual | TokenKind::EqualGreaterThan
        | TokenKind::GreaterThan | TokenKind::GreaterThanEqual | TokenKind::LessThan
        | TokenKind::LessThanEqual | TokenKind::LessThanGreaterThan
        | TokenKind::LessThanEqualGreaterThan | TokenKind::Minus | TokenKind::MinusEqual
        | TokenKind::MinusMinus | TokenKind::MinusGreaterThan | TokenKind::Percent
        | TokenKind::PercentEqual | TokenKind::Pipe | TokenKind::PipeEqual | TokenKind::PipePipe
        | TokenKind::Plus | TokenKind::PlusEqual | TokenKind::PlusPlus | TokenKind::Question
        | TokenKind::QuestionQuestion | TokenKind::QuestionQuestionEqual
        | TokenKind::QuestionMinusGreaterThan | TokenKind::Slash | TokenKind::SlashEqual
        | TokenKind::Tilde | TokenKind::At => true,
        _ => false,
    }
}

/// How a token that is no qualified name is highlighted, by its own kind and the
/// kinds of its nearest significant neighbours.
pub open spec fn classified(
    kind: TokenKind,
    prev: Option<TokenKind>,
    next: Option<TokenKind>,
) -> Option<SemanticTokenKind> {
    let called = next == Some(TokenKind::LeftParenthesis);
    let after_access = prev is Some && member_access(prev->0);
    if after_access && (kind == TokenKind::Identifier || reserved_word(kind)) {
        Some(
            if called {
                SemanticTokenKind::Function
            } else {
                SemanticTokenKind::Property
            },
        )
    } else if kind == TokenKind::LiteralInteger || kind == TokenKind::LiteralFloat {
        Some(SemanticTokenKind::Number)
    } else if kind == TokenKind::Variable {
        Some(SemanticTokenKind::Variable)
    } else if kind == TokenKind::Identifier {
        if prev is Some && introduces_type(prev->0) {
            Some(SemanticTokenKind::Type)
        } else if prev == Some(TokenKind::Function) {
            Some(SemanticTokenKind::Function)
        } else if prev == Some(TokenKind::Namespace) || prev == Some(TokenKind::Use) {
            Some(SemanticTokenKind::Namespace)
        } else if called {
            Some(SemanticTokenKind::Function)
        } else {
            None
        }
    } else if keyword_kind(kind) {
        Some(SemanticTokenKind::Keyword)
    } else if operator_kind(kind) {
        Some(SemanticTokenKind::Operator)
    } else {
        None
    }
}

/// Where the last `\` among the first `count` bytes stands.
pub open spec fn last_separator(value: Seq<u8>, count: int) -> Option<int>
    decreases count,
{
    if count <= 0 {
        None
    } else if value[count - 1] == BACKSLASH {
        Some(count - 1)
    } else {
        last_separator(value, count - 1)
    }
}

/// A qualified name in two pieces: what stands before its last `\`, if anything
/// does, and what stands behind it, if anything does.
pub open spec fn qualified_pieces(token: TokenView, next: Option<TokenKind>) -> Seq<
    SemanticTokenItem,
> {
    match last_separator(token.value, token.value.len() as int) {
        Some(separator) => {
            let prefix = if separator > 0 {
                seq![
                    SemanticTokenItem {
                        offset: token.start,
                        length: separator as u32,
                        kind: SemanticTokenKind::Namespace,
                    },
                ]
            } else {
                Seq::empty()
            };
            let tail = token.value.len() - separator - 1;
            if tail > 0 {
                prefix.push(
                    SemanticTokenItem {
                        offset: (token.start + separator + 1) as u32,
                        length: tail as u32,
                        kind: if next == Some(TokenKind::LeftParenthesis) {
                            SemanticTokenKind::Function
                        } else {
                            SemanticTokenKind::Type
                        },
                    },
                )
            } else {
                prefix
            }
        },
        None => Seq::empty(),
    }
}

/// The kind of the token at `index`.
pub open spec fn kind_at(tokens: Seq<TokenView>, index: Option<int>) -> Option<TokenKind> {
    match index {
        Some(index) => Some(tokens[index].kind),
        None => None,
    }
}

/// The token is not empty and does not wrap.
pub open spec fn on_one_line(contents: Seq<u8>, token: TokenView) -> bool {
    token.value.len() > 0 && newlines_before(contents, token.start as int) == newlines_before(
        contents,
        token.start + token.value.len() - 1,
    )
}

/// A name with a `\` in it.
pub open spec fn qualified(kind: TokenKind) -> bool {
    kind == TokenKind::QualifiedIdentifier || kind == TokenKind::FullyQualifiedIdentifier
}

/// The highlights of token `index`. A token that is empty or wraps has none.
pub open spec fn highlights_of(contents: Seq<u8>, tokens: Seq<TokenView>, index: int) -> Seq<
    SemanticTokenItem,
> {
    let token = tokens[index];
    let prev = kind_at(tokens, significant_before(tokens, index));
    let next = kind_at(tokens, significant_after(tokens, index));
    if !on_one_line(contents, token) {
        Seq::empty()
    } else if qualified(token.kind) {
        qualified_pieces(token, next)
    } else {
        match classified(token.kind, prev, next) {
            Some(kind) => seq![
                SemanticTokenItem { offset: token.start, length: token.value.len() as u32, kind },
            ],
            None => Seq::empty(),
        }
    }
}

/// The highlights of the first `count` tokens, in order.
pub open spec fn highlights(contents: Seq<u8>, tokens: Seq<TokenView>, count: int) -> Seq<
    SemanticTokenItem,
>
    decreases count,
{
    if count <= 0 {
        Seq::empty()
    } else {
        highlights(contents, tokens, count - 1) + highlights_of(contents, tokens, count - 1)
    }
}

fn names_member(kind: TokenKind) -> (yes: bool)
    ensures
        yes == member_access(kind),
{
    matches!(
        kind,
        TokenKind::MinusGreaterThan | TokenKind::QuestionMinusGreaterThan | TokenKind::ColonColon
    )
}

/// Is the name behind a token of this kind that of a class-like?
fn is_type_introducer(kind: TokenKind) -> (yes: bool)
    ensures
        yes == introduces_type(kind),
{
    matches!(
        kind,
        TokenKind::Class | TokenKind::Interface | TokenKind::Trait | TokenKind::Enum
            | TokenKind::Extends | TokenKind::Implements | TokenKind::New | TokenKind::Instanceof
            | TokenKind::Insteadof
    )
}

fn is_highlighted_word(kind: TokenKind) -> (yes: bool)
    ensures
        yes == keyword_kind(kind),
{
    matches!(
        kind,
        TokenKind::Abstract | TokenKind::And | TokenKind::Array | TokenKind::As
            | TokenKind::Break | TokenKind::Callable | TokenKind::Case | TokenKind::Catch
            | TokenKind::Class | TokenKind::ClassConstant | TokenKind::Clone | TokenKind::Const
            | TokenKind::Continue | TokenKind::Declare | TokenKind::Default | TokenKind::Do
            | TokenKind::Echo | TokenKind::Else | TokenKind::ElseIf | TokenKind::Empty
            | TokenKind::EndDeclare | TokenKind::EndFor | TokenKind::EndForeach
            | TokenKind::EndIf | TokenKind::EndSwitch | TokenKind::EndWhile | TokenKind::Enum
            | TokenKind::Eval | TokenKind::Exit | TokenKind::Extends | TokenKind::False
            | TokenKind::Final | TokenKind::Finally | TokenKind::Fn | TokenKind::For
            | TokenKind::Foreach | TokenKind::From | TokenKind::Function | TokenKind::Global
            | TokenKind::Goto | TokenKind::HaltCompiler | TokenKind::If | TokenKind::Implements
            | TokenKind::Include | TokenKind::IncludeOnce | TokenKind::Instanceof
            | TokenKind::Insteadof | TokenKind::Interface | TokenKind::Isset | TokenKind::List
            | TokenKind::Match | TokenKind::Namespace | TokenKind::New | TokenKind::Null
            | TokenKind::Or | TokenKind::Parent | TokenKind::Print | TokenKind::Private
            | TokenKind::Protected | TokenKind::Public | TokenKind::Readonly
            | TokenKind::Require | TokenKind::RequireOnce | TokenKind::Return
            | TokenKind::Self_ | TokenKind::Static | TokenKind::Switch | TokenKind::Throw
            | TokenKind::Trait | TokenKind::Try | TokenKind::True | TokenKind::Unset
            | TokenKind::Use | TokenKind::Var | TokenKind::While | TokenKind::Xor
            | TokenKind::Yield | TokenKind::TraitConstant | TokenKind::FunctionConstant
            | TokenKind::MethodConstant | TokenKind::LineConstant | TokenKind::FileConstant
            | TokenKind::DirConstant | TokenKind::NamespaceConstant
    )
}

fn is_reserved_word(kind: TokenKind) -> (yes: bool)
    ensures
        yes == reserved_word(kind),
{
    is_highlighted_word(kind) || kind == TokenKind::OtherKeyword
}

fn is_operator(kind: TokenKind) -> (yes: bool)
    ensures
        yes == operator_kind(kind),
{
    matches!(
        kind,
        TokenKind::Ampersand | TokenKind::AmpersandEqual | TokenKind::AmpersandAmpersand
            | TokenKind::AmpersandAmpersandEqual | TokenKind::Asterisk | TokenKind::AsteriskEqual
            | TokenKind::Bang | TokenKind::BangEqual | TokenKind::BangEqualEqual
            | TokenKind::Caret | TokenKind::CaretEqual | TokenKind::Colon | TokenKind::ColonColon
            | TokenKind::Comma | TokenKind::Dot | TokenKind::DotEqual | TokenKind::DotDotDot
            | TokenKind::Equal | TokenKind::EqualEqual | TokenKind::EqualEqualEqual
            | TokenKind::EqualGreaterThan | TokenKind::GreaterThan | TokenKind::GreaterThanEqual
            | TokenKind::LessThan | TokenKind::LessThanEqual | TokenKind::LessThanGreaterThan
            | TokenKind::LessThanEqualGreaterThan | TokenKind::Minus | TokenKind::MinusEqual
            | TokenKind::MinusMinus | TokenKind::MinusGreaterThan | TokenKind::Percent
            | TokenKind::PercentEqual | TokenKind::Pipe | TokenKind::PipeEqual
            | TokenKind::PipePipe | TokenKind::Plus | TokenKind::PlusEqual | TokenKind::PlusPlus
            | TokenKind::Question | TokenKind::QuestionQuestion
            | TokenKind::QuestionQuestionEqual | TokenKind::QuestionMinusGreaterThan
            | TokenKind::Slash | TokenKind::SlashEqual | TokenKind::Tilde | TokenKind::At
    )
}

/// How `token` is highlighted, between neighbours of kinds `prev` and `next`.
pub fn classify(token: &Token<'_>, prev: Option<TokenKind>, next: Option<TokenKind>) -> (kind:
    Option<SemanticTokenKind>)
    ensures
        kind == classified(token.kind, prev, next),
{
    let called = match next {
        Some(next) => next == TokenKind::LeftParenthesis,
        None => false,
    };
    // Anything after `->`, `?->` or `::` names a member, whatever the lexer
    // called it: `Builder::new()`, `$this->list`, `$config->default` all lex
    // their member as a reserved keyword.
    if let Some(prev) = prev {
        if names_member(prev) && (token.kind == TokenKind::Identifier || is_reserved_word(
            token.kind,
        )) {
            return Some(
                if called {
                    SemanticTokenKind::Function
                } else {
                    SemanticTokenKind::Property
                },
            );
        }
    }
    match token.kind {
        TokenKind::LiteralInteger | TokenKind::LiteralFloat => Some(SemanticTokenKind::Number),
        TokenKind::Variable => Some(SemanticTokenKind::Variable),
        TokenKind::Identifier => {
            // A declaration site: the name belongs to the thing being declared.
            if let Some(prev) = prev {
                if is_type_introducer(prev) {
                    return Some(SemanticTokenKind::Type);
                }
                if prev == TokenKind::Function {
                    return Some(SemanticTokenKind::Function);
                }
                if prev == TokenKind::Namespace || prev == TokenKind::Use {
                    return Some(SemanticTokenKind::Namespace);
                }
            }
            // Otherwise only a call is unambiguous. Bare names are left to the
            // client: they are just as likely to be a type hint (`void`, `int`),
            // a constant, or a `declare`/attribute name, and guessing from
            // capitalisation loses more than it wins.
            if called {
                Some(SemanticTokenKind::Function)
            } else {
                None
            }
        },
        kind => if is_highlighted_word(kind) {
            Some(SemanticTokenKind::Keyword)
        } else if is_operator(kind) {
            Some(SemanticTokenKind::Operator)
        } else {
            None
        },
    }
}

/// Splits `Foo\Bar` into its namespace prefix and its trailing name, so the
/// class (or function) at the end keeps its own colour instead of the whole path
/// reading as one namespace.
pub fn push_qualified_name(
    out: &mut Vec<SemanticTokenItem>,
    token: &Token<'_>,
    next: Option<TokenKind>,
)
    requires
        token.start.offset + token.value@.len() <= u32::MAX,
    ensures
        final(out)@ == old(out)@ + qualified_pieces(token@, next),
{
    let value: &[u8] = token.value;
    let mut count: usize = value.len();
    while count > 0 && value[count - 1] != BACKSLASH
        invariant
            count <= value@.len(),
            last_separator(value@, value@.len() as int) == last_separator(value@, count as int),
        decreases count,
    {
        count -= 1;
    }
    if count == 0 {
        assert(out@ + Seq::<SemanticTokenItem>::empty() =~= out@);
        return;
    }
    let separator: usize = count - 1;
    if separator > 0 {
        out.push(
            SemanticTokenItem {
                offset: token.start.offset,
                length: separator as u32,
                kind: SemanticTokenKind::Namespace,
            },
        );
    }
    let tail: usize = value.len() - separator - 1;
    if tail > 0 {
        let called = match next {
            Some(next) => next == TokenKind::LeftParenthesis,
            None => false,
        };
        out.push(
            SemanticTokenItem {
                offset: token.start.offset + separator as u32 + 1,
                length: tail as u32,
                kind: if called {
                    SemanticTokenKind::Function
                } else {
                    SemanticTokenKind::Type
                },
            },
        );
    }
    assert(out@ =~= old(out)@ + qualified_pieces(token@, next));
}

/// The kind of the nearest significant token behind each token.
fn following_kinds(tokens: &Vec<Token<'_>>) -> (kinds: Vec<Option<TokenKind>>)
    ensures
        kinds@.len() == tokens@.len(),
        forall|i: int|
            0 <= i < kinds@.len() ==> #[trigger] kinds@[i] == kind_at(
                token_views(tokens@),
                significant_after(token_views(tokens@), i),
            ),
{
    let ghost views = token_views(tokens@);
    let mut kinds: Vec<Option<TokenKind>> = Vec::with_capacity(tokens.len());
    let mut i: usize = 0;
    while i < tokens.len()
        invariant
            kinds@.len() == i <= tokens@.len(),
        decreases tokens.len() - i,
    {
        kinds.push(None);
        i += 1;
    }
    let mut upcoming: Option<TokenKind> = None;
    while i > 0
        invariant
            i <= tokens@.len() == kinds@.len(),
            views == token_views(tokens@),
            upcoming == kind_at(views, significant_after(views, i - 1)),
            forall|k: int|
                i <= k < kinds@.len() ==> #[trigger] kinds@[k] == kind_at(
                    views,
                    significant_after(views, k),
                ),
        decreases i,
    {
        i -= 1;
        kinds.set(i, upcoming);
        assert(views[i as int] == tokens@[i as int]@);
        if !is_trivia(tokens[i].kind) {
            upcoming = Some(tokens[i].kind);
        }
    }
    kinds
}

/// The highlights of one file.
pub fn highlight(file: &File) -> (out: Vec<SemanticTokenItem>)
    requires
        file.wf(),
    ensures
        out@ == highlights(file.contents@, file.token_seq(), file.tokens@.len() as int),
{
    let tokens = lex(file);
    let ghost views = file.token_seq();
    let ghost contents = file.contents@;
    // Classification needs both neighbours: `prev` tells a member name from a
    // keyword (`Builder::new()`), `next` tells a call from a bare name (`up()`
    // versus the `void` return type that follows it).
    let following = following_kinds(&tokens);
    let mut prev: Option<TokenKind> = None;
    let mut out: Vec<SemanticTokenItem> = Vec::new();
    let mut i: usize = 0;
    while i < tokens.len()
        invariant
            file.wf(),
            i <= tokens@.len() == following@.len(),
            views == file.token_seq(),
            contents == file.contents@,
            token_views(tokens@) == views,
            tokens_apart(views),
            forall|k: int|
                0 <= k < following@.len() ==> #[trigger] following@[k] == kind_at(
                    views,
                    significant_after(views, k),
                ),
            prev == kind_at(views, significant_before(views, i as int)),
            out@ == highlights(contents, views, i as int),
        decreases tokens.len() - i,
    {
        let token = &tokens[i];
        let next = following[i];
        let length: usize = token.value.len();
        let ghost before = out@;
        assert(views[i as int] == token@);
        assert(views[i as int].start + length <= u32::MAX);
        // Semantic tokens are single-line; skip tokens that wrap.
        if length > 0 && file.line_number(token.start.offset) == file.line_number(
            token.start.offset + length as u32 - 1,
        ) {
            match token.kind {
                TokenKind::QualifiedIdentifier | TokenKind::FullyQualifiedIdentifier => {
                    push_qualified_name(&mut out, token, next);
                },
                _ => {
                    if let Some(kind) = classify(token, prev, next) {
                        out.push(
                            SemanticTokenItem {
                                offset: token.start.offset,
                                length: length as u32,
                                kind,
                            },
                        );
                    }
                },
            }
        }
        assert(out@ =~= before + highlights_of(contents, views, i as int));
        if !is_trivia(token.kind) {
            prev = Some(token.kind);
        }
        i += 1;
    }
    out
}

/// What is highlighted in the file of this id.
pub open spec fn highlights_in(server: Server, file_id: FileId) -> Seq<SemanticTokenItem> {
    match server.file(file_id) {
        Some(file) => highlights(file.contents@, file.token_seq(), file.tokens@.len() as int),
        None => Seq::empty(),
    }
}

impl Server {
    /// Semantic-highlighting tokens for `file_id`, as absolute byte spans.
    pub fn get_semantic_tokens(&self, file_id: FileId) -> (out: Vec<SemanticTokenItem>)
        requires
            self.wf(),
        ensures
            out@ == highlights_in(*self, file_id),
    {
        match self.get_file(file_id) {
            Some(file) => highlight(file),
            None => Vec::new(),
        }
    }
}

/// `items` are non-empty, each on one line of `contents`, in order, and do not
/// overlap.
pub open spec fn items_in_order(contents: Seq<u8>, items: Seq<SemanticTokenItem>) -> bool {
    &&& forall|k: int|
        0 <= k < items.len() ==> (#[trigger] items[k]).length > 0 && newlines_before(
            contents,
            items[k].offset as int,
        ) == newlines_before(contents, items[k].offset + items[k].length - 1)
    &&& forall|k: int, l: int|
        0 <= k < l < items.len() ==> (#[trigger] items[k]).offset + items[k].length <= (
        #[trigger] items[l]).offset
}

proof fn lemma_last_separator(value: Seq<u8>, count: int)
    requires
        0 <= count <= value.len(),
    ensures
        last_separator(value, count) matches Some(at) ==> 0 <= at < count && value[at] == BACKSLASH,
    decreases count,
{
    if count > 0 && value[count - 1] != BACKSLASH {
        lemma_last_separator(value, count - 1);
    }
}

proof fn lemma_highlights_of(contents: Seq<u8>, tokens: Seq<TokenView>, index: int)
    requires
        0 <= index < tokens.len(),
        tokens[index].start + tokens[index].value.len() <= u32::MAX,
    ensures
        ({
            let items = highlights_of(contents, tokens, index);
            &&& items_in_order(contents, items)
            &&& forall|k: int|
                0 <= k < items.len() ==> tokens[index].start <= (#[trigger] items[k]).offset
                    && items[k].offset + items[k].length <= tokens[index].start
                    + tokens[index].value.len()
        }),
{
    let token = tokens[index];
    let items = highlights_of(contents, tokens, index);
    let end = token.start + token.value.len();
    lemma_last_separator(token.value, token.value.len() as int);
    assert forall|k: int| 0 <= k < items.len() implies (#[trigger] items[k]).length > 0
        && newlines_before(contents, items[k].offset as int) == newlines_before(
        contents,
        items[k].offset + items[k].length - 1,
    ) by {
        let item = items[k];
        lemma_newlines_grow(contents, token.start as int, item.offset as int);
        lemma_newlines_grow(contents, item.offset as int, item.offset + item.length - 1);
        lemma_newlines_grow(contents, item.offset + item.length - 1, end - 1);
    }
}

/// What is highlighted in a file comes in its order, does not overlap, is never
/// empty, and each stretch lies on one line. A file that the server does not know
/// has no highlights.
pub proof fn law_highlights_in_order(server: Server, file_id: FileId)
    requires
        server.wf(),
    ensures
        match server.file(file_id) {
            Some(file) => items_in_order(file.contents@, highlights_in(server, file_id)),
            None => highlights_in(server, file_id) == Seq::<SemanticTokenItem>::empty(),
        },
{
    if let Some(file) = server.file(file_id) {
        lemma_server_file(server, file_id);
        lemma_file_tokens_apart(file);
        lemma_highlights_in_order(file.contents@, file.token_seq(), file.tokens@.len() as int);
    }
}

proof fn lemma_highlights_in_order(contents: Seq<u8>, tokens: Seq<TokenView>, count: int)
    requires
        0 <= count <= tokens.len(),
        tokens_apart(tokens),
    ensures
        ({
            let items = highlights(contents, tokens, count);
            &&& items_in_order(contents, items)
            &&& items.len() > 0 ==> count > 0
            &&& forall|k: int|
                0 <= k < items.len() ==> (#[trigger] items[k]).offset + items[k].length
                    <= tokens[count - 1].start + tokens[count - 1].value.len()
        }),
    decreases count,
{
    if count > 0 {
        lemma_highlights_in_order(contents, tokens, count - 1);
        lemma_highlights_of(contents, tokens, count - 1);
        let before = highlights(contents, tokens, count - 1);
        let new = highlights_of(contents, tokens, count - 1);
        let items = highlights(contents, tokens, count);
        if count > 1 {
            assert(tokens[count - 2].start + tokens[count - 2].value.len()
                <= tokens[count - 1].start);
        }
        assert forall|k: int, l: int| 0 <= k < l < items.len() implies (#[trigger] items[k]).offset
            + items[k].length <= (#[trigger] items[l]).offset by {
            if k >= before.len() {
                assert(items[k] == new[k - before.len()]);
                assert(items[l] == new[l - before.len()]);
            } else if l >= before.len() {
                assert(items[k] == before[k]);
                assert(items[l] == new[l - before.len()]);
            } else {
                assert(items[k] == before[k] && items[l] == before[l]);
            }
        }
        assert forall|k: int| 0 <= k < items.len() implies (#[trigger] items[k]).length > 0
            && newlines_before(contents, items[k].offset as int) == newlines_before(
            contents,
            items[k].offset + items[k].length - 1,
        ) && items[k].offset + items[k].length <= tokens[count - 1].start
            + tokens[count - 1].value.len() by {
            if k < before.len() {
                assert(items[k] == before[k]);
            } else {
                assert(items[k] == new[k - before.len()]);
            }
        }
    }
}

/// Comments and strings are left to the client: a token that is trivia, or of a
/// kind that no capability looks at, is not highlighted.
pub proof fn law_comments_and_strings_stay_silent(
    contents: Seq<u8>,
    tokens: Seq<TokenView>,
    index: int,
)
    requires
        0 <= index < tokens.len(),
        trivia(tokens[index].kind) || tokens[index].kind == TokenKind::Other,
    ensures
        highlights_of(contents, tokens, index) == Seq::<SemanticTokenItem>::empty(),
{
}

/// A token's kind is all that classification reads of it: tokens of one kind are
/// classified alike, whatever their text and wherever they stand.
pub proof fn law_classified_by_kind(
    one: TokenView,
    other: TokenView,
    prev: Option<TokenKind>,
    next: Option<TokenKind>,
)
    requires
        one.kind == other.kind,
    ensures
        classified(one.kind, prev, next) == classified(other.kind, prev, next),
{
}

/// Only kinds matter: of two tokens of one kind, between neighbours of the same
/// kinds, that each stay on one line, both are highlighted alike or neither is,
/// wherever they stand and whatever they say. Qualified names, which come in
/// pieces, are told apart by where their `\` stands.
pub proof fn law_kinds_decide(
    contents: Seq<u8>,
    tokens: Seq<TokenView>,
    index: int,
    other_contents: Seq<u8>,
    other_tokens: Seq<TokenView>,
    other: int,
)
    requires
        0 <= index < tokens.len(),
        0 <= other < other_tokens.len(),
        tokens[index].kind == other_tokens[other].kind,
        kind_at(tokens, significant_before(tokens, index)) == kind_at(
            other_tokens,
            significant_before(other_tokens, other),
        ),
        kind_at(tokens, significant_after(tokens, index)) == kind_at(
            other_tokens,
            significant_after(other_tokens, other),
        ),
        on_one_line(contents, tokens[index]),
        on_one_line(other_contents, other_tokens[other]),
        !qualified(tokens[index].kind),
    ensures
        ({
            let items = highlights_of(contents, tokens, index);
            let other_items = highlights_of(other_contents, other_tokens, other);
            &&& items.len() == other_items.len() <= 1
            &&& items.len() == 1 ==> items[0].kind == other_items[0].kind
        }),
{
}

/// Behind `::`, `->` or `?->` a reserved word is a member name, not a keyword.
pub proof fn law_member_names_are_no_keywords(
    kind: TokenKind,
    prev: TokenKind,
    next: Option<TokenKind>,
)
    requires
        member_access(prev),
        reserved_word(kind),
    ensures
        classified(kind, Some(prev), next) == Some(
            if next == Some(TokenKind::LeftParenthesis) {
                SemanticTokenKind::Function
            } else {
                SemanticTokenKind::Property
            },
        ),
{
}

} // verus!
