//! Laws on semantic highlighting.

use vstd::prelude::*;

use crate::domain::FileId;
use crate::file::newlines_before;
use crate::lookup::{significant_after, significant_before};
use crate::semantic_tokens::{
    classified, highlights, highlights_in, highlights_of, last_separator, SemanticTokenItem,
    SemanticTokenKind,
};
use crate::server::Server;
use crate::token::{TokenKind, TokenView};

verus! {

/// An identifier behind `class`, `interface`, `trait`, `enum`, `extends`,
/// `implements`, `new`, `instanceof` or `insteadof` names a type; behind
/// `function` it names a function, and behind `namespace` or `use` a namespace.
pub proof fn law_names_are_told_by_the_word_before(prev: TokenKind, next: Option<TokenKind>)
    ensures
        prev == TokenKind::Class || prev == TokenKind::Interface || prev == TokenKind::Trait || prev
            == TokenKind::Enum || prev == TokenKind::Extends || prev == TokenKind::Implements
            || prev == TokenKind::New || prev == TokenKind::Instanceof || prev
            == TokenKind::Insteadof ==> classified(TokenKind::Identifier, Some(prev), next) == Some(
            SemanticTokenKind::Type,
        ),
        prev == TokenKind::Function ==> classified(TokenKind::Identifier, Some(prev), next) == Some(
            SemanticTokenKind::Function,
        ),
        prev == TokenKind::Namespace || prev == TokenKind::Use ==> classified(
            TokenKind::Identifier,
            Some(prev),
            next,
        ) == Some(SemanticTokenKind::Namespace),
{
}

/// Any other identifier, behind nothing or behind any other token but `->`, `?->`
/// and `::`, is a function when it is called and is otherwise left to the client.
pub proof fn law_bare_names(prev: Option<TokenKind>, next: Option<TokenKind>)
    requires
        match prev {
            Some(
                TokenKind::Class
                | TokenKind::Interface
                | TokenKind::Trait
                | TokenKind::Enum
                | TokenKind::Extends
                | TokenKind::Implements
                | TokenKind::New
                | TokenKind::Instanceof
                | TokenKind::Insteadof
                | TokenKind::Function
                | TokenKind::Namespace
                | TokenKind::Use
                | TokenKind::MinusGreaterThan
                | TokenKind::QuestionMinusGreaterThan
                | TokenKind::ColonColon,
            ) => false,
            _ => true,
        },
    ensures
        next == Some(TokenKind::LeftParenthesis) ==> classified(TokenKind::Identifier, prev, next)
            == Some(SemanticTokenKind::Function),
        next != Some(TokenKind::LeftParenthesis) ==> classified(
            TokenKind::Identifier,
            prev,
            next,
        ) is None,
{
}

/// Behind `->`, `?->` or `::` an identifier or a reserved word names a member: a
/// function when it is called, a property otherwise.
pub proof fn law_members_are_named_behind_an_access(
    kind: TokenKind,
    prev: TokenKind,
    next: Option<TokenKind>,
)
    requires
        prev == TokenKind::MinusGreaterThan || prev == TokenKind::QuestionMinusGreaterThan || prev
            == TokenKind::ColonColon,
        match kind {
            TokenKind::Identifier | TokenKind::OtherKeyword | TokenKind::Abstract
            | TokenKind::And | TokenKind::Array | TokenKind::As | TokenKind::Break
            | TokenKind::Callable | TokenKind::Case | TokenKind::Catch | TokenKind::Class
            | TokenKind::ClassConstant | TokenKind::Clone | TokenKind::Const
            | TokenKind::Continue | TokenKind::Declare | TokenKind::Default | TokenKind::Do
            | TokenKind::Echo | TokenKind::Else | TokenKind::ElseIf | TokenKind::Empty
            | TokenKind::EndDeclare | TokenKind::EndFor | TokenKind::EndForeach
            | TokenKind::EndIf | TokenKind::EndSwitch | TokenKind::EndWhile | TokenKind::Enum
            | TokenKind::Eval | TokenKind::Exit | TokenKind::Extends | TokenKind::False
            | TokenKind::Final | TokenKind::Finally | TokenKind::Fn | TokenKind::For
            | TokenKind::Foreach | TokenKind::From | TokenKind::Function | TokenKind::Global
            | TokenKind::Goto | TokenKind::HaltCompiler | TokenKind::If | TokenKind::Implements
            | TokenKind::Include | TokenKind::IncludeOnce | TokenKind::Instanceof
            | TokenKind::Insteadof | TokenKind::Interface | TokenKind::Isset | TokenKind::List
            | TokenKind::Match | TokenKind::Namespace | TokenKind::New | TokenKind::Null
            | TokenKind::Or | TokenKind::Parent | TokenKind::Print | TokenKind::Private
            | TokenKind::Protected | TokenKind::Public | TokenKind::Readonly
            | TokenKind::Require | TokenKind::RequireOnce | TokenKind::Return
            | TokenKind::Self_ | TokenKind::Static | TokenKind::Switch | TokenKind::Throw
            | TokenKind::Trait | TokenKind::Try | TokenKind::True | TokenKind::Unset
            | TokenKind::Use | TokenKind::Var | TokenKind::While | TokenKind::Xor
            | TokenKind::Yield | TokenKind::TraitConstant | TokenKind::FunctionConstant
            | TokenKind::MethodConstant | TokenKind::LineConstant | TokenKind::FileConstant
            | TokenKind::DirConstant | TokenKind::NamespaceConstant => true,
            _ => false,
        },
    ensures
        next == Some(TokenKind::LeftParenthesis) ==> classified(kind, Some(prev), next) == Some(
            SemanticTokenKind::Function,
        ),
        next != Some(TokenKind::LeftParenthesis) ==> classified(kind, Some(prev), next) == Some(
            SemanticTokenKind::Property,
        ),
{
}

/// Anywhere else the words of the language and its magic constants are keywords,
/// but for those that no capability tells apart.
pub proof fn law_words_are_keywords(
    kind: TokenKind,
    prev: Option<TokenKind>,
    next: Option<TokenKind>,
)
    requires
        prev != Some(TokenKind::MinusGreaterThan),
        prev != Some(TokenKind::QuestionMinusGreaterThan),
        prev != Some(TokenKind::ColonColon),
    ensures
        (match kind {
            TokenKind::Abstract | TokenKind::And | TokenKind::Array | TokenKind::As
            | TokenKind::Break | TokenKind::Callable | TokenKind::Case | TokenKind::Catch
            | TokenKind::Class | TokenKind::ClassConstant | TokenKind::Clone | TokenKind::Const
            | TokenKind::Continue | TokenKind::Declare | TokenKind::Default | TokenKind::Do
            | TokenKind::Echo | TokenKind::Else | TokenKind::ElseIf | TokenKind::Empty
            | TokenKind::EndDeclare | TokenKind::EndFor | TokenKind::EndForeach
            | TokenKind::EndIf | TokenKind::EndSwitch | TokenKind::EndWhile | TokenKind::Enum
            | TokenKind::Eval | TokenKind::Exit | TokenKind::Extends | TokenKind::False
            | TokenKind::Final | TokenKind::Finally | TokenKind::Fn | TokenKind::For
            | TokenKind::Foreach | TokenKind::From | TokenKind::Function | TokenKind::Global
            | TokenKind::Goto | TokenKind::HaltCompiler | TokenKind::If | TokenKind::Implements
            | TokenKind::Include | TokenKind::IncludeOnce | TokenKind::Instanceof
            | TokenKind::Insteadof | TokenKind::Interface | TokenKind::Isset | TokenKind::List
            | TokenKind::Match | TokenKind::Namespace | TokenKind::New | TokenKind::Null
            | TokenKind::Or | TokenKind::Parent | TokenKind::Print | TokenKind::Private
            | TokenKind::Protected | TokenKind::Public | TokenKind::Readonly
            | TokenKind::Require | TokenKind::RequireOnce | TokenKind::Return
            | TokenKind::Self_ | TokenKind::Static | TokenKind::Switch | TokenKind::Throw
            | TokenKind::Trait | TokenKind::Try | TokenKind::True | TokenKind::Unset
            | TokenKind::Use | TokenKind::Var | TokenKind::While | TokenKind::Xor
            | TokenKind::Yield | TokenKind::TraitConstant | TokenKind::FunctionConstant
            | TokenKind::MethodConstant | TokenKind::LineConstant | TokenKind::FileConstant
            | TokenKind::DirConstant | TokenKind::NamespaceConstant => true,
            _ => false,
        }) <==> classified(kind, prev, next) == Some(SemanticTokenKind::Keyword),
{
}

/// Numbers, variables and operators are highlighted as such wherever they stand.
pub proof fn law_numbers_variables_and_operators(
    kind: TokenKind,
    prev: Option<TokenKind>,
    next: Option<TokenKind>,
)
    ensures
        kind == TokenKind::LiteralInteger || kind == TokenKind::LiteralFloat <==> classified(
            kind,
            prev,
            next,
        ) == Some(SemanticTokenKind::Number),
        kind == TokenKind::Variable <==> classified(kind, prev, next) == Some(
            SemanticTokenKind::Variable,
        ),
        (match kind {
            TokenKind::Ampersand | TokenKind::AmpersandEqual | TokenKind::AmpersandAmpersand
            | TokenKind::AmpersandAmpersandEqual | TokenKind::Asterisk
            | TokenKind::AsteriskEqual | TokenKind::Bang | TokenKind::BangEqual
            | TokenKind::BangEqualEqual | TokenKind::Caret | TokenKind::CaretEqual
            | TokenKind::Colon | TokenKind::ColonColon | TokenKind::Comma | TokenKind::Dot
            | TokenKind::DotEqual | TokenKind::DotDotDot | TokenKind::Equal
            | TokenKind::EqualEqual | TokenKind::EqualEqualEqual | TokenKind::EqualGreaterThan
            | TokenKind::GreaterThan | TokenKind::GreaterThanEqual | TokenKind::LessThan
            | TokenKind::LessThanEqual | TokenKind::LessThanGreaterThan
            | TokenKind::LessThanEqualGreaterThan | TokenKind::Minus | TokenKind::MinusEqual
            | TokenKind::MinusMinus | TokenKind::MinusGreaterThan | TokenKind::Percent
            | TokenKind::PercentEqual | TokenKind::Pipe | TokenKind::PipeEqual
            | TokenKind::PipePipe | TokenKind::Plus | TokenKind::PlusEqual
            | TokenKind::PlusPlus | TokenKind::Question | TokenKind::QuestionQuestion
            | TokenKind::QuestionQuestionEqual | TokenKind::QuestionMinusGreaterThan
            | TokenKind::Slash | TokenKind::SlashEqual | TokenKind::Tilde | TokenKind::At => true,
            _ => false,
        }) <==> classified(kind, prev, next) == Some(SemanticTokenKind::Operator),
{
}

/// Comments, whitespace, strings, parentheses and reserved words that no capability
/// tells apart are left to the client, the last of these only where they name no
/// member.
pub proof fn law_the_rest_is_left_to_the_client(
    kind: TokenKind,
    prev: Option<TokenKind>,
    next: Option<TokenKind>,
)
    ensures
        kind == TokenKind::Whitespace || kind == TokenKind::SingleLineComment || kind
            == TokenKind::HashComment || kind == TokenKind::MultiLineComment || kind
            == TokenKind::DocBlockComment || kind == TokenKind::Other || kind
            == TokenKind::LeftParenthesis ==> classified(kind, prev, next) is None,
        kind == TokenKind::OtherKeyword && prev != Some(TokenKind::MinusGreaterThan) && prev
            != Some(TokenKind::QuestionMinusGreaterThan) && prev != Some(TokenKind::ColonColon)
            ==> classified(kind, prev, next) is None,
{
}

/// The last `\` of a name is the one that no other follows.
pub proof fn law_last_separator(name: Seq<u8>, count: int, at: int)
    requires
        0 <= count <= name.len(),
    ensures
        0 <= at < count && name[at] == 0x5c && (forall|i: int|
            at < i < count ==> #[trigger] name[i] != 0x5c) ==> last_separator(name, count) == Some(
            at,
        ),
        (forall|i: int| 0 <= i < count ==> #[trigger] name[i] != 0x5c) ==> last_separator(
            name,
            count,
        ) is None,
    decreases count,
{
    if count > 0 {
        law_last_separator(name, count - 1, at);
    }
}

/// The token is not empty, and its first and last byte are on one line.
pub open spec fn is_shown(contents: Seq<u8>, token: TokenView) -> bool {
    token.value.len() > 0 && newlines_before(contents, token.start as int) == newlines_before(
        contents,
        token.start + token.value.len() - 1,
    )
}

/// A token is highlighted as a whole, by its kind and the kinds of the nearest
/// tokens around it that are neither whitespace nor comments.
pub proof fn law_tokens_are_highlighted_whole(contents: Seq<u8>, tokens: Seq<TokenView>, index: int)
    requires
        0 <= index < tokens.len(),
        tokens[index].start + tokens[index].value.len() <= 0xffff_ffff,
        is_shown(contents, tokens[index]),
        tokens[index].kind != TokenKind::QualifiedIdentifier,
        tokens[index].kind != TokenKind::FullyQualifiedIdentifier,
    ensures
        ({
            let prev = match significant_before(tokens, index) {
                Some(before) => Some(tokens[before].kind),
                None => None,
            };
            let next = match significant_after(tokens, index) {
                Some(after) => Some(tokens[after].kind),
                None => None,
            };
            let items = highlights_of(contents, tokens, index);
            match classified(tokens[index].kind, prev, next) {
                Some(kind) => items.len() == 1 && items[0].kind == kind && items[0].offset
                    == tokens[index].start && items[0].length == tokens[index].value.len(),
                None => items.len() == 0,
            }
        }),
{
}

/// A token that is empty or wraps is not highlighted.
pub proof fn law_wrapping_tokens_are_not_highlighted(
    contents: Seq<u8>,
    tokens: Seq<TokenView>,
    index: int,
)
    requires
        0 <= index < tokens.len(),
        !is_shown(contents, tokens[index]),
    ensures
        highlights_of(contents, tokens, index).len() == 0,
{
}

/// A qualified name comes in pieces: what stands before its last `\`, if anything
/// does, is a namespace, and what stands behind it, if anything does, is a function
/// when it is called and a type otherwise.
pub proof fn law_qualified_names_come_in_pieces(
    contents: Seq<u8>,
    tokens: Seq<TokenView>,
    index: int,
    at: int,
)
    requires
        0 <= index < tokens.len(),
        tokens[index].start + tokens[index].value.len() <= 0xffff_ffff,
        is_shown(contents, tokens[index]),
        tokens[index].kind == TokenKind::QualifiedIdentifier || tokens[index].kind
            == TokenKind::FullyQualifiedIdentifier,
        0 <= at < tokens[index].value.len(),
        tokens[index].value[at] == 0x5c,
        forall|i: int|
            at < i < tokens[index].value.len() ==> #[trigger] tokens[index].value[i] != 0x5c,
    ensures
        ({
            let token = tokens[index];
            let items = highlights_of(contents, tokens, index);
            let behind = token.value.len() - at - 1;
            let called = significant_after(tokens, index) is Some && tokens[significant_after(
                tokens,
                index,
            )->0].kind == TokenKind::LeftParenthesis;
            &&& items.len() == (if at > 0 {
                1int
            } else {
                0
            }) + (if behind > 0 {
                1int
            } else {
                0
            })
            &&& at > 0 ==> items[0].kind == SemanticTokenKind::Namespace && items[0].offset
                == token.start && items[0].length == at
            &&& behind > 0 ==> items.last().offset == token.start + at + 1 && items.last().length
                == behind && items.last().kind == (if called {
                SemanticTokenKind::Function
            } else {
                SemanticTokenKind::Type
            })
        }),
{
    law_last_separator(tokens[index].value, tokens[index].value.len() as int, at);
}

/// The highlights of a file are those of its tokens, one token after the other.
pub proof fn law_highlights_follow_the_tokens(
    contents: Seq<u8>,
    tokens: Seq<TokenView>,
    count: int,
)
    requires
        0 <= count < tokens.len(),
    ensures
        highlights(contents, tokens, 0) == Seq::<SemanticTokenItem>::empty(),
        highlights(contents, tokens, count + 1) == highlights(contents, tokens, count)
            + highlights_of(contents, tokens, count),
{
}

/// The highlights that a server gives for a file are those of all of its tokens.
pub proof fn law_highlights_cover_the_file(server: Server, file_id: FileId)
    ensures
        server.file(file_id) matches Some(file) ==> highlights_in(server, file_id) == highlights(
            file.contents@,
            file.token_seq(),
            file.tokens@.len() as int,
        ),
        server.file(file_id) is None ==> highlights_in(server, file_id).len() == 0,
{
}

} // verus!
