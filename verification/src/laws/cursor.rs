//! Laws on what stands at a cursor: variables, identifiers, tokens, names and
//! `::` accesses.

use vstd::prelude::*;

use crate::ascii::equal_ignoring_case;
use crate::lookup::{
    identifier, identifier_byte, law_token_lookup_finds_the_cover, lemma_one_variable,
    lemma_token_covering, lexed, name_at, significant_after, significant_before, static_member,
    steps_fit, token_covering, tokens_ordered, trivia, variable_covers, variable_extent, Lexeme,
    MemberQualifier, MemberSelector, NameAtCursor, StaticMemberAtCursor,
};
use crate::token::{token_views, RawToken, Token, TokenKind, TokenView};

verus! {

/// An ASCII letter or `_`.
pub open spec fn word_start(byte: u8) -> bool {
    0x41 <= byte <= 0x5a || 0x61 <= byte <= 0x7a || byte == 0x5f
}

/// An ASCII letter, a digit or `_`.
pub open spec fn word_part(byte: u8) -> bool {
    word_start(byte) || 0x30 <= byte <= 0x39
}

/// A variable is a `$` and a name that starts with a letter or `_` and goes on with
/// these and digits for as long as it can; it is at the cursor when the cursor is on
/// any of it, the `$` included.
pub proof fn law_variable_is_a_dollar_and_a_name(bytes: Seq<u8>, start: int, end: int, offset: int)
    ensures
        variable_covers(bytes, start, end, offset) <==> {
            &&& 0 <= start <= offset < end <= bytes.len()
            &&& start + 1 < end
            &&& bytes[start] == 0x24
            &&& word_start(bytes[start + 1])
            &&& forall|i: int| start < i < end ==> word_part(#[trigger] bytes[i])
            &&& end == bytes.len() || !word_part(bytes[end])
        },
        variable_covers(bytes, start, end, offset) ==> variable_extent(bytes, offset) == Some(
            (start, end),
        ),
        variable_extent(bytes, offset) matches Some((from, to)) ==> variable_covers(
            bytes,
            from,
            to,
            offset,
        ),
{
    if {
        &&& 0 <= start <= offset < end <= bytes.len()
        &&& start + 1 < end
        &&& bytes[start] == 0x24
        &&& word_start(bytes[start + 1])
        &&& forall|i: int| start < i < end ==> word_part(#[trigger] bytes[i])
        &&& end == bytes.len() || !word_part(bytes[end])
    } {
        assert forall|i: int| start < i < end implies crate::lookup::var_char(
            #[trigger] bytes[i],
        ) by {
            assert(word_part(bytes[i]));
        }
    }
    if variable_covers(bytes, start, end, offset) {
        assert forall|i: int| start < i < end implies word_part(#[trigger] bytes[i]) by {
            assert(crate::lookup::var_char(bytes[i]));
        }
        let found = choose|s: int, e: int| variable_covers(bytes, s, e, offset);
        lemma_one_variable(bytes, start, end, found.0, found.1, offset);
    }
}

/// An identifier starts with a letter, `_` or a byte beyond ASCII, and goes on with
/// these and digits.
pub proof fn law_identifier_bytes(bytes: Seq<u8>, byte: u8)
    ensures
        identifier_byte(byte) <==> word_part(byte) || byte >= 0x80,
        identifier(bytes) <==> bytes.len() > 0 && (word_start(bytes[0]) || bytes[0] >= 0x80)
            && forall|i: int|
            0 < i < bytes.len() ==> word_part(#[trigger] bytes[i]) || bytes[i] >= 0x80,
{
    if identifier(bytes) {
        assert forall|i: int| 0 < i < bytes.len() implies word_part(#[trigger] bytes[i]) || bytes[i]
            >= 0x80 by {
            assert(identifier_byte(bytes[i]));
        }
    }
}

/// Whitespace and the four kinds of comment are skipped, nothing else is.
pub proof fn law_trivia(kind: TokenKind)
    ensures
        trivia(kind) <==> kind == TokenKind::Whitespace || kind == TokenKind::SingleLineComment
            || kind == TokenKind::HashComment || kind == TokenKind::MultiLineComment || kind
            == TokenKind::DocBlockComment,
{
}

/// Among tokens that do not overlap, an offset leads to the token that starts at or
/// before it and ends behind it, and to none where there is no such token.
pub proof fn law_token_at_offset(tokens: Seq<TokenView>, offset: int, index: int)
    requires
        0 <= index < tokens.len(),
        forall|i: int|
            0 <= i < tokens.len() ==> (#[trigger] tokens[i]).start + tokens[i].value.len()
                <= 0xffff_ffff,
        forall|i: int, j: int|
            0 <= i < j < tokens.len() ==> (#[trigger] tokens[i]).start + tokens[i].value.len() <= (
            #[trigger] tokens[j]).start,
    ensures
        token_covering(tokens, offset) == Some(index) <==> tokens[index].start <= offset
            < tokens[index].start + tokens[index].value.len(),
        (forall|i: int|
            0 <= i < tokens.len() ==> !((#[trigger] tokens[i]).start <= offset < tokens[i].start
                + tokens[i].value.len())) ==> token_covering(tokens, offset) is None,
{
    assert forall|i: int, j: int| 0 <= i <= j < tokens.len() implies (#[trigger] tokens[i]).start
        <= (#[trigger] tokens[j]).start by {
        if i < j {
            assert(tokens[i].start + tokens[i].value.len() <= tokens[j].start);
        }
    }
    assert(tokens_ordered(tokens));
    law_token_lookup_finds_the_cover(tokens, offset, index);
    lemma_token_covering(tokens, offset);
    if let Some(at) = token_covering(tokens, offset) {
        law_token_lookup_finds_the_cover(tokens, offset, at);
    }
}

/// Behind `self::` or `static::` stands a member of the enclosing class-like, behind
/// `parent::` one of its parent, behind a name one of the class-like of that name.
/// Nothing else in front of a `::` makes an access.
pub proof fn law_access_by_qualifier(
    tokens: Seq<TokenView>,
    offset: int,
    index: int,
    colon: int,
    owner: int,
)
    requires
        token_covering(tokens, offset) == Some(index),
        significant_before(tokens, index) == Some(colon),
        tokens[colon].kind == TokenKind::ColonColon,
        significant_before(tokens, colon) == Some(owner),
    ensures
        tokens[owner].kind == TokenKind::Self_ || tokens[owner].kind == TokenKind::Static ==> (
        static_member(tokens, offset) matches Some(member) ==> member.qualifier
            == MemberQualifier::Enclosing),
        tokens[owner].kind == TokenKind::Parent ==> (static_member(tokens, offset) matches Some(
            member,
        ) ==> member.qualifier == MemberQualifier::Parent),
        tokens[owner].kind == TokenKind::Identifier || tokens[owner].kind
            == TokenKind::QualifiedIdentifier || tokens[owner].kind
            == TokenKind::FullyQualifiedIdentifier ==> (static_member(tokens, offset) matches Some(
            member,
        ) ==> member.qualifier == MemberQualifier::Named(tokens[owner].start)),
        tokens[owner].kind != TokenKind::Self_ && tokens[owner].kind != TokenKind::Static
            && tokens[owner].kind != TokenKind::Parent && tokens[owner].kind
            != TokenKind::Identifier && tokens[owner].kind != TokenKind::QualifiedIdentifier
            && tokens[owner].kind != TokenKind::FullyQualifiedIdentifier ==> static_member(
            tokens,
            offset,
        ) is None,
{
}

/// Behind such a qualifier, `$name` is a property without its `$`; an identifier
/// that is not `class` is a method when a `(` follows and a constant otherwise; and
/// anything else is no member. The range is that of the name.
pub proof fn law_access_by_name(
    tokens: Seq<TokenView>,
    offset: int,
    index: int,
    colon: int,
    owner: int,
)
    requires
        token_covering(tokens, offset) == Some(index),
        significant_before(tokens, index) == Some(colon),
        tokens[colon].kind == TokenKind::ColonColon,
        significant_before(tokens, colon) == Some(owner),
        tokens[owner].kind == TokenKind::Self_ || tokens[owner].kind == TokenKind::Static
            || tokens[owner].kind == TokenKind::Parent || tokens[owner].kind
            == TokenKind::Identifier || tokens[owner].kind == TokenKind::QualifiedIdentifier
            || tokens[owner].kind == TokenKind::FullyQualifiedIdentifier,
        tokens[index].start + tokens[index].value.len() <= 0xffff_ffff,
    ensures
        ({
            let token = tokens[index];
            let found = static_member(tokens, offset);
            let is_class = equal_ignoring_case(
                token.value,
                seq![0x63u8, 0x6cu8, 0x61u8, 0x73u8, 0x73u8],
            );
            &&& token.kind == TokenKind::Variable && token.value.len() > 1 ==> found is Some && found->0.name == token.value.subrange(1, token.value.len() as int) && found->0.start
                == token.start + 1 && found->0.end == token.start + token.value.len()
                && found->0.selector == MemberSelector::Property
            &&& token.kind != TokenKind::Variable && identifier(token.value) && !is_class
                ==> found is Some && found->0.name == token.value && found->0.start
                == token.start && found->0.end == token.start + token.value.len() && (
            if significant_after(tokens, index) is Some && tokens[significant_after(
                tokens,
                index,
            )->0].kind == TokenKind::LeftParenthesis {
                found->0.selector == MemberSelector::Method
            } else {
                found->0.selector == MemberSelector::Constant
            })
            &&& token.kind == TokenKind::Variable && token.value.len() <= 1 ==> found is None
            &&& token.kind != TokenKind::Variable && (!identifier(token.value) || is_class)
                ==> found is None
        }),
{
    let token = tokens[index];
    assert(crate::lookup::class_word() =~= seq![0x63u8, 0x6cu8, 0x61u8, 0x73u8, 0x73u8]);
    if token.value.len() > 1 {
        assert(token.value.skip(1) =~= token.value.subrange(1, token.value.len() as int));
    }
}

/// Without a `::` in front, or without anything in front of that, there is no
/// access.
pub proof fn law_no_access_without_double_colon(tokens: Seq<TokenView>, offset: int)
    ensures
        token_covering(tokens, offset) is None ==> static_member(tokens, offset) is None,
        token_covering(tokens, offset) matches Some(index) ==> (significant_before(
            tokens,
            index,
        ) is None ==> static_member(tokens, offset) is None) && (significant_before(
            tokens,
            index,
        ) matches Some(colon) ==> (tokens[colon].kind != TokenKind::ColonColon
            || significant_before(tokens, colon) is None) ==> static_member(tokens, offset) is None),
{
}

/// The name at the cursor is the text of its token: of a variable without its `$`,
/// of any other token where it is shaped like an identifier. The range is that of
/// the name.
pub proof fn law_name_at_cursor(tokens: Seq<TokenView>, offset: int, index: int)
    requires
        token_covering(tokens, offset) == Some(index),
        tokens[index].start + tokens[index].value.len() <= 0xffff_ffff,
    ensures
        ({
            let token = tokens[index];
            let found = name_at(tokens, offset);
            &&& token.kind == TokenKind::Variable && token.value.len() > 1 ==> found is Some && found->0.is_variable && found->0.name == token.value.subrange(
                1,
                token.value.len() as int,
            ) && found->0.start == token.start + 1 && found->0.end == token.start + token.value.len()
            &&& token.kind != TokenKind::Variable && identifier(token.value) ==> found is Some && !found->0.is_variable && found->0.name == token.value && found->0.start == token.start
                && found->0.end == token.start + token.value.len()
            &&& token.kind == TokenKind::Variable && token.value.len() <= 1 ==> found is None
            &&& token.kind != TokenKind::Variable && !identifier(token.value) ==> found is None
        }),
{
    let token = tokens[index];
    if token.value.len() > 1 {
        assert(token.value.skip(1) =~= token.value.subrange(1, token.value.len() as int));
    }
}

/// Where no token covers the cursor there is no name.
pub proof fn law_no_name_without_token(tokens: Seq<TokenView>, offset: int)
    ensures
        token_covering(tokens, offset) is None ==> name_at(tokens, offset) is None,
{
}

/// A step of the lexer that succeeded adds one token, of that kind, from its start
/// for its length; one that failed adds none.
pub proof fn law_steps_become_tokens(steps: Seq<Option<Lexeme>>, lexeme: Lexeme)
    requires
        lexeme.start + lexeme.length <= 0xffff_ffff,
    ensures
        lexed(Seq::empty()) == Seq::<RawToken>::empty(),
        lexed(steps.push(None)) == lexed(steps),
        lexed(steps.push(Some(lexeme))).len() == lexed(steps).len() + 1,
        lexed(steps.push(Some(lexeme))).drop_last() == lexed(steps),
        lexed(steps.push(Some(lexeme))).last().kind == lexeme.kind,
        lexed(steps.push(Some(lexeme))).last().start == lexeme.start,
        lexed(steps.push(Some(lexeme))).last().end == lexeme.start + lexeme.length,
{
    assert(steps.push(None).drop_last() =~= steps);
    assert(steps.push(Some(lexeme)).drop_last() =~= steps);
    assert(lexed(steps.push(Some(lexeme))).drop_last() =~= lexed(steps));
}

/// Steps fit when every token ends at a 32-bit offset.
pub proof fn law_fitting_steps(steps: Seq<Option<Lexeme>>)
    ensures
        steps_fit(steps) <==> forall|i: int|
            0 <= i < steps.len() && (#[trigger] steps[i]) is Some ==> steps[i]->0.start
                + steps[i]->0.length <= 0xffff_ffff,
{
}

/// The views of tokens and of what stands at a cursor tell all that they hold.
pub proof fn law_cursor_views(
    tokens: Seq<Token<'_>>,
    i: int,
    name: NameAtCursor<'_>,
    member: StaticMemberAtCursor<'_>,
)
    ensures
        token_views(tokens).len() == tokens.len(),
        0 <= i < tokens.len() ==> token_views(tokens)[i].kind == tokens[i].kind && token_views(
            tokens,
        )[i].start == tokens[i].start.offset && token_views(tokens)[i].value == tokens[i].value@,
        name@.name == name.name@ && name@.start == name.start && name@.end == name.end
            && name@.is_variable == name.is_variable,
        member@.name == member.name@ && member@.start == member.start && member@.end == member.end
            && member@.qualifier == member.qualifier && member@.selector == member.selector,
{
}

} // verus!
