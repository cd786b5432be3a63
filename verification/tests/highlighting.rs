//! Files, token tables, and semantic highlighting.

use mago_server::codebase::CodebaseMetadata;
use mago_server::domain::FileType;
use mago_server::file::File;
use mago_server::lex_cache::{invalidate, LexCache, LEX_CACHE_CAP};
use mago_server::lookup::{
    is_identifier, is_trivia, lex, lex_uncached, next_significant, previous_significant,
    token_at_offset, Lexeme,
};
use mago_server::semantic_tokens::{classify, highlight, SemanticTokenItem, SemanticTokenKind};
use mago_server::server::Server;
use mago_server::token::{RawToken, Token, TokenKind};

/// Tokens laid end to end, from their kinds and texts.
fn laid_out(pieces: &[(TokenKind, &str)]) -> (Vec<u8>, Vec<RawToken>) {
    let mut contents = Vec::new();
    let mut tokens = Vec::new();
    for (kind, text) in pieces {
        let start = contents.len() as u32;
        contents.extend_from_slice(text.as_bytes());
        tokens.push(RawToken {
            kind: *kind,
            start,
            end: contents.len() as u32,
        });
    }
    (contents, tokens)
}

fn file_of(pieces: &[(TokenKind, &str)]) -> File {
    let (contents, tokens) = laid_out(pieces);
    match File::new(1, None, FileType::Host, contents, tokens) {
        Some(file) => file,
        None => panic!("the tokens fit"),
    }
}

fn item(offset: u32, length: u32, kind: SemanticTokenKind) -> SemanticTokenItem {
    SemanticTokenItem { offset, length, kind }
}

const SPACE: (TokenKind, &str) = (TokenKind::Whitespace, " ");

#[test]
fn lines_are_counted_from_zero() {
    let file = match File::new(1, None, FileType::Host, b"ab\n\ncd".to_vec(), vec![]) {
        Some(file) => file,
        None => panic!("there are no tokens to fit"),
    };
    assert_eq!(file.lines, vec![0, 3, 4]);
    let numbers: Vec<u32> = (0..8).map(|offset| file.line_number(offset)).collect();
    assert_eq!(numbers, vec![0, 0, 0, 1, 2, 2, 2, 2]);
    assert_eq!(file.get_line_start_offset(2), Some(4));
    assert_eq!(file.get_line_start_offset(3), None);
    assert_eq!(file.line_start_at(5), 4);
    assert_eq!(file.line_start_at(2), 0);
}

#[test]
fn tokens_must_fit_the_contents() {
    let token = |start: u32, end: u32| RawToken {
        kind: TokenKind::Other,
        start,
        end,
    };
    let build = |tokens: Vec<RawToken>| File::new(1, None, FileType::Host, b"abc".to_vec(), tokens);
    assert!(build(vec![token(0, 1), token(1, 3)]).is_some());
    assert!(build(vec![token(0, 4)]).is_none());
    assert!(build(vec![token(2, 1)]).is_none());
    assert!(build(vec![token(1, 2), token(0, 1)]).is_none());
    // Nor may they overlap.
    assert!(build(vec![token(0, 2), token(1, 3)]).is_none());
    assert!(build(vec![token(0, 1), token(2, 3)]).is_some());
}

#[test]
fn failed_lexer_steps_leave_no_token() {
    let step = |start: u32, length: u32| {
        Some(Lexeme { kind: TokenKind::Identifier, start, length })
    };
    let tokens = lex_uncached(&[step(0, 2), None, step(3, 4)]);
    let spans: Vec<(u32, u32)> = tokens.iter().map(|token| (token.start, token.end)).collect();
    assert_eq!(spans, vec![(0, 2), (3, 7)]);
}

#[test]
fn looks_tokens_up_by_offset_and_skips_trivia() {
    let file = file_of(&[
        (TokenKind::Identifier, "foo"),
        SPACE,
        (TokenKind::MultiLineComment, "/* x */"),
        (TokenKind::LeftParenthesis, "("),
    ]);
    let tokens = lex(&file);
    assert_eq!(tokens[2].value, b"/* x */");
    assert_eq!(token_at_offset(&tokens, 0), Some(0));
    assert_eq!(token_at_offset(&tokens, 2), Some(0));
    assert_eq!(token_at_offset(&tokens, 3), Some(1));
    assert_eq!(token_at_offset(&tokens, 11), Some(3));
    assert_eq!(token_at_offset(&tokens, 12), None);
    assert_eq!(previous_significant(&tokens, 3), Some(0));
    assert_eq!(previous_significant(&tokens, 0), None);
    assert_eq!(next_significant(&tokens, 0), Some(3));
    assert_eq!(next_significant(&tokens, 3), None);
    assert!(is_trivia(TokenKind::DocBlockComment));
    assert!(!is_trivia(TokenKind::Identifier));
}

#[test]
fn identifiers_take_bytes_beyond_ascii() {
    assert!(is_identifier(b"_a1"));
    assert!(is_identifier("é".as_bytes()));
    assert!(!is_identifier(b""));
    assert!(!is_identifier(b"1a"));
    assert!(!is_identifier(b"a-b"));
}

#[test]
fn remembered_tokens_are_found_until_the_contents_change() {
    let (_, tokens) = laid_out(&[(TokenKind::Identifier, "foo")]);
    let mut cache = LexCache::new();
    assert!(cache.cached_entry(1, b"foo").is_none());
    cache.remember(1, b"foo", tokens.clone());
    cache.remember(2, b"foo", tokens.clone());
    assert_eq!(cache.cached_entry(1, b"foo"), Some(&tokens));
    assert!(cache.cached_entry(1, b"bar").is_none());
    // A digest is what entries go by.
    let digest = xxhash_rust::xxh3::xxh3_64(b"foo");
    assert_eq!(cache.entry_with_digest(1, digest), Some(&tokens));
    assert!(cache.entry_with_digest(1, 0).is_none());
    cache.remember_with_digest(1, 0, Vec::new());
    assert_eq!(cache.entry_with_digest(1, 0), Some(&Vec::new()));
    assert!(cache.cached_entry(1, b"foo").is_none());
    invalidate(&mut cache, &[2, 3]);
    assert!(cache.cached_entry(2, b"foo").is_none());
    assert!(cache.entry_with_digest(1, 0).is_some());
}

#[test]
fn a_lookup_gives_what_lexing_afresh_would() {
    // One token for each byte that is no blank.
    let steps = |contents: &[u8]| -> Vec<Option<Lexeme>> {
        (0..contents.len() as u32)
            .map(|start| {
                let lexeme = Lexeme { kind: TokenKind::Identifier, start, length: 1 };
                (contents[start as usize] != b' ').then_some(lexeme)
            })
            .collect()
    };
    let runs = std::cell::Cell::new(0);
    let lexer = |contents: &[u8]| {
        runs.set(runs.get() + 1);
        steps(contents)
    };
    let mut cache = LexCache::new();
    let versions: [&[u8]; 4] = [b"a b", b"a b", b"ab", b"a b"];
    for contents in versions {
        assert_eq!(
            cache.tokens_of(1, contents, lexer),
            Some(lex_uncached(&steps(contents)))
        );
    }
    // Only a change of the contents made it run again.
    assert_eq!(runs.get(), 3);
    invalidate(&mut cache, &[1]);
    let file = match cache.lexed_file(1, None, FileType::Host, b"a b".to_vec(), lexer) {
        Some(file) => file,
        None => panic!("the tokens fit"),
    };
    assert_eq!(runs.get(), 4);
    let texts: Vec<&[u8]> = lex(&file).iter().map(|token| token.value).collect();
    assert_eq!(texts, vec![b"a", b"b"]);
}

#[test]
fn tokens_past_the_end_make_no_file() {
    let mut cache = LexCache::new();
    let far = |start: u32, length: u32| {
        move |_: &[u8]| vec![Some(Lexeme { kind: TokenKind::Other, start, length })]
    };
    assert_eq!(cache.tokens_of(1, b"a", far(u32::MAX, 1)), None);
    assert!(cache.cached_entry(1, b"a").is_none());
    assert!(cache.lexed_file(1, None, FileType::Host, b"a".to_vec(), far(0, 2)).is_none());
    assert!(cache.lexed_file(2, None, FileType::Host, b"a".to_vec(), far(0, 1)).is_some());
}

#[test]
fn the_cache_stays_within_its_bound() {
    let mut cache = LexCache::new();
    for id in 0..LEX_CACHE_CAP as u64 + 10 {
        cache.remember(id, b"x", Vec::new());
        assert!(cache.cached_entry(id, b"x").is_some());
    }
    let kept = (0..LEX_CACHE_CAP as u64 + 10)
        .filter(|id| cache.cached_entry(*id, b"x").is_some())
        .count();
    assert_eq!(kept, LEX_CACHE_CAP);
}

#[test]
fn names_are_highlighted_by_position() {
    // `function run(): void { return Builder::new(); }`
    let file = file_of(&[
        (TokenKind::Function, "function"),
        SPACE,
        (TokenKind::Identifier, "run"),
        (TokenKind::LeftParenthesis, "("),
        (TokenKind::Other, ")"),
        (TokenKind::Colon, ":"),
        SPACE,
        (TokenKind::Identifier, "void"),
        SPACE,
        (TokenKind::Return, "return"),
        SPACE,
        (TokenKind::Identifier, "Builder"),
        (TokenKind::ColonColon, "::"),
        (TokenKind::New, "new"),
        (TokenKind::LeftParenthesis, "("),
        (TokenKind::Variable, "$x"),
        (TokenKind::LiteralInteger, "12"),
    ]);
    assert_eq!(
        highlight(&file),
        vec![
            item(0, 8, SemanticTokenKind::Keyword),
            item(9, 3, SemanticTokenKind::Function),
            item(14, 1, SemanticTokenKind::Operator),
            // The return type is left to the client.
            item(21, 6, SemanticTokenKind::Keyword),
            item(35, 2, SemanticTokenKind::Operator),
            item(37, 3, SemanticTokenKind::Function),
            item(41, 2, SemanticTokenKind::Variable),
            item(43, 2, SemanticTokenKind::Number),
        ]
    );
}

#[test]
fn qualified_names_come_in_two_pieces() {
    let file = file_of(&[
        (TokenKind::QualifiedIdentifier, "Foo\\Bar"),
        SPACE,
        (TokenKind::FullyQualifiedIdentifier, "\\run"),
        (TokenKind::LeftParenthesis, "("),
        (TokenKind::QualifiedIdentifier, "Baz\\"),
    ]);
    assert_eq!(
        highlight(&file),
        vec![
            item(0, 3, SemanticTokenKind::Namespace),
            item(4, 3, SemanticTokenKind::Type),
            item(9, 3, SemanticTokenKind::Function),
            item(13, 3, SemanticTokenKind::Namespace),
        ]
    );
}

#[test]
fn tokens_that_wrap_and_comments_are_left_to_the_client() {
    let file = file_of(&[
        (TokenKind::Variable, "$a"),
        (TokenKind::Other, "<<<SQL\n  x\nSQL"),
        (TokenKind::SingleLineComment, "// y"),
        (TokenKind::Identifier, "a\nb"),
        (TokenKind::Equal, ""),
    ]);
    assert_eq!(highlight(&file), vec![item(0, 2, SemanticTokenKind::Variable)]);
}

#[test]
fn highlights_are_in_order_and_apart() {
    let file = file_of(&[
        (TokenKind::Class, "class"),
        SPACE,
        (TokenKind::Identifier, "A"),
        SPACE,
        (TokenKind::Extends, "extends"),
        SPACE,
        (TokenKind::QualifiedIdentifier, "B\\C"),
    ]);
    let items = highlight(&file);
    assert_eq!(items.len(), 5);
    for pair in items.windows(2) {
        assert!(pair[0].offset + pair[0].length <= pair[1].offset);
    }
}

#[test]
fn classification_depends_on_the_neighbours() {
    let token = |kind: TokenKind| Token {
        kind,
        start: mago_server::domain::Position { offset: 0 },
        value: b"list",
    };
    let word = token(TokenKind::List);
    let call = Some(TokenKind::LeftParenthesis);
    assert_eq!(classify(&word, None, None), Some(SemanticTokenKind::Keyword));
    for access in [
        TokenKind::MinusGreaterThan,
        TokenKind::QuestionMinusGreaterThan,
        TokenKind::ColonColon,
    ] {
        assert_eq!(classify(&word, Some(access), None), Some(SemanticTokenKind::Property));
        assert_eq!(classify(&word, Some(access), call), Some(SemanticTokenKind::Function));
    }
    let name = token(TokenKind::Identifier);
    assert_eq!(classify(&name, None, None), None);
    // Neither its text nor its place matters.
    let capital = Token {
        kind: TokenKind::Identifier,
        start: mago_server::domain::Position { offset: 9 },
        value: b"Route",
    };
    assert_eq!(classify(&capital, None, None), None);
    assert_eq!(classify(&capital, None, call), classify(&name, None, call));
    assert_eq!(classify(&name, None, call), Some(SemanticTokenKind::Function));
    assert_eq!(classify(&name, Some(TokenKind::New), call), Some(SemanticTokenKind::Type));
    assert_eq!(classify(&name, Some(TokenKind::Use), None), Some(SemanticTokenKind::Namespace));
    assert_eq!(
        classify(&name, Some(TokenKind::Function), None),
        Some(SemanticTokenKind::Function)
    );
    // Reserved words that no capability tells apart can still name a member.
    let access = Some(TokenKind::ColonColon);
    let other_word = token(TokenKind::OtherKeyword);
    assert_eq!(classify(&other_word, None, None), None);
    assert_eq!(classify(&other_word, access, None), Some(SemanticTokenKind::Property));
    let other = token(TokenKind::Other);
    assert_eq!(classify(&other, None, None), None);
    assert_eq!(classify(&other, access, None), None);
}

#[test]
fn an_unknown_file_has_no_highlights() {
    let codebase = match CodebaseMetadata::new(vec![], vec![], vec![]) {
        Some(codebase) => codebase,
        None => panic!("there are no spans to fit"),
    };
    let file = file_of(&[(TokenKind::Variable, "$a")]);
    let server = match Server::new(vec![file], codebase, vec![], vec![], vec![], None) {
        Some(server) => server,
        None => panic!("the file has an id of its own"),
    };
    assert_eq!(server.get_semantic_tokens(2), vec![]);
    assert_eq!(
        server.get_semantic_tokens(1),
        vec![item(0, 2, SemanticTokenKind::Variable)]
    );
}
