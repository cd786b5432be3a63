//! Members, definitions, hover and rename, over small sources.

use mago_server::codebase::{
    ClassLikeConstantMetadata, ClassLikeMetadata, CodebaseMetadata, ConstantMetadata,
    DeclaringClass, EnumCaseMetadata, FunctionLikeMetadata, ParameterMetadata, PropertyMetadata,
    SymbolKind,
};
use mago_server::domain::{FileType, Position, Range, Span, SymbolLocation};
use mago_server::file::File;
use mago_server::hover::{render, render_class_like, render_variable};
use mago_server::lookup::{
    name_at_offset, static_member_at_offset, variable_at_offset, MemberQualifier, MemberSelector,
};
use mago_server::member::{name_occurrences, MemberKind};
use mago_server::rename::{compute, is_valid_php_identifier, prepare, replacement_name};
use mago_server::server::{ExpressionType, FileAnalysis, ResolvedName, Server, TypeIndex};
use mago_server::token::{RawToken, TokenKind};

// ---- Fixtures ------------------------------------------------------------

fn word_kind(word: &str) -> TokenKind {
    match word {
        "class" => TokenKind::Class,
        "enum" => TokenKind::Enum,
        "case" => TokenKind::Case,
        "const" => TokenKind::Const,
        "static" => TokenKind::Static,
        "function" => TokenKind::Function,
        "public" => TokenKind::Public,
        "self" => TokenKind::Self_,
        "parent" => TokenKind::Parent,
        "new" => TokenKind::New,
        "extends" => TokenKind::Extends,
        "echo" => TokenKind::Echo,
        _ if word.contains('\\') => TokenKind::QualifiedIdentifier,
        _ => TokenKind::Identifier,
    }
}

fn is_word(byte: u8) -> bool {
    byte.is_ascii_alphanumeric() || byte == b'_' || byte == b'\\' || byte >= 0x80
}

/// Splits a small source into tokens.
fn tokens(source: &str) -> Vec<RawToken> {
    let bytes = source.as_bytes();
    let mut out = Vec::new();
    let mut at = 0;
    while at < bytes.len() {
        let start = at;
        let kind = if bytes[at].is_ascii_whitespace() {
            while at < bytes.len() && bytes[at].is_ascii_whitespace() {
                at += 1;
            }
            TokenKind::Whitespace
        } else if bytes[at] == b'$' {
            at += 1;
            while at < bytes.len() && is_word(bytes[at]) {
                at += 1;
            }
            TokenKind::Variable
        } else if is_word(bytes[at]) {
            while at < bytes.len() && is_word(bytes[at]) {
                at += 1;
            }
            word_kind(&source[start..at])
        } else if source[at..].starts_with("::") {
            at += 2;
            TokenKind::ColonColon
        } else if bytes[at] == b'(' {
            at += 1;
            TokenKind::LeftParenthesis
        } else {
            at += 1;
            TokenKind::Other
        };
        out.push(RawToken { kind, start: start as u32, end: at as u32 });
    }
    out
}

fn file(id: u64, uri: &str, source: &str) -> File {
    let built = File::new(
        id,
        Some(uri.to_string()),
        FileType::Host,
        source.as_bytes().to_vec(),
        tokens(source),
    );
    match built {
        Some(file) => file,
        None => panic!("the tokens fit"),
    }
}

/// The span of the `nth` occurrence of `text`.
fn span(id: u64, source: &str, text: &str, nth: usize) -> Span {
    let start = match source.match_indices(text).nth(nth) {
        Some((at, _)) => at,
        None => panic!("`{text}` is in the source"),
    };
    Span::new(
        id,
        Position { offset: start as u32 },
        Position { offset: (start + text.len()) as u32 },
    )
}

fn at(source: &str, text: &str, nth: usize) -> u32 {
    span(0, source, text, nth).start.offset
}

fn class_like(name: &str, kind: SymbolKind, span: Span) -> ClassLikeMetadata {
    ClassLikeMetadata {
        name: name.to_ascii_lowercase().into_bytes(),
        original_name: name.as_bytes().to_vec(),
        kind,
        span,
        direct_parent_class: None,
        direct_parent_interfaces: Vec::new(),
        used_traits: Vec::new(),
        constants: Vec::new(),
        enum_cases: Vec::new(),
        properties: Vec::new(),
        methods: Vec::new(),
        declaring_methods: Vec::new(),
        declaring_properties: Vec::new(),
    }
}

fn case(id: u64, source: &str, name: &str, nth: usize, value: Option<&str>) -> EnumCaseMetadata {
    EnumCaseMetadata {
        name: name.as_bytes().to_vec(),
        name_span: span(id, source, name, nth),
        value_type: value.map(|value| value.as_bytes().to_vec()),
    }
}

fn declaring(member: &str, class: &str) -> DeclaringClass {
    DeclaringClass { member: member.as_bytes().to_vec(), class: class.as_bytes().to_vec() }
}

fn resolved(source: &str, text: &str, nth: usize, name: &str) -> ResolvedName {
    let span = span(0, source, text, nth);
    ResolvedName {
        start: span.start.offset,
        end: span.end.offset,
        name: name.as_bytes().to_vec(),
        imported: false,
    }
}

fn analysis(file_id: u64, resolved: Vec<ResolvedName>) -> FileAnalysis {
    FileAnalysis {
        file_id,
        resolved,
        function_like_sites: Vec::new(),
        lint_issues: Vec::new(),
    }
}

fn server(
    files: Vec<File>,
    class_likes: Vec<ClassLikeMetadata>,
    analyses: Vec<FileAnalysis>,
) -> Server {
    let codebase = match CodebaseMetadata::new(class_likes, Vec::new(), Vec::new()) {
        Some(codebase) => codebase,
        None => panic!("the spans fit"),
    };
    match Server::new(files, codebase, analyses, Vec::new(), Vec::new(), None) {
        Some(server) => server,
        None => panic!("the files have ids of their own"),
    }
}

const SERIES: &str = "<?php
enum Series: string {
    case EnergyPro = 'pro';
    case EnergyPrime = 'prime';
    public static function first(): self { return self::EnergyPrime; }
}
echo Series::EnergyPrime->value;
";

fn series() -> Server {
    let mut series = class_like(
        "Series",
        SymbolKind::Enum,
        Span::new(
            1,
            Position { offset: at(SERIES, "enum", 0) },
            Position { offset: at(SERIES, "}\necho", 0) + 1 },
        ),
    );
    series.enum_cases.push(case(1, SERIES, "EnergyPro", 0, Some("string('pro')")));
    series.enum_cases.push(case(1, SERIES, "EnergyPrime", 0, Some("string('prime')")));
    // The synthesized method borrows the enum's name span.
    series.methods.push(FunctionLikeMetadata {
        name: b"from".to_vec(),
        original_name: b"from".to_vec(),
        span: span(1, SERIES, "Series", 0),
        name_span: Some(span(1, SERIES, "Series", 0)),
        is_static: true,
        parameters: Vec::new(),
        return_type: None,
    });
    server(
        vec![file(1, "file:///a.php", SERIES)],
        vec![series],
        vec![analysis(1, vec![resolved(SERIES, "Series", 1, "Series")])],
    )
}

fn starts(locations: &[SymbolLocation]) -> Vec<(u64, u32)> {
    locations.iter().map(|location| (location.file, location.range.start)).collect()
}

// ---- Lookup --------------------------------------------------------------

#[test]
fn finds_the_variable_around_the_cursor() {
    let source = "<?php echo $name; $x";
    let file = file(1, "file:///a.php", source);
    let found = variable_at_offset(&file, at(source, "$name", 0) + 2);
    assert!(matches!(found, Some(var) if var.raw == b"$name" && var.name == b"name"
        && var.start == at(source, "$name", 0) && var.end == at(source, "$name", 0) + 5));
    assert!(variable_at_offset(&file, at(source, "echo", 0)).is_none());
}

#[test]
fn reads_what_is_written_around_a_double_colon() {
    let source = "<?php Foo::BAR; self::make(); parent::$items; Foo::class; $x::BAR;";
    let file = file(1, "file:///a.php", source);
    let constant = static_member_at_offset(&file, at(source, "BAR", 0) + 1);
    assert!(matches!(constant, Some(member) if member.name == b"BAR"
        && member.selector == MemberSelector::Constant
        && member.qualifier == MemberQualifier::Named(at(source, "Foo", 0))));
    let method = static_member_at_offset(&file, at(source, "make", 0));
    assert!(matches!(method, Some(member) if member.selector == MemberSelector::Method
        && member.qualifier == MemberQualifier::Enclosing));
    let property = static_member_at_offset(&file, at(source, "items", 0));
    assert!(matches!(property, Some(member) if member.name == b"items"
        && member.start == at(source, "items", 0)
        && member.selector == MemberSelector::Property
        && member.qualifier == MemberQualifier::Parent));
    assert!(static_member_at_offset(&file, at(source, "class", 0)).is_none());
    assert!(static_member_at_offset(&file, at(source, "BAR", 1)).is_none());
    assert!(static_member_at_offset(&file, at(source, "Foo", 0)).is_none());
}

#[test]
fn reads_the_name_under_the_cursor() {
    let source = "<?php case $items ;";
    let file = file(1, "file:///a.php", source);
    let name = name_at_offset(&file, at(source, "case", 0));
    assert!(matches!(name, Some(name) if name.name == b"case" && !name.is_variable));
    let variable = name_at_offset(&file, at(source, "$items", 0));
    assert!(matches!(variable, Some(name) if name.name == b"items" && name.is_variable
        && name.start == at(source, "items", 0)));
    assert!(name_at_offset(&file, at(source, ";", 0)).is_none());
}

// ---- Occurrences ---------------------------------------------------------

#[test]
fn lists_whole_identifiers_only() {
    let text = b"make remake make_it make(Make) make";
    assert_eq!(
        name_occurrences(text, b"make", MemberKind::ClassConstant),
        vec![(0, 4), (20, 24), (31, 35)]
    );
    assert_eq!(
        name_occurrences(text, b"make", MemberKind::StaticMethod),
        vec![(0, 4), (20, 24), (25, 29), (31, 35)]
    );
    assert_eq!(name_occurrences(text, b"", MemberKind::EnumCase), vec![]);
    assert_eq!(name_occurrences(b"ab", b"abc", MemberKind::EnumCase), vec![]);
    // A byte beyond ASCII belongs to the identifier.
    assert_eq!(name_occurrences("aé a".as_bytes(), b"a", MemberKind::EnumCase), vec![(4, 5)]);
}

#[test]
fn only_methods_ignore_case() {
    assert!(MemberKind::StaticMethod.is_case_insensitive());
    assert!(!MemberKind::EnumCase.is_case_insensitive());
    assert_eq!(MemberKind::EnumCase.keyword(), "case");
    assert_eq!(MemberKind::ClassConstant.keyword(), "const");
    assert_eq!(MemberKind::StaticMethod.keyword(), "static function");
    assert_eq!(MemberKind::StaticProperty.keyword(), "static");
}

// ---- Members -------------------------------------------------------------

#[test]
fn files_need_ids_of_their_own() {
    let build = |ids: &[u64]| {
        let files = ids.iter().map(|id| file(*id, "file:///a.php", "<?php")).collect();
        let codebase = match CodebaseMetadata::new(Vec::new(), Vec::new(), Vec::new()) {
            Some(codebase) => codebase,
            None => panic!("there are no class-likes"),
        };
        Server::new(files, codebase, Vec::new(), Vec::new(), Vec::new(), None)
    };
    assert!(build(&[1, 2, 3]).is_some());
    assert!(build(&[1, 2, 1]).is_none());
}

#[test]
fn a_method_is_looked_up_by_what_it_is_called() {
    let here = span(1, SERIES, "Series", 0);
    let mut class = class_like("A", SymbolKind::Class, here);
    class.methods.push(FunctionLikeMetadata {
        name: b"maketop".to_vec(),
        original_name: b"make".to_vec(),
        span: here,
        name_span: Some(here),
        is_static: true,
        parameters: Vec::new(),
        return_type: None,
    });
    assert!(class.fits());
    let server = server(vec![file(1, "file:///a.php", SERIES)], vec![class], Vec::new());
    let found = server.member_target(b"A", b"makeTop", MemberSelector::Method);
    assert!(matches!(found, Some(target) if target.name == b"make"));
    assert!(server.member_target(b"A", b"make", MemberSelector::Method).is_none());
}

#[test]
fn resolves_an_enum_case_from_use_and_declaration() {
    let server = series();
    let declaration = span(1, SERIES, "EnergyPrime", 0);
    for nth in 0..3 {
        let offset = at(SERIES, "EnergyPrime", nth);
        let found = server.resolve_static_member(1, offset + 3);
        assert!(matches!(found, Some((range, target)) if target.declaration == declaration
            && target.kind == MemberKind::EnumCase
            && target.name == b"EnergyPrime"
            && target.class.as_deref() == Some(b"series".as_slice())
            && range == Range::new(offset, offset + 11)));
    }
}

#[test]
fn references_of_an_enum_case_leave_a_shared_prefix_alone() {
    let server = series();
    let target = match server.resolve_static_member(1, at(SERIES, "EnergyPrime", 2)) {
        Some((_, target)) => target,
        None => panic!("the case resolves"),
    };
    let expected: Vec<(u64, u32)> =
        (0..3).map(|nth| (1, at(SERIES, "EnergyPrime", nth))).collect();
    assert_eq!(starts(&server.member_references(&target, true)), expected);
    // Leaving the declaration out drops nothing else.
    assert_eq!(starts(&server.member_references(&target, false)), expected[1..].to_vec());
}

#[test]
fn every_reference_leads_back_to_the_declaration() {
    let server = series();
    let declaration = span(1, SERIES, "EnergyPrime", 0);
    let target = match server.resolve_static_member(1, at(SERIES, "EnergyPrime", 2)) {
        Some((_, target)) => target,
        None => panic!("the case resolves"),
    };
    for location in server.member_references(&target, true) {
        let (start, end) = (location.range.start as usize, location.range.end as usize);
        assert_eq!(&SERIES[start..end], "EnergyPrime");
        let definition = server.get_definition(location.file, location.range.start);
        assert_eq!(
            definition,
            Some(SymbolLocation {
                file: 1,
                range: Range::new(declaration.start.offset, declaration.end.offset),
            })
        );
    }
}

#[test]
fn synthesized_methods_are_not_declared_at_the_enum() {
    let server = series();
    // The cursor is on the enum's name, which `from` claims as its own span.
    assert!(server.resolve_static_member(1, at(SERIES, "Series", 0)).is_none());
}

const BASE: &str = "<?php class Base { public const LIMIT = 10; static $items = []; }";
const CHILD: &str =
    "<?php class Child extends Base { static function top() { return self::LIMIT; } }
parent::LIMIT; Child::LIMIT; Base::LIMIT; Child::$items; Child::TOP(); Other::LIMIT;";

fn family() -> Server {
    let whole = |id: u64, source: &str, end: &str| {
        Span::new(
            id,
            Position { offset: at(source, "class", 0) },
            Position { offset: at(source, end, 0) + end.len() as u32 },
        )
    };
    let limit = || ClassLikeConstantMetadata {
        name: b"LIMIT".to_vec(),
        span: span(1, BASE, "LIMIT = 10", 0),
    };
    let items = || PropertyMetadata {
        name: b"$items".to_vec(),
        is_static: true,
        name_span: Some(span(1, BASE, "$items", 0)),
    };
    let mut base = class_like("Base", SymbolKind::Class, whole(1, BASE, "[]; }"));
    base.constants.push(limit());
    base.properties.push(items());
    base.declaring_properties.push(declaring("$items", "base"));
    let mut child = class_like("Child", SymbolKind::Class, whole(2, CHILD, "} }"));
    child.direct_parent_class = Some(b"base".to_vec());
    child.constants.push(limit());
    child.properties.push(items());
    child.declaring_properties.push(declaring("$items", "base"));
    child.declaring_methods.push(declaring("top", "child"));
    child.methods.push(FunctionLikeMetadata {
        name: b"top".to_vec(),
        original_name: b"top".to_vec(),
        span: span(2, CHILD, "function top()", 0),
        name_span: Some(span(2, CHILD, "top", 0)),
        is_static: true,
        parameters: Vec::new(),
        return_type: Some(b"int".to_vec()),
    });
    server(
        vec![file(1, "file:///a.php", BASE), file(2, "file:///b.php", CHILD)],
        vec![base, child],
        vec![
            analysis(1, vec![]),
            analysis(
                2,
                vec![
                    resolved(CHILD, "Child", 1, "Child"),
                    resolved(CHILD, "Base", 1, "Base"),
                    resolved(CHILD, "Child", 2, "Child"),
                    resolved(CHILD, "Child", 3, "Child"),
                    resolved(CHILD, "Other", 0, "Other"),
                ],
            ),
        ],
    )
}

#[test]
fn inherited_constants_share_one_declaration() {
    let server = family();
    let target = match server.resolve_static_member(1, at(BASE, "LIMIT", 0)) {
        Some((_, target)) => target,
        None => panic!("the constant resolves"),
    };
    assert_eq!(target.declaration, span(1, BASE, "LIMIT", 0));
    // `self::`, the child's name and the base's name all collapse onto one
    // member; `parent::` stands outside of any class, and `Other` is unknown.
    assert_eq!(
        starts(&server.member_references(&target, true)),
        vec![
            (1, at(BASE, "LIMIT", 0)),
            (2, at(CHILD, "LIMIT", 0)),
            (2, at(CHILD, "LIMIT", 2)),
            (2, at(CHILD, "LIMIT", 3)),
        ]
    );
}

#[test]
fn static_properties_are_edited_without_their_dollar() {
    let server = family();
    let offset = at(CHILD, "$items", 0) + 1;
    let found = server.resolve_static_member(2, offset);
    assert!(matches!(found, Some((range, target)) if target.kind == MemberKind::StaticProperty
        && target.declaration.start.offset == at(BASE, "items", 0)
        && target.class.as_deref() == Some(b"base".as_slice())
        && range.start == offset));
    let declared = server.resolve_static_member(1, at(BASE, "items", 0));
    assert!(matches!(declared, Some((range, _)) if range.start == at(BASE, "items", 0)));
}

#[test]
fn methods_resolve_in_any_case() {
    let server = family();
    let found = server.resolve_static_member(2, at(CHILD, "TOP", 0));
    assert!(matches!(found, Some((_, target)) if target.kind == MemberKind::StaticMethod
        && target.name == b"top"
        && target.declaration == span(2, CHILD, "top", 0)));
}

#[test]
fn the_innermost_class_encloses_the_cursor() {
    let outer = class_like(
        "Outer",
        SymbolKind::Class,
        Span::new(1, Position { offset: 0 }, Position { offset: 40 }),
    );
    let inner = class_like(
        "Inner",
        SymbolKind::Class,
        Span::new(1, Position { offset: 10 }, Position { offset: 20 }),
    );
    let server = server(vec![], vec![outer, inner], vec![]);
    assert_eq!(server.enclosing_class_like(1, 15).as_deref(), Some(b"inner".as_slice()));
    assert_eq!(server.enclosing_class_like(1, 30).as_deref(), Some(b"outer".as_slice()));
    assert_eq!(server.enclosing_class_like(1, 41), None);
    assert_eq!(server.enclosing_class_like(2, 15), None);
}

// ---- Hover ---------------------------------------------------------------

#[test]
fn hover_describes_an_enum_case_with_its_value() {
    let server = series();
    let hover = server.get_context(1, at(SERIES, "EnergyPrime", 2));
    assert!(matches!(hover, Some(hover)
        if hover.markdown == "```php\ncase Series::EnergyPrime = string('prime')\n```"
        && hover.range.start == at(SERIES, "EnergyPrime", 2)));
}

#[test]
fn hover_describes_members_by_kind() {
    let server = family();
    let property = server.get_context(2, at(CHILD, "items", 0));
    assert!(matches!(property, Some(hover)
        if hover.markdown == "```php\nstatic Base::$items\n```"));
    let constant = server.get_context(2, at(CHILD, "LIMIT", 2));
    assert!(matches!(constant, Some(hover)
        if hover.markdown == "```php\nconst Base::LIMIT\n```"));
    let method = server.get_context(2, at(CHILD, "TOP", 0));
    assert!(matches!(method, Some(hover)
        if hover.markdown == "```php\nstatic function Child::top(): int\n```"));
}

#[test]
fn hover_prefers_a_resolved_name_and_needs_an_analysis() {
    let server = series();
    let name = server.get_context(1, at(SERIES, "Series", 1));
    assert!(matches!(name, Some(hover) if hover.markdown == "```php\nenum Series\n```"));
    assert!(server.get_context(7, 0).is_none());
}

#[test]
fn hover_shows_the_type_of_a_variable() {
    let source = "<?php echo $name;";
    let start = at(source, "$name", 0);
    let mut server = server(
        vec![file(1, "file:///a.php", source)],
        vec![],
        vec![analysis(1, vec![])],
    );
    let plain = server.get_context(1, start + 1);
    assert!(matches!(plain, Some(hover) if hover.markdown == "_@var_ $name"));
    server.type_indexes.push(TypeIndex {
        file_id: 1,
        display_by_span: vec![ExpressionType {
            range: Range::new(start, start + 5),
            display: "string".to_string(),
        }],
        inferred_returns_by_span: Vec::new(),
    });
    let typed = server.get_context(1, start + 1);
    assert!(matches!(typed, Some(hover) if hover.markdown == "_@var_ `string` `$name`"
        && hover.range == Range::new(start, start + 5)));
}

#[test]
fn renders_class_heads() {
    let mut class = class_like(
        "App\\User",
        SymbolKind::Class,
        Span::new(1, Position { offset: 0 }, Position { offset: 1 }),
    );
    class.direct_parent_class = Some(b"Model".to_vec());
    class.direct_parent_interfaces = vec![b"A".to_vec(), b"B".to_vec()];
    class.used_traits = vec![b"T".to_vec(), b"U".to_vec()];
    assert_eq!(
        render_class_like(&class),
        "```php\nclass App\\User extends Model implements A, B\n```\n\n**Uses traits:** T, U"
    );
    class.kind = SymbolKind::Interface;
    class.direct_parent_class = None;
    class.used_traits = Vec::new();
    assert_eq!(render_class_like(&class), "```php\ninterface App\\User extends A, B\n```");
}

#[test]
fn renders_functions_and_constants() {
    let span = Span::new(1, Position { offset: 0 }, Position { offset: 1 });
    let function = FunctionLikeMetadata {
        name: b"app\\greet".to_vec(),
        original_name: b"greet".to_vec(),
        span,
        name_span: None,
        is_static: false,
        parameters: vec![
            ParameterMetadata { name: b"$name".to_vec(), type_id: Some(b"string".to_vec()) },
            ParameterMetadata { name: b"$rest".to_vec(), type_id: None },
        ],
        return_type: Some(b"void".to_vec()),
    };
    let constant = ConstantMetadata { name: b"App\\LIMIT".to_vec(), span };
    let codebase = match CodebaseMetadata::new(vec![], vec![function], vec![constant]) {
        Some(codebase) => codebase,
        None => panic!("the spans fit"),
    };
    assert_eq!(
        render(&codebase, b"App\\Greet").as_deref(),
        Some("```php\nfunction greet(string $name, $rest): void\n```")
    );
    assert_eq!(
        render(&codebase, b"App\\LIMIT").as_deref(),
        Some("```php\nconst App\\LIMIT\n```")
    );
    assert_eq!(render(&codebase, b"App\\limit"), None);
    assert_eq!(codebase.span_of(b"App\\LIMIT"), Some(span));
    assert_eq!(codebase.span_of(b"App\\limit"), None);
}

#[test]
fn bytes_that_are_no_text_are_replaced() {
    assert_eq!(render_variable(&[b'a', 0xff], None), "_@var_ $a\u{fffd}");
}

// ---- Definitions ---------------------------------------------------------

#[test]
fn definition_of_a_name_is_its_declaration() {
    let server = series();
    let class = &server.codebase.class_likes[0];
    assert_eq!(
        server.get_definition(1, at(SERIES, "Series", 1)),
        Some(SymbolLocation {
            file: 1,
            range: Range::new(class.span.start.offset, class.span.end.offset),
        })
    );
    assert_eq!(server.get_definition(1, at(SERIES, "echo", 0)), None);
}

// ---- Rename --------------------------------------------------------------

fn prepared(server: &Server, id: u64, offset: u32) -> Option<(u32, u32, String)> {
    let file = match server.get_file(id) {
        Some(file) => file,
        None => panic!("the file is known"),
    };
    prepare(server, file, offset)
        .map(|start| (start.range.start, start.range.end, start.placeholder))
}

#[test]
fn rename_starts_from_the_local_name() {
    let source = "<?php new App\\Models\\User;";
    let name = at(source, "App\\Models\\User", 0);
    let server = server(
        vec![file(1, "file:///a.php", source)],
        vec![],
        vec![analysis(1, vec![resolved(source, "App\\Models\\User", 0, "App\\Models\\User")])],
    );
    assert_eq!(prepared(&server, 1, name), Some((name, name + 15, "User".to_string())));
}

#[test]
fn rename_starts_from_members_and_variables() {
    let server = series();
    let offset = at(SERIES, "EnergyPrime", 2);
    assert_eq!(
        prepared(&server, 1, offset + 2),
        Some((offset, offset + 11, "EnergyPrime".to_string()))
    );
    let source = "<?php echo $name;";
    let variable = at(source, "$name", 0);
    let plain = self::server(
        vec![file(1, "file:///a.php", source)],
        vec![],
        vec![analysis(1, vec![])],
    );
    assert_eq!(
        prepared(&plain, 1, variable + 1),
        Some((variable, variable + 5, "$name".to_string()))
    );
    assert_eq!(prepared(&plain, 1, at(source, "echo", 0)), None);
}

#[test]
fn new_names_are_checked_and_the_dollar_is_optional() {
    let server = family();
    let child = &server.files[1];
    let property = at(CHILD, "items", 0);
    for typed in ["entries", "$entries"] {
        assert_eq!(
            replacement_name(&server, child, property, typed).as_deref(),
            Some("entries")
        );
    }
    assert_eq!(replacement_name(&server, child, property, "$1"), None);
    let constant = at(CHILD, "LIMIT", 0);
    assert_eq!(
        replacement_name(&server, child, constant, "CEILING").as_deref(),
        Some("CEILING")
    );
    assert_eq!(replacement_name(&server, child, constant, "$CEILING"), None);
    let source = "<?php echo $name;";
    let plain = file(9, "file:///c.php", source);
    for typed in ["label", "$label"] {
        assert_eq!(
            replacement_name(&server, &plain, at(source, "$name", 0), typed).as_deref(),
            Some("$label")
        );
    }
    assert_eq!(replacement_name(&server, &plain, at(source, "$name", 0), "$$label"), None);
}

#[test]
fn a_variable_can_keep_the_name_it_starts_from() {
    let source = "<?php echo $a_1;";
    let server = server(
        vec![file(1, "file:///a.php", source)],
        vec![],
        vec![analysis(1, vec![])],
    );
    let offset = at(source, "$a_1", 0);
    let start = match prepare(&server, &server.files[0], offset) {
        Some(start) => start,
        None => panic!("the variable can be renamed"),
    };
    assert_eq!(
        replacement_name(&server, &server.files[0], offset, &start.placeholder),
        Some(start.placeholder)
    );
}

#[test]
fn identifiers_are_ascii_words() {
    assert!(is_valid_php_identifier("_a1"));
    assert!(is_valid_php_identifier("Name"));
    assert!(!is_valid_php_identifier(""));
    assert!(!is_valid_php_identifier("1a"));
    assert!(!is_valid_php_identifier("a-b"));
    assert!(!is_valid_php_identifier("é"));
}

#[test]
fn rename_groups_edits_by_document() {
    let mut server = family();
    let target = match server.resolve_static_member(1, at(BASE, "LIMIT", 0)) {
        Some((_, target)) => target,
        None => panic!("the constant resolves"),
    };
    let references = server.member_references(&target, true);
    let edit = compute(&server, &server.files[0], at(BASE, "LIMIT", 0), "CEILING", &references);
    let edit = match edit {
        Some(edit) => edit,
        None => panic!("the rename does something"),
    };
    assert_eq!(edit.new_text, "CEILING");
    assert_eq!(edit.changes.len(), 2);
    assert_eq!(edit.changes[0].uri, "file:///a.php");
    assert_eq!(starts(&edit.changes[0].locations), vec![(1, at(BASE, "LIMIT", 0))]);
    assert_eq!(edit.changes[1].uri, "file:///b.php");
    assert_eq!(edit.changes[1].locations, references[1..].to_vec());
    // Nothing comes of a bad name, of no references, or of documents that cannot
    // be addressed.
    let offset = at(BASE, "LIMIT", 0);
    assert!(compute(&server, &server.files[0], offset, "1", &references).is_none());
    assert!(compute(&server, &server.files[0], offset, "CEILING", &[]).is_none());
    server.files[0].uri = None;
    assert!(
        compute(&server, &server.files[0], offset, "CEILING", &references[..1]).is_none()
    );
}
