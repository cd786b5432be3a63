//! Code actions.

use mago_server::code_action::{
    action_for, expect_action_for, level_to_severity, overlaps, CodeActionItem, CodeActionKind,
};
use mago_server::codebase::CodebaseMetadata;
use mago_server::domain::{FileType, Level, Position, Range, Severity, Span};
use mago_server::file::File;
use mago_server::phpdoc::{InferredType, Reread};
use mago_server::reporting::{Annotation, AnnotationKind, FileEdits, Issue, Safety, TextEdit};
use mago_server::return_tag::{
    contains_return_tag, innermost_function_like, line_indent, return_tag_edit,
};
use mago_server::server::{FileAnalysis, FunctionLikeSite, InferredReturn, Server, TypeIndex};

const SOURCE: &str = "<?php
class A {
    ECHO 1;
}
";

fn file(source: &str) -> File {
    match File::new(1, None, FileType::Host, source.as_bytes().to_vec(), vec![]) {
        Some(file) => file,
        None => panic!("there are no tokens to fit"),
    }
}

fn range(source: &str, text: &str) -> Range {
    let start = match source.find(text) {
        Some(start) => start as u32,
        None => panic!("`{text}` is in the source"),
    };
    Range::new(start, start + text.len() as u32)
}

fn annotation(kind: AnnotationKind, file: u64, range: Range) -> Annotation {
    Annotation {
        kind,
        span: Span::new(
            file,
            Position { offset: range.start },
            Position { offset: range.end },
        ),
        message: None,
    }
}

fn edit(range: Range, text: &str) -> TextEdit {
    TextEdit { range, new_text: text.as_bytes().to_vec(), safety: Safety::Safe }
}

fn issue(code: &str, at: Range, edits: Vec<FileEdits>) -> Issue {
    Issue {
        level: Level::Warning,
        code: Some(code.to_string()),
        message: format!("about {code}"),
        notes: vec![],
        help: None,
        annotations: vec![annotation(AnnotationKind::Primary, 1, at)],
        edits,
    }
}

fn fixable(code: &str, at: Range, text: &str) -> Issue {
    issue(code, at, vec![FileEdits { file: 1, edits: vec![edit(at, text)] }])
}

fn server(source: &str, last: Option<Vec<Issue>>, lints: Vec<Issue>) -> Server {
    let codebase = match CodebaseMetadata::new(vec![], vec![], vec![]) {
        Some(codebase) => codebase,
        None => panic!("there are no spans to fit"),
    };
    let analysis = FileAnalysis {
        file_id: 1,
        resolved: vec![],
        function_like_sites: vec![],
        lint_issues: lints,
    };
    match Server::new(vec![file(source)], codebase, vec![analysis], vec![], vec![], last) {
        Some(server) => server,
        None => panic!("the files have ids of their own"),
    }
}

fn titles(actions: &[CodeActionItem]) -> Vec<&str> {
    actions.iter().map(|action| action.title.as_str()).collect()
}

/// The edits of an action in the first file.
fn edits(action: &CodeActionItem) -> Vec<(u32, u32, &str)> {
    match action.edits.get(&1) {
        Some(edits) => edits
            .iter()
            .map(|edit| (edit.range.start, edit.range.end, edit.new_text.as_str()))
            .collect(),
        None => vec![],
    }
}

// ---- Issues --------------------------------------------------------------

#[test]
fn levels_map_to_severities() {
    assert_eq!(level_to_severity(Level::Error), Severity::Error);
    assert_eq!(level_to_severity(Level::Warning), Severity::Warning);
    assert_eq!(level_to_severity(Level::Help), Severity::Hint);
    assert_eq!(level_to_severity(Level::Note), Severity::Information);
}

#[test]
fn overlap_takes_in_both_ends() {
    let issue = fixable("c", Range::new(10, 20), "");
    assert!(overlaps(&issue, 1, 20, 30));
    assert!(overlaps(&issue, 1, 0, 10));
    assert!(!overlaps(&issue, 1, 21, 30));
    assert!(!overlaps(&issue, 1, 0, 9));
    assert!(!overlaps(&issue, 2, 10, 20));
}

#[test]
fn the_primary_annotation_is_the_first_primary_or_the_first() {
    let mut issue = fixable("c", Range::new(10, 20), "");
    issue.annotations = vec![
        annotation(AnnotationKind::Secondary, 1, Range::new(0, 1)),
        annotation(AnnotationKind::Primary, 1, Range::new(5, 6)),
        annotation(AnnotationKind::Primary, 1, Range::new(7, 8)),
    ];
    assert!(matches!(issue.primary_annotation(), Some(primary) if primary.span.start.offset == 5));
    issue.annotations.truncate(1);
    assert!(matches!(issue.primary_annotation(), Some(primary) if primary.span.start.offset == 0));
    issue.annotations.clear();
    assert!(issue.primary_annotation().is_none());
    assert!(!overlaps(&issue, 1, 0, 100));
}

// ---- Direct fixes --------------------------------------------------------

#[test]
fn a_fix_carries_the_edits_and_the_diagnostic() {
    let at = range(SOURCE, "ECHO");
    let mut issue = fixable("lowercase-keyword", at, "echo");
    issue.edits.push(FileEdits { file: 2, edits: vec![edit(Range::new(0, 0), "x")] });
    issue.edits.push(FileEdits { file: 3, edits: vec![] });
    issue.edits.push(FileEdits { file: 1, edits: vec![edit(Range::new(1, 1), "y")] });
    let action = match action_for(&issue, 1, at.start, at.start) {
        Some(action) => action,
        None => panic!("there is a fix"),
    };
    assert_eq!(action.title, "Apply mago fix: about lowercase-keyword");
    assert_eq!(action.kind, CodeActionKind::QuickFix);
    assert_eq!(edits(&action), vec![(at.start, at.end, "echo"), (1, 1, "y")]);
    assert!(action.edits.contains_key(&2));
    assert!(!action.edits.contains_key(&3));
    assert!(matches!(&action.diagnostic, Some(diagnostic) if diagnostic.file == 1
        && diagnostic.range == at && diagnostic.severity == Severity::Warning
        && diagnostic.code.as_deref() == Some("lowercase-keyword")
        && diagnostic.message == "about lowercase-keyword"));
    issue.help = Some("Do it".to_string());
    assert!(matches!(action_for(&issue, 1, at.start, at.start), Some(action)
        if action.title == "Do it"));
}

#[test]
fn no_fix_without_edits_or_out_of_reach() {
    let at = range(SOURCE, "ECHO");
    assert!(action_for(&issue("c", at, vec![]), 1, at.start, at.end).is_none());
    let empty = issue("c", at, vec![FileEdits { file: 1, edits: vec![] }]);
    assert!(action_for(&empty, 1, at.start, at.end).is_none());
    assert!(action_for(&fixable("c", at, "x"), 1, 0, 1).is_none());
}

// ---- Suppressions --------------------------------------------------------

#[test]
fn a_suppression_goes_above_the_line_at_its_indent() {
    let at = range(SOURCE, "ECHO");
    let server = server(SOURCE, None, vec![]);
    let issue = issue("lowercase-keyword", at, vec![]);
    let action = match expect_action_for(&server, &issue, 1, at.start, at.end, "lint") {
        Some(action) => action,
        None => panic!("there is a suppression"),
    };
    assert_eq!(action.title, "Add @mago-expect lint:lowercase-keyword");
    let line = range(SOURCE, "    ECHO").start;
    assert_eq!(
        edits(&action),
        vec![(line, line, "    /** @mago-expect lint:lowercase-keyword */\n")]
    );
    let mut anonymous = issue;
    anonymous.code = None;
    assert!(expect_action_for(&server, &anonymous, 1, at.start, at.end, "lint").is_none());
}

// ---- All actions ---------------------------------------------------------

#[test]
fn specific_actions_come_first() {
    let at = range(SOURCE, "ECHO");
    let elsewhere = range(SOURCE, "class");
    let lints = vec![
        fixable("zeta", at, "a"),
        fixable("zeta", elsewhere, "b"),
        fixable("alpha", elsewhere, "c"),
        fixable("alpha", elsewhere, "d"),
        fixable("single", elsewhere, "e"),
    ];
    let last = vec![issue("types", at, vec![])];
    let server = server(SOURCE, Some(last), lints);
    let actions = server.get_code_actions(1, at.start, at.end);
    assert_eq!(
        titles(&actions),
        vec![
            "Apply mago fix: about zeta",
            "Add @mago-expect analysis:types",
            "Add @mago-expect lint:zeta",
            "Fix all `alpha` issues in file",
            "Fix all `zeta` issues in file",
        ]
    );
    assert_eq!(
        edits(&actions[3]),
        vec![(elsewhere.start, elsewhere.end, "c"), (elsewhere.start, elsewhere.end, "d")]
    );
    assert_eq!(
        edits(&actions[4]),
        vec![(at.start, at.end, "a"), (elsewhere.start, elsewhere.end, "b")]
    );
    assert!(actions[4].diagnostic.is_none());
}

#[test]
fn file_wide_fixes_take_both_sources_together() {
    let at = range(SOURCE, "ECHO");
    let server = server(
        SOURCE,
        Some(vec![fixable("same", at, "a")]),
        vec![fixable("same", at, "b")],
    );
    let actions = server.get_code_actions(1, 0, 0);
    assert_eq!(titles(&actions), vec!["Fix all `same` issues in file"]);
    assert_eq!(edits(&actions[0]), vec![(at.start, at.end, "a"), (at.start, at.end, "b")]);
    // The other file has none.
    assert!(server.get_code_actions(2, 0, 0).is_empty());
}

// ---- Return types --------------------------------------------------------

const FUNCTIONS: &str = "<?php
class A {
    function plain() {}

    /** Says. */
    function said() {}

    /**
     * Says.
     */
    function more() {}

    /** @return int */
    function done() {}
}
";

fn site(text: &str, docblock: Option<&str>) -> FunctionLikeSite {
    FunctionLikeSite {
        span: range(FUNCTIONS, text),
        docblock: docblock.map(|docblock| range(FUNCTIONS, docblock)),
    }
}

fn tagged(site: FunctionLikeSite) -> Option<(u32, u32, String)> {
    return_tag_edit(&file(FUNCTIONS), &site, "string")
        .map(|edit| (edit.range.start, edit.range.end, edit.new_text))
}

#[test]
fn a_missing_docblock_is_added() {
    let line = range(FUNCTIONS, "    function plain").start;
    assert_eq!(
        tagged(site("function plain() {}", None)),
        Some((line, line, "    /** @return string */\n".to_string()))
    );
}

#[test]
fn a_docblock_of_one_line_is_reflowed() {
    let docblock = range(FUNCTIONS, "/** Says. */");
    assert_eq!(
        tagged(site("function said() {}", Some("/** Says. */"))),
        Some((
            docblock.start,
            docblock.end,
            "    /**\n     * Says.\n     * @return string\n     */".to_string(),
        ))
    );
}

#[test]
fn an_empty_docblock_gets_only_the_tag() {
    let source = "/** */ function f() {}";
    let site = FunctionLikeSite {
        span: range(source, "function f() {}"),
        docblock: Some(range(source, "/** */")),
    };
    let edit = return_tag_edit(&file(source), &site, "int");
    assert!(matches!(edit, Some(edit) if edit.new_text == "/**\n * @return int\n */"));
    // `/**/` opens and does not close.
    let source = "/**/ function f() {}";
    let site = FunctionLikeSite {
        span: range(source, "function f() {}"),
        docblock: Some(range(source, "/**/")),
    };
    assert!(return_tag_edit(&file(source), &site, "int").is_none());
}

#[test]
fn a_docblock_of_several_lines_is_spliced() {
    let docblock = "/**\n     * Says.\n     */";
    let closing = range(FUNCTIONS, "     */\n    function more").start;
    assert_eq!(
        tagged(site("function more() {}", Some(docblock))),
        Some((closing, closing, "     * @return string\n".to_string()))
    );
}

#[test]
fn a_documented_return_type_is_left_alone() {
    assert_eq!(tagged(site("function done() {}", Some("/** @return int */"))), None);
}

#[test]
fn bytes_that_are_no_text_are_left_alone() {
    let mut source = b"/** \xff */ function f() {}".to_vec();
    source.push(b'\n');
    let built = File::new(1, None, FileType::Host, source, vec![]);
    let file = match built {
        Some(file) => file,
        None => panic!("there are no tokens to fit"),
    };
    let site = FunctionLikeSite {
        span: Range::new(9, 24),
        docblock: Some(Range::new(0, 8)),
    };
    assert!(return_tag_edit(&file, &site, "int").is_none());
    // Nor is a docblock that lies outside of the file.
    let outside = FunctionLikeSite { span: site.span, docblock: Some(Range::new(0, 99)) };
    assert!(return_tag_edit(&file, &outside, "int").is_none());
}

#[test]
fn return_tags_are_whole_words() {
    assert!(contains_return_tag(b"/** @return int */"));
    assert!(contains_return_tag(b"@return"));
    assert!(!contains_return_tag(b"/** @returns int */"));
    assert!(!contains_return_tag(b"@return-type @return_x @return9"));
    assert!(contains_return_tag(b"@returns @return\tint"));
    assert!(!contains_return_tag(b"return"));
    // Nor does one inside a longer word count, from either side.
    assert!(!contains_return_tag(b"/** mail me@return now */"));
    assert!(!contains_return_tag(b"x@return @return_y"));
    assert!(contains_return_tag(b"me@return @return"));
    assert!(contains_return_tag(b"@return@return"));
}

#[test]
fn the_tightest_declaration_wins() {
    let make = |start: u32, end: u32| FunctionLikeSite {
        span: Range::new(start, end),
        docblock: None,
    };
    let sites = [make(0, 100), make(10, 20), make(10, 30)];
    assert_eq!(innermost_function_like(&sites, 12, 12), Some(make(10, 20)));
    assert_eq!(innermost_function_like(&sites, 12, 25), Some(make(10, 30)));
    assert_eq!(innermost_function_like(&sites, 5, 25), Some(make(0, 100)));
    assert_eq!(innermost_function_like(&sites, 5, 101), None);
    // An inverted declaration contains no stretch, so it is never picked.
    let inverted = [make(20, 10), make(0, 100)];
    assert_eq!(innermost_function_like(&inverted, 12, 12), Some(make(0, 100)));
}

#[test]
fn indents_end_at_the_first_other_byte() {
    assert_eq!(line_indent(b" \t x"), " \t ");
    assert_eq!(line_indent(b"x"), "");
}

fn inferring(inferred: InferredType, rereads: Vec<Reread>) -> Server {
    let mut server = server(FUNCTIONS, None, vec![]);
    let site = site("function plain() {}", None);
    server.analyses[0].function_like_sites.push(site);
    server.type_indexes.push(TypeIndex {
        file_id: 1,
        display_by_span: vec![],
        inferred_returns_by_span: vec![InferredReturn { span: site.span, inferred }],
    });
    server.rereads = rereads;
    server
}

#[test]
fn an_inferred_return_type_is_offered_last() {
    let ty = InferredType {
        is_mixed: false,
        id: "string('pro')".to_string(),
        widened_id: "string".to_string(),
    };
    let rereads = vec![Reread { text: "'pro'".to_string(), id: "string('pro')".to_string() }];
    let mut server = inferring(ty, rereads);
    let at = range(FUNCTIONS, "plain");
    server.last_issues = Some(vec![fixable("c", at, "x")]);
    let actions = server.get_code_actions(1, at.start, at.end);
    assert_eq!(
        titles(&actions),
        vec![
            "Apply mago fix: about c",
            "Add @mago-expect analysis:c",
            "Document inferred return type: @return 'pro'",
        ]
    );
    assert_eq!(actions[2].kind, CodeActionKind::RefactorRewrite);
    let line = range(FUNCTIONS, "    function plain").start;
    assert_eq!(edits(&actions[2]), vec![(line, line, "    /** @return 'pro' */\n")]);
    // Nothing is offered on trust.
    server.rereads.clear();
    server.last_issues = None;
    assert!(server.get_code_actions(1, at.start, at.end).is_empty());
}
