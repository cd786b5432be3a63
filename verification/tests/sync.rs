//! Documents, diagnostics, and workspaces.

use mago_server::backend::{
    after_build, analysis_totals, analyzing_message, is_slow, reports_progress, BackendState,
    Bootstrap, BootstrapAction, BuildOutcome, BuildStep, Workspace, WorkspaceRegistry,
};
use mago_server::codebase::CodebaseMetadata;
use mago_server::diagnostic::{
    same_diagnostics, Diagnostic, DiagnosticCode, DiagnosticTag, Place, RelatedInformation,
};
use mago_server::diagnostics::{
    clear_all, diff_diagnostics, publications, AnalysisOutcome, Notification,
};
use mago_server::documents::{
    buffer_changed, buffer_closed, buffer_opened, changed_files, disk_changed, disk_deleted,
    DatabaseAction, OpenDocument, PendingChanges, CHANGE_DEBOUNCE_MILLIS,
};
use mago_server::domain::{Level, Severity};
use mago_server::reporting::Issue;
use mago_server::server::{FileAnalysis, Server};
use mago_server::text_map::TextMap;

const URI: &str = "file:///a.php";

// ---- Maps ----------------------------------------------------------------

#[test]
fn a_text_map_holds_one_value_per_key() {
    let mut map: TextMap<u32> = TextMap::new();
    map.insert("a".to_string(), 1);
    map.insert("b".to_string(), 2);
    map.insert("a".to_string(), 3);
    assert_eq!(map.get("a"), Some(&3));
    assert_eq!(map.entries.len(), 2);
    assert_eq!(map.remove("a"), Some(3));
    assert_eq!(map.remove("a"), None);
    assert!(!map.contains_key("a"));
    assert_eq!(map.get("b"), Some(&2));
    map.insert("c".to_string(), 4);
    map.insert("d".to_string(), 5);
    assert_eq!(map.remove("b"), Some(2));
    assert_eq!((map.get("c"), map.get("d")), (Some(&4), Some(&5)));
    assert_eq!(map.remove("d"), Some(5));
    assert_eq!(map.get("c"), Some(&4));
    assert_eq!(map.get("d"), None);
    assert_eq!(map.entries.len(), 1);
}

// ---- Documents -----------------------------------------------------------

#[test]
fn opening_an_unknown_file_adds_it_for_as_long_as_it_is_open() {
    let mut open = TextMap::new();
    let action = buffer_opened(&mut open, URI.to_string(), 7, false, "<?php é", 1);
    assert!(matches!(&action, DatabaseAction::Add { id: 7, contents }
        if contents == "<?php é".as_bytes()));
    assert_eq!(
        open.get(URI),
        Some(&OpenDocument { file_id: 7, virtual_file: true, version: 1 })
    );
    assert_eq!(changed_files(&Some(action)), vec![7]);
    assert!(matches!(buffer_closed(&mut open, URI), Some(DatabaseAction::Delete { id: 7 })));
    assert!(buffer_closed(&mut open, URI).is_none());
}

#[test]
fn closing_a_known_file_goes_back_to_disk() {
    let mut open = TextMap::new();
    let action = buffer_opened(&mut open, URI.to_string(), 7, true, "x", 1);
    assert!(matches!(action, DatabaseAction::Update { id: 7, .. }));
    let closed = buffer_closed(&mut open, URI);
    assert_eq!(changed_files(&closed), vec![7]);
    assert!(matches!(closed, Some(DatabaseAction::Reload { id: 7 })));
}

#[test]
fn only_open_documents_change() {
    let mut open = TextMap::new();
    assert!(buffer_changed(&mut open, URI.to_string(), "x", 2).is_none());
    buffer_opened(&mut open, URI.to_string(), 7, false, "x", 1);
    let action = buffer_changed(&mut open, URI.to_string(), "y", 2);
    assert!(matches!(action, Some(DatabaseAction::Update { id: 7, contents })
        if contents == b"y"));
    assert_eq!(
        open.get(URI),
        Some(&OpenDocument { file_id: 7, virtual_file: true, version: 2 })
    );
}

#[test]
fn the_buffer_wins_over_the_disk() {
    let mut open = TextMap::new();
    let added = disk_changed(&open, URI, 7, b"disk".to_vec(), false);
    assert!(matches!(added, Some(DatabaseAction::Add { id: 7, contents }) if contents == b"disk"));
    let updated = disk_changed(&open, URI, 7, b"disk".to_vec(), true);
    assert!(matches!(updated, Some(DatabaseAction::Update { id: 7, .. })));
    buffer_opened(&mut open, URI.to_string(), 7, true, "buffer", 1);
    assert!(disk_changed(&open, URI, 7, b"disk".to_vec(), true).is_none());
}

#[test]
fn deleting_an_unknown_file_changes_nothing() {
    assert!(matches!(disk_deleted(7, true), Some(DatabaseAction::Delete { id: 7 })));
    assert_eq!(changed_files(&disk_deleted(7, false)), Vec::<u64>::new());
}

#[test]
fn only_the_newest_change_is_analyzed() {
    assert_eq!(CHANGE_DEBOUNCE_MILLIS, 150);
    let mut pending = PendingChanges::new();
    pending.note(URI.to_string(), 1);
    pending.note(URI.to_string(), 2);
    pending.note("file:///b.php".to_string(), 1);
    assert!(!pending.settle(URI, 1));
    assert!(pending.settle(URI, 2));
    assert!(!pending.settle(URI, 2));
    assert!(pending.settle("file:///b.php", 1));
    pending.note(URI.to_string(), 3);
    pending.forget(URI);
    assert!(!pending.settle(URI, 3));
}

// ---- Diagnostics ---------------------------------------------------------

fn related(message: &str) -> RelatedInformation {
    RelatedInformation {
        uri: URI.to_string(),
        start: Place { line: 0, column: 4 },
        end: Place { line: 0, column: 5 },
        message: message.to_string(),
    }
}

fn diagnostic(message: &str) -> Diagnostic {
    Diagnostic {
        start: Place { line: 2, column: 0 },
        end: Place { line: 2, column: 1 },
        severity: Some(Severity::Warning),
        code: Some(DiagnosticCode::Text("c".to_string())),
        code_description: None,
        source: Some("mago".to_string()),
        message: message.to_string(),
        related_information: Some(vec![related("r")]),
        tags: Some(vec![DiagnosticTag::Deprecated]),
        data: Some("{}".to_string()),
    }
}

fn by_document(entries: &[(&str, &[&str])]) -> TextMap<Vec<Diagnostic>> {
    let mut map = TextMap::new();
    for (uri, messages) in entries {
        map.insert(uri.to_string(), messages.iter().map(|m| diagnostic(m)).collect());
    }
    map
}

fn sent(notifications: &[Notification]) -> Vec<(String, Vec<String>)> {
    notifications
        .iter()
        .map(|notification| match notification {
            Notification::Publish { uri, diagnostics } => (
                uri.clone(),
                diagnostics.iter().map(|diagnostic| diagnostic.message.clone()).collect(),
            ),
            Notification::LogError { message } => (message.clone(), vec![]),
        })
        .collect()
}

#[test]
fn diagnostics_differ_in_any_part() {
    let base = vec![diagnostic("m")];
    assert!(same_diagnostics(&base, &vec![diagnostic("m")]));
    assert!(!same_diagnostics(&base, &vec![]));
    assert!(!same_diagnostics(&base, &vec![diagnostic("n")]));
    let changes: Vec<fn(&mut Diagnostic)> = vec![
        // The same stretch of bytes on another line is another diagnostic.
        |other| other.start = Place { line: 1, column: 7 },
        |other| other.end = Place { line: 2, column: 2 },
        |other| other.severity = Some(Severity::Error),
        |other| other.severity = None,
        |other| other.code = None,
        |other| other.code = Some(DiagnosticCode::Text("d".to_string())),
        |other| other.code = Some(DiagnosticCode::Number(1)),
        |other| other.code_description = Some("https://example.org".to_string()),
        |other| other.source = None,
        |other| other.related_information = None,
        |other| other.related_information = Some(vec![]),
        |other| other.related_information = Some(vec![related("s")]),
        |other| other.tags = None,
        |other| other.tags = Some(vec![]),
        |other| other.tags = Some(vec![DiagnosticTag::Unnecessary]),
        |other| other.data = None,
        |other| other.data = Some("[]".to_string()),
    ];
    for change in changes {
        let mut other = diagnostic("m");
        change(&mut other);
        assert!(!same_diagnostics(&base, &vec![other]));
    }
}

#[test]
fn a_change_of_what_is_related_is_published_with_all_its_parts() {
    let mut last = by_document(&[("a", &["x"])]);
    let mut other = diagnostic("x");
    other.related_information = Some(vec![related("s")]);
    other.code = Some(DiagnosticCode::Number(7));
    let mut now = TextMap::new();
    now.insert("a".to_string(), vec![other]);
    let outcome = diff_diagnostics(&mut last, now, &[1]);
    let notifications = publications(&AnalysisOutcome::Diagnostics(outcome));
    let mut expected = diagnostic("x");
    expected.related_information = Some(vec![related("s")]);
    expected.code = Some(DiagnosticCode::Number(7));
    assert!(matches!(&notifications[..], [Notification::Publish { uri, diagnostics }]
        if uri == "a" && same_diagnostics(diagnostics, &vec![expected])));
}

#[test]
fn only_what_changed_is_published() {
    let mut last = by_document(&[("same", &["a"]), ("gone", &["b"]), ("moved", &["c"])]);
    let now = by_document(&[("moved", &["d"]), ("same", &["a"]), ("new", &["e", "f"])]);
    let outcome = diff_diagnostics(&mut last, now, &[1, 2]);
    assert_eq!(outcome.changed_files, 2);
    let notifications = publications(&AnalysisOutcome::Diagnostics(outcome));
    assert_eq!(
        sent(&notifications),
        vec![
            ("gone".to_string(), vec![]),
            ("moved".to_string(), vec!["d".to_string()]),
            ("new".to_string(), vec!["e".to_string(), "f".to_string()]),
        ]
    );
    // What counts as published is up to date.
    let again = by_document(&[("moved", &["d"]), ("same", &["a"]), ("new", &["e", "f"])]);
    let outcome = diff_diagnostics(&mut last, again, &[1]);
    assert!(outcome.stale.is_empty() && outcome.changed.is_empty());
}

#[test]
fn a_diagnostic_that_moves_to_another_line_is_published_again() {
    let mut last = by_document(&[("a", &["x"])]);
    let mut moved = diagnostic("x");
    moved.start.line = 3;
    moved.end.line = 3;
    let mut now = TextMap::new();
    now.insert("a".to_string(), vec![moved]);
    let outcome = diff_diagnostics(&mut last, now, &[1]);
    assert!(outcome.stale.is_empty());
    assert_eq!(outcome.changed.len(), 1);
    assert_eq!(outcome.changed[0].value[0].start, Place { line: 3, column: 0 });
}

#[test]
fn failures_are_reported() {
    assert!(publications(&AnalysisOutcome::Nothing).is_empty());
    assert_eq!(
        sent(&publications(&AnalysisOutcome::Failed("why".to_string()))),
        vec![("mago-server: incremental analysis failed: why".to_string(), vec![])]
    );
    assert_eq!(
        sent(&publications(&AnalysisOutcome::Panicked("why".to_string()))),
        vec![("mago-server: analysis task panicked: why".to_string(), vec![])]
    );
}

#[test]
fn a_removed_workspace_is_cleared() {
    let last = by_document(&[("a", &["x"]), ("b", &[])]);
    assert_eq!(
        sent(&clear_all(&last)),
        vec![("a".to_string(), vec![]), ("b".to_string(), vec![])]
    );
}

// ---- Workspaces ----------------------------------------------------------

fn path(text: &str) -> Vec<Vec<u8>> {
    text.split('/').map(|component| component.as_bytes().to_vec()).collect()
}

fn registry() -> WorkspaceRegistry<u8> {
    WorkspaceRegistry {
        workspaces: vec![
            Workspace { root: path("/alpha"), state: 1 },
            Workspace { root: path("/alpha/deep"), state: 2 },
        ],
    }
}

#[test]
fn paths_route_to_the_longest_root() {
    let registry = registry();
    assert_eq!(registry.for_path(&path("/alpha/a.php")), Some(0));
    assert_eq!(registry.for_path(&path("/alpha/deep/a.php")), Some(1));
    // Whole components count.
    assert_eq!(registry.for_path(&path("/alpha/deeper/a.php")), Some(0));
    assert_eq!(registry.for_path(&path("/beta/a.php")), None);
}

#[test]
fn folders_come_and_go() {
    let mut registry = registry();
    assert!(registry.contains_root(&path("/alpha")));
    assert!(!registry.contains_root(&path("/alpha/deep/er")));
    registry.add(Workspace { root: path("/beta"), state: 3 });
    assert_eq!(registry.for_path(&path("/beta/b.php")), Some(2));
    assert!(matches!(registry.remove(&path("/alpha")), Some(gone) if gone.state == 1));
    assert!(registry.remove(&path("/alpha")).is_none());
    assert_eq!(registry.for_path(&path("/alpha/a.php")), None);
    assert_eq!(registry.for_path(&path("/beta/b.php")), Some(1));
}

#[test]
fn nothing_is_there_before_the_server_is_ready() {
    let mut starting: BackendState<WorkspaceRegistry<u8>> = BackendState::Starting;
    assert_eq!(starting.with_registry(|registry| registry.workspaces.len()), None);
    assert_eq!(starting.with_registry_mut(|registry| (registry, 1)), None);
    assert!(starting.workspace_for(&path("/alpha")).is_none());
    assert!(!starting.wants_folder(&path("/beta")));
    let mut ready = BackendState::Ready(registry());
    assert_eq!(ready.with_registry(|registry| registry.workspaces.len()), Some(2));
    assert!(matches!(ready.workspace_for(&path("/alpha/deep/x")), Some(found)
        if found.state == 2));
    assert!(!ready.wants_folder(&path("/alpha")));
    assert!(ready.wants_folder(&path("/beta")));
    let removed = ready.with_registry_mut(|mut registry| {
        let removed = registry.remove(&path("/alpha"));
        (registry, removed.is_some())
    });
    assert_eq!(removed, Some(true));
    assert!(ready.workspace_for(&path("/alpha/x")).is_none());
}

#[test]
fn builds_are_kept_or_reported() {
    assert_eq!(analyzing_message("/a"), "Analyzing /a");
    let built = after_build("/a", &BuildOutcome::Built { linter: true }, true);
    assert!(matches!(built, BuildStep::Keep { lint: true, progress: Some(message) }
        if message == "Linting /a"));
    let quiet = after_build("/a", &BuildOutcome::Built { linter: true }, false);
    assert!(matches!(quiet, BuildStep::Keep { lint: true, progress: None }));
    let plain = after_build("/a", &BuildOutcome::Built { linter: false }, true);
    assert!(matches!(plain, BuildStep::Keep { lint: false, progress: None }));
    let failed = after_build("/a", &BuildOutcome::Failed("why".to_string()), true);
    assert!(matches!(failed, BuildStep::Report { message }
        if message == "mago-server: bootstrap failed for /a: why"));
    let panicked = after_build("/a", &BuildOutcome::Panicked("why".to_string()), true);
    assert!(matches!(panicked, BuildStep::Report { message }
        if message == "mago-server: bootstrap task panicked: why"));
    assert!(reports_progress(true, true));
    assert!(!reports_progress(true, false));
    assert!(!reports_progress(false, true));
}

#[test]
fn a_failed_folder_does_not_hold_up_the_next() {
    let roots = vec!["/a".to_string(), "/b".to_string(), "/c".to_string()];
    let mut bootstrap = Bootstrap::new(roots, true);
    assert!(matches!(bootstrap.next_action(), BootstrapAction::Build { root: 0, progress }
        if progress.as_deref() == Some("Analyzing /a")));
    let built = BuildOutcome::Built { linter: false };
    assert!(matches!(bootstrap.build_ended(&built), BuildStep::Keep { .. }));
    let failed = BuildOutcome::Failed("why".to_string());
    assert!(matches!(bootstrap.build_ended(&failed), BuildStep::Report { message }
        if message == "mago-server: bootstrap failed for /b: why"));
    assert!(matches!(bootstrap.next_action(), BootstrapAction::Build { root: 2, .. }));
    assert!(matches!(bootstrap.build_ended(&built), BuildStep::Keep { .. }));
    assert!(matches!(bootstrap.next_action(), BootstrapAction::Finish));
    assert_eq!(bootstrap.kept, vec![0, 2]);
}

#[test]
fn counts_files_and_lint_issues() {
    let issue = || Issue {
        level: Level::Note,
        code: None,
        message: String::new(),
        notes: vec![],
        help: None,
        annotations: vec![],
        edits: vec![],
    };
    let analysis = |file_id: u64, lint_issues: Vec<Issue>| FileAnalysis {
        file_id,
        resolved: vec![],
        function_like_sites: vec![],
        lint_issues,
    };
    let codebase = match CodebaseMetadata::new(vec![], vec![], vec![]) {
        Some(codebase) => codebase,
        None => panic!("there are no spans to fit"),
    };
    let analyses = vec![analysis(1, vec![issue(), issue()]), analysis(2, vec![issue()])];
    let server = match Server::new(vec![], codebase, analyses, vec![], vec![], None) {
        Some(server) => server,
        None => panic!("the files have ids of their own"),
    };
    assert_eq!(analysis_totals(&server), (2, 3));
}

#[test]
fn slow_handlers_stand_out() {
    assert!(is_slow(50));
    assert!(!is_slow(49));
}
