//! Laws on documents, diagnostics, workspaces and remembered tokens.

use vstd::prelude::*;

use crate::backend::{
    built_roots, components, leads_to, lint_issue_count, owner, step_after, BackendState,
    Bootstrap, BootstrapAction, BootstrapActionView, BuildOutcome, BuildStep, BuildStepView,
    Workspace, WorkspaceRegistry,
};
use crate::diagnostic::{diagnostic_views, related_views, CodeView, Diagnostic, DiagnosticCode};
use crate::diagnostics::{
    announced, changed_since, clearing, differs, documents, entry_views, gone_quiet,
    notification_views, publishing, texts, AnalysisOutcome, Notification, NotificationView,
};
use crate::documents::{
    closing, database_action, due, put, subject, DatabaseAction, DatabaseActionView, OpenDocument,
    CHANGE_DEBOUNCE_MILLIS,
};
use crate::domain::{FileId, FileType};
use crate::file::{tokens_fit, File};
use crate::lex_cache::{
    file_of_parts, fresh_tokens, looked_up, remembered, remembered_as, remembers, remembers_as,
    without_files, LexCache, 
};
use crate::lookup::{lexed, steps_fit, Lexeme};
use crate::outside::xxh3_digest;
use crate::seqs::{first_is, lemma_first_is, none_is};
use crate::server::FileAnalysis;
use crate::text_map::{keyed, Entry, TextMap};
use crate::token::RawToken;

verus! {

// ---- Documents -----------------------------------------------------------

/// Contents are put in place of those of a known file, and as a new file otherwise.
pub proof fn law_putting_contents(id: FileId, contents: Seq<u8>)
    ensures
        put(id, contents, true) == (DatabaseActionView::Update { id, contents }),
        put(id, contents, false) == (DatabaseActionView::Add { id, contents }),
{
}

/// Closing a document removes a file that was only known for being open, and reloads
/// any other.
pub proof fn law_closing_a_document(document: OpenDocument)
    ensures
        document.virtual_file ==> closing(document) == (DatabaseActionView::Delete {
            id: document.file_id,
        }),
        !document.virtual_file ==> closing(document) == (DatabaseActionView::Reload {
            id: document.file_id,
        }),
{
}

/// The file to analyze is the one that an action is about.
pub proof fn law_subject_of_an_action(id: FileId, contents: Seq<u8>)
    ensures
        subject(DatabaseActionView::Add { id, contents }) == id,
        subject(DatabaseActionView::Update { id, contents }) == id,
        subject(DatabaseActionView::Delete { id }) == id,
        subject(DatabaseActionView::Reload { id }) == id,
{
}

/// The view of an action tells its kind, its file and its contents.
pub proof fn law_database_action_views(action: DatabaseAction)
    ensures
        database_action(Some(action)) == Some(action@),
        database_action(None) is None,
        action matches DatabaseAction::Add { id, contents } ==> action@ == (
        DatabaseActionView::Add { id, contents: contents@ }),
        action matches DatabaseAction::Update { id, contents } ==> action@ == (
        DatabaseActionView::Update { id, contents: contents@ }),
        action matches DatabaseAction::Delete { id } ==> action@ == (DatabaseActionView::Delete {
            id,
        }),
        action matches DatabaseAction::Reload { id } ==> action@ == (DatabaseActionView::Reload {
            id,
        }),
{
}

/// A change is due when it is the one that is noted for its document.
pub proof fn law_due_changes(pending: Map<Seq<char>, i32>, uri: Seq<char>, version: i32)
    ensures
        due(pending, uri, version) <==> pending.dom().contains(uri) && pending[uri] == version,
        CHANGE_DEBOUNCE_MILLIS == 150,
{
}

// ---- Maps ----------------------------------------------------------------

/// A map holds the first entry of each key.
pub proof fn law_map_entries<V>(map: TextMap<V>, key: Seq<char>, index: int)
    ensures
        first_is(map.entries@, |entry: Entry<V>| entry.key@ == key, index) ==> map@.dom().contains(
            key,
        ) && map@[key] == map.entries@[index].value,
        none_is(map.entries@, |entry: Entry<V>| entry.key@ == key) ==> !map@.dom().contains(key),
        map.wf() ==> forall|i: int, j: int|
            0 <= i < j < map.entries@.len() ==> (#[trigger] map.entries@[i]).key@ != (
            #[trigger] map.entries@[j]).key@,
{
    lemma_first_is(map.entries@, keyed(key), |entry: Entry<V>| entry.key@ == key, index);
}

// ---- Diagnostics ---------------------------------------------------------

/// A document went quiet when it had an entry and has none any more.
pub proof fn law_quiet_documents(
    last: Seq<Entry<Vec<Diagnostic>>>,
    now: Map<Seq<char>, Vec<Diagnostic>>,
    count: int,
)
    requires
        0 <= count < last.len(),
    ensures
        gone_quiet(last, now, 0).len() == 0,
        now.dom().contains(last[count].key@) ==> gone_quiet(last, now, count + 1) == gone_quiet(
            last,
            now,
            count,
        ),
        !now.dom().contains(last[count].key@) ==> gone_quiet(last, now, count + 1) == gone_quiet(
            last,
            now,
            count,
        ).push(last[count].key@),
{
}

/// A document is published when it had no diagnostics before or has others now, with
/// the ones that it has now; one whose diagnostics are the same is not.
pub proof fn law_published_documents(
    now: Seq<Entry<Vec<Diagnostic>>>,
    last: Map<Seq<char>, Vec<Diagnostic>>,
    count: int,
)
    requires
        0 <= count < now.len(),
    ensures
        ({
            let entry = now[count];
            let before = changed_since(now, last, count);
            let same = last.dom().contains(entry.key@) && diagnostic_views(last[entry.key@]@)
                == diagnostic_views(entry.value@);
            &&& differs(last, entry) <==> !same
            &&& same ==> changed_since(now, last, count + 1) == before
            &&& !same ==> changed_since(now, last, count + 1) == before.push(
                (entry.key@, diagnostic_views(entry.value@)),
            )
        }),
        changed_since(now, last, 0).len() == 0,
{
}

/// A document is cleared by publishing no diagnostics for it, and published by
/// publishing its own.
pub proof fn law_clearing_and_publishing(
    uris: Seq<Seq<char>>,
    changed: Seq<(Seq<char>, Seq<crate::diagnostic::DiagnosticView>)>,
    i: int,
)
    ensures
        clearing(uris).len() == uris.len(),
        0 <= i < uris.len() ==> (clearing(uris)[i] matches NotificationView::Publish {
            uri,
            diagnostics,
        } && uri == uris[i] && diagnostics.len() == 0),
        publishing(changed).len() == changed.len(),
        0 <= i < changed.len() ==> publishing(changed)[i] == (NotificationView::Publish {
            uri: changed[i].0,
            diagnostics: changed[i].1,
        }),
{
}

/// After an analysis the quiet documents are cleared and then the changed ones are
/// published; a failure is told with its reason, and nothing is told of nothing.
pub proof fn law_announcements(outcome: AnalysisOutcome)
    ensures
        outcome is Nothing ==> announced(outcome).len() == 0,
        outcome matches AnalysisOutcome::Diagnostics(found) ==> announced(outcome) == clearing(
            texts(found.stale@),
        ) + publishing(entry_views(found.changed@)),
        outcome matches AnalysisOutcome::Failed(reason) ==> announced(outcome) == seq![
            NotificationView::LogError {
                message: "mago-server: incremental analysis failed: "@ + reason@,
            },
        ],
        outcome matches AnalysisOutcome::Panicked(reason) ==> announced(outcome) == seq![
            NotificationView::LogError {
                message: "mago-server: analysis task panicked: "@ + reason@,
            },
        ],
{
}

/// The views of diagnostics, of entries and of notifications tell all that they hold.
pub proof fn law_diagnostic_views(
    diagnostics: Seq<Diagnostic>,
    entries: Seq<Entry<Vec<Diagnostic>>>,
    uris: Seq<String>,
    notifications: Seq<Notification>,
    i: int,
)
    ensures
        diagnostic_views(diagnostics).len() == diagnostics.len(),
        0 <= i < diagnostics.len() ==> {
            let shown = diagnostic_views(diagnostics)[i];
            let held = diagnostics[i];
            &&& shown == held@
            &&& shown.start == held.start
            &&& shown.end == held.end
            &&& shown.severity == held.severity
            &&& shown.message == held.message@
            &&& held.code matches Some(DiagnosticCode::Number(number)) ==> shown.code == Some(
                CodeView::Number(number),
            )
            &&& held.code matches Some(DiagnosticCode::Text(text)) ==> shown.code == Some(
                CodeView::Text(text@),
            )
            &&& held.code is None ==> shown.code is None
            &&& held.code_description matches Some(href) ==> shown.code_description == Some(href@)
            &&& held.code_description is None ==> shown.code_description is None
            &&& held.source matches Some(source) ==> shown.source == Some(source@)
            &&& held.source is None ==> shown.source is None
            &&& held.related_information matches Some(related) ==> shown.related_information
                == Some(related_views(related@))
            &&& held.related_information is None ==> shown.related_information is None
            &&& held.tags matches Some(tags) ==> shown.tags == Some(tags@)
            &&& held.tags is None ==> shown.tags is None
            &&& held.data matches Some(data) ==> shown.data == Some(data@)
            &&& held.data is None ==> shown.data is None
        },
        entry_views(entries).len() == entries.len(),
        0 <= i < entries.len() ==> entry_views(entries)[i] == (
            entries[i].key@,
            diagnostic_views(entries[i].value@),
        ) && documents(entries)[i] == entries[i].key@,
        documents(entries).len() == entries.len(),
        texts(uris).len() == uris.len(),
        0 <= i < uris.len() ==> texts(uris)[i] == uris[i]@,
        notification_views(notifications).len() == notifications.len(),
        0 <= i < notifications.len() ==> (notifications[i] matches Notification::Publish {
            uri,
            diagnostics,
        } ==> notification_views(notifications)[i] == (NotificationView::Publish {
            uri: uri@,
            diagnostics: diagnostic_views(diagnostics@),
        })) && (notifications[i] matches Notification::LogError { message }
            ==> notification_views(notifications)[i] == (NotificationView::LogError {
            message: message@,
        })),
{
}

/// The view of a related place tells all that it holds.
pub proof fn law_related_views(related: Seq<crate::diagnostic::RelatedInformation>, i: int)
    requires
        0 <= i < related.len(),
    ensures
        related_views(related).len() == related.len(),
        related_views(related)[i].uri == related[i].uri@,
        related_views(related)[i].start == related[i].start,
        related_views(related)[i].end == related[i].end,
        related_views(related)[i].message == related[i].message@,
{
}

// ---- Workspaces ----------------------------------------------------------

/// A root leads to a path when the path starts with all of its components.
pub proof fn law_roots_and_paths(root: Seq<Vec<u8>>, path: Seq<Seq<u8>>, i: int)
    ensures
        components(root).len() == root.len(),
        0 <= i < root.len() ==> components(root)[i] == root[i]@,
        leads_to(components(root), path) <==> root.len() <= path.len() && forall|k: int|
            0 <= k < root.len() ==> (#[trigger] root[k])@ == path[k],
{
    let parts = components(root);
    if root.len() <= path.len() {
        let head = path.take(root.len() as int);
        if leads_to(parts, path) {
            assert forall|k: int| 0 <= k < root.len() implies (#[trigger] root[k])@ == path[k] by {
                assert(head[k] == parts[k]);
            }
        }
        if forall|k: int| 0 <= k < root.len() ==> (#[trigger] root[k])@ == path[k] {
            assert(head =~= parts);
        }
    }
}

/// A path belongs to the workspace with the longest root that leads to it, and among
/// equally long ones to the first.
pub proof fn law_owner_of_a_path<W>(
    workspaces: Seq<Workspace<W>>,
    path: Seq<Seq<u8>>,
    count: int,
    index: int,
)
    requires
        0 <= count <= workspaces.len(),
    ensures
        0 <= index < count && leads_to(components(workspaces[index].root@), path) && (forall|
            i: int,
        |
            0 <= i < count && leads_to(components((#[trigger] workspaces[i]).root@), path)
                ==> workspaces[i].root@.len() <= workspaces[index].root@.len() && (i < index
                ==> workspaces[i].root@.len() < workspaces[index].root@.len())) ==> owner(
            workspaces,
            path,
            count,
        ) == Some(index),
        (forall|i: int|
            0 <= i < count ==> !leads_to(components((#[trigger] workspaces[i]).root@), path))
            ==> owner(workspaces, path, count) is None,
    decreases count,
{
    crate::backend::law_owner_has_longest_root(workspaces, path, count);
    lemma_owner_is_first(workspaces, path, count);
}

proof fn lemma_owner_is_first<W>(workspaces: Seq<Workspace<W>>, path: Seq<Seq<u8>>, count: int)
    requires
        0 <= count <= workspaces.len(),
    ensures
        owner(workspaces, path, count) matches Some(found) ==> 0 <= found < count && leads_to(
            components(workspaces[found].root@),
            path,
        ) && forall|i: int|
            0 <= i < found && leads_to(components((#[trigger] workspaces[i]).root@), path)
                ==> workspaces[i].root@.len() < workspaces[found].root@.len(),
    decreases count,
{
    if count > 0 {
        lemma_owner_is_first(workspaces, path, count - 1);
        crate::backend::law_owner_has_longest_root(workspaces, path, count - 1);
    }
}

/// A registry tracks a root when one of its workspaces is at it.
pub proof fn law_tracked_roots<W>(registry: WorkspaceRegistry<W>, root: Seq<Seq<u8>>)
    ensures
        registry.tracks(root) <==> exists|i: int|
            0 <= i < registry.workspaces@.len() && components(
                (#[trigger] registry.workspaces@[i]).root@,
            ) == root,
{
}

/// Once the server is ready a path leads to the workspace that owns it; before that
/// it leads to none.
pub proof fn law_paths_are_routed<W>(registry: WorkspaceRegistry<W>, path: Seq<Seq<u8>>)
    ensures
        BackendState::<WorkspaceRegistry<W>>::Starting.owning(path) is None,
        match owner(registry.workspaces@, path, registry.workspaces@.len() as int) {
            Some(index) => BackendState::Ready(registry).owning(path) == Some(
                registry.workspaces@[index],
            ),
            None => BackendState::Ready(registry).owning(path) is None,
        },
{
}

/// A workspace that was built is kept, and linted when its linter is on, which is
/// told where progress is; one that was not built is told of with the reason.
pub proof fn law_step_after_a_build(root: Seq<char>, outcome: BuildOutcome, reports: bool)
    ensures
        outcome matches BuildOutcome::Built { linter } ==> (step_after(
            root,
            outcome,
            reports,
        ) matches BuildStepView::Keep { lint, progress } && lint == linter && (linter && reports
            ==> progress == Some("Linting "@ + root)) && (!linter || !reports
            ==> progress is None)),
        outcome matches BuildOutcome::Failed(reason) ==> step_after(root, outcome, reports) == (
        BuildStepView::Report {
            message: "mago-server: bootstrap failed for "@ + root + ": "@ + reason@,
        }),
        outcome matches BuildOutcome::Panicked(reason) ==> step_after(root, outcome, reports) == (
        BuildStepView::Report { message: "mago-server: bootstrap task panicked: "@ + reason@ }),
{
}

/// The folders are brought up one after the other, in order, each under its own
/// message where progress is told, until all are done with.
pub proof fn law_next_folder(bootstrap: Bootstrap)
    ensures
        bootstrap.done < bootstrap.roots@.len() ==> (
        bootstrap.asks_for() matches BootstrapActionView::Build { root, progress } && root
            == bootstrap.done && (bootstrap.reports ==> progress == Some(
            "Analyzing "@ + bootstrap.roots@[bootstrap.done as int]@,
        )) && (!bootstrap.reports ==> progress is None)),
        bootstrap.done >= bootstrap.roots@.len() ==> bootstrap.asks_for()
            is Finish,
        bootstrap.wf() <==> bootstrap.done <= bootstrap.roots@.len(),
{
}

/// The folders that are kept are those whose workspaces were built, in order.
pub proof fn law_kept_folders(bootstrap: Bootstrap, outcomes: Seq<BuildOutcome>, count: int)
    requires
        0 <= count < outcomes.len() <= usize::MAX,
    ensures
        built_roots(outcomes, 0).len() == 0,
        outcomes[count] is Built ==> built_roots(outcomes, count + 1) == built_roots(
            outcomes,
            count,
        ).push(count as usize),
        !(outcomes[count] is Built) ==> built_roots(outcomes, count + 1) == built_roots(
            outcomes,
            count,
        ),
        bootstrap.ended(outcomes) <==> bootstrap.done == outcomes.len() && bootstrap.kept@
            == built_roots(outcomes, outcomes.len() as int),
{
}

/// The views of steps tell all that they hold.
pub proof fn law_step_views(step: BuildStep, action: BootstrapAction)
    ensures
        step matches BuildStep::Keep { lint, progress } ==> (step@ matches BuildStepView::Keep {
            lint: shown_lint,
            progress: shown,
        } && shown_lint == lint && (progress matches Some(text) ==> shown == Some(text@)) && (
        progress is None ==> shown is None)),
        step matches BuildStep::Report { message } ==> step@ == (BuildStepView::Report {
            message: message@,
        }),
        action matches BootstrapAction::Build { root, progress } ==> (
        action@ matches BootstrapActionView::Build { root: shown_root, progress: shown }
            && shown_root == root && (progress matches Some(text) ==> shown == Some(text@)) && (
        progress is None ==> shown is None)),
        action is Finish ==> action@ is Finish,
{
}

/// The lint issues of the analyses are added up.
pub proof fn law_lint_issues_are_counted(analyses: Seq<FileAnalysis>, count: int)
    requires
        0 <= count < analyses.len(),
    ensures
        lint_issue_count(analyses, 0) == 0,
        lint_issue_count(analyses, count + 1) == lint_issue_count(analyses, count)
            + analyses[count].lint_issues@.len(),
{
}

// ---- Remembered tokens ---------------------------------------------------

/// Tokens are found for a file when they were remembered for it under the digest of
/// its contents.
pub proof fn law_remembered_tokens(
    cache: Map<FileId, (u64, Seq<RawToken>)>,
    id: FileId,
    digest: u64,
    contents: Seq<u8>,
)
    ensures
        cache.dom().contains(id) && cache[id].0 == digest ==> remembered_as(cache, id, digest)
            == Some(cache[id].1),
        !cache.dom().contains(id) || cache[id].0 != digest ==> remembered_as(
            cache,
            id,
            digest,
        ) is None,
        remembered(cache, id, contents) == remembered_as(cache, id, xxh3_digest(contents)),
{
}

/// Remembering puts one entry in. Where a thousand and twenty-four are in already one
/// of them leaves before, and only then.
pub proof fn law_remembering(
    before: Map<FileId, (u64, Seq<RawToken>)>,
    after: Map<FileId, (u64, Seq<RawToken>)>,
    id: FileId,
    digest: u64,
    tokens: Seq<RawToken>,
    contents: Seq<u8>,
)
    ensures
        before.dom().len() < 1024 ==> (remembers_as(before, after, id, digest, tokens) <==> after
            == before.insert(id, (digest, tokens))),
        before.dom().len() >= 1024 ==> (remembers_as(before, after, id, digest, tokens)
            <==> exists|evicted: FileId| #[trigger]
            before.dom().contains(evicted) && after == before.remove(evicted).insert(
                id,
                (digest, tokens),
            )),
        remembers(before, after, id, contents, tokens) <==> remembers_as(
            before,
            after,
            id,
            xxh3_digest(contents),
            tokens,
        ),
{
}

/// A cache never holds more than it may.
pub proof fn law_cache_is_bounded(cache: LexCache)
    ensures
        cache.wf() <==> cache@.dom().finite() && cache@.dom().len() <= 1024,
{
}

/// Invalidating takes out the entries of the given files and of no other.
pub proof fn law_invalidating(
    cache: Map<FileId, (u64, Seq<RawToken>)>,
    ids: Seq<FileId>,
    id: FileId,
)
    ensures
        without_files(cache, ids).dom().contains(id) <==> cache.dom().contains(id)
            && !ids.contains(id),
        cache.dom().contains(id) && !ids.contains(id) ==> without_files(cache, ids)[id]
            == cache[id],
{
}

/// What is remembered is handed out and leaves the cache alone; else what the lexer
/// makes is handed out and remembered; and where that does not fit nothing is.
pub proof fn law_lookup(
    before: Map<FileId, (u64, Seq<RawToken>)>,
    after: Map<FileId, (u64, Seq<RawToken>)>,
    id: FileId,
    contents: Seq<u8>,
    fresh: Option<Seq<RawToken>>,
    tokens: Option<Seq<RawToken>>,
)
    requires
        looked_up(before, after, id, contents, fresh, tokens),
    ensures
        remembered(before, id, contents) is Some ==> tokens == remembered(before, id, contents)
            && after == before,
        remembered(before, id, contents) is None ==> tokens == fresh,
        remembered(before, id, contents) is None && fresh is Some ==> remembers(
            before,
            after,
            id,
            contents,
            fresh->0,
        ),
        remembered(before, id, contents) is None && fresh is None ==> after == before,
{
}

/// What the lexer makes of a file is the tokens of its steps, where they fit.
pub proof fn law_fresh_tokens(steps: Seq<Option<Lexeme>>)
    ensures
        steps_fit(steps) ==> fresh_tokens(steps) == Some(lexed(steps)),
        !steps_fit(steps) ==> fresh_tokens(steps) is None,
{
}

/// A file is made of its parts where it is not too long and its tokens fit, and holds
/// each of them.
pub proof fn law_file_of_its_parts(
    file: Option<File>,
    id: FileId,
    uri: Option<String>,
    file_type: FileType,
    contents: Vec<u8>,
    tokens: Option<Seq<RawToken>>,
)
    requires
        file_of_parts(file, id, uri, file_type, contents, tokens),
    ensures
        file is Some <==> contents@.len() <= 0xffff_ffff && tokens is Some && tokens_fit(
            tokens->0,
            contents@.len(),
        ),
        file is Some ==> file->0.wf() && file->0.id == id && file->0.uri == uri
            && file->0.file_type == file_type && file->0.contents == contents
            && file->0.tokens@ == tokens->0,
{
}

} // verus!
