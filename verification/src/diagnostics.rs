//! Publishing diagnostics: only what changed since the last time is sent, and
//! documents that went quiet are cleared.

use vstd::prelude::*;
use vstd::string::StringExecFns;

use crate::diagnostic::{
    copy_diagnostics, diagnostic_views, same_diagnostics, Diagnostic, DiagnosticView,
};
use crate::domain::FileId;
use crate::text_map::{lemma_entry_position, lemma_position, position, Entry, TextMap};

verus! {

// ---- What changed --------------------------------------------------------

/// The diagnostics of each document.
pub open spec fn published(diagnostics: Map<Seq<char>, Vec<Diagnostic>>) -> Map<
    Seq<char>,
    Seq<DiagnosticView>,
> {
    Map::new(
        |uri: Seq<char>| diagnostics.dom().contains(uri),
        |uri: Seq<char>| diagnostic_views(diagnostics[uri]@),
    )
}

/// The documents, from among the first `count` entries, that have no diagnostics
/// any more.
pub open spec fn gone_quiet(
    last: Seq<Entry<Vec<Diagnostic>>>,
    diagnostics: Map<Seq<char>, Vec<Diagnostic>>,
    count: int,
) -> Seq<Seq<char>>
    decreases count,
{
    if count <= 0 {
        Seq::empty()
    } else if diagnostics.dom().contains(last[count - 1].key@) {
        gone_quiet(last, diagnostics, count - 1)
    } else {
        gone_quiet(last, diagnostics, count - 1).push(last[count - 1].key@)
    }
}

/// The document's diagnostics are not what was last published.
pub open spec fn differs(
    last: Map<Seq<char>, Vec<Diagnostic>>,
    entry: Entry<Vec<Diagnostic>>,
) -> bool {
    !(last.dom().contains(entry.key@) && diagnostic_views(last[entry.key@]@) == diagnostic_views(
        entry.value@,
    ))
}

/// The documents, from among the first `count` entries, whose diagnostics are not
/// what was last published.
pub open spec fn changed_since(
    diagnostics: Seq<Entry<Vec<Diagnostic>>>,
    last: Map<Seq<char>, Vec<Diagnostic>>,
    count: int,
) -> Seq<(Seq<char>, Seq<DiagnosticView>)>
    decreases count,
{
    if count <= 0 {
        Seq::empty()
    } else {
        let before = changed_since(diagnostics, last, count - 1);
        let entry = diagnostics[count - 1];
        if differs(last, entry) {
            before.push((entry.key@, diagnostic_views(entry.value@)))
        } else {
            before
        }
    }
}

/// The publishable result of an incremental analysis.
#[derive(Debug)]
pub struct DiagnosticsOutcome {
    /// How many files were analyzed.
    pub changed_files: usize,
    /// The documents that have no diagnostics any more.
    pub stale: Vec<String>,
    /// The documents whose diagnostics changed.
    pub changed: Vec<Entry<Vec<Diagnostic>>>,
}

pub open spec fn texts(texts: Seq<String>) -> Seq<Seq<char>> {
    Seq::new(texts.len(), |i: int| texts[i]@)
}

pub open spec fn entry_views(entries: Seq<Entry<Vec<Diagnostic>>>) -> Seq<
    (Seq<char>, Seq<DiagnosticView>),
> {
    Seq::new(entries.len(), |i: int| (entries[i].key@, diagnostic_views(entries[i].value@)))
}

/// Take the diagnostics that an analysis of `changed` gave, and say what is to be
/// sent: the documents whose diagnostics are not what was last published, and
/// those that went quiet. What counts as last published is then up to date.
pub fn diff_diagnostics(
    last: &mut TextMap<Vec<Diagnostic>>,
    diagnostics: TextMap<Vec<Diagnostic>>,
    changed: &[FileId],
) -> (outcome: DiagnosticsOutcome)
    requires
        old(last).wf(),
        diagnostics.wf(),
    ensures
        *final(last) == diagnostics,
        outcome.changed_files == changed@.len(),
        texts(outcome.stale@) == gone_quiet(
            old(last).entries@,
            diagnostics@,
            old(last).entries@.len() as int,
        ),
        entry_views(outcome.changed@) == changed_since(
            diagnostics.entries@,
            old(last)@,
            diagnostics.entries@.len() as int,
        ),
{
    let mut stale: Vec<String> = Vec::new();
    let mut i: usize = 0;
    assert(texts(stale@) =~= Seq::empty());
    while i < last.entries.len()
        invariant
            *last == *old(last),
            diagnostics.wf(),
            i <= last.entries@.len(),
            texts(stale@) == gone_quiet(last.entries@, diagnostics@, i as int),
        decreases last.entries.len() - i,
    {
        let key = last.entries[i].key.as_str();
        if !diagnostics.contains_key(key) {
            let ghost before = stale@;
            stale.push(key.to_string());
            assert(texts(stale@) =~= texts(before).push(key@));
        }
        i += 1;
    }
    let mut fresh: Vec<Entry<Vec<Diagnostic>>> = Vec::new();
    let mut j: usize = 0;
    assert(entry_views(fresh@) =~= Seq::empty());
    while j < diagnostics.entries.len()
        invariant
            *last == *old(last),
            last.wf(),
            j <= diagnostics.entries@.len(),
            entry_views(fresh@) == changed_since(diagnostics.entries@, last@, j as int),
        decreases diagnostics.entries.len() - j,
    {
        let entry = &diagnostics.entries[j];
        let same = match last.get(entry.key.as_str()) {
            Some(published) => same_diagnostics(published, &entry.value),
            None => false,
        };
        if !same {
            let ghost before = fresh@;
            fresh.push(
                Entry { key: entry.key.as_str().to_string(), value: copy_diagnostics(&entry.value) },
            );
            assert(entry_views(fresh@) =~= entry_views(before).push(
                (entry.key@, diagnostic_views(entry.value@)),
            ));
        }
        j += 1;
    }
    *last = diagnostics;
    DiagnosticsOutcome { changed_files: changed.len(), stale, changed: fresh }
}

// ---- Notifications -------------------------------------------------------

/// Something to send to the editor.
#[derive(Debug)]
pub enum Notification {
    /// The document's diagnostics are now these.
    Publish { uri: String, diagnostics: Vec<Diagnostic> },
    /// Something went wrong.
    LogError { message: String },
}

/// What a [`Notification`] says.
pub enum NotificationView {
    Publish { uri: Seq<char>, diagnostics: Seq<DiagnosticView> },
    LogError { message: Seq<char> },
}

impl View for Notification {
    type V = NotificationView;

    open spec fn view(&self) -> NotificationView {
        match *self {
            Notification::Publish { uri, diagnostics } => NotificationView::Publish {
                uri: uri@,
                diagnostics: diagnostic_views(diagnostics@),
            },
            Notification::LogError { message } => NotificationView::LogError { message: message@ },
        }
    }
}

pub open spec fn notification_views(notifications: Seq<Notification>) -> Seq<NotificationView> {
    Seq::new(notifications.len(), |i: int| notifications[i]@)
}

/// How a task that analyzes changes ends.
#[derive(Debug)]
pub enum AnalysisOutcome {
    /// There was nothing to analyze.
    Nothing,
    Diagnostics(DiagnosticsOutcome),
    /// The analyzer gave up, for this reason.
    Failed(String),
    /// The task itself did.
    Panicked(String),
}

/// Clear the documents, in order.
pub open spec fn clearing(uris: Seq<Seq<char>>) -> Seq<NotificationView> {
    Seq::new(
        uris.len(),
        |i: int| NotificationView::Publish { uri: uris[i], diagnostics: Seq::empty() },
    )
}

/// Publish the documents' diagnostics, in order.
pub open spec fn publishing(changed: Seq<(Seq<char>, Seq<DiagnosticView>)>) -> Seq<
    NotificationView,
> {
    Seq::new(
        changed.len(),
        |i: int| NotificationView::Publish { uri: changed[i].0, diagnostics: changed[i].1 },
    )
}

/// What is sent after an analysis: first what is cleared, then what is new; or the
/// reason for which it failed.
pub open spec fn announced(outcome: AnalysisOutcome) -> Seq<NotificationView> {
    match outcome {
        AnalysisOutcome::Nothing => Seq::empty(),
        AnalysisOutcome::Diagnostics(outcome) => clearing(texts(outcome.stale@)) + publishing(
            entry_views(outcome.changed@),
        ),
        AnalysisOutcome::Failed(reason) => seq![
            NotificationView::LogError {
                message: "mago-server: incremental analysis failed: "@ + reason@,
            },
        ],
        AnalysisOutcome::Panicked(reason) => seq![
            NotificationView::LogError {
                message: "mago-server: analysis task panicked: "@ + reason@,
            },
        ],
    }
}

/// Clear each of the documents.
fn push_cleared(out: &mut Vec<Notification>, uris: &Vec<String>)
    ensures
        notification_views(final(out)@) == notification_views(old(out)@) + clearing(texts(uris@)),
{
    let ghost before = notification_views(out@);
    let ghost all = clearing(texts(uris@));
    let mut i: usize = 0;
    assert(before + all.take(0) =~= before);
    while i < uris.len()
        invariant
            i <= uris@.len(),
            all == clearing(texts(uris@)),
            notification_views(out@) == before + all.take(i as int),
        decreases uris.len() - i,
    {
        let ghost earlier = out@;
        let note = Notification::Publish {
            uri: uris[i].as_str().to_string(),
            diagnostics: Vec::new(),
        };
        proof {
            assert(diagnostic_views(Seq::<Diagnostic>::empty()) =~= Seq::empty());
            assert(note@ == all[i as int]);
        }
        out.push(note);
        i += 1;
        proof {
            assert(notification_views(out@) =~= notification_views(earlier).push(note@));
            assert(notification_views(out@) =~= before + all.take(i as int));
        }
    }
    assert(all.take(i as int) =~= all);
}

/// Publish each of the documents' diagnostics.
fn push_published(out: &mut Vec<Notification>, changed: &Vec<Entry<Vec<Diagnostic>>>)
    ensures
        notification_views(final(out)@) == notification_views(old(out)@) + publishing(
            entry_views(changed@),
        ),
{
    let ghost before = notification_views(out@);
    let ghost all = publishing(entry_views(changed@));
    let mut i: usize = 0;
    assert(before + all.take(0) =~= before);
    while i < changed.len()
        invariant
            i <= changed@.len(),
            all == publishing(entry_views(changed@)),
            notification_views(out@) == before + all.take(i as int),
        decreases changed.len() - i,
    {
        let ghost earlier = out@;
        let entry = &changed[i];
        let note = Notification::Publish {
            uri: entry.key.as_str().to_string(),
            diagnostics: copy_diagnostics(&entry.value),
        };
        assert(note@ == all[i as int]);
        out.push(note);
        i += 1;
        proof {
            assert(notification_views(out@) =~= notification_views(earlier).push(note@));
            assert(notification_views(out@) =~= before + all.take(i as int));
        }
    }
    assert(all.take(i as int) =~= all);
}

/// What to send to the editor after an analysis.
pub fn publications(outcome: &AnalysisOutcome) -> (out: Vec<Notification>)
    ensures
        notification_views(out@) == announced(*outcome),
{
    let mut out: Vec<Notification> = Vec::new();
    assert(notification_views(out@) =~= Seq::empty());
    match outcome {
        AnalysisOutcome::Nothing => {},
        AnalysisOutcome::Diagnostics(outcome) => {
            push_cleared(&mut out, &outcome.stale);
            push_published(&mut out, &outcome.changed);
            assert(notification_views(out@) =~= clearing(texts(outcome.stale@)) + publishing(
                entry_views(outcome.changed@),
            ));
        },
        AnalysisOutcome::Failed(reason) => {
            let mut message = "mago-server: incremental analysis failed: ".to_string();
            message.append(reason.as_str());
            out.push(Notification::LogError { message });
            assert(notification_views(out@) =~= announced(*outcome));
        },
        AnalysisOutcome::Panicked(reason) => {
            let mut message = "mago-server: analysis task panicked: ".to_string();
            message.append(reason.as_str());
            out.push(Notification::LogError { message });
            assert(notification_views(out@) =~= announced(*outcome));
        },
    }
    out
}

/// The documents that have entries, in order.
pub open spec fn documents(last: Seq<Entry<Vec<Diagnostic>>>) -> Seq<Seq<char>> {
    Seq::new(last.len(), |i: int| last[i].key@)
}

/// Clear every document of a workspace that is gone.
pub fn clear_all(last: &TextMap<Vec<Diagnostic>>) -> (out: Vec<Notification>)
    ensures
        notification_views(out@) == clearing(documents(last.entries@)),
{
    let mut uris: Vec<String> = Vec::new();
    let mut i: usize = 0;
    while i < last.entries.len()
        invariant
            i <= last.entries@.len(),
            uris@.len() == i,
            forall|k: int| 0 <= k < i ==> (#[trigger] uris@[k])@ == last.entries@[k].key@,
        decreases last.entries.len() - i,
    {
        uris.push(last.entries[i].key.as_str().to_string());
        i += 1;
    }
    assert(texts(uris@) =~= documents(last.entries@));
    let mut out: Vec<Notification> = Vec::new();
    push_cleared(&mut out, &uris);
    assert(notification_views(out@) =~= clearing(documents(last.entries@)));
    out
}

// ---- Laws ----------------------------------------------------------------

/// What the editor shows for a document.
pub open spec fn shown(shows: Map<Seq<char>, Seq<DiagnosticView>>, uri: Seq<char>) -> Seq<
    DiagnosticView,
> {
    if shows.dom().contains(uri) {
        shows[uri]
    } else {
        Seq::empty()
    }
}

/// What the editor shows after the first `count` notifications.
pub open spec fn shown_after(
    shows: Map<Seq<char>, Seq<DiagnosticView>>,
    notifications: Seq<NotificationView>,
    count: int,
) -> Map<Seq<char>, Seq<DiagnosticView>>
    decreases count,
{
    if count <= 0 {
        shows
    } else {
        let before = shown_after(shows, notifications, count - 1);
        match notifications[count - 1] {
            NotificationView::Publish { uri, diagnostics } => before.insert(uri, diagnostics),
            NotificationView::LogError { message } => before,
        }
    }
}

/// The notification is about the document.
pub open spec fn about(notification: NotificationView, uri: Seq<char>) -> bool {
    notification matches NotificationView::Publish { uri: about, diagnostics } && about == uri
}

proof fn lemma_shown_after(
    shows: Map<Seq<char>, Seq<DiagnosticView>>,
    notifications: Seq<NotificationView>,
    uri: Seq<char>,
    from: int,
    count: int,
)
    requires
        0 <= from <= count <= notifications.len(),
        forall|i: int| from <= i < count ==> !about(#[trigger] notifications[i], uri),
    ensures
        shown(shown_after(shows, notifications, count), uri) == shown(
            shown_after(shows, notifications, from),
            uri,
        ),
    decreases count - from,
{
    if from < count {
        assert(!about(notifications[count - 1], uri));
        lemma_shown_after(shows, notifications, uri, from, count - 1);
    }
}

proof fn lemma_gone_quiet(
    last: Seq<Entry<Vec<Diagnostic>>>,
    diagnostics: Map<Seq<char>, Vec<Diagnostic>>,
    uri: Seq<char>,
    count: int,
)
    requires
        0 <= count <= last.len(),
    ensures
        gone_quiet(last, diagnostics, count).contains(uri) <==> !diagnostics.dom().contains(uri)
            && exists|i: int| 0 <= i < count && (#[trigger] last[i]).key@ == uri,
    decreases count,
{
    if count > 0 {
        lemma_gone_quiet(last, diagnostics, uri, count - 1);
        let before = gone_quiet(last, diagnostics, count - 1);
        let after = gone_quiet(last, diagnostics, count);
        if before.contains(uri) {
            let k = choose|k: int| 0 <= k < before.len() && before[k] == uri;
            assert(after[k] == uri);
        }
        if after.contains(uri) && !before.contains(uri) {
            let k = choose|k: int| 0 <= k < after.len() && after[k] == uri;
            if k < before.len() {
                assert(before[k] == uri);
            }
            assert(last[count - 1].key@ == uri);
        }
        if last[count - 1].key@ == uri && !diagnostics.dom().contains(uri) {
            assert(after[before.len() as int] == uri);
        }
    }
}

/// `item` is one of the first `count` entries, and differs from what was last
/// published.
spec fn comes_from(
    diagnostics: Seq<Entry<Vec<Diagnostic>>>,
    last: Map<Seq<char>, Vec<Diagnostic>>,
    count: int,
    item: (Seq<char>, Seq<DiagnosticView>),
) -> bool {
    exists|i: int|
        0 <= i < count && differs(last, #[trigger] diagnostics[i]) && item == (
            diagnostics[i].key@,
            diagnostic_views(diagnostics[i].value@),
        )
}

proof fn lemma_changed_since(
    diagnostics: Seq<Entry<Vec<Diagnostic>>>,
    last: Map<Seq<char>, Vec<Diagnostic>>,
    count: int,
)
    requires
        0 <= count <= diagnostics.len(),
    ensures
        forall|k: int|
            0 <= k < changed_since(diagnostics, last, count).len() ==> comes_from(
                diagnostics,
                last,
                count,
                #[trigger] changed_since(diagnostics, last, count)[k],
            ),
        forall|i: int|
            0 <= i < count && differs(last, #[trigger] diagnostics[i]) ==> changed_since(
                diagnostics,
                last,
                count,
            ).contains((diagnostics[i].key@, diagnostic_views(diagnostics[i].value@))),
    decreases count,
{
    if count > 0 {
        lemma_changed_since(diagnostics, last, count - 1);
        let before = changed_since(diagnostics, last, count - 1);
        let after = changed_since(diagnostics, last, count);
        let entry = diagnostics[count - 1];
        assert forall|k: int| 0 <= k < after.len() implies comes_from(
            diagnostics,
            last,
            count,
            #[trigger] after[k],
        ) by {
            if k < before.len() {
                assert(after[k] == before[k]);
                assert(comes_from(diagnostics, last, count - 1, before[k]));
                let i = choose|i: int|
                    0 <= i < count - 1 && differs(last, #[trigger] diagnostics[i]) && before[k]
                        == (diagnostics[i].key@, diagnostic_views(diagnostics[i].value@));
                assert(differs(last, diagnostics[i]));
            } else {
                assert(differs(last, diagnostics[count - 1]));
            }
        }
        assert forall|i: int| 0 <= i < count && differs(last, #[trigger] diagnostics[i]) implies
            after.contains((diagnostics[i].key@, diagnostic_views(diagnostics[i].value@))) by {
            let wanted = (diagnostics[i].key@, diagnostic_views(diagnostics[i].value@));
            if i < count - 1 {
                let k = choose|k: int| 0 <= k < before.len() && before[k] == wanted;
                assert(after[k] == wanted);
            } else {
                assert(after[before.len() as int] == wanted);
            }
        }
    }
}

/// An editor that shows what was last published shows the new diagnostics of every
/// document once it has handled what is sent, though only what changed is sent.
pub proof fn law_editor_is_brought_up_to_date(
    last: TextMap<Vec<Diagnostic>>,
    diagnostics: TextMap<Vec<Diagnostic>>,
    uri: Seq<char>,
)
    requires
        last.wf(),
        diagnostics.wf(),
    ensures
        ({
            let sent = clearing(
                gone_quiet(last.entries@, diagnostics@, last.entries@.len() as int),
            ) + publishing(
                changed_since(diagnostics.entries@, last@, diagnostics.entries@.len() as int),
            );
            shown(shown_after(published(last@), sent, sent.len() as int), uri) == shown(
                published(diagnostics@),
                uri,
            )
        }),
{
    let quiet = gone_quiet(last.entries@, diagnostics@, last.entries@.len() as int);
    let changed = changed_since(
        diagnostics.entries@,
        last@,
        diagnostics.entries@.len() as int,
    );
    let sent = clearing(quiet) + publishing(changed);
    let shows = published(last@);
    lemma_gone_quiet(last.entries@, diagnostics@, uri, last.entries@.len() as int);
    lemma_changed_since(diagnostics.entries@, last@, diagnostics.entries@.len() as int);
    lemma_position(last.entries@, uri);
    lemma_position(diagnostics.entries@, uri);
    // What is published of the document is its new diagnostics.
    assert forall|k: int| 0 <= k < changed.len() && (#[trigger] changed[k]).0 == uri implies
        diagnostics@.dom().contains(uri) && changed[k].1 == diagnostic_views(
        diagnostics@[uri]@,
    ) by {
        assert(comes_from(
            diagnostics.entries@,
            last@,
            diagnostics.entries@.len() as int,
            changed[k],
        ));
        let i = choose|i: int|
            0 <= i < diagnostics.entries@.len() && differs(
                last@,
                #[trigger] diagnostics.entries@[i],
            ) && changed[k] == (
                diagnostics.entries@[i].key@,
                diagnostic_views(diagnostics.entries@[i].value@),
            );
        lemma_entry_position(diagnostics.entries@, i);
    }
    if diagnostics@.dom().contains(uri) {
        assert(!quiet.contains(uri));
        assert forall|i: int| 0 <= i < quiet.len() implies !about(#[trigger] sent[i], uri) by {
            assert(sent[i] == clearing(quiet)[i]);
            if quiet[i] == uri {
                assert(quiet.contains(uri));
            }
        }
        let at = position(diagnostics.entries@, uri)->0;
        let entry = diagnostics.entries@[at];
        let goal = diagnostic_views(entry.value@);
        if differs(last@, entry) {
            assert(changed.contains((entry.key@, goal)));
            let k = choose|k: int| 0 <= k < changed.len() && changed[k] == (entry.key@, goal);
            assert(sent[quiet.len() + k] == publishing(changed)[k]);
            lemma_shown_settles(shows, sent, uri, goal, quiet.len() + k, sent.len() as int);
        } else {
            assert forall|i: int| 0 <= i < sent.len() implies !about(#[trigger] sent[i], uri) by {
                if i >= quiet.len() {
                    let k = i - quiet.len();
                    assert(sent[i] == publishing(changed)[k]);
                    if changed[k].0 == uri {
                        assert(comes_from(
                            diagnostics.entries@,
                            last@,
                            diagnostics.entries@.len() as int,
                            changed[k],
                        ));
                        let j = choose|j: int|
                            0 <= j < diagnostics.entries@.len() && differs(
                                last@,
                                #[trigger] diagnostics.entries@[j],
                            ) && changed[k] == (
                                diagnostics.entries@[j].key@,
                                diagnostic_views(diagnostics.entries@[j].value@),
                            );
                        lemma_entry_position(diagnostics.entries@, j);
                        assert(j == at);
                    }
                }
            }
            lemma_shown_after(shows, sent, uri, 0, sent.len() as int);
        }
    } else {
        assert forall|i: int| quiet.len() <= i < sent.len() implies !about(
            #[trigger] sent[i],
            uri,
        ) by {
            let k = i - quiet.len();
            assert(sent[i] == publishing(changed)[k]);
            assert(changed[k].0 != uri);
        }
        if last@.dom().contains(uri) {
            let at = position(last.entries@, uri)->0;
            assert(last.entries@[at].key@ == uri);
            assert(quiet.contains(uri));
            let k = choose|k: int| 0 <= k < quiet.len() && quiet[k] == uri;
            assert(sent[k] == clearing(quiet)[k]);
            lemma_shown_settles(shows, sent, uri, Seq::empty(), k, sent.len() as int);
        } else {
            assert forall|i: int| 0 <= i < sent.len() implies !about(#[trigger] sent[i], uri) by {
                if i < quiet.len() {
                    assert(sent[i] == clearing(quiet)[i]);
                    if quiet[i] == uri {
                        assert(quiet.contains(uri));
                    }
                }
            }
            lemma_shown_after(shows, sent, uri, 0, sent.len() as int);
        }
    }
}

/// Where every notification about a document from some point on says the same,
/// that is what is shown.
proof fn lemma_shown_settles(
    shows: Map<Seq<char>, Seq<DiagnosticView>>,
    notifications: Seq<NotificationView>,
    uri: Seq<char>,
    goal: Seq<DiagnosticView>,
    at: int,
    count: int,
)
    requires
        0 <= at < count <= notifications.len(),
        about(notifications[at], uri),
        forall|i: int|
            at <= i < count && about(#[trigger] notifications[i], uri) ==> notifications[i]
                == (NotificationView::Publish { uri, diagnostics: goal }),
    ensures
        shown(shown_after(shows, notifications, count), uri) == goal,
    decreases count,
{
    let last = notifications[count - 1];
    if about(last, uri) {
        assert(last == (NotificationView::Publish { uri, diagnostics: goal }));
    } else {
        lemma_shown_settles(shows, notifications, uri, goal, at, count - 1);
    }
}

/// Once a workspace is gone nothing is shown any more of what it had published.
pub proof fn law_removed_workspace_is_cleared(
    last: TextMap<Vec<Diagnostic>>,
    uri: Seq<char>,
)
    requires
        last.wf(),
    ensures
        ({
            let sent = clearing(documents(last.entries@));
            shown(shown_after(published(last@), sent, sent.len() as int), uri) == Seq::<
                DiagnosticView,
            >::empty()
        }),
{
    let sent = clearing(documents(last.entries@));
    lemma_position(last.entries@, uri);
    match position(last.entries@, uri) {
        Some(at) => {
            assert(sent[at] == (NotificationView::Publish { uri, diagnostics: Seq::empty() }));
            lemma_shown_settles(
                published(last@),
                sent,
                uri,
                Seq::empty(),
                at,
                sent.len() as int,
            );
        },
        None => {
            assert forall|i: int| 0 <= i < sent.len() implies !about(#[trigger] sent[i], uri) by {
                assert(last.entries@[i].key@ != uri);
            }
            lemma_shown_after(published(last@), sent, uri, 0, sent.len() as int);
        },
    }
}

} // verus!
