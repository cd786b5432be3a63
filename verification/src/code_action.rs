//! Quickfixes from analyzer and linter autofixes, plus cursor-driven refactors.
//!
//! Each issue with edits whose primary annotation overlaps the requested byte
//! range (in the requested file) gives one quickfix carrying the issue's edits.
//!
//! Separately, and not driven by any issue, the function-like under the cursor
//! gets an offer to record its inferred return type as a `@return` tag. See
//! [`inferred_return_action`].

use vstd::prelude::*;
use vstd::string::StringExecFns;

use crate::domain::{text_of, FileId, Level, Range, Severity};
use crate::file::line_start;
use crate::indent::blanks;
use crate::outside::{
    id_map_insert, id_map_new, id_map_remove, lossy, lossy_text, slot_map_get, slot_map_insert,
    slot_map_new, slots,
};
use crate::phpdoc::{
    abbreviate, abbreviated, docblock_text, law_offered_text_is_faithful, reads_back,
    render_docblock_type, InferredType,
};
use crate::reporting::{FileEdits, Issue, TextEdit};
use crate::return_tag::{
    indent_at, innermost_function_like, innermost_site, lengths_known, return_tag_edit, tag_edit,
    ReplacementView, TextReplacement,
};
use crate::seqs::{
    first_from, lemma_first_alike, lemma_first_from, lemma_first_of_longer, lemma_first_skips,
};
use crate::server::{FileAnalysis, FunctionLikeSite, Server};
use crate::text::{
    comes_before, copy_text, lemma_text_precedes_total, lemma_text_precedes_transitive,
    text_precedes,
};

verus! {

/// What an action is for, in the editor's terms.
#[derive(Clone, Copy, Debug, PartialEq, Eq, Structural)]
pub enum CodeActionKind {
    QuickFix,
    RefactorRewrite,
}

/// The diagnostic that an action resolves.
#[derive(Debug)]
pub struct DiagnosticData {
    pub file: FileId,
    pub range: Range,
    pub severity: Severity,
    pub code: Option<String>,
    pub message: String,
}

/// What a [`DiagnosticData`] says.
pub struct DiagnosticView {
    pub file: FileId,
    pub range: Range,
    pub severity: Severity,
    pub code: Option<Seq<char>>,
    pub message: Seq<char>,
}

impl View for DiagnosticData {
    type V = DiagnosticView;

    open spec fn view(&self) -> DiagnosticView {
        DiagnosticView {
            file: self.file,
            range: self.range,
            severity: self.severity,
            code: text_of(self.code),
            message: self.message@,
        }
    }
}

/// Something the editor can offer to do.
#[derive(Debug)]
pub struct CodeActionItem {
    pub title: String,
    pub edits: foldhash::HashMap<u64, Vec<TextReplacement>>,
    pub diagnostic: Option<DiagnosticData>,
    pub kind: CodeActionKind,
}

/// What a [`CodeActionItem`] says.
pub struct ActionView {
    pub title: Seq<char>,
    pub edits: Map<FileId, Seq<ReplacementView>>,
    pub diagnostic: Option<DiagnosticView>,
    pub kind: CodeActionKind,
}

pub open spec fn replacement_views(replacements: Seq<TextReplacement>) -> Seq<ReplacementView> {
    Seq::new(replacements.len(), |i: int| replacements[i]@)
}

/// The edits of each file.
pub open spec fn edits_view(edits: Map<u64, Vec<TextReplacement>>) -> Map<
    FileId,
    Seq<ReplacementView>,
> {
    Map::new(|file: u64| edits.dom().contains(file), |file: u64| replacement_views(edits[file]@))
}

impl View for CodeActionItem {
    type V = ActionView;

    open spec fn view(&self) -> ActionView {
        ActionView {
            title: self.title@,
            edits: edits_view(self.edits@),
            diagnostic: match self.diagnostic {
                Some(diagnostic) => Some(diagnostic@),
                None => None,
            },
            kind: self.kind,
        }
    }
}

pub open spec fn action_views(actions: Seq<CodeActionItem>) -> Seq<ActionView> {
    Seq::new(actions.len(), |i: int| actions[i]@)
}

/// The view of an action that there may be.
pub open spec fn action_view(action: Option<CodeActionItem>) -> Option<ActionView> {
    match action {
        Some(action) => Some(action@),
        None => None,
    }
}

// ---- Issues --------------------------------------------------------------

pub open spec fn severity_of(level: Level) -> Severity {
    match level {
        Level::Error => Severity::Error,
        Level::Warning => Severity::Warning,
        Level::Help => Severity::Hint,
        Level::Note => Severity::Information,
    }
}

pub fn level_to_severity(level: Level) -> (severity: Severity)
    ensures
        severity == severity_of(level),
{
    match level {
        Level::Error => Severity::Error,
        Level::Warning => Severity::Warning,
        Level::Help => Severity::Hint,
        Level::Note => Severity::Information,
    }
}

/// The issue points into `file_id`, and touches `start` to `end` there.
pub open spec fn issue_overlaps(issue: Issue, file_id: FileId, start: u32, end: u32) -> bool {
    match issue.primary() {
        Some(primary) => primary.span.file_id == file_id && primary.span.start.offset <= end
            && start <= primary.span.end.offset,
        None => false,
    }
}

/// Whether `issue`'s primary annotation is in `file_id` and overlaps `start` to
/// `end`.
pub fn overlaps(issue: &Issue, file_id: FileId, start: u32, end: u32) -> (yes: bool)
    ensures
        yes == issue_overlaps(*issue, file_id, start, end),
{
    match issue.primary_annotation() {
        Some(primary) => primary.span.file_id == file_id && primary.span.start.offset <= end
            && start <= primary.span.end.offset,
        None => false,
    }
}

/// The diagnostic that an issue was shown as.
pub open spec fn issue_diagnostic(issue: Issue) -> Option<DiagnosticView> {
    match issue.primary() {
        Some(primary) => Some(
            DiagnosticView {
                file: primary.span.file_id,
                range: Range { start: primary.span.start.offset, end: primary.span.end.offset },
                severity: severity_of(issue.level),
                code: text_of(issue.code),
                message: issue.message@,
            },
        ),
        None => None,
    }
}

fn diagnostic_of(issue: &Issue) -> (diagnostic: Option<DiagnosticData>)
    ensures
        issue_diagnostic(*issue) == match diagnostic {
            Some(diagnostic) => Some(diagnostic@),
            None => None,
        },
{
    match issue.primary_annotation() {
        Some(primary) => Some(
            DiagnosticData {
                file: primary.span.file_id,
                range: Range::new(primary.span.start.offset, primary.span.end.offset),
                severity: level_to_severity(issue.level),
                code: copy_text(&issue.code),
                message: issue.message.as_str().to_string(),
            },
        ),
        None => None,
    }
}

/// The edits of an issue, as replacements of text.
pub open spec fn replaced(edits: Seq<TextEdit>) -> Seq<ReplacementView> {
    Seq::new(
        edits.len(),
        |i: int| ReplacementView { range: edits[i].range, new_text: lossy(edits[i].new_text@) },
    )
}

/// Add the edits of an issue to `out`, as replacements of text.
fn push_replacements(out: &mut Vec<TextReplacement>, edits: &Vec<TextEdit>)
    ensures
        replacement_views(final(out)@) == replacement_views(old(out)@) + replaced(edits@),
        final(out)@.len() == old(out)@.len() + edits@.len(),
{
    let ghost before = replacement_views(out@);
    let mut i: usize = 0;
    assert(before + replaced(edits@).take(0) =~= before);
    while i < edits.len()
        invariant
            i <= edits@.len(),
            out@.len() == old(out)@.len() + i,
            replacement_views(out@) == before + replaced(edits@).take(i as int),
        decreases edits.len() - i,
    {
        let edit = &edits[i];
        let ghost earlier = out@;
        out.push(
            TextReplacement {
                range: Range::new(edit.range.start, edit.range.end),
                new_text: lossy_text(edit.new_text.as_slice()),
            },
        );
        i += 1;
        proof {
            assert(out@.last()@ == replaced(edits@)[i - 1]);
            assert(replacement_views(out@) =~= replacement_views(earlier).push(out@.last()@));
            assert(replacement_views(out@) =~= before + replaced(edits@).take(i as int));
        }
    }
    assert(replaced(edits@).take(i as int) =~= replaced(edits@));
}

// ---- Direct fixes --------------------------------------------------------

/// The replacements for each file, from the first `count` groups of edits.
pub open spec fn grouped(edits: Seq<FileEdits>, count: int) -> Map<FileId, Seq<ReplacementView>>
    decreases count,
{
    if count <= 0 {
        Map::empty()
    } else {
        let before = grouped(edits, count - 1);
        let group = edits[count - 1];
        if group.edits@.len() == 0 {
            before
        } else if before.dom().contains(group.file) {
            before.insert(group.file, before[group.file] + replaced(group.edits@))
        } else {
            before.insert(group.file, replaced(group.edits@))
        }
    }
}

/// One of the first `count` groups holds an edit.
pub open spec fn some_edit(edits: Seq<FileEdits>, count: int) -> bool {
    exists|i: int| 0 <= i < count && (#[trigger] edits[i]).edits@.len() > 0
}

/// The title of the action that applies an issue's edits.
pub open spec fn fix_title(issue: Issue) -> Seq<char> {
    match issue.help {
        Some(help) => help@,
        None => "Apply mago fix: "@ + issue.message@,
    }
}

/// The action that applies an issue's edits, if it has any and is at hand.
pub open spec fn fix_action(issue: Issue, file_id: FileId, start: u32, end: u32) -> Option<
    ActionView,
> {
    let count = issue.edits@.len() as int;
    if some_edit(issue.edits@, count) && issue_overlaps(issue, file_id, start, end) {
        Some(
            ActionView {
                title: fix_title(issue),
                edits: grouped(issue.edits@, count),
                diagnostic: issue_diagnostic(issue),
                kind: CodeActionKind::QuickFix,
            },
        )
    } else {
        None
    }
}

/// Build a code action for `issue` if it has edits and its primary annotation
/// overlaps `start` to `end` in `file_id`.
pub fn action_for(issue: &Issue, file_id: FileId, start: u32, end: u32) -> (action: Option<
    CodeActionItem,
>)
    ensures
        action_view(action) == fix_action(*issue, file_id, start, end),
{
    if issue.edits.len() == 0 || !overlaps(issue, file_id, start, end) {
        return None;
    }
    let mut edits: foldhash::HashMap<u64, Vec<TextReplacement>> = id_map_new();
    let mut any = false;
    let mut i: usize = 0;
    assert(edits_view(edits@) =~= Map::empty());
    while i < issue.edits.len()
        invariant
            i <= issue.edits@.len(),
            edits_view(edits@) == grouped(issue.edits@, i as int),
            any == some_edit(issue.edits@, i as int),
        decreases issue.edits.len() - i,
    {
        let group = &issue.edits[i];
        let ghost before = edits@;
        if group.edits.len() > 0 {
            any = true;
            assert(issue.edits@[i as int].edits@.len() > 0);
            let mut replacements: Vec<TextReplacement> = match id_map_remove(
                &mut edits,
                group.file,
            ) {
                Some(replacements) => replacements,
                None => Vec::new(),
            };
            let ghost earlier = replacement_views(replacements@);
            push_replacements(&mut replacements, &group.edits);
            id_map_insert(&mut edits, group.file, replacements);
            proof {
                assert(edits_view(before).dom().contains(group.file) == before.dom().contains(
                    group.file,
                ));
                if before.dom().contains(group.file) {
                    assert(edits_view(before)[group.file] == earlier);
                } else {
                    assert(earlier + replaced(group.edits@) =~= replaced(group.edits@));
                }
                assert(edits_view(edits@) =~= grouped(issue.edits@, i + 1));
            }
        } else {
            proof {
                if some_edit(issue.edits@, i + 1) {
                    let k = choose|k: int|
                        0 <= k < i + 1 && (#[trigger] issue.edits@[k]).edits@.len() > 0;
                    assert(k < i);
                }
            }
        }
        i += 1;
    }
    if !any {
        return None;
    }
    let title = match &issue.help {
        Some(help) => help.as_str().to_string(),
        None => {
            let mut title = "Apply mago fix: ".to_string();
            title.append(issue.message.as_str());
            title
        },
    };
    Some(
        CodeActionItem {
            title,
            edits,
            diagnostic: diagnostic_of(issue),
            kind: CodeActionKind::QuickFix,
        },
    )
}

// ---- Suppressions --------------------------------------------------------

/// `code` with the part of the toolchain that it belongs to.
pub open spec fn qualified_code(category: Seq<char>, code: Seq<char>) -> Seq<char> {
    category + ":"@ + code
}

/// The one replacement that puts `new_text` in at `at`.
pub open spec fn insertion(at: int, new_text: Seq<char>) -> Seq<ReplacementView> {
    seq![ReplacementView { range: Range { start: at as u32, end: at as u32 }, new_text }]
}

/// The action that announces an issue in a comment above its line, if it has a
/// code and is at hand.
pub open spec fn expect_action(
    server: Server,
    issue: Issue,
    file_id: FileId,
    start: u32,
    end: u32,
    category: Seq<char>,
) -> Option<ActionView> {
    match (issue.code, issue.primary(), server.file(file_id)) {
        (Some(code), Some(primary), Some(file)) => if issue_overlaps(issue, file_id, start, end) {
            let at = line_start(file.contents@, primary.span.start.offset as int);
            let name = qualified_code(category, code@);
            let new_text = blanks(file.contents@, at, file.contents@.len() as int)
                + "/** @mago-expect "@ + name + " */\n"@;
            Some(
                ActionView {
                    title: "Add @mago-expect "@ + name,
                    edits: Map::empty().insert(file_id, insertion(at, new_text)),
                    diagnostic: issue_diagnostic(issue),
                    kind: CodeActionKind::QuickFix,
                },
            )
        } else {
            None
        },
        _ => None,
    }
}

/// The edits of one file.
fn single_file(file_id: FileId, replacements: Vec<TextReplacement>) -> (edits: foldhash::HashMap<
    u64,
    Vec<TextReplacement>,
>)
    ensures
        edits_view(edits@) == Map::empty().insert(file_id, replacement_views(replacements@)),
{
    let mut edits: foldhash::HashMap<u64, Vec<TextReplacement>> = id_map_new();
    id_map_insert(&mut edits, file_id, replacements);
    assert(edits_view(edits@) =~= Map::empty().insert(
        file_id,
        replacement_views(replacements@),
    ));
    edits
}

/// Build the code action that suppresses `issue` where it stands.
pub fn expect_action_for(
    server: &Server,
    issue: &Issue,
    file_id: FileId,
    start: u32,
    end: u32,
    category: &str,
) -> (action: Option<CodeActionItem>)
    requires
        server.wf(),
    ensures
        action_view(action) == expect_action(*server, *issue, file_id, start, end, category@),
{
    if !overlaps(issue, file_id, start, end) {
        return None;
    }
    let code = match &issue.code {
        Some(code) => code,
        None => return None,
    };
    let primary = match issue.primary_annotation() {
        Some(primary) => primary,
        None => return None,
    };
    let file = match server.get_file(file_id) {
        Some(file) => file,
        None => return None,
    };
    let line_start: u32 = file.line_start_at(primary.span.start.offset);
    let mut new_text = indent_at(file.contents.as_slice(), line_start);
    let mut qualified = category.to_string();
    qualified.append(":");
    qualified.append(code.as_str());
    new_text.append("/** @mago-expect ");
    new_text.append(qualified.as_str());
    new_text.append(" */\n");
    let mut replacements: Vec<TextReplacement> = Vec::new();
    replacements.push(TextReplacement { range: Range::new(line_start, line_start), new_text });
    assert(replacement_views(replacements@) =~= insertion(line_start as int, new_text@));
    let mut title = "Add @mago-expect ".to_string();
    title.append(qualified.as_str());
    Some(
        CodeActionItem {
            title,
            edits: single_file(file_id, replacements),
            diagnostic: diagnostic_of(issue),
            kind: CodeActionKind::QuickFix,
        },
    )
}

// ---- File-wide fixes -----------------------------------------------------

/// The fixable issues of one code in a file: how many they are, and all their
/// edits.
#[derive(Debug)]
struct FileWideFix {
    code: String,
    issue_count: usize,
    edits: Vec<TextReplacement>,
}

/// What is collected for one code.
pub struct FixView {
    pub code: Seq<char>,
    pub issue_count: nat,
    pub edits: Seq<ReplacementView>,
}

pub open spec fn fixes_code(code: Seq<char>) -> spec_fn(FixView) -> bool {
    |fix: FixView| fix.code == code
}

/// What an issue contributes to the fixes of a file: its code, and its edits
/// there, if it has both.
pub open spec fn contribution(issue: Issue, file_id: FileId) -> Option<
    (Seq<char>, Seq<ReplacementView>),
> {
    match (issue.code, issue.edits_for(file_id)) {
        (Some(code), Some(group)) => if group.edits@.len() > 0 {
            Some((code@, replaced(group.edits@)))
        } else {
            None
        },
        _ => None,
    }
}

/// `fixes` with what one more issue contributes.
pub open spec fn with_issue(fixes: Seq<FixView>, issue: Issue, file_id: FileId) -> Seq<FixView> {
    match contribution(issue, file_id) {
        Some((code, edits)) => match first_from(fixes, fixes_code(code), 0) {
            Some(index) => fixes.update(
                index,
                FixView {
                    code,
                    issue_count: fixes[index].issue_count + 1,
                    edits: fixes[index].edits + edits,
                },
            ),
            None => fixes.push(FixView { code, issue_count: 1, edits }),
        },
        None => fixes,
    }
}

/// `fixes` with what the first `count` issues contribute.
pub open spec fn with_issues(
    fixes: Seq<FixView>,
    issues: Seq<Issue>,
    file_id: FileId,
    count: int,
) -> Seq<FixView>
    decreases count,
{
    if count <= 0 {
        fixes
    } else {
        with_issue(with_issues(fixes, issues, file_id, count - 1), issues[count - 1], file_id)
    }
}

/// `fixes` with what the lint issues of the first `count` analyses contribute.
pub open spec fn with_lints(
    fixes: Seq<FixView>,
    analyses: Seq<FileAnalysis>,
    file_id: FileId,
    count: int,
) -> Seq<FixView>
    decreases count,
{
    if count <= 0 {
        fixes
    } else {
        let issues = analyses[count - 1].lint_issues@;
        with_issues(
            with_lints(fixes, analyses, file_id, count - 1),
            issues,
            file_id,
            issues.len() as int,
        )
    }
}

/// The fixes of each code, found by code.
struct FileWideFixes {
    slots: foldhash::HashMap<String, usize>,
    fixes: Vec<FileWideFix>,
}

impl FileWideFix {
    spec fn view(&self) -> FixView {
        FixView {
            code: self.code@,
            issue_count: self.issue_count as nat,
            edits: replacement_views(self.edits@),
        }
    }
}

impl FileWideFixes {
    /// Each fix has the slot that its code leads to, and holds an edit for each
    /// of its issues.
    spec fn wf(self) -> bool {
        &&& forall|code: Seq<char>| #[trigger]
            slots(self.slots).dom().contains(code) ==> slots(self.slots)[code]
                < self.fixes@.len() && self.fixes@[slots(self.slots)[code] as int].code@ == code
        &&& forall|i: int|
            0 <= i < self.fixes@.len() ==> slots(self.slots).dom().contains(
                (#[trigger] self.fixes@[i]).code@,
            ) && slots(self.slots)[self.fixes@[i].code@] == i
        &&& forall|i: int|
            0 <= i < self.fixes@.len() ==> (#[trigger] self.fixes@[i]).issue_count
                <= self.fixes@[i].edits@.len()
    }

    spec fn view(&self) -> Seq<FixView> {
        Seq::new(self.fixes@.len(), |i: int| self.fixes@[i]@)
    }

    fn new() -> (fixes: FileWideFixes)
        ensures
            fixes.wf(),
            fixes@ == Seq::<FixView>::empty(),
    {
        let fixes = FileWideFixes { slots: slot_map_new(), fixes: Vec::new() };
        assert(fixes@ =~= Seq::<FixView>::empty());
        fixes
    }

    /// Add what `issue` contributes to the fixes of `file_id`.
    fn collect_file_wide_fix(&mut self, issue: &Issue, file_id: FileId)
        requires
            old(self).wf(),
        ensures
            final(self).wf(),
            final(self)@ == with_issue(old(self)@, *issue, file_id),
    {
        let code = match &issue.code {
            Some(code) => code,
            None => return,
        };
        let group = match issue.get_edits(file_id) {
            Some(group) => group,
            None => return,
        };
        if group.edits.len() == 0 {
            return;
        }
        let ghost before = self@;
        let ghost edits = replaced(group.edits@);
        assert(contribution(*issue, file_id) == Some((code@, edits)));
        match slot_map_get(&self.slots, code.as_str()) {
            Some(slot) => {
                let slot: usize = *slot;
                proof {
                    assert forall|i: int| 0 <= i < slot implies !fixes_code(code@)(
                        #[trigger] before[i],
                    ) by {
                        assert(slots(self.slots)[self.fixes@[i].code@] == i);
                    }
                    lemma_first_skips(before, fixes_code(code@), 0, slot as int);
                }
                let ghost earlier = self.fixes@[slot as int];
                let fix = &mut self.fixes[slot];
                push_replacements(&mut fix.edits, &group.edits);
                assert(earlier.issue_count < fix.edits@.len() == fix.edits.len());
                fix.issue_count += 1;
                proof {
                    assert(self@ =~= with_issue(before, *issue, file_id));
                }
            },
            None => {
                proof {
                    assert forall|i: int| 0 <= i < before.len() implies !fixes_code(code@)(
                        #[trigger] before[i],
                    ) by {
                        assert(slots(self.slots).dom().contains(self.fixes@[i].code@));
                    }
                    lemma_first_skips(before, fixes_code(code@), 0, before.len() as int);
                }
                let mut replacements: Vec<TextReplacement> = Vec::new();
                push_replacements(&mut replacements, &group.edits);
                assert(replacement_views(replacements@) =~= edits);
                slot_map_insert(&mut self.slots, code.as_str().to_string(), self.fixes.len());
                self.fixes.push(
                    FileWideFix {
                        code: code.as_str().to_string(),
                        issue_count: 1,
                        edits: replacements,
                    },
                );
                proof {
                    assert(self@ =~= with_issue(before, *issue, file_id));
                }
            },
        }
    }
}

/// The fix is worth offering for the whole file: it is for several issues.
pub open spec fn repeated(fix: FixView) -> bool {
    fix.issue_count > 1 && fix.edits.len() > 0
}

/// `list` with `fix` put in before the first that it precedes by code.
pub open spec fn placed(list: Seq<FixView>, fix: FixView) -> Seq<FixView>
    decreases list.len(),
{
    if list.len() == 0 || text_precedes(fix.code, list[0].code) {
        seq![fix] + list
    } else {
        seq![list[0]] + placed(list.drop_first(), fix)
    }
}

/// The fixes for several issues, in the order of their codes.
pub open spec fn sorted_fixes(fixes: Seq<FixView>) -> Seq<FixView>
    decreases fixes.len(),
{
    if fixes.len() == 0 {
        Seq::empty()
    } else if repeated(fixes[0]) {
        placed(sorted_fixes(fixes.drop_first()), fixes[0])
    } else {
        sorted_fixes(fixes.drop_first())
    }
}

/// The action that fixes every issue of one code in a file.
pub open spec fn file_wide_action(file_id: FileId, fix: FixView) -> ActionView {
    ActionView {
        title: "Fix all `"@ + fix.code + "` issues in file"@,
        edits: Map::empty().insert(file_id, fix.edits),
        diagnostic: None,
        kind: CodeActionKind::QuickFix,
    }
}

/// The file-wide actions, in the order of their codes.
pub open spec fn file_wide_actions(file_id: FileId, fixes: Seq<FixView>) -> Seq<ActionView> {
    Seq::new(
        sorted_fixes(fixes).len(),
        |i: int| file_wide_action(file_id, sorted_fixes(fixes)[i]),
    )
}

proof fn lemma_placed(list: Seq<FixView>, fix: FixView, at: int)
    requires
        0 <= at <= list.len(),
        forall|i: int| 0 <= i < at ==> !text_precedes(fix.code, (#[trigger] list[i]).code),
        at < list.len() ==> text_precedes(fix.code, list[at].code),
    ensures
        placed(list, fix) == list.insert(at, fix),
    decreases at,
{
    if at > 0 {
        assert(!text_precedes(fix.code, list[0].code));
        let rest = list.drop_first();
        assert forall|i: int| 0 <= i < at - 1 implies !text_precedes(
            fix.code,
            (#[trigger] rest[i]).code,
        ) by {
            assert(rest[i] == list[i + 1]);
        }
        lemma_placed(rest, fix, at - 1);
    }
    assert(placed(list, fix) =~= list.insert(at, fix));
}

/// The action that applies `edits` to one file.
pub fn file_action(file_id: FileId, title: String, edits: Vec<TextReplacement>) -> (action:
    CodeActionItem)
    ensures
        action@ == (ActionView {
            title: title@,
            edits: Map::empty().insert(file_id, replacement_views(edits@)),
            diagnostic: None,
            kind: CodeActionKind::QuickFix,
        }),
{
    CodeActionItem {
        title,
        edits: single_file(file_id, edits),
        diagnostic: None,
        kind: CodeActionKind::QuickFix,
    }
}

impl FileWideFixes {
    /// The file-wide actions, in the order of their codes.
    fn into_actions(self, file_id: FileId) -> (actions: Vec<CodeActionItem>)
        ensures
            action_views(actions@) == file_wide_actions(file_id, self@),
    {
        let ghost all = self@;
        let mut fixes = self.fixes;
        let mut codes: Vec<String> = Vec::new();
        let mut actions: Vec<CodeActionItem> = Vec::new();
        assert(all.skip(all.len() as int) =~= Seq::empty());
        while fixes.len() > 0
            invariant
                fixes@.len() <= all.len(),
                forall|i: int| 0 <= i < fixes@.len() ==> (#[trigger] fixes@[i])@ == all[i],
                ({
                    let sorted = sorted_fixes(all.skip(fixes@.len() as int));
                    &&& codes@.len() == sorted.len()
                    &&& actions@.len() == sorted.len()
                    &&& forall|i: int|
                        0 <= i < sorted.len() ==> (#[trigger] codes@[i])@ == sorted[i].code
                    &&& forall|i: int|
                        0 <= i < sorted.len() ==> (#[trigger] actions@[i])@ == file_wide_action(
                            file_id,
                            sorted[i],
                        )
                }),
            decreases fixes.len(),
        {
            let ghost sorted = sorted_fixes(all.skip(fixes@.len() as int));
            let ghost codes_before = codes@;
            let ghost actions_before = actions@;
            if let Some(fix) = fixes.pop() {
                let ghost rest = all.skip(fixes@.len() as int);
                let ghost view = fix@;
                proof {
                    assert(view == all[fixes@.len() as int]);
                    assert(rest[0] == view);
                    assert(rest.drop_first() =~= all.skip(fixes@.len() as int + 1));
                }
                if fix.issue_count > 1 && fix.edits.len() > 0 {
                    assert(repeated(view));
                    let mut at: usize = 0;
                    while at < codes.len() && !comes_before(fix.code.as_str(), codes[at].as_str())
                        invariant
                            at <= codes@.len() == sorted.len(),
                            codes@ == codes_before,
                            view.code == fix.code@,
                            forall|i: int|
                                0 <= i < sorted.len() ==> (#[trigger] codes@[i])@
                                    == sorted[i].code,
                            forall|i: int|
                                0 <= i < at ==> !text_precedes(
                                    view.code,
                                    (#[trigger] sorted[i]).code,
                                ),
                        decreases codes.len() - at,
                    {
                        assert(codes@[at as int]@ == sorted[at as int].code);
                        at += 1;
                    }
                    proof {
                        if at < codes@.len() {
                            assert(codes@[at as int]@ == sorted[at as int].code);
                        }
                        lemma_placed(sorted, view, at as int);
                    }
                    let mut title = "Fix all `".to_string();
                    title.append(fix.code.as_str());
                    title.append("` issues in file");
                    let action = file_action(file_id, title, fix.edits);
                    codes.insert(at, fix.code);
                    actions.insert(at, action);
                    proof {
                        let placed = sorted_fixes(rest);
                        assert(placed == sorted.insert(at as int, view));
                        assert forall|i: int| 0 <= i < placed.len() implies (
                        #[trigger] codes@[i])@ == placed[i].code by {
                            if i < at {
                                assert(codes@[i] == codes_before[i]);
                            } else if i > at {
                                assert(codes@[i] == codes_before[i - 1]);
                            }
                        }
                        assert forall|i: int| 0 <= i < placed.len() implies (
                        #[trigger] actions@[i])@ == file_wide_action(file_id, placed[i]) by {
                            if i < at {
                                assert(actions@[i] == actions_before[i]);
                            } else if i > at {
                                assert(actions@[i] == actions_before[i - 1]);
                            }
                        }
                    }
                }
            }
        }
        assert(all.skip(0) =~= all);
        assert(action_views(actions@) =~= file_wide_actions(file_id, all));
        actions
    }
}

// ---- Refactors -----------------------------------------------------------

/// The declarations in a file.
pub open spec fn sites_of(server: Server, file_id: FileId) -> Seq<FunctionLikeSite> {
    match server.analysis(file_id) {
        Some(analysis) => analysis.function_like_sites@,
        None => Seq::empty(),
    }
}

/// The action that records the inferred return type of the tightest declaration
/// around `start` to `end`, where there is one to record.
pub open spec fn return_action(server: Server, file_id: FileId, start: u32, end: u32) -> Option<
    ActionView,
> {
    match (server.analysis(file_id), server.type_index(file_id), server.file(file_id)) {
        (Some(analysis), Some(index), Some(file)) => {
            let sites = analysis.function_like_sites@;
            match innermost_site(sites, start, end, sites.len() as int) {
                Some(site) => match index.inferred_return_at(site.span) {
                    Some(inferred) => match docblock_text(server.rereads@, inferred) {
                        Some(rendered) => match tag_edit(file.contents@, site, rendered) {
                            Some(edit) => Some(
                                ActionView {
                                    title: "Document inferred return type: @return "@
                                        + abbreviated(rendered),
                                    edits: Map::empty().insert(file_id, seq![edit]),
                                    diagnostic: None,
                                    kind: CodeActionKind::RefactorRewrite,
                                },
                            ),
                            None => None,
                        },
                        None => None,
                    },
                    None => None,
                },
                None => None,
            }
        },
        _ => None,
    }
}

/// Offer to record the return type inferred from a function-like's body as a
/// `@return` tag on its docblock.
///
/// The analyzer resolves call sites from *declared* signatures and never from
/// bodies, so a method with no `@return` is `array` (or `mixed`) to every caller
/// no matter how precisely its body is understood. This action is the bridge: it
/// takes what the analyzer already worked out while checking the body and offers
/// it to the author as a declaration they can accept, edit, or ignore. Nothing is
/// inferred behind their back; the contract only changes when a human writes it
/// down.
///
/// Deliberately not offered when an `@return` is already present. Silently
/// rewriting a contract someone wrote by hand is the action-at-a-distance this
/// design exists to avoid, and narrowing an over-wide declaration is the
/// analyzer's own business.
pub fn inferred_return_action(server: &Server, file_id: FileId, start: u32, end: u32) -> (action:
    Option<CodeActionItem>)
    requires
        server.wf(),
        lengths_known(sites_of(*server, file_id), start, end),
    ensures
        action_view(action) == return_action(*server, file_id, start, end),
{
    let analysis = match server.file_analysis_for(file_id) {
        Some(analysis) => analysis,
        None => return None,
    };
    let site = match innermost_function_like(analysis.function_like_sites.as_slice(), start, end) {
        Some(site) => site,
        None => return None,
    };
    let index = match server.type_index_for(file_id) {
        Some(index) => index,
        None => return None,
    };
    let inferred = match index.get_inferred_return(site.span) {
        Some(inferred) => inferred,
        None => return None,
    };
    let rendered = match render_docblock_type(server.rereads.as_slice(), inferred) {
        Some(rendered) => rendered,
        None => return None,
    };
    let file = match server.get_file(file_id) {
        Some(file) => file,
        None => return None,
    };
    let replacement = match return_tag_edit(file, &site, rendered.as_str()) {
        Some(replacement) => replacement,
        None => return None,
    };
    let mut replacements: Vec<TextReplacement> = Vec::new();
    replacements.push(replacement);
    assert(replacement_views(replacements@) =~= seq![replacement@]);
    let mut title = "Document inferred return type: @return ".to_string();
    let short = abbreviate(rendered.as_str());
    title.append(short.as_str());
    Some(
        CodeActionItem {
            title,
            edits: single_file(file_id, replacements),
            diagnostic: None,
            kind: CodeActionKind::RefactorRewrite,
        },
    )
}

// ---- All actions ---------------------------------------------------------

/// `actions` with one more at the end, if there is one.
pub open spec fn listed(actions: Seq<ActionView>, action: Option<ActionView>) -> Seq<ActionView> {
    match action {
        Some(action) => actions.push(action),
        None => actions,
    }
}

/// `actions` with the direct fixes of the first `count` issues.
pub open spec fn with_fixes(
    actions: Seq<ActionView>,
    issues: Seq<Issue>,
    file_id: FileId,
    start: u32,
    end: u32,
    count: int,
) -> Seq<ActionView>
    decreases count,
{
    if count <= 0 {
        actions
    } else {
        listed(
            with_fixes(actions, issues, file_id, start, end, count - 1),
            fix_action(issues[count - 1], file_id, start, end),
        )
    }
}

/// `actions` with the suppressions of the first `count` issues.
pub open spec fn with_expects(
    actions: Seq<ActionView>,
    server: Server,
    issues: Seq<Issue>,
    file_id: FileId,
    start: u32,
    end: u32,
    category: Seq<char>,
    count: int,
) -> Seq<ActionView>
    decreases count,
{
    if count <= 0 {
        actions
    } else {
        listed(
            with_expects(actions, server, issues, file_id, start, end, category, count - 1),
            expect_action(server, issues[count - 1], file_id, start, end, category),
        )
    }
}

/// `actions` with the direct fixes of the lint issues of the first `count`
/// analyses.
pub open spec fn with_lint_fixes(
    actions: Seq<ActionView>,
    analyses: Seq<FileAnalysis>,
    file_id: FileId,
    start: u32,
    end: u32,
    count: int,
) -> Seq<ActionView>
    decreases count,
{
    if count <= 0 {
        actions
    } else {
        let issues = analyses[count - 1].lint_issues@;
        with_fixes(
            with_lint_fixes(actions, analyses, file_id, start, end, count - 1),
            issues,
            file_id,
            start,
            end,
            issues.len() as int,
        )
    }
}

/// `actions` with the suppressions of the lint issues of the first `count`
/// analyses.
pub open spec fn with_lint_expects(
    actions: Seq<ActionView>,
    server: Server,
    file_id: FileId,
    start: u32,
    end: u32,
    count: int,
) -> Seq<ActionView>
    decreases count,
{
    if count <= 0 {
        actions
    } else {
        let issues = server.analyses@[count - 1].lint_issues@;
        with_expects(
            with_lint_expects(actions, server, file_id, start, end, count - 1),
            server,
            issues,
            file_id,
            start,
            end,
            "lint"@,
            issues.len() as int,
        )
    }
}

/// The issues of the last analysis of the whole workspace.
pub open spec fn analyzer_issues(server: Server) -> Seq<Issue> {
    match server.last_issues {
        Some(issues) => issues@,
        None => Seq::empty(),
    }
}

/// Every direct fix: of the analyzer's issues, then of the linter's.
pub open spec fn direct_fixes(server: Server, file_id: FileId, start: u32, end: u32) -> Seq<
    ActionView,
> {
    let issues = analyzer_issues(server);
    with_lint_fixes(
        with_fixes(Seq::empty(), issues, file_id, start, end, issues.len() as int),
        server.analyses@,
        file_id,
        start,
        end,
        server.analyses@.len() as int,
    )
}

/// Every suppression: of the analyzer's issues, then of the linter's.
pub open spec fn suppressions(server: Server, file_id: FileId, start: u32, end: u32) -> Seq<
    ActionView,
> {
    let issues = analyzer_issues(server);
    with_lint_expects(
        with_expects(
            Seq::empty(),
            server,
            issues,
            file_id,
            start,
            end,
            "analysis"@,
            issues.len() as int,
        ),
        server,
        file_id,
        start,
        end,
        server.analyses@.len() as int,
    )
}

/// What every issue contributes to the fixes of a file, by code.
pub open spec fn collected_fixes(server: Server, file_id: FileId) -> Seq<FixView> {
    let issues = analyzer_issues(server);
    with_lints(
        with_issues(Seq::empty(), issues, file_id, issues.len() as int),
        server.analyses@,
        file_id,
        server.analyses@.len() as int,
    )
}

/// Every action for `start` to `end` of the file.
pub open spec fn actions_at(server: Server, file_id: FileId, start: u32, end: u32) -> Seq<
    ActionView,
> {
    listed(
        direct_fixes(server, file_id, start, end) + suppressions(server, file_id, start, end)
            + file_wide_actions(file_id, collected_fixes(server, file_id)),
        return_action(server, file_id, start, end),
    )
}

/// Add what `issues` give to each kind of action.
fn collect_issues(
    server: &Server,
    issues: &Vec<Issue>,
    file_id: FileId,
    start: u32,
    end: u32,
    category: &str,
    direct: &mut Vec<CodeActionItem>,
    expects: &mut Vec<CodeActionItem>,
    fixes: &mut FileWideFixes,
)
    requires
        server.wf(),
        old(fixes).wf(),
    ensures
        final(fixes).wf(),
        action_views(final(direct)@) == with_fixes(
            action_views(old(direct)@),
            issues@,
            file_id,
            start,
            end,
            issues@.len() as int,
        ),
        action_views(final(expects)@) == with_expects(
            action_views(old(expects)@),
            *server,
            issues@,
            file_id,
            start,
            end,
            category@,
            issues@.len() as int,
        ),
        final(fixes)@ == with_issues(old(fixes)@, issues@, file_id, issues@.len() as int),
{
    let ghost direct_before = action_views(direct@);
    let ghost expects_before = action_views(expects@);
    let ghost fixes_before = fixes@;
    let mut i: usize = 0;
    while i < issues.len()
        invariant
            server.wf(),
            fixes.wf(),
            i <= issues@.len(),
            action_views(direct@) == with_fixes(
                direct_before,
                issues@,
                file_id,
                start,
                end,
                i as int,
            ),
            action_views(expects@) == with_expects(
                expects_before,
                *server,
                issues@,
                file_id,
                start,
                end,
                category@,
                i as int,
            ),
            fixes@ == with_issues(fixes_before, issues@, file_id, i as int),
        decreases issues.len() - i,
    {
        let issue = &issues[i];
        fixes.collect_file_wide_fix(issue, file_id);
        let ghost direct_now = direct@;
        let ghost expects_now = expects@;
        if let Some(action) = action_for(issue, file_id, start, end) {
            direct.push(action);
            assert(action_views(direct@) =~= action_views(direct_now).push(action@));
        }
        if let Some(action) = expect_action_for(server, issue, file_id, start, end, category) {
            expects.push(action);
            assert(action_views(expects@) =~= action_views(expects_now).push(action@));
        }
        i += 1;
    }
}

impl Server {
    /// Code actions for `start` to `end` of `file_id`.
    ///
    /// Ordered so the most specific actions come first: direct fixes, then
    /// `@mago-expect` suppressions, then file-wide "fix all" actions, and finally
    /// refactors, which resolve no diagnostic and so should never outrank
    /// something that does.
    pub fn get_code_actions(&self, file_id: FileId, start: u32, end: u32) -> (actions: Vec<
        CodeActionItem,
    >)
        requires
            self.wf(),
            lengths_known(sites_of(*self, file_id), start, end),
        ensures
            action_views(actions@) == actions_at(*self, file_id, start, end),
    {
        let mut actions: Vec<CodeActionItem> = Vec::new();
        let mut expects: Vec<CodeActionItem> = Vec::new();
        let mut fixes = FileWideFixes::new();
        proof {
            assert(action_views(actions@) =~= Seq::empty());
            assert(action_views(expects@) =~= Seq::empty());
        }
        if let Some(issues) = &self.last_issues {
            collect_issues(
                self,
                issues,
                file_id,
                start,
                end,
                "analysis",
                &mut actions,
                &mut expects,
                &mut fixes,
            );
        }
        let ghost direct_before = action_views(actions@);
        let ghost expects_before = action_views(expects@);
        let ghost fixes_before = fixes@;
        let mut i: usize = 0;
        while i < self.analyses.len()
            invariant
                self.wf(),
                fixes.wf(),
                i <= self.analyses@.len(),
                action_views(actions@) == with_lint_fixes(
                    direct_before,
                    self.analyses@,
                    file_id,
                    start,
                    end,
                    i as int,
                ),
                action_views(expects@) == with_lint_expects(
                    expects_before,
                    *self,
                    file_id,
                    start,
                    end,
                    i as int,
                ),
                fixes@ == with_lints(fixes_before, self.analyses@, file_id, i as int),
            decreases self.analyses.len() - i,
        {
            collect_issues(
                self,
                &self.analyses[i].lint_issues,
                file_id,
                start,
                end,
                "lint",
                &mut actions,
                &mut expects,
                &mut fixes,
            );
            i += 1;
        }
        let ghost direct = actions@;
        let ghost suppressing = expects@;
        let mut file_wide = fixes.into_actions(file_id);
        let ghost wide = file_wide@;
        actions.append(&mut expects);
        actions.append(&mut file_wide);
        proof {
            assert(action_views(actions@) =~= action_views(direct) + action_views(suppressing)
                + action_views(wide));
        }
        if let Some(action) = inferred_return_action(self, file_id, start, end) {
            let ghost before = actions@;
            actions.push(action);
            assert(action_views(actions@) =~= action_views(before).push(action@));
        }
        actions
    }
}

// ---- Laws ----------------------------------------------------------------

/// No two fixes are for the same code.
pub open spec fn codes_differ(fixes: Seq<FixView>) -> bool {
    forall|i: int, j: int|
        0 <= i < j < fixes.len() ==> (#[trigger] fixes[i]).code != (#[trigger] fixes[j]).code
}

/// The codes ascend.
pub open spec fn codes_ascend(fixes: Seq<FixView>) -> bool {
    forall|i: int, j: int|
        0 <= i < j < fixes.len() ==> text_precedes(
            (#[trigger] fixes[i]).code,
            (#[trigger] fixes[j]).code,
        )
}

/// How many issues are collected for a code, and what edits.
pub open spec fn total(fixes: Seq<FixView>, code: Seq<char>) -> (nat, Seq<ReplacementView>) {
    match first_from(fixes, fixes_code(code), 0) {
        Some(index) => (fixes[index].issue_count, fixes[index].edits),
        None => (0, Seq::empty()),
    }
}

/// `sum` with what one issue contributes to a code.
pub open spec fn counted(
    sum: (nat, Seq<ReplacementView>),
    issue: Issue,
    file_id: FileId,
    code: Seq<char>,
) -> (nat, Seq<ReplacementView>) {
    match contribution(issue, file_id) {
        Some((contributed, edits)) => if contributed == code {
            (sum.0 + 1, sum.1 + edits)
        } else {
            sum
        },
        None => sum,
    }
}

/// `sum` with what the first `count` issues contribute to a code.
pub open spec fn counted_issues(
    sum: (nat, Seq<ReplacementView>),
    issues: Seq<Issue>,
    file_id: FileId,
    code: Seq<char>,
    count: int,
) -> (nat, Seq<ReplacementView>)
    decreases count,
{
    if count <= 0 {
        sum
    } else {
        counted(
            counted_issues(sum, issues, file_id, code, count - 1),
            issues[count - 1],
            file_id,
            code,
        )
    }
}

/// `sum` with what the lint issues of the first `count` analyses contribute to a
/// code.
pub open spec fn counted_lints(
    sum: (nat, Seq<ReplacementView>),
    analyses: Seq<FileAnalysis>,
    file_id: FileId,
    code: Seq<char>,
    count: int,
) -> (nat, Seq<ReplacementView>)
    decreases count,
{
    if count <= 0 {
        sum
    } else {
        let issues = analyses[count - 1].lint_issues@;
        counted_issues(
            counted_lints(sum, analyses, file_id, code, count - 1),
            issues,
            file_id,
            code,
            issues.len() as int,
        )
    }
}

proof fn lemma_with_issue(fixes: Seq<FixView>, issue: Issue, file_id: FileId, code: Seq<char>)
    requires
        codes_differ(fixes),
    ensures
        codes_differ(with_issue(fixes, issue, file_id)),
        total(with_issue(fixes, issue, file_id), code) == counted(
            total(fixes, code),
            issue,
            file_id,
            code,
        ),
{
    if let Some((contributed, edits)) = contribution(issue, file_id) {
        let after = with_issue(fixes, issue, file_id);
        lemma_first_from(fixes, fixes_code(contributed), 0);
        lemma_first_from(fixes, fixes_code(code), 0);
        match first_from(fixes, fixes_code(contributed), 0) {
            Some(index) => {
                assert forall|i: int| 0 <= i < fixes.len() implies (#[trigger] fixes[i]).code
                    == after[i].code by {}
                lemma_first_alike(fixes, after, fixes_code(code), 0);
                assert forall|i: int, j: int| 0 <= i < j < after.len() implies (
                #[trigger] after[i]).code != (#[trigger] after[j]).code by {
                    assert(fixes[i].code == after[i].code && fixes[j].code == after[j].code);
                }
            },
            None => {
                let fix = FixView { code: contributed, issue_count: 1, edits };
                lemma_first_of_longer(fixes, fix, fixes_code(code), 0);
                assert(Seq::<ReplacementView>::empty() + edits =~= edits);
                assert forall|i: int, j: int| 0 <= i < j < after.len() implies (
                #[trigger] after[i]).code != (#[trigger] after[j]).code by {
                    assert(after[i] == fixes[i]);
                    assert(!fixes_code(contributed)(fixes[i]));
                }
            },
        }
    }
}

proof fn lemma_with_issues(
    fixes: Seq<FixView>,
    issues: Seq<Issue>,
    file_id: FileId,
    code: Seq<char>,
    count: int,
)
    requires
        codes_differ(fixes),
    ensures
        codes_differ(with_issues(fixes, issues, file_id, count)),
        total(with_issues(fixes, issues, file_id, count), code) == counted_issues(
            total(fixes, code),
            issues,
            file_id,
            code,
            count,
        ),
    decreases count,
{
    if count > 0 {
        lemma_with_issues(fixes, issues, file_id, code, count - 1);
        lemma_with_issue(
            with_issues(fixes, issues, file_id, count - 1),
            issues[count - 1],
            file_id,
            code,
        );
    }
}

proof fn lemma_with_lints(
    fixes: Seq<FixView>,
    analyses: Seq<FileAnalysis>,
    file_id: FileId,
    code: Seq<char>,
    count: int,
)
    requires
        codes_differ(fixes),
    ensures
        codes_differ(with_lints(fixes, analyses, file_id, count)),
        total(with_lints(fixes, analyses, file_id, count), code) == counted_lints(
            total(fixes, code),
            analyses,
            file_id,
            code,
            count,
        ),
    decreases count,
{
    if count > 0 {
        lemma_with_lints(fixes, analyses, file_id, code, count - 1);
        let issues = analyses[count - 1].lint_issues@;
        lemma_with_issues(
            with_lints(fixes, analyses, file_id, count - 1),
            issues,
            file_id,
            code,
            issues.len() as int,
        );
    }
}

/// Each code is collected once, and with it every fixable issue of that code in
/// the file and every edit, in order.
pub proof fn law_fixes_are_collected_by_code(server: Server, file_id: FileId, code: Seq<char>)
    ensures
        codes_differ(collected_fixes(server, file_id)),
        total(collected_fixes(server, file_id), code) == counted_lints(
            counted_issues(
                (0, Seq::empty()),
                analyzer_issues(server),
                file_id,
                code,
                analyzer_issues(server).len() as int,
            ),
            server.analyses@,
            file_id,
            code,
            server.analyses@.len() as int,
        ),
{
    let issues = analyzer_issues(server);
    let none = Seq::<FixView>::empty();
    lemma_with_issues(none, issues, file_id, code, issues.len() as int);
    lemma_with_lints(
        with_issues(none, issues, file_id, issues.len() as int),
        server.analyses@,
        file_id,
        code,
        server.analyses@.len() as int,
    );
}

proof fn lemma_placed_contains(list: Seq<FixView>, fix: FixView, wanted: FixView)
    ensures
        placed(list, fix).contains(wanted) <==> wanted == fix || list.contains(wanted),
    decreases list.len(),
{
    let all = placed(list, fix);
    if list.len() == 0 || text_precedes(fix.code, list[0].code) {
        assert(all[0] == fix);
        if list.contains(wanted) {
            let i = choose|i: int| 0 <= i < list.len() && list[i] == wanted;
            assert(all[i + 1] == wanted);
        }
        if all.contains(wanted) && wanted != fix {
            let i = choose|i: int| 0 <= i < all.len() && all[i] == wanted;
            assert(list[i - 1] == wanted);
        }
    } else {
        let rest = list.drop_first();
        let deeper = placed(rest, fix);
        lemma_placed_contains(rest, fix, wanted);
        assert(all[0] == list[0]);
        if deeper.contains(wanted) {
            let i = choose|i: int| 0 <= i < deeper.len() && deeper[i] == wanted;
            assert(all[i + 1] == wanted);
        }
        if all.contains(wanted) && wanted != list[0] {
            let i = choose|i: int| 0 <= i < all.len() && all[i] == wanted;
            assert(deeper[i - 1] == wanted);
        }
        if rest.contains(wanted) {
            let i = choose|i: int| 0 <= i < rest.len() && rest[i] == wanted;
            assert(list[i + 1] == wanted);
        }
        if list.contains(wanted) && wanted != list[0] {
            let i = choose|i: int| 0 <= i < list.len() && list[i] == wanted;
            assert(rest[i - 1] == wanted);
        }
    }
}

proof fn lemma_placed_ascends(list: Seq<FixView>, fix: FixView)
    requires
        codes_ascend(list),
        forall|i: int| 0 <= i < list.len() ==> (#[trigger] list[i]).code != fix.code,
    ensures
        codes_ascend(placed(list, fix)),
    decreases list.len(),
{
    let all = placed(list, fix);
    if list.len() == 0 || text_precedes(fix.code, list[0].code) {
        assert forall|i: int, j: int| 0 <= i < j < all.len() implies text_precedes(
            (#[trigger] all[i]).code,
            (#[trigger] all[j]).code,
        ) by {
            assert(all[j] == list[j - 1]);
            if i > 0 {
                assert(all[i] == list[i - 1]);
            } else if j > 1 {
                assert(text_precedes(list[0].code, list[j - 1].code));
                lemma_text_precedes_transitive(fix.code, list[0].code, list[j - 1].code);
            }
        }
    } else {
        let rest = list.drop_first();
        let deeper = placed(rest, fix);
        assert forall|i: int, j: int| 0 <= i < j < rest.len() implies text_precedes(
            (#[trigger] rest[i]).code,
            (#[trigger] rest[j]).code,
        ) by {
            assert(rest[i] == list[i + 1] && rest[j] == list[j + 1]);
        }
        assert forall|i: int| 0 <= i < rest.len() implies (#[trigger] rest[i]).code
            != fix.code by {
            assert(rest[i] == list[i + 1]);
        }
        lemma_placed_ascends(rest, fix);
        lemma_text_precedes_total(fix.code, list[0].code);
        assert(text_precedes(list[0].code, fix.code));
        assert forall|i: int, j: int| 0 <= i < j < all.len() implies text_precedes(
            (#[trigger] all[i]).code,
            (#[trigger] all[j]).code,
        ) by {
            assert(all[j] == deeper[j - 1]);
            if i > 0 {
                assert(all[i] == deeper[i - 1]);
            } else {
                lemma_placed_contains(rest, fix, deeper[j - 1]);
                assert(deeper.contains(deeper[j - 1]));
                if deeper[j - 1] != fix {
                    let k = choose|k: int| 0 <= k < rest.len() && rest[k] == deeper[j - 1];
                    assert(list[k + 1] == deeper[j - 1]);
                }
            }
        }
    }
}

/// Exactly the fixes for several issues are offered for the whole file, and they
/// are offered in the order of their codes.
pub proof fn law_file_wide_fixes_in_order(fixes: Seq<FixView>)
    requires
        codes_differ(fixes),
    ensures
        codes_ascend(sorted_fixes(fixes)),
        forall|fix: FixView| #[trigger]
            sorted_fixes(fixes).contains(fix) <==> fixes.contains(fix) && repeated(fix),
    decreases fixes.len(),
{
    if fixes.len() > 0 {
        let rest = fixes.drop_first();
        let sorted = sorted_fixes(rest);
        assert forall|i: int, j: int| 0 <= i < j < rest.len() implies (#[trigger] rest[i]).code
            != (#[trigger] rest[j]).code by {
            assert(rest[i] == fixes[i + 1] && rest[j] == fixes[j + 1]);
        }
        law_file_wide_fixes_in_order(rest);
        if repeated(fixes[0]) {
            assert forall|i: int| 0 <= i < sorted.len() implies (#[trigger] sorted[i]).code
                != fixes[0].code by {
                assert(sorted.contains(sorted[i]));
                let k = choose|k: int| 0 <= k < rest.len() && rest[k] == sorted[i];
                assert(fixes[k + 1] == sorted[i]);
            }
            lemma_placed_ascends(sorted, fixes[0]);
        }
        assert forall|fix: FixView| #[trigger]
            sorted_fixes(fixes).contains(fix) <==> fixes.contains(fix) && repeated(fix) by {
            if repeated(fixes[0]) {
                lemma_placed_contains(sorted, fixes[0], fix);
            }
            assert(sorted.contains(fix) <==> rest.contains(fix) && repeated(fix));
            if rest.contains(fix) {
                let k = choose|k: int| 0 <= k < rest.len() && rest[k] == fix;
                assert(fixes[k + 1] == fix);
            }
            if fixes.contains(fix) && fix != fixes[0] {
                let k = choose|k: int| 0 <= k < fixes.len() && fixes[k] == fix;
                assert(rest[k - 1] == fix);
            }
            assert(fixes.contains(fixes[0]));
        }
    }
}

/// Every action of the row resolves something.
pub open spec fn all_quick_fixes(actions: Seq<ActionView>) -> bool {
    forall|i: int| 0 <= i < actions.len() ==> (#[trigger] actions[i]).kind
        == CodeActionKind::QuickFix
}

proof fn lemma_fixes_are_quick(
    actions: Seq<ActionView>,
    issues: Seq<Issue>,
    file_id: FileId,
    start: u32,
    end: u32,
    count: int,
)
    requires
        all_quick_fixes(actions),
    ensures
        all_quick_fixes(with_fixes(actions, issues, file_id, start, end, count)),
    decreases count,
{
    if count > 0 {
        lemma_fixes_are_quick(actions, issues, file_id, start, end, count - 1);
    }
}

proof fn lemma_lint_fixes_are_quick(
    actions: Seq<ActionView>,
    analyses: Seq<FileAnalysis>,
    file_id: FileId,
    start: u32,
    end: u32,
    count: int,
)
    requires
        all_quick_fixes(actions),
    ensures
        all_quick_fixes(with_lint_fixes(actions, analyses, file_id, start, end, count)),
    decreases count,
{
    if count > 0 {
        lemma_lint_fixes_are_quick(actions, analyses, file_id, start, end, count - 1);
        let issues = analyses[count - 1].lint_issues@;
        lemma_fixes_are_quick(
            with_lint_fixes(actions, analyses, file_id, start, end, count - 1),
            issues,
            file_id,
            start,
            end,
            issues.len() as int,
        );
    }
}

proof fn lemma_expects_are_quick(
    actions: Seq<ActionView>,
    server: Server,
    issues: Seq<Issue>,
    file_id: FileId,
    start: u32,
    end: u32,
    category: Seq<char>,
    count: int,
)
    requires
        all_quick_fixes(actions),
    ensures
        all_quick_fixes(
            with_expects(actions, server, issues, file_id, start, end, category, count),
        ),
    decreases count,
{
    if count > 0 {
        lemma_expects_are_quick(
            actions,
            server,
            issues,
            file_id,
            start,
            end,
            category,
            count - 1,
        );
    }
}

proof fn lemma_lint_expects_are_quick(
    actions: Seq<ActionView>,
    server: Server,
    file_id: FileId,
    start: u32,
    end: u32,
    count: int,
)
    requires
        all_quick_fixes(actions),
    ensures
        all_quick_fixes(with_lint_expects(actions, server, file_id, start, end, count)),
    decreases count,
{
    if count > 0 {
        lemma_lint_expects_are_quick(actions, server, file_id, start, end, count - 1);
        let issues = server.analyses@[count - 1].lint_issues@;
        lemma_expects_are_quick(
            with_lint_expects(actions, server, file_id, start, end, count - 1),
            server,
            issues,
            file_id,
            start,
            end,
            "lint"@,
            issues.len() as int,
        );
    }
}

/// A refactor never outranks an action that resolves something: it can only be
/// the last one.
pub proof fn law_refactors_come_last(server: Server, file_id: FileId, start: u32, end: u32)
    ensures
        ({
            let actions = actions_at(server, file_id, start, end);
            forall|i: int|
                0 <= i < actions.len() && (#[trigger] actions[i]).kind
                    == CodeActionKind::RefactorRewrite ==> i == actions.len() - 1 && return_action(
                    server,
                    file_id,
                    start,
                    end,
                ) == Some(actions[i])
        }),
{
    let issues = analyzer_issues(server);
    let none = Seq::<ActionView>::empty();
    lemma_fixes_are_quick(none, issues, file_id, start, end, issues.len() as int);
    lemma_lint_fixes_are_quick(
        with_fixes(none, issues, file_id, start, end, issues.len() as int),
        server.analyses@,
        file_id,
        start,
        end,
        server.analyses@.len() as int,
    );
    lemma_expects_are_quick(
        none,
        server,
        issues,
        file_id,
        start,
        end,
        "analysis"@,
        issues.len() as int,
    );
    lemma_lint_expects_are_quick(
        with_expects(
            none,
            server,
            issues,
            file_id,
            start,
            end,
            "analysis"@,
            issues.len() as int,
        ),
        server,
        file_id,
        start,
        end,
        server.analyses@.len() as int,
    );
    let direct = direct_fixes(server, file_id, start, end);
    let suppressing = suppressions(server, file_id, start, end);
    let wide = file_wide_actions(file_id, collected_fixes(server, file_id));
    let quick = direct + suppressing + wide;
    assert forall|i: int| 0 <= i < quick.len() implies (#[trigger] quick[i]).kind
        == CodeActionKind::QuickFix by {
        if i < direct.len() {
            assert(quick[i] == direct[i]);
        } else if i < direct.len() + suppressing.len() {
            assert(quick[i] == suppressing[i - direct.len()]);
        } else {
            assert(quick[i] == wide[i - direct.len() - suppressing.len()]);
        }
    }
}

/// A suppression puts one comment in and takes nothing out.
pub proof fn law_suppression_only_inserts(
    server: Server,
    issue: Issue,
    file_id: FileId,
    start: u32,
    end: u32,
    category: Seq<char>,
)
    ensures
        expect_action(server, issue, file_id, start, end, category) matches Some(action)
            ==> action.edits.dom() == Set::<FileId>::empty().insert(file_id)
            && action.edits[file_id].len() == 1 && action.edits[file_id][0].range.start
            == action.edits[file_id][0].range.end,
{
    if let Some(action) = expect_action(server, issue, file_id, start, end, category) {
        assert(action.edits.dom() =~= Set::<FileId>::empty().insert(file_id));
    }
}

/// A return type is only offered in a text that reads back as that type, or as
/// that type with its literals widened.
pub proof fn law_offered_return_type_is_faithful(
    server: Server,
    file_id: FileId,
    start: u32,
    end: u32,
)
    ensures
        return_action(server, file_id, start, end) is Some ==> exists|
            inferred: InferredType,
            rendered: Seq<char>,
        |
            #![trigger reads_back(server.rereads@, rendered, inferred.id@)]
            !inferred.is_mixed && (reads_back(server.rereads@, rendered, inferred.id@)
                || reads_back(server.rereads@, rendered, inferred.widened_id@))
                && return_action(server, file_id, start, end)->0.title
                == "Document inferred return type: @return "@ + abbreviated(rendered),
{
    if return_action(server, file_id, start, end) is Some {
        let sites = server.analysis(file_id)->0.function_like_sites@;
        let site = innermost_site(sites, start, end, sites.len() as int)->0;
        let inferred = server.type_index(file_id)->0.inferred_return_at(site.span)->0;
        let rendered = docblock_text(server.rereads@, inferred)->0;
        law_offered_text_is_faithful(server.rereads@, inferred);
        assert(reads_back(server.rereads@, rendered, inferred.id@) || reads_back(
            server.rereads@,
            rendered,
            inferred.widened_id@,
        ));
    }
}

} // verus!
