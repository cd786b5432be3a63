//! Laws on code actions.

use vstd::prelude::*;

use crate::code_action::{
    action_view, action_views, actions_at, analyzer_issues, 
    collected_fixes, contribution, direct_fixes, edits_view, expect_action, file_wide_action,
    file_wide_actions, fix_action, fixes_code, grouped, issue_diagnostic, issue_overlaps,
    law_file_wide_fixes_in_order, law_fixes_are_collected_by_code, replaced,
    replacement_views, return_action, severity_of, sites_of, some_edit, sorted_fixes,
    suppressions, with_expects, with_fixes, with_issue, with_issues, with_lint_expects,
    with_lint_fixes, with_lints, ActionView, CodeActionItem, CodeActionKind, DiagnosticData,
    FixView,
};
use crate::domain::{FileId, Level, Severity};
use crate::file::line_start;
use crate::indent::blanks;
use crate::outside::lossy;
use crate::phpdoc::{abbreviated, docblock_text};
use crate::reporting::{FileEdits, Issue, TextEdit};
use crate::return_tag::{innermost_site, tag_edit, TextReplacement};
use crate::seqs::{first_is, lemma_first_is, none_is};
use crate::server::{FileAnalysis, Server};
use crate::text::text_precedes;

verus! {

// ---- Issues --------------------------------------------------------------

/// Errors and warnings are shown as such, help as a hint, notes as information.
pub proof fn law_severities(level: Level)
    ensures
        level == Level::Error <==> severity_of(level) == Severity::Error,
        level == Level::Warning <==> severity_of(level) == Severity::Warning,
        level == Level::Help <==> severity_of(level) == Severity::Hint,
        level == Level::Note <==> severity_of(level) == Severity::Information,
{
}

/// An issue is at hand when what it points at is in the file and shares at least a
/// boundary with the stretch.
pub proof fn law_issue_at_hand(issue: Issue, file_id: FileId, start: u32, end: u32)
    ensures
        issue_overlaps(issue, file_id, start, end) <==> issue.primary() is Some
            && issue.primary()->0.span.file_id == file_id
            && issue.primary()->0.span.start.offset <= end && start
            <= issue.primary()->0.span.end.offset,
{
}

/// The diagnostic of an issue is what it points at, with its own severity, code and
/// message.
pub proof fn law_diagnostic_of_an_issue(issue: Issue)
    ensures
        issue.primary() is None ==> issue_diagnostic(issue) is None,
        issue.primary() matches Some(primary) ==> {
            let shown = issue_diagnostic(issue);
            &&& shown is Some
            &&& shown->0.file == primary.span.file_id
            &&& shown->0.range.start == primary.span.start.offset
            &&& shown->0.range.end == primary.span.end.offset
            &&& shown->0.severity == severity_of(issue.level)
            &&& shown->0.message == issue.message@
            &&& issue.code matches Some(code) ==> shown->0.code == Some(code@)
            &&& issue.code is None ==> shown->0.code is None
        },
{
}

/// Each edit becomes one replacement, in order: of the very stretch that the edit
/// names, by the very text that its bytes spell.
pub proof fn law_edits_become_replacements(edits: Seq<TextEdit>, i: int)
    requires
        0 <= i < edits.len(),
    ensures
        replaced(edits).len() == edits.len(),
        replaced(edits)[i].range == edits[i].range,
        replaced(edits)[i].new_text == lossy(edits[i].new_text@),
{
}

// ---- Direct fixes --------------------------------------------------------

/// How many edits for `file` the first `count` groups hold.
pub open spec fn edits_before(groups: Seq<FileEdits>, file: FileId, count: int) -> nat
    decreases count,
{
    if count <= 0 {
        0
    } else if groups[count - 1].file == file {
        edits_before(groups, file, count - 1) + groups[count - 1].edits@.len()
    } else {
        edits_before(groups, file, count - 1)
    }
}

proof fn lemma_edits_before_grows(groups: Seq<FileEdits>, file: FileId, low: int, high: int)
    requires
        0 <= low <= high,
    ensures
        edits_before(groups, file, low) <= edits_before(groups, file, high),
    decreases high - low,
{
    if low < high {
        lemma_edits_before_grows(groups, file, low, high - 1);
    }
}

/// The replacements for a file are those of all the edits listed for it and no
/// others: each group's behind those of the groups before, in the order of the group,
/// with each edit's own stretch and own text. A file without edits has none.
pub proof fn law_every_edit_is_carried(
    groups: Seq<FileEdits>,
    count: int,
    file: FileId,
    group: int,
    i: int,
)
    requires
        0 <= count <= groups.len(),
    ensures
        grouped(groups, count).dom().contains(file) <==> edits_before(groups, file, count) > 0,
        edits_before(groups, file, count) > 0 ==> grouped(groups, count)[file].len()
            == edits_before(groups, file, count),
        0 <= group < count && groups[group].file == file && 0 <= i < groups[group].edits@.len()
            ==> {
            let at = edits_before(groups, file, group) + i;
            &&& 0 <= at < edits_before(groups, file, count)
            &&& grouped(groups, count)[file][at].range == groups[group].edits@[i].range
            &&& grouped(groups, count)[file][at].new_text == lossy(
                groups[group].edits@[i].new_text@,
            )
        },
    decreases count,
{
    if count > 0 {
        law_every_edit_is_carried(groups, count - 1, file, group, i);
        if 0 <= group < count {
            lemma_edits_before_grows(groups, file, group + 1, count);
            assert(edits_before(groups, file, group + 1) == edits_before(groups, file, group)
                + if groups[group].file == file {
                groups[group].edits@.len()
            } else {
                0
            });
            if group < count - 1 {
                lemma_edits_before_grows(groups, file, group + 1, count - 1);
            }
        }
    }
}

/// An issue that is at hand and has edits gets a quick fix that carries its edits and
/// resolves its diagnostic, under its help or else its message; any other gets none.
pub proof fn law_quick_fix(issue: Issue, file_id: FileId, start: u32, end: u32)
    ensures
        ({
            let action = fix_action(issue, file_id, start, end);
            let has_edits = exists|i: int|
                0 <= i < issue.edits@.len() && (#[trigger] issue.edits@[i]).edits@.len() > 0;
            &&& action is Some <==> has_edits && issue_overlaps(issue, file_id, start, end)
            &&& action is Some ==> {
                &&& action->0.kind == CodeActionKind::QuickFix
                &&& action->0.diagnostic == issue_diagnostic(issue)
                &&& action->0.edits == grouped(issue.edits@, issue.edits@.len() as int)
                &&& issue.help matches Some(help) ==> action->0.title == help@
                &&& issue.help is None ==> action->0.title == "Apply mago fix: "@ + issue.message@
            }
        }),
{
    assert(some_edit(issue.edits@, issue.edits@.len() as int) == exists|i: int|
        0 <= i < issue.edits@.len() && (#[trigger] issue.edits@[i]).edits@.len() > 0);
}

// ---- Suppressions --------------------------------------------------------

/// An issue with a code that is at hand can be announced: in a comment of its own on
/// a line above the one it points at, indented as that line is, with the code behind
/// its category. Any other issue cannot.
pub proof fn law_suppression(
    server: Server,
    issue: Issue,
    file_id: FileId,
    start: u32,
    end: u32,
    category: Seq<char>,
)
    ensures
        ({
            let action = expect_action(server, issue, file_id, start, end, category);
            &&& action is Some <==> issue.code is Some && server.file(file_id) is Some
                && issue_overlaps(issue, file_id, start, end)
            &&& action is Some ==> {
                let contents = server.file(file_id)->0.contents@;
                let at = line_start(contents, issue.primary()->0.span.start.offset as int);
                let indent = blanks(contents, at, contents.len() as int);
                let code = category + ":"@ + issue.code->0@;
                &&& action->0.kind == CodeActionKind::QuickFix
                &&& action->0.diagnostic == issue_diagnostic(issue)
                &&& action->0.title == "Add @mago-expect "@ + code
                &&& forall|file: FileId| #[trigger]
                    action->0.edits.dom().contains(file) <==> file == file_id
                &&& action->0.edits[file_id].len() == 1
                &&& action->0.edits[file_id][0].range.start == at as u32
                &&& action->0.edits[file_id][0].range.end == at as u32
                &&& action->0.edits[file_id][0].new_text == indent + "/** @mago-expect "@ + code
                    + " */\n"@
            }
        }),
{
}

// ---- File-wide fixes -----------------------------------------------------

/// To the fixes of a file an issue contributes, under its code, its edits there.
pub proof fn law_contribution(issue: Issue, file_id: FileId)
    ensures
        ({
            let given = contribution(issue, file_id);
            let group = issue.edits_for(file_id);
            &&& given is Some <==> issue.code is Some && group is Some && group->0.edits@.len() > 0
            &&& given matches Some((code, edits)) ==> code == issue.code->0@ && edits == replaced(
                group->0.edits@,
            )
        }),
{
}

/// What an issue contributes is counted and added behind what its code has already,
/// or starts a new code; an issue that contributes nothing changes nothing.
pub proof fn law_contributions_add_up(
    fixes: Seq<FixView>,
    issue: Issue,
    file_id: FileId,
    index: int,
)
    ensures
        contribution(issue, file_id) is None ==> with_issue(fixes, issue, file_id) == fixes,
        contribution(issue, file_id) matches Some((code, edits)) ==> {
            let after = with_issue(fixes, issue, file_id);
            &&& first_is(fixes, |fix: FixView| fix.code == code, index) ==> after.len()
                == fixes.len() && after[index].code == code && after[index].issue_count
                == fixes[index].issue_count + 1 && after[index].edits == fixes[index].edits + edits
                && forall|i: int|
                0 <= i < fixes.len() && i != index ==> #[trigger] after[i] == fixes[i]
            &&& none_is(fixes, |fix: FixView| fix.code == code) ==> after.len() == fixes.len() + 1
                && after.drop_last() == fixes && after.last().code == code
                && after.last().issue_count == 1 && after.last().edits == edits
        },
{
    if let Some((code, edits)) = contribution(issue, file_id) {
        lemma_first_is(fixes, fixes_code(code), |fix: FixView| fix.code == code, index);
        assert(fixes.push(FixView { code, issue_count: 1, edits }).drop_last() =~= fixes);
    }
}

/// Issues contribute one after the other: those of the analyzer first, those of the
/// linter analysis by analysis.
pub proof fn law_contributions_are_taken_in_order(
    server: Server,
    fixes: Seq<FixView>,
    issues: Seq<Issue>,
    analyses: Seq<FileAnalysis>,
    file_id: FileId,
    count: int,
)
    ensures
        with_issues(fixes, issues, file_id, 0) == fixes,
        0 <= count < issues.len() ==> with_issues(fixes, issues, file_id, count + 1) == with_issue(
            with_issues(fixes, issues, file_id, count),
            issues[count],
            file_id,
        ),
        with_lints(fixes, analyses, file_id, 0) == fixes,
        0 <= count < analyses.len() ==> with_lints(fixes, analyses, file_id, count + 1)
            == with_issues(
            with_lints(fixes, analyses, file_id, count),
            analyses[count].lint_issues@,
            file_id,
            analyses[count].lint_issues@.len() as int,
        ),
        server.last_issues matches Some(found) ==> collected_fixes(server, file_id) == with_lints(
            with_issues(Seq::empty(), found@, file_id, found@.len() as int),
            server.analyses@,
            file_id,
            server.analyses@.len() as int,
        ),
        server.last_issues is None ==> collected_fixes(server, file_id) == with_lints(
            Seq::empty(),
            server.analyses@,
            file_id,
            server.analyses@.len() as int,
        ),
{
}

/// A file-wide action is offered for each code that several issues have edits for,
/// and for no other; the actions come in the order of their codes.
pub proof fn law_file_wide_actions(server: Server, file_id: FileId, i: int, j: int)
    requires
        0 <= i < j < file_wide_actions(file_id, collected_fixes(server, file_id)).len(),
    ensures
        ({
            let fixes = collected_fixes(server, file_id);
            let offered = sorted_fixes(fixes);
            let actions = file_wide_actions(file_id, fixes);
            &&& actions.len() == offered.len()
            &&& actions[i] == file_wide_action(file_id, offered[i])
            &&& text_precedes(offered[i].code, offered[j].code)
        }),
{
    law_fixes_are_collected_by_code(server, file_id, Seq::empty());
    law_file_wide_fixes_in_order(collected_fixes(server, file_id));
}

/// Which codes a file-wide action is offered for.
pub proof fn law_file_wide_codes(server: Server, file_id: FileId, fix: FixView)
    ensures
        ({
            let fixes = collected_fixes(server, file_id);
            &&& sorted_fixes(fixes).contains(fix) <==> fixes.contains(fix) && fix.issue_count >= 2
                && fix.edits.len() >= 1
            &&& file_wide_actions(file_id, fixes).len() == sorted_fixes(fixes).len()
            &&& forall|i: int|
                0 <= i < sorted_fixes(fixes).len() ==> #[trigger] file_wide_actions(
                    file_id,
                    fixes,
                )[i] == file_wide_action(file_id, sorted_fixes(fixes)[i])
        }),
{
    law_fixes_are_collected_by_code(server, file_id, Seq::empty());
    law_file_wide_fixes_in_order(collected_fixes(server, file_id));
}

/// A file-wide action names its code, carries all of the code's edits in the file,
/// and resolves no single diagnostic.
pub proof fn law_file_wide_action(file_id: FileId, fix: FixView)
    ensures
        ({
            let action = file_wide_action(file_id, fix);
            &&& action.title == "Fix all `"@ + fix.code + "` issues in file"@
            &&& action.kind == CodeActionKind::QuickFix
            &&& action.diagnostic is None
            &&& forall|file: FileId| #[trigger]
                action.edits.dom().contains(file) <==> file == file_id
            &&& action.edits[file_id] == fix.edits
        }),
{
}

// ---- Refactors -----------------------------------------------------------

/// The return type is recorded for the tightest declaration around the stretch, where
/// the analyzer inferred one for exactly its span that can be written down, by the
/// edit that adds the tag. The title shows the type.
pub proof fn law_recorded_return_type(server: Server, file_id: FileId, start: u32, end: u32)
    ensures
        ({
            let action = return_action(server, file_id, start, end);
            let analysis = server.analysis(file_id);
            let types = server.type_index(file_id);
            let file = server.file(file_id);
            if analysis is Some && types is Some && file is Some {
                let sites = analysis->0.function_like_sites@;
                match innermost_site(sites, start, end, sites.len() as int) {
                    Some(site) => match types->0.inferred_return_at(site.span) {
                        Some(inferred) => match docblock_text(server.rereads@, inferred) {
                            Some(text) => match tag_edit(file->0.contents@, site, text) {
                                Some(edit) => {
                                    &&& action is Some
                                    &&& action->0.title
                                        == "Document inferred return type: @return "@
                                        + abbreviated(text)
                                    &&& action->0.kind == CodeActionKind::RefactorRewrite
                                    &&& action->0.diagnostic is None
                                    &&& forall|file: FileId| #[trigger]
                                        action->0.edits.dom().contains(file) <==> file == file_id
                                    &&& action->0.edits[file_id] == seq![edit]
                                },
                                None => action is None,
                            },
                            None => action is None,
                        },
                        None => action is None,
                    },
                    None => action is None,
                }
            } else {
                action is None
            }
        }),
{
}

/// The declarations around which a return type can be recorded are those of the
/// file's analysis.
pub proof fn law_declarations_of_a_file(server: Server, file_id: FileId)
    ensures
        server.analysis(file_id) matches Some(analysis) ==> sites_of(server, file_id)
            == analysis.function_like_sites@,
        server.analysis(file_id) is None ==> sites_of(server, file_id).len() == 0,
{
}

// ---- The list ------------------------------------------------------------

/// Each issue that gives an action gives it behind those of the issues before it.
pub proof fn law_actions_are_listed_in_order(
    actions: Seq<ActionView>,
    server: Server,
    issues: Seq<Issue>,
    analyses: Seq<FileAnalysis>,
    file_id: FileId,
    start: u32,
    end: u32,
    category: Seq<char>,
    count: int,
)
    ensures
        with_fixes(actions, issues, file_id, start, end, 0) == actions,
        0 <= count < issues.len() ==> with_fixes(actions, issues, file_id, start, end, count + 1)
            == {
            let before = with_fixes(actions, issues, file_id, start, end, count);
            match fix_action(issues[count], file_id, start, end) {
                Some(action) => before.push(action),
                None => before,
            }
        },
        with_expects(actions, server, issues, file_id, start, end, category, 0) == actions,
        0 <= count < issues.len() ==> with_expects(
            actions,
            server,
            issues,
            file_id,
            start,
            end,
            category,
            count + 1,
        ) == {
            let before = with_expects(
                actions,
                server,
                issues,
                file_id,
                start,
                end,
                category,
                count,
            );
            match expect_action(server, issues[count], file_id, start, end, category) {
                Some(action) => before.push(action),
                None => before,
            }
        },
        with_lint_fixes(actions, analyses, file_id, start, end, 0) == actions,
        0 <= count < analyses.len() ==> with_lint_fixes(
            actions,
            analyses,
            file_id,
            start,
            end,
            count + 1,
        ) == with_fixes(
            with_lint_fixes(actions, analyses, file_id, start, end, count),
            analyses[count].lint_issues@,
            file_id,
            start,
            end,
            analyses[count].lint_issues@.len() as int,
        ),
        with_lint_expects(actions, server, file_id, start, end, 0) == actions,
        0 <= count < server.analyses@.len() ==> with_lint_expects(
            actions,
            server,
            file_id,
            start,
            end,
            count + 1,
        ) == with_expects(
            with_lint_expects(actions, server, file_id, start, end, count),
            server,
            server.analyses@[count].lint_issues@,
            file_id,
            start,
            end,
            "lint"@,
            server.analyses@[count].lint_issues@.len() as int,
        ),
{
}

/// The analyzer's issues are those of the last analysis of the whole workspace.
pub proof fn law_analyzer_issues(server: Server)
    ensures
        server.last_issues matches Some(issues) ==> analyzer_issues(server) == issues@,
        server.last_issues is None ==> analyzer_issues(server).len() == 0,
{
}

/// Direct fixes and suppressions come of the analyzer's issues first and of the
/// linter's behind; the former are announced as `analysis`, the latter as `lint`.
pub proof fn law_analyzer_comes_before_linter(
    server: Server,
    file_id: FileId,
    start: u32,
    end: u32,
)
    ensures
        ({
            let issues = analyzer_issues(server);
            let lints = server.analyses@.len() as int;
            let count = issues.len() as int;
            &&& direct_fixes(server, file_id, start, end) == with_lint_fixes(
                with_fixes(Seq::empty(), issues, file_id, start, end, count),
                server.analyses@,
                file_id,
                start,
                end,
                lints,
            )
            &&& suppressions(server, file_id, start, end) == with_lint_expects(
                with_expects(
                    Seq::empty(),
                    server,
                    issues,
                    file_id,
                    start,
                    end,
                    "analysis"@,
                    count,
                ),
                server,
                file_id,
                start,
                end,
                lints,
            )
        }),
{
}

/// The actions come in this order: direct fixes, suppressions, file-wide fixes, and
/// last the refactor, if there is one.
pub proof fn law_order_of_actions(server: Server, file_id: FileId, start: u32, end: u32)
    ensures
        ({
            let direct = direct_fixes(server, file_id, start, end);
            let silencing = suppressions(server, file_id, start, end);
            let wide = file_wide_actions(file_id, collected_fixes(server, file_id));
            let refactor = return_action(server, file_id, start, end);
            let actions = actions_at(server, file_id, start, end);
            let last = (direct.len() + silencing.len() + wide.len()) as int;
            &&& actions.len() == last + (if refactor is Some {
                1int
            } else {
                0
            })
            &&& forall|i: int| 0 <= i < direct.len() ==> #[trigger] actions[i] == direct[i]
            &&& forall|i: int|
                0 <= i < silencing.len() ==> actions[direct.len() + i] == #[trigger] silencing[i]
            &&& forall|i: int|
                0 <= i < wide.len() ==> actions[direct.len() + silencing.len() + i]
                    == #[trigger] wide[i]
            &&& refactor is Some ==> actions[last] == refactor->0
        }),
{
}

/// The views of actions, of replacements and of the diagnostics they resolve tell all
/// that these hold.
pub proof fn law_action_views(
    actions: Seq<CodeActionItem>,
    i: int,
    replacements: Seq<TextReplacement>,
    data: DiagnosticData,
    edits: Map<u64, Vec<TextReplacement>>,
    file: FileId,
)
    ensures
        action_views(actions).len() == actions.len(),
        0 <= i < actions.len() ==> {
            let shown = action_views(actions)[i];
            &&& action_view(Some(actions[i])) == Some(shown)
            &&& shown.title == actions[i].title@
            &&& shown.kind == actions[i].kind
            &&& shown.edits == edits_view(actions[i].edits@)
            &&& actions[i].diagnostic matches Some(diagnostic) ==> shown.diagnostic == Some(
                diagnostic@,
            )
            &&& actions[i].diagnostic is None ==> shown.diagnostic is None
        },
        action_view(None) is None,
        edits_view(edits).dom().contains(file) <==> edits.dom().contains(file),
        edits.dom().contains(file) ==> edits_view(edits)[file] == replacement_views(edits[file]@),
        replacement_views(replacements).len() == replacements.len(),
        0 <= i < replacements.len() ==> replacement_views(replacements)[i].range
            == replacements[i].range && replacement_views(replacements)[i].new_text
            == replacements[i].new_text@,
        data@.file == data.file && data@.range == data.range && data@.severity == data.severity
            && data@.message == data.message@,
        data.code matches Some(code) ==> data@.code == Some(code@),
        data.code is None ==> data@.code is None,
{
}

} // verus!
