//! Laws on what the operations hand out, stated of their calls.

use vstd::prelude::*;

use crate::backend::{
    after_build, analysis_totals, analyzing_message, components, is_slow, leads_to,
    lint_issue_count, owner, reports_progress, step_after, BackendState, Bootstrap,
    BootstrapAction, BuildOutcome, BuildStep, Workspace, WorkspaceRegistry,
};
use crate::code_action::{
    action_for, action_view, action_views, actions_at, collected_fixes, direct_fixes,
    expect_action, expect_action_for, file_wide_actions, fix_action, inferred_return_action,
    level_to_severity, return_action, suppressions, CodeActionItem,
};
use crate::codebase::{
    ClassLikeMetadata, CodebaseMetadata, ConstantMetadata, FunctionLikeMetadata,
};
use crate::definition::definition_at;
use crate::diagnostic::{diagnostic_views, same_diagnostics, Diagnostic};
use crate::diagnostics::{
    announced, clear_all, clearing, documents, notification_views, publications, AnalysisOutcome,
    Notification, 
};
use crate::documents::{
    changed_files, disk_changed, disk_deleted, DatabaseAction, OpenDocument,
};
use crate::domain::{FileId, FileType, Level, Range, Severity, SymbolLocation};
use crate::file::{line_start, newlines_before, tokens_fit, File};
use crate::hover::{hover_at, hover_view, HoverInfo};
use crate::indent::blanks;
use crate::laws::members::{is_around, nothing_around};
use crate::laws::renaming::{
    is_name, law_members_are_renamed_without_a_dollar, law_variables_are_renamed_with_a_dollar,
};
use crate::laws::symbols::lies_at;
use crate::lex_cache::LexCache;
use crate::lookup::{
    lex, lex_uncached, lexed, name_at, name_at_offset, static_member, static_member_at_offset,
    variable_at_offset, variable_extent, Lexeme,
    MemberQualifier, NameAtCursor, StaticMemberAtCursor, VarAtCursor,
};
use crate::member::{
    all_occurrences, declared_at, found_view, member_at, member_of, name_occurrences, owner_named,
    references_to, MemberKind, MemberTarget,
};
use crate::outside::xxh3_digest;
use crate::phpdoc::{
    abbreviate, abbreviated, docblock_text, literal_form, phpdoc_literal_form,
    render_docblock_type, rendering_candidates, InferredType, Reread,
};
use crate::prefer_casts_method::{
    checked, describes_rule, line_indent, reindent, reindented, LintContext, Node, NodeKind,
    PreferCastsMethodRule, RuleSettings,
};
use crate::rename::{
    by_document, changes_views, compute, prepare, rename_start, renamed, replacement_name,
    PrepareRename, WorkspaceEdit,
};
use crate::reporting::Issue;
use crate::return_tag::{
    contains_return_tag, has_return_tag, innermost_function_like, innermost_site, return_tag_edit,
    tag_edit, TextReplacement,
};
use crate::semantic_tokens::{
    classified, classify, highlights_in, SemanticTokenItem, SemanticTokenKind,
};
use crate::server::{FileAnalysis, FunctionLikeSite, Server, TypeIndex};
use crate::text_map::TextMap;
use crate::token::{token_views, RawToken, Token, TokenKind};

verus! {

// ---- Navigation ----------------------------------------------------------

/// Going to a definition leads to the declaration of the class-like that the name at
/// the cursor names, else of the function, else of the constant, in whatever file
/// that is; else to that of the class member at the cursor; and else nowhere.
pub proof fn law_get_definition(
    server: Server,
    file_id: FileId,
    offset: u32,
    location: Option<SymbolLocation>,
)
    requires
        call_ensures(Server::get_definition, (&server, file_id, offset), location),
    ensures
        ({
            let name = server.resolved_at(file_id, offset);
            let class = if name is Some {
                server.codebase.class_like(name->0.name@)
            } else {
                None
            };
            let function = if name is Some {
                server.codebase.function(name->0.name@)
            } else {
                None
            };
            let constant = if name is Some {
                server.codebase.constant(name->0.name@)
            } else {
                None
            };
            if class is Some {
                lies_at(location, class->0.span)
            } else if function is Some {
                lies_at(location, function->0.span)
            } else if constant is Some {
                lies_at(location, constant->0.span)
            } else {
                match member_at(server, file_id, offset) {
                    Some((range, target)) => lies_at(location, target.declaration),
                    None => location is None,
                }
            }
        }),
{
    assert(location == definition_at(server, file_id, offset));
}

/// A hover is the one that belongs to the cursor.
pub proof fn law_get_context(
    server: Server,
    file_id: FileId,
    offset: u32,
    hover: Option<HoverInfo>,
)
    requires
        call_ensures(Server::get_context, (&server, file_id, offset), hover),
    ensures
        hover_view(hover) == hover_at(server, file_id, offset),
{
}

/// Resolving a member gives the one at the cursor, with the stretch of its name.
pub proof fn law_resolve_static_member(
    server: Server,
    file_id: FileId,
    offset: u32,
    found: Option<(Range, MemberTarget)>,
)
    requires
        call_ensures(Server::resolve_static_member, (&server, file_id, offset), found),
    ensures
        match (member_at(server, file_id, offset), found) {
            (Some((range, member)), Some((shown, target))) => shown == range && target.kind
                == member.kind && target.name@ == member.name && target.declaration
                == member.declaration && (target.class matches Some(class) ==> member.class == Some(
                class@,
            )) && (target.class is None ==> member.class is None),
            (None, None) => true,
            _ => false,
        },
{
    assert(found_view(found) == member_at(server, file_id, offset));
}

/// The member declared at the cursor is given with the stretch of its name.
pub proof fn law_member_declaration_at(
    server: Server,
    file_id: FileId,
    offset: u32,
    found: Option<(Range, MemberTarget)>,
)
    requires
        call_ensures(Server::member_declaration_at, (&server, file_id, offset), found),
    ensures
        found_view(found) == declared_at(server, file_id, offset),
{
}

/// `parent::` names the parent class that is recorded for the class-like around the
/// cursor, `self::` and `static::` that class-like itself, and a name what it resolves
/// to.
pub proof fn law_qualifier_owner(
    server: Server,
    file_id: FileId,
    offset: u32,
    qualifier: MemberQualifier,
    owner: Option<Vec<u8>>,
    index: int,
)
    requires
        call_ensures(Server::qualifier_owner, (&server, file_id, offset, qualifier), owner),
    ensures
        ({
            let named = match owner {
                Some(owner) => Some(owner@),
                None => None,
            };
            let around = server.codebase.class_likes@[index];
            &&& is_around(server.codebase, file_id, offset, offset, index) && qualifier
                == MemberQualifier::Enclosing ==> named == Some(around.name@)
            &&& is_around(server.codebase, file_id, offset, offset, index) && qualifier
                == MemberQualifier::Parent ==> (server.codebase.class_like(
                around.name@,
            ) matches Some(class) ==> (class.direct_parent_class matches Some(parent) ==> named
                == Some(parent@)) && (class.direct_parent_class is None ==> named is None))
            &&& nothing_around(server.codebase, file_id, offset, offset) && (qualifier
                == MemberQualifier::Enclosing || qualifier == MemberQualifier::Parent)
                ==> named is None
            &&& qualifier matches MemberQualifier::Named(at) ==> (server.resolved_at(
                file_id,
                at,
            ) matches Some(name) ==> named == Some(name.name@)) && (server.resolved_at(
                file_id,
                at,
            ) is None ==> named is None)
        }),
{
    crate::laws::members::law_class_around(server.codebase, file_id, offset, offset, index);
    assert(owner_named(server, file_id, offset, qualifier) == match owner {
        Some(owner) => Some(owner@),
        None => None,
    });
}

/// A member of an owner is given as it is declared.
pub proof fn law_member_target(
    server: Server,
    owner: &[u8],
    name: &[u8],
    selector: crate::lookup::MemberSelector,
    target: Option<MemberTarget>,
)
    requires
        call_ensures(Server::member_target, (&server, owner, name, selector), target),
    ensures
        member_of(server.codebase, owner@, name@, selector) == match target {
            Some(target) => Some(target@),
            None => None,
        },
{
}

/// The references of a member are those in all of the server's files.
pub proof fn law_member_references(
    server: Server,
    target: MemberTarget,
    include_declaration: bool,
    out: Vec<SymbolLocation>,
)
    requires
        call_ensures(Server::member_references, (&server, &target, include_declaration), out),
    ensures
        out@ == references_to(
            server,
            target@,
            include_declaration,
            server.files@.len() as int,
        ),
{
}

/// Occurrences are those of the name as a whole.
pub proof fn law_name_occurrences(
    haystack: &[u8],
    name: &[u8],
    kind: MemberKind,
    out: Vec<(u32, u32)>,
)
    requires
        call_ensures(name_occurrences, (haystack, name, kind), out),
    ensures
        out@ == all_occurrences(haystack@, name@, kind),
{
}

/// What stands at a cursor is handed out with its text and its place.
pub proof fn law_at_offset(
    file: &File,
    offset: u32,
    variable: Option<VarAtCursor<'_>>,
    name: Option<NameAtCursor<'_>>,
    member: Option<StaticMemberAtCursor<'_>>,
)
    ensures
        call_ensures(variable_at_offset, (file, offset), variable) ==> match (
            variable,
            variable_extent(file.contents@, offset as int),
        ) {
            (Some(found), Some((start, end))) => found.start == start && found.end == end
                && found.raw@ == file.contents@.subrange(start, end) && found.name@
                == file.contents@.subrange(start + 1, end),
            (None, None) => true,
            _ => false,
        },
        call_ensures(name_at_offset, (file, offset), name) ==> name_at(
            file.token_seq(),
            offset as int,
        ) == match name {
            Some(name) => Some(name@),
            None => None,
        },
        call_ensures(static_member_at_offset, (file, offset), member) ==> static_member(
            file.token_seq(),
            offset as int,
        ) == match member {
            Some(member) => Some(member@),
            None => None,
        },
{
}

/// The tokens of a file are handed out one by one, each with its text.
pub proof fn law_lex(file: &File, tokens: Vec<Token<'_>>, i: int)
    requires
        call_ensures(lex, (file,), tokens),
        0 <= i < tokens@.len(),
    ensures
        tokens@.len() == file.tokens@.len(),
        tokens@[i].kind == file.tokens@[i].kind,
        tokens@[i].start.offset == file.tokens@[i].start,
        tokens@[i].value@ == file.contents@.subrange(
            file.tokens@[i].start as int,
            file.tokens@[i].end as int,
        ),
{
    let views = token_views(tokens@);
    assert(views == file.token_seq());
    assert(views[i] == tokens@[i]@);
    assert(views.len() == file.token_seq().len());
}

/// The steps of the lexer are turned into tokens.
pub proof fn law_lex_uncached(steps: &[Option<Lexeme>], tokens: Vec<RawToken>)
    requires
        call_ensures(lex_uncached, (steps,), tokens),
    ensures
        tokens@ == lexed(steps@),
{
}

// ---- Renaming ------------------------------------------------------------

/// A rename starts from what can be renamed at the cursor.
pub proof fn law_prepare(
    server: &Server,
    file: &File,
    offset: u32,
    prepared: Option<PrepareRename>,
)
    requires
        call_ensures(prepare, (server, file, offset), prepared),
    ensures
        rename_start(*server, *file, offset) == match prepared {
            Some(prepared) => Some((prepared.range, prepared.placeholder@)),
            None => None,
        },
{
}

/// Where a class member is at the cursor the text for its references is a bare name,
/// and exactly the typed one unless it is a static property, which does without a
/// typed `$`. Where a variable is, it is a `$` and the name. A text that is no name is
/// refused.
pub proof fn law_replacement_name(
    server: &Server,
    file: &File,
    offset: u32,
    new_name: &str,
    name: Option<String>,
)
    requires
        call_ensures(replacement_name, (server, file, offset, new_name), name),
    ensures
        ({
            let typed = new_name@;
            let bare = if typed.len() > 0 && typed[0] == '$' {
                typed.subrange(1, typed.len() as int)
            } else {
                typed
            };
            match member_at(*server, file.id, offset) {
                Some((range, member)) => if member.kind == MemberKind::StaticProperty {
                    if is_name(bare) {
                        name is Some && name->0@ == bare
                    } else {
                        name is None
                    }
                } else if is_name(typed) {
                    name is Some && name->0@ == typed
                } else {
                    name is None
                },
                None => if variable_extent(file.contents@, offset as int) is Some {
                    if is_name(bare) {
                        name is Some && name->0@ == "$"@ + bare
                    } else {
                        name is None
                    }
                } else if is_name(typed) {
                    name is Some && name->0@ == typed
                } else {
                    name is None
                },
            }
        }),
{
    law_members_are_renamed_without_a_dollar(*server, *file, offset, new_name@);
    if member_at(*server, file.id, offset) is None {
        law_variables_are_renamed_with_a_dollar(*server, *file, offset, new_name@);
    }
}

/// A rename is made of the documents of all the references and of the one text that
/// takes their place.
pub proof fn law_compute(
    server: &Server,
    file: &File,
    offset: u32,
    new_name: &str,
    references: &[SymbolLocation],
    edit: Option<WorkspaceEdit>,
)
    requires
        call_ensures(compute, (server, file, offset, new_name, references), edit),
    ensures
        renamed(*server, *file, offset, new_name@, references@) == match edit {
            Some(edit) => Some((changes_views(edit.changes@), edit.new_text@)),
            None => None,
        },
        edit matches Some(edit) ==> changes_views(edit.changes@) == by_document(
            *server,
            references@,
            references@.len() as int,
        ),
{
}

// ---- Code actions --------------------------------------------------------

/// The actions for a stretch come in this order: direct fixes, suppressions, file-wide
/// fixes, and last the refactor, if there is one.
pub proof fn law_get_code_actions(
    server: Server,
    file_id: FileId,
    start: u32,
    end: u32,
    actions: Vec<CodeActionItem>,
)
    requires
        call_ensures(Server::get_code_actions, (&server, file_id, start, end), actions),
    ensures
        ({
            let before = direct_fixes(server, file_id, start, end) + suppressions(
                server,
                file_id,
                start,
                end,
            ) + file_wide_actions(file_id, collected_fixes(server, file_id));
            action_views(actions@) == match return_action(server, file_id, start, end) {
                Some(refactor) => before.push(refactor),
                None => before,
            }
        }),
{
    assert(action_views(actions@) == actions_at(server, file_id, start, end));
}

/// The actions of an issue are those that belong to it.
pub proof fn law_actions_of_an_issue(
    server: &Server,
    issue: &Issue,
    file_id: FileId,
    start: u32,
    end: u32,
    category: &str,
    action: Option<CodeActionItem>,
)
    ensures
        call_ensures(action_for, (issue, file_id, start, end), action) ==> action_view(action)
            == fix_action(*issue, file_id, start, end),
        call_ensures(expect_action_for, (server, issue, file_id, start, end, category), action)
            ==> action_view(action) == expect_action(
            *server,
            *issue,
            file_id,
            start,
            end,
            category@,
        ),
        call_ensures(inferred_return_action, (server, file_id, start, end), action) ==> action_view(
            action,
        ) == return_action(*server, file_id, start, end),
{
}

/// Errors and warnings stay such, help becomes a hint and a note information.
pub proof fn law_level_to_severity(level: Level, severity: Severity)
    requires
        call_ensures(level_to_severity, (level,), severity),
    ensures
        level == Level::Error ==> severity == Severity::Error,
        level == Level::Warning ==> severity == Severity::Warning,
        level == Level::Help ==> severity == Severity::Hint,
        level == Level::Note ==> severity == Severity::Information,
{
}

/// A docblock is left alone where it has a return tag, and edited as its shape asks
/// for otherwise.
pub proof fn law_return_tags(
    file: &File,
    site: &FunctionLikeSite,
    rendered: &str,
    edit: Option<TextReplacement>,
    docblock: &[u8],
    yes: bool,
)
    ensures
        call_ensures(contains_return_tag, (docblock,), yes) ==> yes == has_return_tag(docblock@),
        call_ensures(return_tag_edit, (file, site, rendered), edit) ==> tag_edit(
            file.contents@,
            *site,
            rendered@,
        ) == match edit {
            Some(edit) => Some(edit@),
            None => None,
        },
{
}

/// The declaration around a stretch is handed out.
pub proof fn law_innermost_function_like(
    sites: &[FunctionLikeSite],
    start: u32,
    end: u32,
    found: Option<FunctionLikeSite>,
)
    requires
        call_ensures(innermost_function_like, (sites, start, end), found),
    ensures
        found == innermost_site(sites@, start, end, sites@.len() as int),
{
}

/// Types are rendered as they read back.
pub proof fn law_rendered_types(
    rendered: &str,
    form: Option<String>,
    rereads: &[Reread],
    ty: &InferredType,
    title: String,
)
    ensures
        call_ensures(phpdoc_literal_form, (rendered,), form) ==> literal_form(rendered@)
            == match form {
            Some(form) => Some(form@),
            None => None,
        },
        call_ensures(render_docblock_type, (rereads, ty), form) ==> docblock_text(rereads@, *ty)
            == match form {
            Some(form) => Some(form@),
            None => None,
        },
        call_ensures(abbreviate, (rendered,), title) ==> title@ == abbreviated(rendered@),
{
}

// ---- Highlighting --------------------------------------------------------

/// A token is classified by its kind and by the kinds beside it.
pub proof fn law_classify(
    token: &Token<'_>,
    prev: Option<TokenKind>,
    next: Option<TokenKind>,
    kind: Option<SemanticTokenKind>,
)
    requires
        call_ensures(classify, (token, prev, next), kind),
    ensures
        kind == classified(token.kind, prev, next),
{
}

/// The highlights of a file are handed out.
pub proof fn law_get_semantic_tokens(server: Server, file_id: FileId, out: Vec<SemanticTokenItem>)
    requires
        call_ensures(Server::get_semantic_tokens, (&server, file_id), out),
    ensures
        out@ == highlights_in(server, file_id),
{
}

// ---- The rule ------------------------------------------------------------

/// The rule says of a node what there is to say.
pub proof fn law_check(
    rule: PreferCastsMethodRule,
    context: &LintContext,
    node: &Node,
    issue: Option<Issue>,
)
    requires
        call_ensures(PreferCastsMethodRule::check, (&rule, context, node), issue),
    ensures
        checked(rule, *context, *node) == match issue {
            Some(issue) => Some(issue@),
            None => None,
        },
{
}

/// The indent of a line is what blanks it starts with, and later lines are set one
/// level deeper.
pub proof fn law_indents(source: &[u8], offset: usize, text: &str, out: String)
    ensures
        call_ensures(line_indent, (source, offset), out) ==> out@ == blanks(
            source@,
            line_start(source@, offset as int),
            source@.len() as int,
        ),
        call_ensures(reindent, (text,), out) ==> out@ == reindented(text@),
{
}

// ---- Documents and diagnostics -------------------------------------------

/// The files to analyze are the one that an action is about.
pub proof fn law_changed_files(action: &Option<DatabaseAction>, changed: Vec<FileId>)
    requires
        call_ensures(changed_files, (action,), changed),
    ensures
        match *action {
            Some(DatabaseAction::Add { id, contents }) => changed@ == seq![id],
            Some(DatabaseAction::Update { id, contents }) => changed@ == seq![id],
            Some(DatabaseAction::Delete { id }) => changed@ == seq![id],
            Some(DatabaseAction::Reload { id }) => changed@ == seq![id],
            None => changed@.len() == 0,
        },
{
}

/// A change on disk is ignored while the document is open, updates a known file and
/// adds a new one; a deletion removes a known file.
pub proof fn law_changes_on_disk(
    open: &TextMap<OpenDocument>,
    uri: &str,
    id: FileId,
    bytes: Vec<u8>,
    known: bool,
    action: Option<DatabaseAction>,
)
    ensures
        call_ensures(disk_changed, (open, uri, id, bytes, known), action) ==> if open@.dom()
            .contains(uri@) {
            action is None
        } else if known {
            action matches Some(DatabaseAction::Update { id: file, contents }) && file == id
                && contents@ == bytes@
        } else {
            action matches Some(DatabaseAction::Add { id: file, contents }) && file == id
                && contents@ == bytes@
        },
        call_ensures(disk_deleted, (id, known), action) ==> if known {
            action matches Some(DatabaseAction::Delete { id: file }) && file == id
        } else {
            action is None
        },
{
}

/// What is sent after an analysis is what there is to announce, and what is sent for a
/// workspace that is gone clears each of its documents.
pub proof fn law_sent_notifications(
    outcome: &AnalysisOutcome,
    last: &TextMap<Vec<Diagnostic>>,
    out: Vec<Notification>,
)
    ensures
        call_ensures(publications, (outcome,), out) ==> notification_views(out@) == announced(
            *outcome,
        ),
        call_ensures(clear_all, (last,), out) ==> notification_views(out@) == clearing(
            documents(last.entries@),
        ),
{
}

/// Rows of diagnostics are the same when they say the same, one by one.
pub proof fn law_same_diagnostics(left: &Vec<Diagnostic>, right: &Vec<Diagnostic>, yes: bool)
    requires
        call_ensures(same_diagnostics, (left, right), yes),
    ensures
        yes <==> left@.len() == right@.len() && forall|i: int|
            0 <= i < left@.len() ==> (#[trigger] left@[i])@ == right@[i]@,
{
    let one = diagnostic_views(left@);
    let other = diagnostic_views(right@);
    if yes {
        assert(one.len() == other.len());
        assert forall|i: int| 0 <= i < left@.len() implies (#[trigger] left@[i])@ == right@[i]@ by {
            assert(one[i] == other[i]);
        }
    } else if left@.len() == right@.len() && forall|i: int|
        0 <= i < left@.len() ==> (#[trigger] left@[i])@ == right@[i]@ {
        assert(one =~= other);
    }
}

// ---- Workspaces ----------------------------------------------------------

/// A path is routed to the workspace with the longest root that leads to it.
pub proof fn law_routing<W>(
    registry: WorkspaceRegistry<W>,
    path: &Vec<Vec<u8>>,
    index: Option<usize>,
    i: int,
)
    requires
        call_ensures(WorkspaceRegistry::<W>::for_path, (&registry, path), index),
    ensures
        index matches Some(found) ==> found < registry.workspaces@.len() && leads_to(
            components(registry.workspaces@[found as int].root@),
            components(path@),
        ) && (0 <= i < registry.workspaces@.len() && leads_to(
            components(registry.workspaces@[i].root@),
            components(path@),
        ) ==> registry.workspaces@[i].root@.len()
            <= registry.workspaces@[found as int].root@.len()),
        index is None && 0 <= i < registry.workspaces@.len() ==> !leads_to(
            components(registry.workspaces@[i].root@),
            components(path@),
        ),
{
    let count = registry.workspaces@.len() as int;
    crate::backend::law_owner_has_longest_root(registry.workspaces@, components(path@), count);
    assert(owner(registry.workspaces@, components(path@), count) == match index {
        Some(index) => Some(index as int),
        None => None,
    });
}

/// A new folder is wanted once the server is ready, unless it has a workspace already.
pub proof fn law_wanted_folders<W>(
    state: BackendState<WorkspaceRegistry<W>>,
    root: &Vec<Vec<u8>>,
    yes: bool,
)
    requires
        call_ensures(BackendState::<WorkspaceRegistry<W>>::wants_folder, (&state, root), yes),
    ensures
        state is Starting ==> !yes,
        state matches BackendState::Ready(registry) ==> (yes <==> forall|i: int|
            0 <= i < registry.workspaces@.len() ==> components(
                (#[trigger] registry.workspaces@[i]).root@,
            ) != components(root@)),
{
}

/// What follows a build, and what is asked for next.
pub proof fn law_bringing_up(
    root: &str,
    outcome: &BuildOutcome,
    reports: bool,
    step: BuildStep,
    bootstrap: Bootstrap,
    action: BootstrapAction,
)
    ensures
        call_ensures(after_build, (root, outcome, reports), step) ==> step@ == step_after(
            root@,
            *outcome,
            reports,
        ),
        call_ensures(Bootstrap::next_action, (&bootstrap,), action) ==> action@
            == bootstrap.asks_for(),
{
}

/// Progress is told when the editor supports it and has answered.
pub proof fn law_progress(supported: bool, created: bool, yes: bool, root: &str, message: String)
    ensures
        call_ensures(reports_progress, (supported, created), yes) ==> (yes <==> supported
            && created),
        call_ensures(analyzing_message, (root,), message) ==> message@ == "Analyzing "@ + root@,
{
}

/// A handler is slow from fifty milliseconds on.
pub proof fn law_slow_handlers(millis: u128, yes: bool)
    requires
        call_ensures(is_slow, (millis,), yes),
    ensures
        yes <==> millis >= 50,
{
}

/// The totals are the number of analyses and of all their lint issues.
pub proof fn law_totals(server: &Server, totals: (usize, usize))
    requires
        call_ensures(analysis_totals, (server,), totals),
    ensures
        totals.0 == server.analyses@.len(),
        totals.1 == lint_issue_count(server.analyses@, server.analyses@.len() as int),
{
}

// ---- Files ---------------------------------------------------------------

/// An offset falls on the line of the newlines before it, and that line starts behind
/// the last of them.
pub proof fn law_lines_of_a_file(file: File, offset: u32, line: u32)
    ensures
        call_ensures(File::line_number, (&file, offset), line) ==> line == newlines_before(
            file.contents@,
            offset as int,
        ),
        call_ensures(File::line_start_at, (&file, offset), line) ==> line == line_start(
            file.contents@,
            offset as int,
        ),
{
}

/// What is looked up by id is the file, the analysis and the types of that id.
pub proof fn law_server_lookups(
    server: Server,
    id: FileId,
    file: Option<&File>,
    analysis: Option<&FileAnalysis>,
    types: Option<&TypeIndex>,
)
    ensures
        call_ensures(Server::get_file, (&server, id), file) ==> server.file(id) == match file {
            Some(file) => Some(*file),
            None => None,
        },
        call_ensures(Server::file_analysis_for, (&server, id), analysis) ==> server.analysis(id)
            == match analysis {
            Some(analysis) => Some(*analysis),
            None => None,
        },
        call_ensures(Server::type_index_for, (&server, id), types) ==> server.type_index(id)
            == match types {
            Some(types) => Some(*types),
            None => None,
        },
{
}

/// A file is made where it is not too long and its tokens fit, of all of its parts.
pub proof fn law_new_file(
    id: FileId,
    uri: Option<String>,
    file_type: FileType,
    contents: Vec<u8>,
    tokens: Vec<RawToken>,
    file: Option<File>,
)
    requires
        call_ensures(File::new, (id, uri, file_type, contents, tokens), file),
    ensures
        file is Some <==> contents@.len() <= 0xffff_ffff && tokens_fit(tokens@, contents@.len()),
        file matches Some(file) ==> file.id == id && file.uri == uri && file.file_type == file_type
            && file.contents == contents && file.tokens == tokens && file.wf(),
{
}

/// A codebase is made where each of its class-likes is well-formed, of all of its
/// symbols.
pub proof fn law_new_codebase(
    class_likes: Vec<ClassLikeMetadata>,
    functions: Vec<FunctionLikeMetadata>,
    constants: Vec<ConstantMetadata>,
    codebase: Option<CodebaseMetadata>,
)
    requires
        call_ensures(CodebaseMetadata::new, (class_likes, functions, constants), codebase),
    ensures
        codebase is Some <==> forall|i: int|
            0 <= i < class_likes@.len() ==> (#[trigger] class_likes@[i]).wf(),
        codebase matches Some(codebase) ==> codebase.class_likes == class_likes
            && codebase.functions == functions && codebase.constants == constants,
{
}

/// A server is made where each of its files has an id of its own, of all of its parts.
pub proof fn law_new_server(
    files: Vec<File>,
    codebase: CodebaseMetadata,
    analyses: Vec<FileAnalysis>,
    type_indexes: Vec<TypeIndex>,
    rereads: Vec<Reread>,
    last_issues: Option<Vec<Issue>>,
    server: Option<Server>,
)
    requires
        call_ensures(
            Server::new,
            (files, codebase, analyses, type_indexes, rereads, last_issues),
            server,
        ),
    ensures
        server is Some <==> forall|i: int, j: int|
            0 <= i < j < files@.len() ==> (#[trigger] files@[i]).id != (#[trigger] files@[j]).id,
        server matches Some(server) ==> server.files == files && server.codebase == codebase
            && server.analyses == analyses && server.type_indexes == type_indexes
            && server.rereads == rereads && server.last_issues == last_issues,
{
}

/// Remembered tokens are handed out for the contents that they were made of.
pub proof fn law_cached_entry(
    cache: LexCache,
    id: FileId,
    contents: &[u8],
    tokens: Option<&Vec<RawToken>>,
)
    requires
        call_ensures(LexCache::cached_entry, (&cache, id, contents), tokens),
    ensures
        tokens is Some <==> cache@.dom().contains(id) && cache@[id].0 == xxh3_digest(contents@),
        tokens matches Some(tokens) ==> tokens@ == cache@[id].1,
{
}

/// Once the server is ready a path leads to the workspace that owns it.
pub proof fn law_workspace_for<W>(
    state: BackendState<WorkspaceRegistry<W>>,
    path: &Vec<Vec<u8>>,
    workspace: Option<&Workspace<W>>,
)
    requires
        call_ensures(
            BackendState::<WorkspaceRegistry<W>>::workspace_for,
            (&state, path),
            workspace,
        ),
    ensures
        state is Starting ==> workspace is None,
        state matches BackendState::Ready(registry) ==> match owner(
            registry.workspaces@,
            components(path@),
            registry.workspaces@.len() as int,
        ) {
            Some(index) => workspace is Some && *workspace->0 == registry.workspaces@[index],
            None => workspace is None,
        },
{
}

/// The candidates for a rendering are the source form, where there is one, and the type
/// as it is shown.
pub proof fn law_rendering_candidates(id: &str, candidates: Vec<String>)
    requires
        call_ensures(rendering_candidates, (id,), candidates),
    ensures
        candidates@.last()@ == id@,
        literal_form(id@) matches Some(form) ==> candidates@.len() == 2 && candidates@[0]@ == form,
        literal_form(id@) is None ==> candidates@.len() == 1,
{
}

/// The rule looks at properties, is set up as it was asked to be, and tells what is to
/// be told of it.
pub proof fn law_rule_is_set_up(
    settings: &RuleSettings,
    rule: PreferCastsMethodRule,
    targets: Vec<NodeKind>,
)
    ensures
        call_ensures(PreferCastsMethodRule::build, (settings,), rule) ==> rule.cfg.level
            == settings.config.level && describes_rule(rule.meta),
        call_ensures(PreferCastsMethodRule::targets, (), targets) ==> targets@ == seq![
            NodeKind::Property,
        ],
{
}

} // verus!
