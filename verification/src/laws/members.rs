//! Laws on class members: where a name leads, and what refers to a declaration.

use vstd::prelude::*;

use crate::ascii::{equal_ignoring_case, DOLLAR};
use crate::codebase::{ClassLikeMetadata, CodebaseMetadata};
use crate::domain::{FileId, FileType, Range, Span, SymbolLocation};
use crate::lookup::{
    identifier_byte, name_at, static_member, MemberQualifier, MemberSelector,
};
use crate::member::{
    all_occurrences, at_declaration, class_around, declared_at, declared_in, found_view, innermost,
    innermost_class, keyword_text, law_innermost_class_is_tightest, law_occurrences_are_exact,
    member_at, member_of, names_at, owner_named, references_in, references_of_file, references_to,
    refers_to, same_member_name, span_at, span_covers, span_range, spelled_there, used_at,
    without_dollar, MemberKind, MemberTarget, MemberTargetView,
};
use crate::server::Server;

verus! {

// ---- Spans ---------------------------------------------------------------

/// A span covers its file's offsets from its start up to its end.
pub proof fn law_spans(span: Span, file_id: FileId, offset: u32)
    ensures
        span_covers(span, file_id, offset) <==> span.file_id == file_id && span.start.offset
            <= offset && offset < span.end.offset,
        span_range(span).start == span.start.offset && span_range(span).end == span.end.offset,
        span.start.offset < 0xffff_ffff ==> without_dollar(span).start.offset == span.start.offset
            + 1 && without_dollar(span).end == span.end && without_dollar(span).file_id
            == span.file_id,
{
}

/// A name takes up as many bytes as it has, from where it starts.
pub proof fn law_name_spans(file_id: FileId, start: u32, length: int)
    requires
        0 <= length,
        start + length <= 0xffff_ffff,
    ensures
        span_at(file_id, start, length).file_id == file_id,
        span_at(file_id, start, length).start.offset == start,
        span_at(file_id, start, length).end.offset == start + length,
{
}

// ---- Kinds ---------------------------------------------------------------

/// Each kind of member is shown with its own keyword.
pub proof fn law_member_keywords(kind: MemberKind)
    ensures
        kind == MemberKind::EnumCase ==> keyword_text(kind) == "case"@,
        kind == MemberKind::ClassConstant ==> keyword_text(kind) == "const"@,
        kind == MemberKind::StaticMethod ==> keyword_text(kind) == "static function"@,
        kind == MemberKind::StaticProperty ==> keyword_text(kind) == "static"@,
{
}

/// The names of methods are compared ignoring case, those of all other members
/// exactly.
pub proof fn law_member_names(text: Seq<u8>, name: Seq<u8>, kind: MemberKind)
    ensures
        kind == MemberKind::StaticMethod ==> (same_member_name(text, name, kind)
            <==> equal_ignoring_case(text, name)),
        kind != MemberKind::StaticMethod ==> (same_member_name(text, name, kind) <==> text == name),
{
}

// ---- Enclosing class-likes -----------------------------------------------

/// The class-like at `index` is the one around `start` to `end`: it contains the
/// stretch, none that does is shorter, and none before it is as short.
pub open spec fn is_around(
    codebase: CodebaseMetadata,
    file_id: FileId,
    start: u32,
    end: u32,
    index: int,
) -> bool {
    &&& 0 <= index < codebase.class_likes@.len()
    &&& contains(codebase.class_likes@[index], file_id, start, end)
    &&& forall|i: int|
        0 <= i < codebase.class_likes@.len() && contains(
            #[trigger] codebase.class_likes@[i],
            file_id,
            start,
            end,
        ) ==> length(codebase.class_likes@[index]) <= length(codebase.class_likes@[i]) && (i
            < index ==> length(codebase.class_likes@[index]) < length(codebase.class_likes@[i]))
}

/// The class-like is in the file, starts at or before `start` and ends at or behind
/// `end`.
pub open spec fn contains(meta: ClassLikeMetadata, file_id: FileId, start: u32, end: u32) -> bool {
    meta.span.file_id == file_id && meta.span.start.offset <= start && end <= meta.span.end.offset
}

/// How many bytes the class-like takes up.
pub open spec fn length(meta: ClassLikeMetadata) -> int {
    meta.span.end.offset - meta.span.start.offset
}

/// Nothing contains the stretch.
pub open spec fn nothing_around(
    codebase: CodebaseMetadata,
    file_id: FileId,
    start: u32,
    end: u32,
) -> bool {
    forall|i: int|
        0 <= i < codebase.class_likes@.len() ==> !contains(
            #[trigger] codebase.class_likes@[i],
            file_id,
            start,
            end,
        )
}

proof fn lemma_innermost_is_first(
    classes: Seq<ClassLikeMetadata>,
    file_id: FileId,
    start: u32,
    end: u32,
    count: int,
)
    requires
        0 <= count <= classes.len(),
    ensures
        innermost(classes, file_id, start, end, count) matches Some(index) ==> 0 <= index < count
            && contains(classes[index], file_id, start, end) && forall|i: int|
            0 <= i < index && contains(#[trigger] classes[i], file_id, start, end) ==> length(
                classes[index],
            ) < length(classes[i]),
    decreases count,
{
    if count > 0 {
        lemma_innermost_is_first(classes, file_id, start, end, count - 1);
        law_innermost_class_is_tightest(classes, file_id, start, end, count - 1);
    }
}

/// The class-like around a stretch is the shortest that contains it, and among
/// equally short ones the first.
pub proof fn law_class_around(
    codebase: CodebaseMetadata,
    file_id: FileId,
    start: u32,
    end: u32,
    index: int,
)
    ensures
        is_around(codebase, file_id, start, end, index) ==> innermost_class(
            codebase,
            file_id,
            start,
            end,
        ) == Some(codebase.class_likes@[index]),
        nothing_around(codebase, file_id, start, end) ==> innermost_class(
            codebase,
            file_id,
            start,
            end,
        ) is None,
{
    let classes = codebase.class_likes@;
    let count = classes.len() as int;
    lemma_innermost_is_first(classes, file_id, start, end, count);
    law_innermost_class_is_tightest(classes, file_id, start, end, count);
    if is_around(codebase, file_id, start, end, index) {
        assert(contains(classes[index], file_id, start, end));
        if let Some(found) = innermost(classes, file_id, start, end, count) {
            assert(contains(classes[found], file_id, start, end));
            if found < index {
                assert(length(classes[index]) < length(classes[found]));
            } else if index < found {
                assert(length(classes[found]) < length(classes[index]));
            }
        }
    }
}

/// A declaration belongs to the class-like around it.
pub proof fn law_class_of_a_declaration(codebase: CodebaseMetadata, span: Span, index: int)
    ensures
        is_around(codebase, span.file_id, span.start.offset, span.end.offset, index)
            ==> class_around(codebase, span) == Some(codebase.class_likes@[index].name@),
        nothing_around(codebase, span.file_id, span.start.offset, span.end.offset) ==> class_around(
            codebase,
            span,
        ) is None,
{
    law_class_around(codebase, span.file_id, span.start.offset, span.end.offset, index);
}

// ---- Qualifiers ----------------------------------------------------------

/// `self::` and `static::` stand for the class-like around the cursor.
pub proof fn law_self_is_the_class_around(server: Server, file_id: FileId, offset: u32, index: int)
    ensures
        is_around(server.codebase, file_id, offset, offset, index) ==> owner_named(
            server,
            file_id,
            offset,
            MemberQualifier::Enclosing,
        ) == Some(server.codebase.class_likes@[index].name@),
        nothing_around(server.codebase, file_id, offset, offset) ==> owner_named(
            server,
            file_id,
            offset,
            MemberQualifier::Enclosing,
        ) is None,
{
    law_class_around(server.codebase, file_id, offset, offset, index);
}

/// `parent::` stands for the parent class that is recorded for the class-like around
/// the cursor, and for nothing where none is recorded.
pub proof fn law_parent_is_the_recorded_parent(
    server: Server,
    file_id: FileId,
    offset: u32,
    index: int,
)
    ensures
        is_around(server.codebase, file_id, offset, offset, index) ==> (
        server.codebase.class_like(server.codebase.class_likes@[index].name@) matches Some(class)
            ==> {
            &&& class.direct_parent_class matches Some(parent) ==> owner_named(
                server,
                file_id,
                offset,
                MemberQualifier::Parent,
            ) == Some(parent@)
            &&& class.direct_parent_class is None ==> owner_named(
                server,
                file_id,
                offset,
                MemberQualifier::Parent,
            ) is None
        }),
        nothing_around(server.codebase, file_id, offset, offset) ==> owner_named(
            server,
            file_id,
            offset,
            MemberQualifier::Parent,
        ) is None,
{
    law_class_around(server.codebase, file_id, offset, offset, index);
}

/// A name in front of `::` stands for what it resolves to in its file.
pub proof fn law_named_owner_is_what_the_name_resolves_to(
    server: Server,
    file_id: FileId,
    offset: u32,
    at: u32,
)
    ensures
        server.resolved_at(file_id, at) matches Some(name) ==> owner_named(
            server,
            file_id,
            offset,
            MemberQualifier::Named(at),
        ) == Some(name.name@),
        server.resolved_at(file_id, at) is None ==> owner_named(
            server,
            file_id,
            offset,
            MemberQualifier::Named(at),
        ) is None,
{
}

// ---- Members of an owner -------------------------------------------------

/// A called member is the static method that the owner has, its own or inherited:
/// where it is declared, under the name it is written there, in the class that
/// declares it.
pub proof fn law_called_member(codebase: CodebaseMetadata, owner: Seq<u8>, name: Seq<u8>)
    ensures
        ({
            let found = member_of(codebase, owner, name, MemberSelector::Method);
            match codebase.declaring_method(owner, name) {
                Some(method) => if method.is_static && method.name_span is Some {
                    found is Some && found->0.kind == MemberKind::StaticMethod && found->0.name
                        == method.original_name@ && found->0.declaration == method.name_span->0
                        && found->0.class == codebase.declaring_method_class(owner, name)
                } else {
                    found is None
                },
                None => found is None,
            }
        }),
{
}

/// A member written with a `$` is the static property that the owner has, its own or
/// inherited: its declaration is the name behind the `$`.
pub proof fn law_member_with_a_dollar(codebase: CodebaseMetadata, owner: Seq<u8>, name: Seq<u8>)
    ensures
        ({
            let key = seq![0x24u8] + name;
            let found = member_of(codebase, owner, name, MemberSelector::Property);
            match codebase.declaring_property(owner, key) {
                Some(property) => if property.is_static && property.name_span is Some {
                    let span = property.name_span->0;
                    found is Some && found->0.kind == MemberKind::StaticProperty && found->0.name
                        == name && (span.start.offset < 0xffff_ffff
                        ==> found->0.declaration.start.offset == span.start.offset + 1)
                        && found->0.declaration.end == span.end && found->0.declaration.file_id
                        == span.file_id && found->0.class == codebase.declaring_property_class(
                        owner,
                        key,
                    )
                } else {
                    found is None
                },
                None => found is None,
            }
        }),
{
    assert(seq![0x24u8] =~= seq![DOLLAR]);
}

/// Any other member is the case of that name, and only where there is none the
/// constant: its declaration is the name that the constant's span starts with. The
/// class is the one around the declaration.
pub proof fn law_plain_member(codebase: CodebaseMetadata, owner: Seq<u8>, name: Seq<u8>)
    ensures
        ({
            let found = member_of(codebase, owner, name, MemberSelector::Constant);
            match codebase.enum_case(owner, name) {
                Some(case) => found is Some && found->0.kind == MemberKind::EnumCase
                    && found->0.name == name && found->0.declaration == case.name_span
                    && found->0.class == class_around(codebase, case.name_span),
                None => match codebase.class_constant(owner, name) {
                    Some(constant) => found is Some && found->0.kind == MemberKind::ClassConstant
                        && found->0.name == name && found->0.declaration.file_id
                        == constant.span.file_id && found->0.declaration.start
                        == constant.span.start && (constant.span.start.offset + name.len()
                        <= 0xffff_ffff ==> found->0.declaration.end.offset
                        == constant.span.start.offset + name.len()) && found->0.class
                        == class_around(codebase, found->0.declaration),
                    None => found is None,
                },
            }
        }),
{
}

// ---- Uses ----------------------------------------------------------------

/// A declaration is real when its span lies in a known file and spells the member's
/// name there.
pub proof fn law_real_declaration(server: Server, target: MemberTargetView)
    ensures
        spelled_there(server, target) <==> server.file(target.declaration.file_id) is Some && {
            let contents = server.file(target.declaration.file_id)->0.contents@;
            let start = target.declaration.start.offset as int;
            let end = target.declaration.end.offset as int;
            start <= end && end <= contents.len() && same_member_name(
                contents.subrange(start, end),
                target.name,
                target.kind,
            )
        },
{
}

/// A name behind a `::` leads to the member of that name that the owner has, and to
/// nothing where its declaration is not real. The range is that of the name.
pub proof fn law_use_leads_to_the_owners_member(server: Server, file_id: FileId, offset: u32)
    ensures
        server.file(file_id) is None ==> used_at(server, file_id, offset) is None,
        server.file(file_id) matches Some(file) ==> match static_member(
            file.token_seq(),
            offset as int,
        ) {
            Some(cursor) => match owner_named(server, file_id, offset, cursor.qualifier) {
                Some(owner) => match member_of(
                    server.codebase,
                    owner,
                    cursor.name,
                    cursor.selector,
                ) {
                    Some(target) => if spelled_there(server, target) {
                        used_at(server, file_id, offset) == Some(
                            (Range { start: cursor.start, end: cursor.end }, target),
                        )
                    } else {
                        used_at(server, file_id, offset) is None
                    },
                    None => used_at(server, file_id, offset) is None,
                },
                None => used_at(server, file_id, offset) is None,
            },
            None => used_at(server, file_id, offset) is None,
        },
{
}

/// `parent::name()` leads to the declaration in the parent class, also where the
/// class around the call declares a method of that name itself.
pub proof fn law_parent_call_leads_to_the_parent(
    server: Server,
    file_id: FileId,
    offset: u32,
    index: int,
    class: ClassLikeMetadata,
    parent: ClassLikeMetadata,
    declaration: Span,
)
    requires
        server.file(file_id) is Some,
        static_member(server.file(file_id)->0.token_seq(), offset as int) matches Some(cursor)
            && cursor.qualifier == MemberQualifier::Parent && cursor.selector
            == MemberSelector::Method && {
            &&& is_around(server.codebase, file_id, offset, offset, index)
            &&& server.codebase.class_like(server.codebase.class_likes@[index].name@) == Some(class)
            &&& class.direct_parent_class is Some
            &&& server.codebase.class_like(class.direct_parent_class->0@) == Some(parent)
            // The parent declares the method itself.
            &&& server.codebase.declaring_method_class(
                class.direct_parent_class->0@,
                cursor.name,
            ) is None || server.codebase.class_like(
                server.codebase.declaring_method_class(
                    class.direct_parent_class->0@,
                    cursor.name,
                )->0,
            ) == Some(parent)
            &&& server.codebase.method(class.direct_parent_class->0@, cursor.name) matches Some(
                method,
            ) && method.is_static && method.name_span == Some(declaration) && {
                // Its declaration is real.
                &&& server.file(declaration.file_id) is Some
                &&& declaration.start.offset <= declaration.end.offset
                &&& declaration.end.offset <= server.file(
                    declaration.file_id,
                )->0.contents@.len()
                &&& equal_ignoring_case(
                    server.file(declaration.file_id)->0.contents@.subrange(
                        declaration.start.offset as int,
                        declaration.end.offset as int,
                    ),
                    method.original_name@,
                )
            }
        },
    ensures
        used_at(server, file_id, offset) matches Some((range, target)) && target.declaration
            == declaration && target.kind == MemberKind::StaticMethod,
{
    law_class_around(server.codebase, file_id, offset, offset, index);
}

// ---- Declarations --------------------------------------------------------

/// At its declaration a member is found by the name under the cursor in the class
/// around it: a static property where the name has a `$`, else a case, else a
/// constant, else a static method, each only where its own name is under the cursor.
pub proof fn law_declared_members(
    codebase: CodebaseMetadata,
    class: Seq<u8>,
    cursor: crate::lookup::NameView,
    file_id: FileId,
    offset: u32,
)
    ensures
        codebase.class_like(class) is None ==> declared_in(
            codebase,
            class,
            cursor,
            file_id,
            offset,
        ) is None,
        codebase.class_like(class) matches Some(meta) ==> {
            let found = declared_in(codebase, class, cursor, file_id, offset);
            let case = meta.enum_case(cursor.name);
            let constant = meta.constant(cursor.name);
            let method = codebase.method(class, cursor.name);
            let property = meta.property(seq![0x24u8] + cursor.name);
            let at_case = case is Some && is_on(case->0.name_span, file_id, offset);
            let at_constant = constant is Some && is_on(
                span_at(
                    constant->0.span.file_id,
                    constant->0.span.start.offset,
                    cursor.name.len() as int,
                ),
                file_id,
                offset,
            );
            let at_method = method is Some && method->0.is_static && method->0.name_span is Some
                && is_on(method->0.name_span->0, file_id, offset);
            let at_property = property is Some && property->0.is_static
                && property->0.name_span is Some && is_on(
                without_dollar(property->0.name_span->0),
                file_id,
                offset,
            );
            if cursor.is_variable {
                if at_property {
                    found is Some && is_declared(
                        found->0,
                        MemberKind::StaticProperty,
                        cursor.name,
                        without_dollar(property->0.name_span->0),
                        meta.name@,
                    )
                } else {
                    found is None
                }
            } else if at_case {
                found is Some && is_declared(
                    found->0,
                    MemberKind::EnumCase,
                    cursor.name,
                    case->0.name_span,
                    meta.name@,
                )
            } else if at_constant {
                found is Some && is_declared(
                    found->0,
                    MemberKind::ClassConstant,
                    cursor.name,
                    span_at(
                        constant->0.span.file_id,
                        constant->0.span.start.offset,
                        cursor.name.len() as int,
                    ),
                    meta.name@,
                )
            } else if at_method {
                found is Some && is_declared(
                    found->0,
                    MemberKind::StaticMethod,
                    method->0.original_name@,
                    method->0.name_span->0,
                    meta.name@,
                )
            } else {
                found is None
            }
        },
{
    assert(seq![0x24u8] =~= seq![DOLLAR]);
}

/// The span covers the offset of the file.
pub open spec fn is_on(span: Span, file_id: FileId, offset: u32) -> bool {
    span.file_id == file_id && span.start.offset <= offset && offset < span.end.offset
}

/// What was found is the declaration at `span`, and its range is that of the span.
pub open spec fn is_declared(
    found: (Range, MemberTargetView),
    kind: MemberKind,
    name: Seq<u8>,
    span: Span,
    class: Seq<u8>,
) -> bool {
    &&& found.0.start == span.start.offset
    &&& found.0.end == span.end.offset
    &&& found.1.kind == kind
    &&& found.1.name == name
    &&& found.1.declaration == span
    &&& found.1.class == Some(class)
}

/// A declaration is looked for in the class-like around the cursor, by the name
/// under it.
pub proof fn law_declaration_is_looked_for_in_the_class_around(
    server: Server,
    file_id: FileId,
    offset: u32,
    index: int,
)
    ensures
        server.file(file_id) is None ==> declared_at(server, file_id, offset) is None,
        nothing_around(server.codebase, file_id, offset, offset) ==> declared_at(
            server,
            file_id,
            offset,
        ) is None,
        server.file(file_id) matches Some(file) ==> (name_at(
            file.token_seq(),
            offset as int,
        ) is None ==> declared_at(server, file_id, offset) is None) && (name_at(
            file.token_seq(),
            offset as int,
        ) matches Some(cursor) ==> (is_around(server.codebase, file_id, offset, offset, index)
            ==> declared_at(server, file_id, offset) == declared_in(
            server.codebase,
            server.codebase.class_likes@[index].name@,
            cursor,
            file_id,
            offset,
        ))),
{
    law_class_around(server.codebase, file_id, offset, offset, index);
}

/// A cursor on a declaration means what is declared there, any other what is used
/// there.
pub proof fn law_declarations_come_before_uses(server: Server, file_id: FileId, offset: u32)
    ensures
        declared_at(server, file_id, offset) is Some ==> member_at(server, file_id, offset)
            == declared_at(server, file_id, offset),
        declared_at(server, file_id, offset) is None ==> member_at(server, file_id, offset)
            == used_at(server, file_id, offset),
{
}

/// The view of a member and of what was found tells all that they hold.
pub proof fn law_member_views(target: MemberTarget, range: Range)
    ensures
        target@.kind == target.kind && target@.name == target.name@ && target@.declaration
            == target.declaration,
        target.class matches Some(class) ==> target@.class == Some(class@),
        target.class is None ==> target@.class is None,
        found_view(Some((range, target))) == Some((range, target@)),
        found_view(None) is None,
{
}

// ---- Occurrences and references ------------------------------------------

/// A name occurs where its bytes stand, those of a method in any case, with no
/// letter, digit, `_` or byte beyond ASCII on either side.
pub proof fn law_whole_names(haystack: Seq<u8>, name: Seq<u8>, kind: MemberKind, start: int)
    ensures
        names_at(haystack, name, kind, start) <==> {
            &&& 0 <= start
            &&& start + name.len() <= haystack.len()
            &&& if kind == MemberKind::StaticMethod {
                equal_ignoring_case(haystack.subrange(start, start + name.len()), name)
            } else {
                haystack.subrange(start, start + name.len()) == name
            }
            &&& start == 0 || !identifier_byte(haystack[start - 1])
            &&& start + name.len() == haystack.len() || !identifier_byte(
                haystack[start + name.len()],
            )
        },
{
}

/// The occurrences of a name are all the places where it stands whole, in order; an
/// empty name has none.
pub proof fn law_occurrences(haystack: Seq<u8>, name: Seq<u8>, kind: MemberKind, start: int)
    requires
        haystack.len() <= 0xffff_ffff,
    ensures
        ({
            let hits = all_occurrences(haystack, name, kind);
            &&& name.len() == 0 ==> hits.len() == 0
            &&& name.len() > 0 ==> (names_at(haystack, name, kind, start) <==> exists|k: int|
                0 <= k < hits.len() && (#[trigger] hits[k]).0 == start)
            &&& forall|k: int|
                0 <= k < hits.len() ==> (#[trigger] hits[k]).1 == hits[k].0 + name.len()
            &&& forall|k: int, l: int|
                0 <= k < l < hits.len() ==> (#[trigger] hits[k]).0 < (#[trigger] hits[l]).0
        }),
{
    if name.len() > 0 {
        law_occurrences_are_exact(haystack, name, kind, start);
    }
}

/// An occurrence refers to a member when the member at it has the same declaration
/// and takes up exactly that stretch.
pub proof fn law_reference(
    server: Server,
    file_id: FileId,
    hit: (u32, u32),
    target: MemberTargetView,
)
    ensures
        refers_to(server, file_id, hit, target) <==> exists|found: MemberTargetView|
            found.declaration == target.declaration && #[trigger] member_at(server, file_id, hit.0)
                == Some((Range { start: hit.0, end: hit.1 }, found)),
        at_declaration(target, file_id, hit.0) <==> target.declaration.file_id == file_id
            && target.declaration.start.offset == hit.0,
{
    if let Some((range, found)) = member_at(server, file_id, hit.0) {
        assert(found.declaration == target.declaration ==> (range == (Range {
            start: hit.0,
            end: hit.1,
        }) ==> refers_to(server, file_id, hit, target)));
    }
}

/// The references in a file are the occurrences that refer to the member, in order,
/// the declaration among them only where it is asked for.
pub proof fn law_references_in_a_file(
    server: Server,
    file_id: FileId,
    hits: Seq<(u32, u32)>,
    target: MemberTargetView,
    include_declaration: bool,
    count: int,
)
    requires
        0 <= count < hits.len(),
    ensures
        ({
            let before = references_in(
                server,
                file_id,
                hits,
                target,
                include_declaration,
                count,
            );
            let after = references_in(
                server,
                file_id,
                hits,
                target,
                include_declaration,
                count + 1,
            );
            if refers_to(server, file_id, hits[count], target) && (include_declaration || !(
            target.declaration.file_id == file_id && target.declaration.start.offset
                == hits[count].0)) {
                after.len() == before.len() + 1 && after.drop_last() == before && after.last().file
                    == file_id && after.last().range.start == hits[count].0
                    && after.last().range.end == hits[count].1
            } else {
                after == before
            }
        }),
        references_in(server, file_id, hits, target, include_declaration, 0).len() == 0,
{
    let before = references_in(server, file_id, hits, target, include_declaration, count);
    let location = SymbolLocation {
        file: file_id,
        range: Range { start: hits[count].0, end: hits[count].1 },
    };
    assert(before.push(location).drop_last() =~= before);
}

/// References are looked for in the project's own files, one file after the other,
/// among the occurrences of the member's name.
pub proof fn law_references_go_file_by_file(
    server: Server,
    target: MemberTargetView,
    include_declaration: bool,
    count: int,
)
    requires
        0 <= count < server.files@.len(),
    ensures
        references_to(server, target, include_declaration, 0).len() == 0,
        references_to(server, target, include_declaration, count + 1) == references_to(
            server,
            target,
            include_declaration,
            count,
        ) + references_of_file(server, count, target, include_declaration),
        server.files@[count].file_type == FileType::Host ==> references_of_file(
            server,
            count,
            target,
            include_declaration,
        ) == references_in(
            server,
            server.files@[count].id,
            all_occurrences(server.files@[count].contents@, target.name, target.kind),
            target,
            include_declaration,
            all_occurrences(server.files@[count].contents@, target.name, target.kind).len() as int,
        ),
        server.files@[count].file_type != FileType::Host ==> references_of_file(
            server,
            count,
            target,
            include_declaration,
        ).len() == 0,
{
}

} // verus!
