//! Resolving `::`-accessed class members to their declarations.
//!
//! Name resolution only knows about *names*: class-likes, functions, and global
//! constants. The right-hand side of a `::` is a member selector, so it never
//! appears there. This module fills that gap.
//!
//! # Identity is the declaration span
//!
//! Inherited constants, methods, and properties appear in every descendant's
//! metadata, but the entries keep the span of the original declaration. That
//! makes the declaration's name span a natural identity for a member: two
//! occurrences refer to the same member exactly when they resolve to the same
//! span. Comparing spans gets inheritance, interface constants, and trait members
//! right without walking the hierarchy by hand.
//!
//! # Scope
//!
//! Only `::` access is handled. An instance access (`$foo->bar`) needs the
//! receiver's inferred type to name an owner, which is a different problem with
//! different failure modes; a `::` qualifier is always `self`, `static`,
//! `parent`, or a resolvable name.

use vstd::prelude::*;

use crate::ascii::{equal_ignoring_case, same_bytes, same_ignoring_case, DOLLAR};
use crate::codebase::{
    class_named, constant_fits, function_named, member_constant_named, property_fits,
    property_named, ClassLikeMetadata, CodebaseMetadata, FunctionLikeMetadata,
};
use crate::domain::{bytes_of, FileId, FileType, Position, Range, Span, SymbolLocation};
use crate::file::File;
use crate::lookup::{
    identifier_byte, is_identifier_byte, lemma_file_tokens_apart, lemma_token_covering, name_at,
    name_at_offset, static_member, static_member_at_offset, MemberQualifier, MemberSelector,
    NameView,
};
use crate::seqs::{first_from, lemma_first_from};
use crate::server::{lemma_file_of_id, lemma_server_file, Server};

verus! {

/// The kind of class member a cursor resolved to.
#[derive(Debug, Clone, Copy, PartialEq, Eq, Structural)]
pub enum MemberKind {
    EnumCase,
    ClassConstant,
    StaticMethod,
    StaticProperty,
}

/// The keyword that introduces a member of this kind.
pub open spec fn keyword_text(kind: MemberKind) -> Seq<char> {
    match kind {
        MemberKind::EnumCase => "case"@,
        MemberKind::ClassConstant => "const"@,
        MemberKind::StaticMethod => "static function"@,
        MemberKind::StaticProperty => "static"@,
    }
}

impl MemberKind {
    /// PHP matches method names case-insensitively; every other member kind is
    /// case-sensitive.
    #[must_use]
    pub fn is_case_insensitive(self) -> (yes: bool)
        ensures
            yes == (self == MemberKind::StaticMethod),
    {
        matches!(self, MemberKind::StaticMethod)
    }

    /// The keyword to show for this kind in hover text.
    #[must_use]
    pub fn keyword(self) -> (word: &'static str)
        ensures
            word@ == keyword_text(self),
    {
        match self {
            MemberKind::EnumCase => "case",
            MemberKind::ClassConstant => "const",
            MemberKind::StaticMethod => "static function",
            MemberKind::StaticProperty => "static",
        }
    }
}

/// A `::`-accessed member the cursor resolved to.
#[derive(Debug)]
pub struct MemberTarget {
    pub kind: MemberKind,
    /// Member name as declared, without the `$` of a static property.
    pub name: Vec<u8>,
    /// Span of the member's name at its declaration site.
    ///
    /// Doubles as the member's identity — see the module docs.
    pub declaration: Span,
    /// Name of the class-like that declares the member, when it could be
    /// determined.
    pub class: Option<Vec<u8>>,
}

/// What a [`MemberTarget`] says.
pub struct MemberTargetView {
    pub kind: MemberKind,
    pub name: Seq<u8>,
    pub declaration: Span,
    pub class: Option<Seq<u8>>,
}

impl View for MemberTarget {
    type V = MemberTargetView;

    open spec fn view(&self) -> MemberTargetView {
        MemberTargetView {
            kind: self.kind,
            name: self.name@,
            declaration: self.declaration,
            class: bytes_of(self.class),
        }
    }
}

/// A stretch of a file, and the member that the name there resolves to.
pub open spec fn found_view(found: Option<(Range, MemberTarget)>) -> Option<
    (Range, MemberTargetView),
> {
    match found {
        Some((range, target)) => Some((range, target@)),
        None => None,
    }
}

// ---- Spans ---------------------------------------------------------------

/// `span` covers `offset` of the file.
pub open spec fn span_covers(span: Span, file_id: FileId, offset: u32) -> bool {
    span.file_id == file_id && span.start.offset <= offset < span.end.offset
}

pub open spec fn span_range(span: Span) -> Range {
    Range { start: span.start.offset, end: span.end.offset }
}

/// The span of `length` bytes from `start`.
pub open spec fn span_at(file_id: FileId, start: u32, length: int) -> Span {
    Span {
        file_id,
        start: Position { offset: start },
        end: Position { offset: (start + length) as u32 },
    }
}

/// A `$name` span narrowed to just `name`.
pub open spec fn without_dollar(span: Span) -> Span {
    Span {
        file_id: span.file_id,
        start: Position { offset: (span.start.offset + 1) as u32 },
        end: span.end,
    }
}

fn covers(span: Span, file_id: FileId, offset: u32) -> (yes: bool)
    ensures
        yes == span_covers(span, file_id, offset),
{
    span.file_id == file_id && span.start.offset <= offset && offset < span.end.offset
}

fn range_of(span: Span) -> (range: Range)
    ensures
        range == span_range(span),
{
    Range::new(span.start.offset, span.end.offset)
}

fn name_span_at(file_id: FileId, start: u32, length: usize) -> (span: Span)
    requires
        start + length <= u32::MAX,
    ensures
        span == span_at(file_id, start, length as int),
{
    Span::new(file_id, Position { offset: start }, Position { offset: start + length as u32 })
}

/// Narrow a `$name` span to just `name`.
fn strip_dollar(span: Span) -> (name: Span)
    requires
        span.start.offset < u32::MAX,
    ensures
        name == without_dollar(span),
{
    Span::new(span.file_id, Position { offset: span.start.offset + 1 }, span.end)
}

/// `name` with a `$` in front.
fn dollar_name(name: &[u8]) -> (key: Vec<u8>)
    ensures
        key@ == seq![DOLLAR] + name@,
{
    let mut key: Vec<u8> = Vec::new();
    key.push(DOLLAR);
    let mut i: usize = 0;
    while i < name.len()
        invariant
            i <= name@.len(),
            key@ == seq![DOLLAR] + name@.take(i as int),
        decreases name.len() - i,
    {
        key.push(name[i]);
        assert(name@.take(i + 1) =~= name@.take(i as int).push(name@[i as int]));
        i += 1;
    }
    assert(name@.take(i as int) =~= name@);
    key
}

/// Methods record `static` themselves.
fn is_static_method(method: &FunctionLikeMetadata) -> (yes: bool)
    ensures
        yes == method.is_static,
{
    method.is_static
}

// ---- Enclosing class-likes -----------------------------------------------

/// The class-like's body contains `start` to `end` of the file.
pub open spec fn class_contains(
    meta: ClassLikeMetadata,
    file_id: FileId,
    start: u32,
    end: u32,
) -> bool {
    &&& meta.span.file_id == file_id
    &&& meta.span.start.offset <= start
    &&& end <= meta.span.end.offset
}

/// How many bytes the class-like takes up.
pub open spec fn class_extent(meta: ClassLikeMetadata) -> int {
    meta.span.end.offset - meta.span.start.offset
}

/// The first of the shortest among the first `count` class-likes that contain
/// `start` to `end`.
pub open spec fn innermost(
    classes: Seq<ClassLikeMetadata>,
    file_id: FileId,
    start: u32,
    end: u32,
    count: int,
) -> Option<int>
    decreases count,
{
    if count <= 0 {
        None
    } else {
        let best = innermost(classes, file_id, start, end, count - 1);
        let last = classes[count - 1];
        if class_contains(last, file_id, start, end) && (best is None || class_extent(last)
            < class_extent(classes[best->0])) {
            Some(count - 1)
        } else {
            best
        }
    }
}

/// The innermost class-like that contains `start` to `end`.
pub open spec fn innermost_class(
    codebase: CodebaseMetadata,
    file_id: FileId,
    start: u32,
    end: u32,
) -> Option<ClassLikeMetadata> {
    match innermost(
        codebase.class_likes@,
        file_id,
        start,
        end,
        codebase.class_likes@.len() as int,
    ) {
        Some(index) => Some(codebase.class_likes@[index]),
        None => None,
    }
}

/// The name of the class-like that contains `span`.
pub open spec fn class_around(codebase: CodebaseMetadata, span: Span) -> Option<Seq<u8>> {
    match innermost_class(codebase, span.file_id, span.start.offset, span.end.offset) {
        Some(meta) => Some(meta.name@),
        None => None,
    }
}

/// What [`innermost`] finds contains the stretch, and no class-like that does is
/// shorter.
pub proof fn law_innermost_class_is_tightest(
    classes: Seq<ClassLikeMetadata>,
    file_id: FileId,
    start: u32,
    end: u32,
    count: int,
)
    requires
        0 <= count <= classes.len(),
    ensures
        match innermost(classes, file_id, start, end, count) {
            Some(index) => 0 <= index < count && class_contains(
                classes[index],
                file_id,
                start,
                end,
            ) && forall|i: int|
                0 <= i < count && class_contains(#[trigger] classes[i], file_id, start, end)
                    ==> class_extent(classes[index]) <= class_extent(classes[i]),
            None => forall|i: int|
                0 <= i < count ==> !class_contains(#[trigger] classes[i], file_id, start, end),
        },
    decreases count,
{
    if count > 0 {
        law_innermost_class_is_tightest(classes, file_id, start, end, count - 1);
    }
}

// ---- Declarations --------------------------------------------------------

/// The static property that is declared at `offset` under the name `name`.
pub open spec fn property_declared(
    metadata: ClassLikeMetadata,
    name: Seq<u8>,
    file_id: FileId,
    offset: u32,
) -> Option<(Range, MemberTargetView)> {
    match metadata.property(seq![DOLLAR] + name) {
        Some(property) => if !property.is_static {
            None
        } else {
            match property.name_span {
                Some(span) => if span_covers(without_dollar(span), file_id, offset) {
                    Some(
                        (
                            span_range(without_dollar(span)),
                            MemberTargetView {
                                kind: MemberKind::StaticProperty,
                                name,
                                declaration: without_dollar(span),
                                class: Some(metadata.name@),
                            },
                        ),
                    )
                } else {
                    None
                },
                None => None,
            }
        },
        None => None,
    }
}

/// The enum case that is declared at `offset` under the name `name`.
pub open spec fn case_declared(
    metadata: ClassLikeMetadata,
    name: Seq<u8>,
    file_id: FileId,
    offset: u32,
) -> Option<(Range, MemberTargetView)> {
    match metadata.enum_case(name) {
        Some(case) => if span_covers(case.name_span, file_id, offset) {
            Some(
                (
                    span_range(case.name_span),
                    MemberTargetView {
                        kind: MemberKind::EnumCase,
                        name,
                        declaration: case.name_span,
                        class: Some(metadata.name@),
                    },
                ),
            )
        } else {
            None
        },
        None => None,
    }
}

/// The constant that is declared at `offset` under the name `name`.
pub open spec fn constant_declared(
    metadata: ClassLikeMetadata,
    name: Seq<u8>,
    file_id: FileId,
    offset: u32,
) -> Option<(Range, MemberTargetView)> {
    match metadata.constant(name) {
        Some(constant) => {
            let declaration = span_at(
                constant.span.file_id,
                constant.span.start.offset,
                name.len() as int,
            );
            if span_covers(declaration, file_id, offset) {
                Some(
                    (
                        span_range(declaration),
                        MemberTargetView {
                            kind: MemberKind::ClassConstant,
                            name,
                            declaration,
                            class: Some(metadata.name@),
                        },
                    ),
                )
            } else {
                None
            }
        },
        None => None,
    }
}

/// The static method of `class` that is declared at `offset` under the name
/// `name`.
pub open spec fn method_declared(
    codebase: CodebaseMetadata,
    class: Seq<u8>,
    metadata: ClassLikeMetadata,
    name: Seq<u8>,
    file_id: FileId,
    offset: u32,
) -> Option<(Range, MemberTargetView)> {
    match codebase.method(class, name) {
        Some(method) => if !method.is_static {
            None
        } else {
            match method.name_span {
                Some(span) => if span_covers(span, file_id, offset) {
                    Some(
                        (
                            span_range(span),
                            MemberTargetView {
                                kind: MemberKind::StaticMethod,
                                name: method.original_name@,
                                declaration: span,
                                class: Some(metadata.name@),
                            },
                        ),
                    )
                } else {
                    None
                },
                None => None,
            }
        },
        None => None,
    }
}

/// The member of `class` that is declared at `offset` under the name at the
/// cursor.
pub open spec fn declared_in(
    codebase: CodebaseMetadata,
    class: Seq<u8>,
    cursor: NameView,
    file_id: FileId,
    offset: u32,
) -> Option<(Range, MemberTargetView)> {
    match codebase.class_like(class) {
        Some(metadata) => if cursor.is_variable {
            property_declared(metadata, cursor.name, file_id, offset)
        } else if case_declared(metadata, cursor.name, file_id, offset) is Some {
            case_declared(metadata, cursor.name, file_id, offset)
        } else if constant_declared(metadata, cursor.name, file_id, offset) is Some {
            constant_declared(metadata, cursor.name, file_id, offset)
        } else {
            method_declared(codebase, class, metadata, cursor.name, file_id, offset)
        },
        None => None,
    }
}

/// The member that is declared at `offset`.
pub open spec fn declared_at(server: Server, file_id: FileId, offset: u32) -> Option<
    (Range, MemberTargetView),
> {
    match server.file(file_id) {
        Some(file) => match name_at(file.token_seq(), offset as int) {
            Some(cursor) => match innermost_class(server.codebase, file_id, offset, offset) {
                Some(class) => declared_in(server.codebase, class.name@, cursor, file_id, offset),
                None => None,
            },
            None => None,
        },
        None => None,
    }
}

// ---- Uses ----------------------------------------------------------------

/// The class-like that the `::` qualifier names.
pub open spec fn owner_named(
    server: Server,
    file_id: FileId,
    offset: u32,
    qualifier: MemberQualifier,
) -> Option<Seq<u8>> {
    match qualifier {
        MemberQualifier::Enclosing => match innermost_class(
            server.codebase,
            file_id,
            offset,
            offset,
        ) {
            Some(class) => Some(class.name@),
            None => None,
        },
        MemberQualifier::Parent => match innermost_class(
            server.codebase,
            file_id,
            offset,
            offset,
        ) {
            Some(class) => match server.codebase.class_like(class.name@) {
                Some(metadata) => bytes_of(metadata.direct_parent_class),
                None => None,
            },
            None => None,
        },
        MemberQualifier::Named(at) => match server.resolved_at(file_id, at) {
            Some(name) => Some(name.name@),
            None => None,
        },
    }
}

/// The member `name` that `owner` has, its own or inherited.
pub open spec fn member_of(
    codebase: CodebaseMetadata,
    owner: Seq<u8>,
    name: Seq<u8>,
    selector: MemberSelector,
) -> Option<MemberTargetView> {
    match selector {
        MemberSelector::Method => match codebase.declaring_method(owner, name) {
            Some(method) => if !method.is_static {
                None
            } else {
                match method.name_span {
                    Some(span) => Some(
                        MemberTargetView {
                            kind: MemberKind::StaticMethod,
                            name: method.original_name@,
                            declaration: span,
                            class: codebase.declaring_method_class(owner, name),
                        },
                    ),
                    None => None,
                }
            },
            None => None,
        },
        MemberSelector::Property => match codebase.declaring_property(owner, seq![DOLLAR] + name) {
            Some(property) => if !property.is_static {
                None
            } else {
                match property.name_span {
                    Some(span) => Some(
                        MemberTargetView {
                            kind: MemberKind::StaticProperty,
                            name,
                            declaration: without_dollar(span),
                            class: codebase.declaring_property_class(owner, seq![DOLLAR] + name),
                        },
                    ),
                    None => None,
                }
            },
            None => None,
        },
        MemberSelector::Constant => match codebase.enum_case(owner, name) {
            Some(case) => Some(
                MemberTargetView {
                    kind: MemberKind::EnumCase,
                    name,
                    declaration: case.name_span,
                    class: class_around(codebase, case.name_span),
                },
            ),
            None => match codebase.class_constant(owner, name) {
                Some(constant) => {
                    let declaration = span_at(
                        constant.span.file_id,
                        constant.span.start.offset,
                        name.len() as int,
                    );
                    Some(
                        MemberTargetView {
                            kind: MemberKind::ClassConstant,
                            name,
                            declaration,
                            class: class_around(codebase, declaration),
                        },
                    )
                },
                None => None,
            },
        },
    }
}

/// `text` is the name `name` of a member of this kind.
pub open spec fn same_member_name(text: Seq<u8>, name: Seq<u8>, kind: MemberKind) -> bool {
    if kind == MemberKind::StaticMethod {
        equal_ignoring_case(text, name)
    } else {
        text == name
    }
}

/// The declaration span lies in a known file and spells the member's name.
pub open spec fn spelled_there(server: Server, target: MemberTargetView) -> bool {
    match server.file(target.declaration.file_id) {
        Some(file) => {
            let start = target.declaration.start.offset as int;
            let end = target.declaration.end.offset as int;
            start <= end <= file.contents@.len() && same_member_name(
                file.contents@.subrange(start, end),
                target.name,
                target.kind,
            )
        },
        None => false,
    }
}

/// The member that the name at `offset`, behind a `::`, refers to.
pub open spec fn used_at(server: Server, file_id: FileId, offset: u32) -> Option<
    (Range, MemberTargetView),
> {
    match server.file(file_id) {
        Some(file) => match static_member(file.token_seq(), offset as int) {
            Some(cursor) => match owner_named(server, file_id, offset, cursor.qualifier) {
                Some(owner) => match member_of(
                    server.codebase,
                    owner,
                    cursor.name,
                    cursor.selector,
                ) {
                    Some(target) => if spelled_there(server, target) {
                        Some((Range { start: cursor.start, end: cursor.end }, target))
                    } else {
                        None
                    },
                    None => None,
                },
                None => None,
            },
            None => None,
        },
        None => None,
    }
}

/// The member at `offset`: the one that is declared there, else the one that is
/// used there.
pub open spec fn member_at(server: Server, file_id: FileId, offset: u32) -> Option<
    (Range, MemberTargetView),
> {
    match declared_at(server, file_id, offset) {
        Some(found) => Some(found),
        None => used_at(server, file_id, offset),
    }
}

// ---- Occurrences ---------------------------------------------------------

/// `name` stands at `start` as a whole identifier.
pub open spec fn names_at(haystack: Seq<u8>, name: Seq<u8>, kind: MemberKind, start: int) -> bool {
    let end = start + name.len();
    &&& 0 <= start
    &&& end <= haystack.len()
    &&& same_member_name(haystack.subrange(start, end), name, kind)
    &&& start > 0 ==> !identifier_byte(haystack[start - 1])
    &&& end < haystack.len() ==> !identifier_byte(haystack[end])
}

/// The stretches, from among the first `count` starts, where `name` stands as a
/// whole identifier.
pub open spec fn occurrences(
    haystack: Seq<u8>,
    name: Seq<u8>,
    kind: MemberKind,
    count: int,
) -> Seq<(u32, u32)>
    decreases count,
{
    if count <= 0 {
        Seq::empty()
    } else if names_at(haystack, name, kind, count - 1) {
        occurrences(haystack, name, kind, count - 1).push(
            ((count - 1) as u32, (count - 1 + name.len()) as u32),
        )
    } else {
        occurrences(haystack, name, kind, count - 1)
    }
}

/// Every stretch where `name` stands as a whole identifier. An empty name stands
/// nowhere.
pub open spec fn all_occurrences(haystack: Seq<u8>, name: Seq<u8>, kind: MemberKind) -> Seq<
    (u32, u32),
> {
    if name.len() == 0 {
        Seq::empty()
    } else {
        occurrences(haystack, name, kind, haystack.len() - name.len() + 1)
    }
}

/// Among the occurrences, in order, are exactly the stretches where the name
/// stands as a whole identifier.
pub proof fn law_occurrences_are_exact(
    haystack: Seq<u8>,
    name: Seq<u8>,
    kind: MemberKind,
    start: int,
)
    requires
        name.len() > 0,
        haystack.len() <= u32::MAX,
    ensures
        ({
            let hits = all_occurrences(haystack, name, kind);
            &&& names_at(haystack, name, kind, start) <==> exists|k: int|
                0 <= k < hits.len() && (#[trigger] hits[k]).0 == start
            &&& forall|k: int|
                0 <= k < hits.len() ==> (#[trigger] hits[k]).1 == hits[k].0 + name.len()
            &&& forall|k: int, l: int|
                0 <= k < l < hits.len() ==> (#[trigger] hits[k]).0 < (#[trigger] hits[l]).0
        }),
{
    let count = haystack.len() - name.len() + 1;
    let hits = all_occurrences(haystack, name, kind);
    if count > 0 {
        lemma_occurrences(haystack, name, kind, count, start);
        assert(hits == occurrences(haystack, name, kind, count));
        assert(names_at(haystack, name, kind, start) ==> start < count);
    } else {
        assert(hits.len() == 0);
        assert(!names_at(haystack, name, kind, start));
    }
}

proof fn lemma_occurrences(
    haystack: Seq<u8>,
    name: Seq<u8>,
    kind: MemberKind,
    count: int,
    start: int,
)
    requires
        name.len() > 0,
        haystack.len() <= u32::MAX,
        0 <= count <= haystack.len() - name.len() + 1,
    ensures
        ({
            let hits = occurrences(haystack, name, kind, count);
            &&& start < count && names_at(haystack, name, kind, start) <==> exists|k: int|
                0 <= k < hits.len() && (#[trigger] hits[k]).0 == start
            &&& forall|k: int|
                0 <= k < hits.len() ==> (#[trigger] hits[k]).0 < count && hits[k].1 == hits[k].0
                    + name.len()
            &&& forall|k: int, l: int|
                0 <= k < l < hits.len() ==> (#[trigger] hits[k]).0 < (#[trigger] hits[l]).0
        }),
    decreases count,
{
    if count > 0 {
        lemma_occurrences(haystack, name, kind, count - 1, start);
        let before = occurrences(haystack, name, kind, count - 1);
        let hits = occurrences(haystack, name, kind, count);
        if names_at(haystack, name, kind, count - 1) {
            assert(hits[before.len() as int].0 == count - 1);
            if start < count - 1 && names_at(haystack, name, kind, start) {
                let k = choose|k: int| 0 <= k < before.len() && (#[trigger] before[k]).0 == start;
                assert(hits[k].0 == start);
            }
            if exists|k: int| 0 <= k < hits.len() && (#[trigger] hits[k]).0 == start {
                let k = choose|k: int| 0 <= k < hits.len() && (#[trigger] hits[k]).0 == start;
                if k < before.len() {
                    assert(before[k].0 == start);
                }
            }
            assert forall|k: int, l: int| 0 <= k < l < hits.len() implies (#[trigger] hits[k]).0
                < (#[trigger] hits[l]).0 by {
                assert(hits[k] == before[k]);
                if l < before.len() {
                    assert(hits[l] == before[l]);
                }
            }
        }
    }
}

/// Byte ranges in `haystack` where `name` appears as a whole identifier.
///
/// A cheap pre-filter: it over-reports (a match may be an unrelated symbol) but
/// never under-reports, and callers confirm each hit by resolving it.
pub fn name_occurrences(haystack: &[u8], name: &[u8], kind: MemberKind) -> (out: Vec<(u32, u32)>)
    requires
        haystack@.len() <= u32::MAX,
    ensures
        out@ == all_occurrences(haystack@, name@, kind),
{
    let mut out: Vec<(u32, u32)> = Vec::new();
    if name.len() == 0 || haystack.len() < name.len() {
        return out;
    }
    let last: usize = haystack.len() - name.len();
    let mut start: usize = 0;
    while start <= last
        invariant
            name@.len() > 0,
            haystack@.len() <= u32::MAX,
            haystack@.len() == haystack.len(),
            last == haystack@.len() - name@.len(),
            start <= last + 1,
            out@ == occurrences(haystack@, name@, kind, start as int),
        decreases last + 1 - start,
    {
        let end: usize = start + name.len();
        let window: &[u8] = vstd::slice::slice_subrange(haystack, start, end);
        let same = if kind.is_case_insensitive() {
            same_ignoring_case(window, name)
        } else {
            same_bytes(window, name)
        };
        // Reject matches that are part of a longer identifier.
        if same && !(start > 0 && is_identifier_byte(haystack[start - 1])) && !(end
            < haystack.len() && is_identifier_byte(haystack[end])) {
            out.push((start as u32, end as u32));
        }
        start += 1;
    }
    out
}

// ---- References ----------------------------------------------------------

/// The place is where the target is declared.
pub open spec fn at_declaration(target: MemberTargetView, file_id: FileId, start: u32) -> bool {
    file_id == target.declaration.file_id && start == target.declaration.start.offset
}

/// The occurrence at `hit` refers to the target: the name there resolves to the
/// same declaration, and is exactly that stretch.
pub open spec fn refers_to(
    server: Server,
    file_id: FileId,
    hit: (u32, u32),
    target: MemberTargetView,
) -> bool {
    match member_at(server, file_id, hit.0) {
        Some((range, found)) => found.declaration == target.declaration && range == (Range {
            start: hit.0,
            end: hit.1,
        }),
        None => false,
    }
}

/// The references among the first `count` of `hits` in a file.
pub open spec fn references_in(
    server: Server,
    file_id: FileId,
    hits: Seq<(u32, u32)>,
    target: MemberTargetView,
    include_declaration: bool,
    count: int,
) -> Seq<SymbolLocation>
    decreases count,
{
    if count <= 0 {
        Seq::empty()
    } else {
        let before = references_in(server, file_id, hits, target, include_declaration, count - 1);
        let hit = hits[count - 1];
        if refers_to(server, file_id, hit, target) && (include_declaration || !at_declaration(
            target,
            file_id,
            hit.0,
        )) {
            before.push(
                SymbolLocation { file: file_id, range: Range { start: hit.0, end: hit.1 } },
            )
        } else {
            before
        }
    }
}

/// The references in one file, if it is the project's own.
pub open spec fn references_of_file(
    server: Server,
    index: int,
    target: MemberTargetView,
    include_declaration: bool,
) -> Seq<SymbolLocation> {
    let file = server.files@[index];
    if file.file_type == FileType::Host {
        let hits = all_occurrences(file.contents@, target.name, target.kind);
        references_in(
            server,
            file.id,
            hits,
            target,
            include_declaration,
            hits.len() as int,
        )
    } else {
        Seq::empty()
    }
}

/// The references in the first `count` files, in order.
pub open spec fn references_to(
    server: Server,
    target: MemberTargetView,
    include_declaration: bool,
    count: int,
) -> Seq<SymbolLocation>
    decreases count,
{
    if count <= 0 {
        Seq::empty()
    } else {
        references_to(server, target, include_declaration, count - 1) + references_of_file(
            server,
            count - 1,
            target,
            include_declaration,
        )
    }
}

impl Server {
    /// Resolve the `::`-accessed member under the cursor, whether the cursor is
    /// on a use site (`Series::EnergyPrime`) or on the declaration itself
    /// (`case EnergyPrime`).
    ///
    /// Returns the range of the name under the cursor alongside the member it
    /// resolves to.
    pub fn resolve_static_member(&self, file_id: FileId, offset: u32) -> (found: Option<
        (Range, MemberTarget),
    >)
        requires
            self.wf(),
        ensures
            found_view(found) == member_at(*self, file_id, offset),
    {
        if let Some(found) = self.member_declaration_at(file_id, offset) {
            return Some(found);
        }
        let file = match self.get_file(file_id) {
            Some(file) => file,
            None => return None,
        };
        let cursor = match static_member_at_offset(file, offset) {
            Some(cursor) => cursor,
            None => return None,
        };
        let owner = match self.qualifier_owner(file_id, offset, cursor.qualifier) {
            Some(owner) => owner,
            None => return None,
        };
        let target = match self.member_target(owner.as_slice(), cursor.name, cursor.selector) {
            Some(target) => target,
            None => return None,
        };
        if !self.declaration_spells(&target) {
            return None;
        }
        Some((Range::new(cursor.start, cursor.end), target))
    }

    /// Every occurrence of `target` across the workspace's host files.
    ///
    /// Each candidate occurrence is resolved independently and kept only when it
    /// lands on the same declaration, so `self::X`, `Child::X`, and `Parent::X`
    /// all collapse onto one member while an unrelated class's same-named member
    /// is left alone.
    pub fn member_references(&self, target: &MemberTarget, include_declaration: bool) -> (out: Vec<
        SymbolLocation,
    >)
        requires
            self.wf(),
        ensures
            out@ == references_to(*self, target@, include_declaration, self.files@.len() as int),
    {
        let mut out: Vec<SymbolLocation> = Vec::new();
        let mut i: usize = 0;
        while i < self.files.len()
            invariant
                self.wf(),
                i <= self.files@.len(),
                out@ == references_to(*self, target@, include_declaration, i as int),
            decreases self.files.len() - i,
        {
            let file = &self.files[i];
            assert(file.wf());
            if file.file_type == FileType::Host {
                let hits = name_occurrences(
                    file.contents.as_slice(),
                    target.name.as_slice(),
                    target.kind,
                );
                let ghost before = out@;
                let mut j: usize = 0;
                assert(before + Seq::<SymbolLocation>::empty() =~= before);
                while j < hits.len()
                    invariant
                        self.wf(),
                        j <= hits@.len(),
                        out@ == before + references_in(
                            *self,
                            file.id,
                            hits@,
                            target@,
                            include_declaration,
                            j as int,
                        ),
                    decreases hits.len() - j,
                {
                    let (start, end) = hits[j];
                    let ghost kept = references_in(
                        *self,
                        file.id,
                        hits@,
                        target@,
                        include_declaration,
                        j as int,
                    );
                    if let Some((range, found)) = self.resolve_static_member(file.id, start) {
                        // A hit inside a longer identifier resolves to that
                        // identifier, not to our member; drop anything that
                        // didn't land exactly.
                        if found.declaration == target.declaration && range.start == start
                            && range.end == end {
                            let is_declaration = file.id == target.declaration.file_id && start
                                == target.declaration.start.offset;
                            if include_declaration || !is_declaration {
                                out.push(SymbolLocation { file: file.id, range });
                                assert(before + kept.push(SymbolLocation { file: file.id, range })
                                    =~= (before + kept).push(
                                    SymbolLocation { file: file.id, range },
                                ));
                            }
                        }
                    }
                    j += 1;
                }
            } else {
                assert(out@ + Seq::<SymbolLocation>::empty() =~= out@);
            }
            i += 1;
        }
        out
    }

    /// The member declared at `offset`, when the cursor is sitting on a `case`,
    /// `const`, static method, or static property name in a class body.
    ///
    /// Matching is by name first, then by span. Position alone isn't enough: an
    /// enum's synthesized `cases`/`from`/`tryFrom` methods borrow the enum's own
    /// name span, so a purely positional scan would claim any cursor inside the
    /// enum.
    pub fn member_declaration_at(&self, file_id: FileId, offset: u32) -> (found: Option<
        (Range, MemberTarget),
    >)
        requires
            self.wf(),
        ensures
            found_view(found) == declared_at(*self, file_id, offset),
    {
        let file = match self.get_file(file_id) {
            Some(file) => file,
            None => return None,
        };
        let cursor = match name_at_offset(file, offset) {
            Some(cursor) => cursor,
            None => return None,
        };
        let class = match self.enclosing_class_like(file_id, offset) {
            Some(class) => class,
            None => return None,
        };
        let metadata = match self.codebase.get_class_like(class.as_slice()) {
            Some(metadata) => metadata,
            None => return None,
        };
        if cursor.is_variable {
            let key = dollar_name(cursor.name);
            proof {
                lemma_first_from(metadata.properties@, property_named(key@), 0);
            }
            let property = match metadata.get_property(key.as_slice()) {
                Some(property) => property,
                None => return None,
            };
            assert(property_fits(*property));
            if !property.is_static {
                return None;
            }
            let declaration = match property.name_span {
                Some(span) => strip_dollar(span),
                None => return None,
            };
            if !covers(declaration, file_id, offset) {
                return None;
            }
            let target = MemberTarget {
                kind: MemberKind::StaticProperty,
                name: vstd::slice::slice_to_vec(cursor.name),
                declaration,
                class: Some(vstd::slice::slice_to_vec(metadata.name.as_slice())),
            };
            return Some((range_of(declaration), target));
        }
        if let Some(case) = metadata.get_enum_case(cursor.name) {
            if covers(case.name_span, file_id, offset) {
                let target = MemberTarget {
                    kind: MemberKind::EnumCase,
                    name: vstd::slice::slice_to_vec(cursor.name),
                    declaration: case.name_span,
                    class: Some(vstd::slice::slice_to_vec(metadata.name.as_slice())),
                };
                return Some((range_of(case.name_span), target));
            }
        }
        if let Some(constant) = metadata.get_constant(cursor.name) {
            proof {
                lemma_first_from(metadata.constants@, member_constant_named(cursor.name@), 0);
                assert(constant_fits(*constant));
            }
            // The constant's span is the `NAME = value` item, so it starts
            // exactly at the name.
            let declaration = name_span_at(
                constant.span.file_id,
                constant.span.start.offset,
                cursor.name.len(),
            );
            if covers(declaration, file_id, offset) {
                let target = MemberTarget {
                    kind: MemberKind::ClassConstant,
                    name: vstd::slice::slice_to_vec(cursor.name),
                    declaration,
                    class: Some(vstd::slice::slice_to_vec(metadata.name.as_slice())),
                };
                return Some((range_of(declaration), target));
            }
        }
        let method = match self.codebase.get_method(class.as_slice(), cursor.name) {
            Some(method) => method,
            None => return None,
        };
        if !is_static_method(method) {
            return None;
        }
        let declaration = match method.name_span {
            Some(span) => span,
            None => return None,
        };
        if !covers(declaration, file_id, offset) {
            return None;
        }
        let target = MemberTarget {
            kind: MemberKind::StaticMethod,
            name: vstd::slice::slice_to_vec(method.original_name.as_slice()),
            declaration,
            class: Some(vstd::slice::slice_to_vec(metadata.name.as_slice())),
        };
        Some((range_of(declaration), target))
    }

    /// Name of the class-like that the `::` qualifier names.
    pub fn qualifier_owner(&self, file_id: FileId, offset: u32, qualifier: MemberQualifier) -> (owner:
        Option<Vec<u8>>)
        requires
            self.wf(),
        ensures
            bytes_of(owner) == owner_named(*self, file_id, offset, qualifier),
    {
        match qualifier {
            MemberQualifier::Enclosing => self.enclosing_class_like(file_id, offset),
            MemberQualifier::Parent => {
                let enclosing = match self.enclosing_class_like(file_id, offset) {
                    Some(enclosing) => enclosing,
                    None => return None,
                };
                match self.codebase.get_class_like(enclosing.as_slice()) {
                    Some(metadata) => match &metadata.direct_parent_class {
                        Some(parent) => Some(vstd::slice::slice_to_vec(parent.as_slice())),
                        None => None,
                    },
                    None => None,
                }
            },
            MemberQualifier::Named(at) => match self.name_at(file_id, at) {
                Some(name) => Some(vstd::slice::slice_to_vec(name.name.as_slice())),
                None => None,
            },
        }
    }

    /// Look `name` up as a member of `owner`, following inheritance.
    pub fn member_target(&self, owner: &[u8], name: &[u8], selector: MemberSelector) -> (target: Option<
        MemberTarget,
    >)
        requires
            self.wf(),
        ensures
            member_of(self.codebase, owner@, name@, selector) == match target {
                Some(target) => Some(target@),
                None => None,
            },
    {
        let codebase = &self.codebase;
        match selector {
            MemberSelector::Method => {
                let method = match codebase.get_declaring_method(owner, name) {
                    Some(method) => method,
                    None => return None,
                };
                if !is_static_method(method) {
                    return None;
                }
                let declaration = match method.name_span {
                    Some(span) => span,
                    None => return None,
                };
                let class = match codebase.get_declaring_method_class(owner, name) {
                    Some(class) => Some(vstd::slice::slice_to_vec(class.as_slice())),
                    None => None,
                };
                Some(
                    MemberTarget {
                        kind: MemberKind::StaticMethod,
                        name: vstd::slice::slice_to_vec(method.original_name.as_slice()),
                        declaration,
                        class,
                    },
                )
            },
            MemberSelector::Property => {
                let key = dollar_name(name);
                let property = match codebase.get_declaring_property(owner, key.as_slice()) {
                    Some(property) => property,
                    None => return None,
                };
                if !property.is_static {
                    return None;
                }
                let declaration = match property.name_span {
                    Some(span) => strip_dollar(span),
                    None => return None,
                };
                let class = match codebase.get_declaring_property_class(owner, key.as_slice()) {
                    Some(class) => Some(vstd::slice::slice_to_vec(class.as_slice())),
                    None => None,
                };
                Some(
                    MemberTarget {
                        kind: MemberKind::StaticProperty,
                        name: vstd::slice::slice_to_vec(name),
                        declaration,
                        class,
                    },
                )
            },
            MemberSelector::Constant => {
                if let Some(case) = codebase.get_enum_case(owner, name) {
                    return Some(
                        MemberTarget {
                            kind: MemberKind::EnumCase,
                            name: vstd::slice::slice_to_vec(name),
                            declaration: case.name_span,
                            class: self.class_like_declaring(case.name_span),
                        },
                    );
                }
                let constant = match codebase.get_class_constant(owner, name) {
                    Some(constant) => constant,
                    None => return None,
                };
                proof {
                    lemma_constant_has_name(*codebase, owner@, name@);
                }
                let declaration = name_span_at(
                    constant.span.file_id,
                    constant.span.start.offset,
                    name.len(),
                );
                Some(
                    MemberTarget {
                        kind: MemberKind::ClassConstant,
                        name: vstd::slice::slice_to_vec(name),
                        class: self.class_like_declaring(declaration),
                        declaration,
                    },
                )
            },
        }
    }

    /// Does the declaration span actually spell the member's name?
    ///
    /// Guards against metadata whose span doesn't point at a real declaration of
    /// this member — an enum's synthesized `from`/`cases`/`tryFrom` methods reuse
    /// the enum's name span, and renaming those would rewrite call sites with no
    /// declaration to match.
    pub fn declaration_spells(&self, target: &MemberTarget) -> (yes: bool)
        requires
            self.wf(),
        ensures
            yes == spelled_there(*self, target@),
    {
        let file = match self.get_file(target.declaration.file_id) {
            Some(file) => file,
            None => return false,
        };
        let start: usize = target.declaration.start.offset as usize;
        let end: usize = target.declaration.end.offset as usize;
        if start > end || end > file.contents.len() {
            return false;
        }
        let text: &[u8] = vstd::slice::slice_subrange(file.contents.as_slice(), start, end);
        if target.kind.is_case_insensitive() {
            same_ignoring_case(text, target.name.as_slice())
        } else {
            same_bytes(text, target.name.as_slice())
        }
    }

    /// The name of the innermost class-like whose body covers `offset` in
    /// `file_id`.
    pub fn enclosing_class_like(&self, file_id: FileId, offset: u32) -> (name: Option<Vec<u8>>)
        requires
            self.wf(),
        ensures
            bytes_of(name) == match innermost_class(self.codebase, file_id, offset, offset) {
                Some(class) => Some(class.name@),
                None => None,
            },
    {
        match self.innermost_class_like(file_id, offset, offset) {
            Some(meta) => Some(vstd::slice::slice_to_vec(meta.name.as_slice())),
            None => None,
        }
    }

    /// The name of the innermost class-like containing `span`, used to name the
    /// owner of a declaration found by span.
    pub fn class_like_declaring(&self, span: Span) -> (name: Option<Vec<u8>>)
        requires
            self.wf(),
        ensures
            bytes_of(name) == class_around(self.codebase, span),
    {
        match self.innermost_class_like(span.file_id, span.start.offset, span.end.offset) {
            Some(meta) => Some(vstd::slice::slice_to_vec(meta.name.as_slice())),
            None => None,
        }
    }

    /// The innermost class-like whose body contains `start` to `end`.
    pub fn innermost_class_like(&self, file_id: FileId, start: u32, end: u32) -> (found: Option<
        &ClassLikeMetadata,
    >)
        requires
            self.wf(),
        ensures
            innermost_class(self.codebase, file_id, start, end) == match found {
                Some(meta) => Some(*meta),
                None => None,
            },
    {
        let classes = &self.codebase.class_likes;
        let mut best: Option<usize> = None;
        let mut i: usize = 0;
        while i < classes.len()
            invariant
                self.wf(),
                *classes == self.codebase.class_likes,
                i <= classes@.len(),
                best matches Some(index) ==> index < i,
                innermost(classes@, file_id, start, end, i as int) == match best {
                    Some(index) => Some(index as int),
                    None => None,
                },
            decreases classes.len() - i,
        {
            let meta = &classes[i];
            assert(meta.wf());
            if meta.span.file_id == file_id && meta.span.start.offset <= start && end
                <= meta.span.end.offset {
                let shorter = match best {
                    Some(index) => {
                        assert(classes@[index as int].wf());
                        meta.span.end.offset - meta.span.start.offset
                            < classes[index].span.end.offset - classes[index].span.start.offset
                    },
                    None => true,
                };
                if shorter {
                    best = Some(i);
                }
            }
            i += 1;
        }
        match best {
            Some(index) => Some(&classes[index]),
            None => None,
        }
    }
}

/// A constant that is found has the name it was looked up by.
proof fn lemma_constant_has_name(codebase: CodebaseMetadata, class: Seq<u8>, name: Seq<u8>)
    ensures
        codebase.class_constant(class, name) matches Some(constant) ==> constant.name@ == name,
{
    if let Some(meta) = codebase.class_like(class) {
        lemma_first_from(meta.constants@, member_constant_named(name), 0);
    }
}

// ---- Laws ----------------------------------------------------------------

/// A cursor on a declaration resolves to that declaration: the range is the
/// declaration's own, in this file, and covers the cursor.
pub proof fn law_declaration_resolves_to_itself(server: Server, file_id: FileId, offset: u32)
    ensures
        declared_at(server, file_id, offset) matches Some((range, target)) ==> range == span_range(
            target.declaration,
        ) && span_covers(target.declaration, file_id, offset),
{
}

/// A use site only resolves to a declaration that spells the member's name.
pub proof fn law_use_resolves_to_a_real_declaration(server: Server, file_id: FileId, offset: u32)
    ensures
        used_at(server, file_id, offset) matches Some((range, target)) ==> spelled_there(
            server,
            target,
        ),
{
}

/// `range` is under the cursor. A cursor on the `$` of a static property counts as
/// on its name.
pub open spec fn under_cursor(range: Range, offset: u32) -> bool {
    range.start <= offset + 1 && offset < range.end
}

/// The range that is reported with a member is the one under the cursor.
pub proof fn law_member_is_under_the_cursor(server: Server, file_id: FileId, offset: u32)
    requires
        server.wf(),
    ensures
        member_at(server, file_id, offset) matches Some((range, target)) ==> under_cursor(
            range,
            offset,
        ),
{
    law_declaration_resolves_to_itself(server, file_id, offset);
    if let Some(file) = server.file(file_id) {
        lemma_server_file(server, file_id);
        lemma_file_tokens_apart(file);
        lemma_token_covering(file.token_seq(), offset as int);
    }
}

/// A method of the codebase is called `word` and written `written`.
pub open spec fn method_called(
    codebase: CodebaseMetadata,
    word: Seq<u8>,
    written: Seq<u8>,
) -> bool {
    exists|i: int, j: int|
        0 <= i < codebase.class_likes@.len() && 0 <= j < codebase.class_likes@[i].methods@.len()
            && #[trigger] is_called(codebase.class_likes@[i].methods@[j], word, written)
}

/// The method is called `word`, ignoring case, and written `written` where it is
/// declared.
pub open spec fn is_called(method: FunctionLikeMetadata, word: Seq<u8>, written: Seq<u8>) -> bool {
    equal_ignoring_case(method.name@, word) && method.original_name@ == written
}

/// Every method is called what is written at its declaration, ignoring case.
pub open spec fn called_as_written(codebase: CodebaseMetadata) -> bool {
    forall|i: int, j: int|
        0 <= i < codebase.class_likes@.len() && 0 <= j < codebase.class_likes@[i].methods@.len()
            ==> equal_ignoring_case(
            (#[trigger] codebase.class_likes@[i].methods@[j]).name@,
            codebase.class_likes@[i].methods@[j].original_name@,
        )
}

/// The target is what `word` calls: a method that is called so, or any other
/// member of exactly that name.
pub open spec fn goes_by(
    codebase: CodebaseMetadata,
    word: Seq<u8>,
    target: MemberTargetView,
) -> bool {
    if target.kind == MemberKind::StaticMethod {
        method_called(codebase, word, target.name)
    } else {
        word == target.name
    }
}

/// The method that is found is called what it was looked up by.
proof fn lemma_method_has_name(codebase: CodebaseMetadata, class: Seq<u8>, name: Seq<u8>)
    ensures
        codebase.method(class, name) matches Some(method) ==> method_called(
            codebase,
            name,
            method.original_name@,
        ),
{
    lemma_first_from(codebase.class_likes@, class_named(class), 0);
    if let Some(meta) = codebase.class_like(class) {
        lemma_first_from(meta.methods@, function_named(name), 0);
        if let Some(method) = codebase.method(class, name) {
            let i = first_from(codebase.class_likes@, class_named(class), 0)->0;
            let j = first_from(meta.methods@, function_named(name), 0)->0;
            assert(is_called(codebase.class_likes@[i].methods@[j], name, method.original_name@));
        }
    }
}

/// The name at the cursor.
pub open spec fn word_at(server: Server, file_id: FileId, offset: u32) -> Option<Seq<u8>> {
    match server.file(file_id) {
        Some(file) => match name_at(file.token_seq(), offset as int) {
            Some(cursor) => Some(cursor.name),
            None => None,
        },
        None => None,
    }
}

/// The name at the cursor, where it stands behind a `::`.
pub open spec fn accessed_at(server: Server, file_id: FileId, offset: u32) -> Option<Seq<u8>> {
    match server.file(file_id) {
        Some(file) => match static_member(file.token_seq(), offset as int) {
            Some(cursor) => Some(cursor.name),
            None => None,
        },
        None => None,
    }
}

/// What is found goes by the name under the cursor, whether it is declared there or
/// used there behind a `::`.
pub proof fn law_member_goes_by_the_name_at_the_cursor(
    server: Server,
    file_id: FileId,
    offset: u32,
)
    ensures
        declared_at(server, file_id, offset) matches Some((range, target)) ==> (word_at(
            server,
            file_id,
            offset,
        ) matches Some(word) && goes_by(server.codebase, word, target)),
        used_at(server, file_id, offset) matches Some((range, target)) ==> (accessed_at(
            server,
            file_id,
            offset,
        ) matches Some(word) && goes_by(server.codebase, word, target)),
{
    if let Some(file) = server.file(file_id) {
        if let Some(cursor) = name_at(file.token_seq(), offset as int) {
            if let Some(class) = innermost_class(server.codebase, file_id, offset, offset) {
                lemma_method_has_name(server.codebase, class.name@, cursor.name);
            }
        }
        if let Some(cursor) = static_member(file.token_seq(), offset as int) {
            if let Some(owner) = owner_named(server, file_id, offset, cursor.qualifier) {
                lemma_method_has_name(server.codebase, owner, cursor.name);
                if let Some(class) = server.codebase.declaring_method_class(owner, cursor.name) {
                    lemma_method_has_name(server.codebase, class, cursor.name);
                }
            }
        }
    }
}

/// Where methods are called what is written at their declarations, a member that
/// goes by a name has that name.
pub proof fn law_methods_are_found_as_written(
    codebase: CodebaseMetadata,
    word: Seq<u8>,
    target: MemberTargetView,
)
    requires
        called_as_written(codebase),
        goes_by(codebase, word, target),
    ensures
        same_member_name(word, target.name, target.kind),
{
    if target.kind == MemberKind::StaticMethod {
        let (i, j) = choose|i: int, j: int|
            0 <= i < codebase.class_likes@.len() && 0 <= j
                < codebase.class_likes@[i].methods@.len() && #[trigger] is_called(
                codebase.class_likes@[i].methods@[j],
                word,
                target.name,
            );
        let method = codebase.class_likes@[i].methods@[j];
        assert(equal_ignoring_case(method.name@, method.original_name@));
    }
}

proof fn lemma_references_in_sound(
    server: Server,
    file_id: FileId,
    hits: Seq<(u32, u32)>,
    target: MemberTargetView,
    include_declaration: bool,
    count: int,
)
    requires
        0 <= count <= hits.len(),
    ensures
        forall|k: int|
            0 <= k < references_in(
                server,
                file_id,
                hits,
                target,
                include_declaration,
                count,
            ).len() ==> refers_back(
                server,
                #[trigger] references_in(
                    server,
                    file_id,
                    hits,
                    target,
                    include_declaration,
                    count,
                )[k],
                target,
            ),
    decreases count,
{
    if count > 0 {
        lemma_references_in_sound(server, file_id, hits, target, include_declaration, count - 1);
        let before = references_in(server, file_id, hits, target, include_declaration, count - 1);
        let all = references_in(server, file_id, hits, target, include_declaration, count);
        assert forall|k: int| 0 <= k < all.len() implies refers_back(
            server,
            #[trigger] all[k],
            target,
        ) by {
            if k < before.len() {
                assert(all[k] == before[k]);
            } else {
                assert((all[k].range.start, all[k].range.end) == hits[count - 1]);
            }
        }
    }
}

/// The name at `location` resolves to the target's declaration, and is exactly
/// that stretch.
pub open spec fn refers_back(
    server: Server,
    location: SymbolLocation,
    target: MemberTargetView,
) -> bool {
    refers_to(server, location.file, (location.range.start, location.range.end), target)
}

/// Every reference that is reported resolves to the very declaration asked for.
pub proof fn law_references_resolve_to_the_target(
    server: Server,
    target: MemberTargetView,
    include_declaration: bool,
    count: int,
)
    requires
        0 <= count <= server.files@.len(),
    ensures
        forall|k: int|
            0 <= k < references_to(server, target, include_declaration, count).len()
                ==> refers_back(
                server,
                #[trigger] references_to(server, target, include_declaration, count)[k],
                target,
            ),
    decreases count,
{
    if count > 0 {
        law_references_resolve_to_the_target(server, target, include_declaration, count - 1);
        let before = references_to(server, target, include_declaration, count - 1);
        let new = references_of_file(server, count - 1, target, include_declaration);
        let file = server.files@[count - 1];
        let hits = all_occurrences(file.contents@, target.name, target.kind);
        lemma_references_in_sound(
            server,
            file.id,
            hits,
            target,
            include_declaration,
            hits.len() as int,
        );
        let all = references_to(server, target, include_declaration, count);
        assert forall|k: int| 0 <= k < all.len() implies refers_back(
            server,
            #[trigger] all[k],
            target,
        ) by {
            if k < before.len() {
                assert(all[k] == before[k]);
            } else {
                assert(all[k] == new[k - before.len()]);
            }
        }
    }
}

/// The location lies in one of the project's own files, and the target's name
/// stands there as a whole identifier.
pub open spec fn spells_target(
    server: Server,
    location: SymbolLocation,
    target: MemberTargetView,
) -> bool {
    exists|index: int|
        0 <= index < server.files@.len() && spelled_in(#[trigger] server.files@[index], location, target)
}

/// The location lies in this file, one of the project's own, and the target's name
/// stands there as a whole identifier.
pub open spec fn spelled_in(file: File, location: SymbolLocation, target: MemberTargetView) -> bool {
    &&& file.id == location.file
    &&& file.file_type == FileType::Host
    &&& names_at(file.contents@, target.name, target.kind, location.range.start as int)
    &&& location.range.end == location.range.start + target.name.len()
}

proof fn lemma_references_in_spell(
    server: Server,
    file: File,
    target: MemberTargetView,
    include_declaration: bool,
    count: int,
)
    requires
        file.contents@.len() <= u32::MAX,
        file.file_type == FileType::Host,
        0 <= count <= all_occurrences(file.contents@, target.name, target.kind).len(),
    ensures
        ({
            let hits = all_occurrences(file.contents@, target.name, target.kind);
            let found = references_in(
                server,
                file.id,
                hits,
                target,
                include_declaration,
                count,
            );
            forall|k: int| 0 <= k < found.len() ==> spelled_in(file, #[trigger] found[k], target)
        }),
    decreases count,
{
    if count > 0 {
        lemma_references_in_spell(server, file, target, include_declaration, count - 1);
        let hits = all_occurrences(file.contents@, target.name, target.kind);
        let before = references_in(
            server,
            file.id,
            hits,
            target,
            include_declaration,
            count - 1,
        );
        let found = references_in(server, file.id, hits, target, include_declaration, count);
        let start = hits[count - 1].0 as int;
        law_occurrences_are_exact(file.contents@, target.name, target.kind, start);
        assert forall|k: int| 0 <= k < found.len() implies spelled_in(
            file,
            #[trigger] found[k],
            target,
        ) by {
            if k < before.len() {
                assert(found[k] == before[k]);
            } else {
                assert(hits[count - 1].0 == start);
            }
        }
    }
}

proof fn lemma_references_in_ascend(
    server: Server,
    file_id: FileId,
    hits: Seq<(u32, u32)>,
    target: MemberTargetView,
    include_declaration: bool,
    count: int,
)
    requires
        0 <= count <= hits.len(),
        forall|k: int, l: int|
            0 <= k < l < hits.len() ==> (#[trigger] hits[k]).0 < (#[trigger] hits[l]).0,
    ensures
        ({
            let found = references_in(
                server,
                file_id,
                hits,
                target,
                include_declaration,
                count,
            );
            &&& found.len() > 0 ==> count > 0
            &&& forall|k: int|
                0 <= k < found.len() ==> (#[trigger] found[k]).file == file_id
                    && found[k].range.start <= hits[count - 1].0
            &&& forall|k: int, l: int|
                0 <= k < l < found.len() ==> (#[trigger] found[k]).range.start < (
                #[trigger] found[l]).range.start
        }),
    decreases count,
{
    if count > 0 {
        lemma_references_in_ascend(server, file_id, hits, target, include_declaration, count - 1);
        let before = references_in(server, file_id, hits, target, include_declaration, count - 1);
        let found = references_in(server, file_id, hits, target, include_declaration, count);
        if count > 1 {
            assert(hits[count - 2].0 < hits[count - 1].0);
        }
        assert forall|k: int| 0 <= k < found.len() implies (#[trigger] found[k]).file == file_id
            && found[k].range.start <= hits[count - 1].0 by {
            if k < before.len() {
                assert(found[k] == before[k]);
            }
        }
        assert forall|k: int, l: int| 0 <= k < l < found.len() implies (
        #[trigger] found[k]).range.start < (#[trigger] found[l]).range.start by {
            assert(found[k] == before[k]);
            if l < before.len() {
                assert(found[l] == before[l]);
            }
        }
    }
}

/// One of the first `count` files has this id.
spec fn among(files: Seq<File>, count: int, id: FileId) -> bool {
    exists|index: int| 0 <= index < count && (#[trigger] files[index]).id == id
}

proof fn lemma_references_differ(
    server: Server,
    target: MemberTargetView,
    include_declaration: bool,
    count: int,
)
    requires
        server.wf(),
        0 <= count <= server.files@.len(),
    ensures
        ({
            let all = references_to(server, target, include_declaration, count);
            &&& forall|k: int|
                0 <= k < all.len() ==> among(server.files@, count, (#[trigger] all[k]).file)
            &&& forall|k: int, l: int|
                0 <= k < l < all.len() ==> #[trigger] all[k] != #[trigger] all[l]
        }),
    decreases count,
{
    if count > 0 {
        lemma_references_differ(server, target, include_declaration, count - 1);
        let before = references_to(server, target, include_declaration, count - 1);
        let new = references_of_file(server, count - 1, target, include_declaration);
        let all = references_to(server, target, include_declaration, count);
        let file = server.files@[count - 1];
        let hits = all_occurrences(file.contents@, target.name, target.kind);
        assert(file.wf());
        if target.name.len() > 0 {
            law_occurrences_are_exact(file.contents@, target.name, target.kind, 0);
        }
        lemma_references_in_ascend(
            server,
            file.id,
            hits,
            target,
            include_declaration,
            hits.len() as int,
        );
        assert forall|k: int| 0 <= k < all.len() implies among(
            server.files@,
            count,
            (#[trigger] all[k]).file,
        ) by {
            if k < before.len() {
                assert(all[k] == before[k]);
                let index = choose|index: int|
                    0 <= index < count - 1 && (#[trigger] server.files@[index]).id == all[k].file;
                assert(server.files@[index].id == all[k].file);
            } else {
                assert(all[k] == new[k - before.len()]);
                assert(server.files@[count - 1].id == all[k].file);
            }
        }
        assert forall|k: int, l: int| 0 <= k < l < all.len() implies #[trigger] all[k]
            != #[trigger] all[l] by {
            if l < before.len() {
                assert(all[k] == before[k] && all[l] == before[l]);
            } else if k < before.len() {
                assert(all[k] == before[k] && all[l] == new[l - before.len()]);
                let index = choose|index: int|
                    0 <= index < count - 1 && (#[trigger] server.files@[index]).id == all[k].file;
                assert(server.files@[index].id != server.files@[count - 1].id);
            } else {
                assert(all[k] == new[k - before.len()] && all[l] == new[l - before.len()]);
            }
        }
    }
}

/// The location lies in one of the project's own files, and the member there
/// takes up exactly that stretch and is the target.
pub open spec fn leads_home(
    server: Server,
    location: SymbolLocation,
    target: MemberTargetView,
) -> bool {
    &&& server.file(location.file) is Some
    &&& server.file(location.file)->0.file_type == FileType::Host
    &&& member_at(server, location.file, location.range.start) matches Some((range, found))
        && range == location.range && found.declaration == target.declaration
}

/// Each reference that is reported lies in one of the project's own files and
/// resolves, as exactly that stretch, to the declaration asked for, and none is
/// reported twice. So a member of the same name in an unrelated class is never
/// among them.
pub proof fn law_references_lead_home(
    server: Server,
    target: MemberTargetView,
    include_declaration: bool,
)
    requires
        server.wf(),
    ensures
        ({
            let all = references_to(
                server,
                target,
                include_declaration,
                server.files@.len() as int,
            );
            &&& forall|k: int|
                0 <= k < all.len() ==> leads_home(server, #[trigger] all[k], target)
            &&& forall|k: int, l: int|
                0 <= k < l < all.len() ==> #[trigger] all[k] != #[trigger] all[l]
        }),
{
    let count = server.files@.len() as int;
    let all = references_to(server, target, include_declaration, count);
    law_references_resolve_to_the_target(server, target, include_declaration, count);
    law_references_spell_the_name(server, target, include_declaration, count);
    lemma_references_differ(server, target, include_declaration, count);
    assert forall|k: int| 0 <= k < all.len() implies leads_home(
        server,
        #[trigger] all[k],
        target,
    ) by {
        assert(refers_back(server, all[k], target));
        assert(spells_target(server, all[k], target));
        let index = choose|index: int|
            0 <= index < server.files@.len() && spelled_in(
                #[trigger] server.files@[index],
                all[k],
                target,
            );
        lemma_file_of_id(server, index);
    }
}

/// Every reference that is reported spells the target's name, as a whole
/// identifier, in one of the project's own files.
pub proof fn law_references_spell_the_name(
    server: Server,
    target: MemberTargetView,
    include_declaration: bool,
    count: int,
)
    requires
        server.wf(),
        0 <= count <= server.files@.len(),
    ensures
        forall|k: int|
            0 <= k < references_to(server, target, include_declaration, count).len()
                ==> spells_target(
                server,
                #[trigger] references_to(server, target, include_declaration, count)[k],
                target,
            ),
    decreases count,
{
    if count > 0 {
        law_references_spell_the_name(server, target, include_declaration, count - 1);
        let before = references_to(server, target, include_declaration, count - 1);
        let new = references_of_file(server, count - 1, target, include_declaration);
        let all = references_to(server, target, include_declaration, count);
        let file = server.files@[count - 1];
        let hits = all_occurrences(file.contents@, target.name, target.kind);
        assert(file.wf());
        if file.file_type == FileType::Host {
            lemma_references_in_spell(
                server,
                file,
                target,
                include_declaration,
                hits.len() as int,
            );
        }
        assert forall|k: int| 0 <= k < all.len() implies spells_target(
            server,
            #[trigger] all[k],
            target,
        ) by {
            if k < before.len() {
                assert(all[k] == before[k]);
            } else {
                assert(all[k] == new[k - before.len()]);
                assert(spelled_in(server.files@[count - 1], all[k], target));
            }
        }
    }
}

proof fn lemma_references_in_complete(
    server: Server,
    file_id: FileId,
    hits: Seq<(u32, u32)>,
    target: MemberTargetView,
    include_declaration: bool,
    count: int,
    at: int,
)
    requires
        0 <= at < count <= hits.len(),
        refers_to(server, file_id, hits[at], target),
        include_declaration || !at_declaration(target, file_id, hits[at].0),
    ensures
        references_in(server, file_id, hits, target, include_declaration, count).contains(
            SymbolLocation { file: file_id, range: Range { start: hits[at].0, end: hits[at].1 } },
        ),
    decreases count,
{
    let location = SymbolLocation {
        file: file_id,
        range: Range { start: hits[at].0, end: hits[at].1 },
    };
    let before = references_in(server, file_id, hits, target, include_declaration, count - 1);
    let all = references_in(server, file_id, hits, target, include_declaration, count);
    if at == count - 1 {
        assert(all[before.len() as int] == location);
    } else {
        lemma_references_in_complete(
            server,
            file_id,
            hits,
            target,
            include_declaration,
            count - 1,
            at,
        );
        let k = choose|k: int| 0 <= k < before.len() && before[k] == location;
        assert(all[k] == location);
    }
}

/// No reference is missed: where the target's name stands as a whole identifier
/// in one of the project's own files, and resolves to the target, the place is
/// reported.
pub proof fn law_references_are_complete(
    server: Server,
    target: MemberTargetView,
    include_declaration: bool,
    count: int,
    index: int,
    start: u32,
)
    requires
        server.wf(),
        0 <= index < count <= server.files@.len(),
        server.files@[index].file_type == FileType::Host,
        target.name.len() > 0,
        names_at(server.files@[index].contents@, target.name, target.kind, start as int),
        refers_to(
            server,
            server.files@[index].id,
            (start, (start + target.name.len()) as u32),
            target,
        ),
        include_declaration || !at_declaration(target, server.files@[index].id, start),
    ensures
        references_to(server, target, include_declaration, count).contains(
            SymbolLocation {
                file: server.files@[index].id,
                range: Range { start, end: (start + target.name.len()) as u32 },
            },
        ),
    decreases count,
{
    let file = server.files@[index];
    let location = SymbolLocation {
        file: file.id,
        range: Range { start, end: (start + target.name.len()) as u32 },
    };
    let before = references_to(server, target, include_declaration, count - 1);
    let new = references_of_file(server, count - 1, target, include_declaration);
    let all = references_to(server, target, include_declaration, count);
    if index < count - 1 {
        law_references_are_complete(
            server,
            target,
            include_declaration,
            count - 1,
            index,
            start,
        );
        let k = choose|k: int| 0 <= k < before.len() && before[k] == location;
        assert(all[k] == location);
    } else {
        let hits = all_occurrences(file.contents@, target.name, target.kind);
        assert(file.wf());
        law_occurrences_are_exact(file.contents@, target.name, target.kind, start as int);
        let at = choose|k: int| 0 <= k < hits.len() && (#[trigger] hits[k]).0 == start;
        lemma_references_in_complete(
            server,
            file.id,
            hits,
            target,
            include_declaration,
            hits.len() as int,
            at,
        );
        let k = choose|k: int| 0 <= k < new.len() && new[k] == location;
        assert(all[before.len() + k] == location);
    }
}

/// Not the declaration of the target.
pub open spec fn beyond_declaration(target: MemberTargetView) -> spec_fn(SymbolLocation) -> bool {
    |location: SymbolLocation| !at_declaration(target, location.file, location.range.start)
}

proof fn lemma_references_in_without_declaration(
    server: Server,
    file_id: FileId,
    hits: Seq<(u32, u32)>,
    target: MemberTargetView,
    count: int,
)
    requires
        0 <= count <= hits.len(),
    ensures
        references_in(server, file_id, hits, target, false, count) == references_in(
            server,
            file_id,
            hits,
            target,
            true,
            count,
        ).filter(beyond_declaration(target)),
    decreases count,
{
    broadcast use vstd::seq_lib::group_filter_ensures;

    reveal(Seq::filter);
    if count > 0 {
        lemma_references_in_without_declaration(server, file_id, hits, target, count - 1);
        let before = references_in(server, file_id, hits, target, true, count - 1);
        let hit = hits[count - 1];
        let location = SymbolLocation {
            file: file_id,
            range: Range { start: hit.0, end: hit.1 },
        };
        assert(before.push(location).drop_last() =~= before);
    }
}

/// Leaving the declaration out drops the declaration and nothing else.
pub proof fn law_declaration_is_all_that_is_dropped(
    server: Server,
    target: MemberTargetView,
    count: int,
)
    requires
        0 <= count <= server.files@.len(),
    ensures
        references_to(server, target, false, count) == references_to(
            server,
            target,
            true,
            count,
        ).filter(beyond_declaration(target)),
    decreases count,
{
    let wanted = beyond_declaration(target);
    if count <= 0 {
        reveal(Seq::filter);
    } else {
        law_declaration_is_all_that_is_dropped(server, target, count - 1);
        let before = references_to(server, target, true, count - 1);
        let new = references_of_file(server, count - 1, target, true);
        let file = server.files@[count - 1];
        let hits = all_occurrences(file.contents@, target.name, target.kind);
        lemma_references_in_without_declaration(
            server,
            file.id,
            hits,
            target,
            hits.len() as int,
        );
        if file.file_type != FileType::Host {
            assert(Seq::<SymbolLocation>::empty().filter(wanted) =~= Seq::empty()) by {
                reveal(Seq::filter);
            }
        }
        Seq::filter_distributes_over_add(before, new, wanted);
    }
}

proof fn lemma_references_in_by_identity(
    server: Server,
    file_id: FileId,
    hits: Seq<(u32, u32)>,
    one: MemberTargetView,
    other: MemberTargetView,
    include_declaration: bool,
    count: int,
)
    requires
        one.declaration == other.declaration,
    ensures
        references_in(server, file_id, hits, one, include_declaration, count) == references_in(
            server,
            file_id,
            hits,
            other,
            include_declaration,
            count,
        ),
    decreases count,
{
    if count > 0 {
        lemma_references_in_by_identity(
            server,
            file_id,
            hits,
            one,
            other,
            include_declaration,
            count - 1,
        );
    }
}

/// The declaration is the identity: however a member was reached, through its own
/// class or a descendant, the same references are reported.
pub proof fn law_references_go_by_declaration(
    server: Server,
    one: MemberTargetView,
    other: MemberTargetView,
    include_declaration: bool,
    count: int,
)
    requires
        one.declaration == other.declaration,
        one.name == other.name,
        one.kind == other.kind,
    ensures
        references_to(server, one, include_declaration, count) == references_to(
            server,
            other,
            include_declaration,
            count,
        ),
    decreases count,
{
    if count > 0 {
        law_references_go_by_declaration(server, one, other, include_declaration, count - 1);
        let file = server.files@[count - 1];
        let hits = all_occurrences(file.contents@, one.name, one.kind);
        lemma_references_in_by_identity(
            server,
            file.id,
            hits,
            one,
            other,
            include_declaration,
            hits.len() as int,
        );
    }
}

} // verus!
