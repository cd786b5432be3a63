//! Laws on looking things up: by id, by offset, by name.

use vstd::prelude::*;

use crate::ascii::equal_ignoring_case;
use crate::codebase::{
    case_named, class_named, constant_named, declares_method, declares_property, function_named,
    member_constant_named, property_named, ClassLikeConstantMetadata, ClassLikeMetadata,
    CodebaseMetadata, ConstantMetadata, DeclaringClass, EnumCaseMetadata, FunctionLikeMetadata,
    PropertyMetadata,
};
use crate::domain::{FileId, Range};
use crate::file::File;
use crate::reporting::{
    edits_in, is_primary, Annotation, AnnotationKind, FileEdits, Issue, TextEdit,
};
use crate::seqs::{first_is, lemma_first_is, none_is};
use crate::server::{
    analysis_of, expression_at, file_numbered, name_covers, return_at, types_of, ExpressionType,
    FileAnalysis, InferredReturn, ResolvedName, Server, TypeIndex,
};

verus! {

// ---- The server ----------------------------------------------------------

/// An id leads to the first file that has it.
pub proof fn law_files_are_found_by_id(server: Server, id: FileId, index: int)
    ensures
        first_is(server.files@, |file: File| file.id == id, index) ==> server.file(id) == Some(
            server.files@[index],
        ),
        none_is(server.files@, |file: File| file.id == id) ==> server.file(id) is None,
{
    lemma_first_is(server.files@, file_numbered(id), |file: File| file.id == id, index);
}

/// A server has one file to an id, each file well-formed, and a well-formed
/// codebase.
pub proof fn law_well_formed_server(server: Server)
    ensures
        server.wf() <==> (forall|i: int, j: int|
            0 <= i < j < server.files@.len() ==> (#[trigger] server.files@[i]).id != (
            #[trigger] server.files@[j]).id) && (forall|i: int|
            0 <= i < server.files@.len() ==> (#[trigger] server.files@[i]).wf())
            && server.codebase.wf(),
{
}

/// An id leads to the first analysis of that file.
pub proof fn law_analyses_are_found_by_id(server: Server, id: FileId, index: int)
    ensures
        first_is(server.analyses@, |analysis: FileAnalysis| analysis.file_id == id, index)
            ==> server.analysis(id) == Some(server.analyses@[index]),
        none_is(server.analyses@, |analysis: FileAnalysis| analysis.file_id == id)
            ==> server.analysis(id) is None,
{
    lemma_first_is(
        server.analyses@,
        analysis_of(id),
        |analysis: FileAnalysis| analysis.file_id == id,
        index,
    );
}

/// An id leads to the first types of that file.
pub proof fn law_types_are_found_by_id(server: Server, id: FileId, index: int)
    ensures
        first_is(server.type_indexes@, |types: TypeIndex| types.file_id == id, index)
            ==> server.type_index(id) == Some(server.type_indexes@[index]),
        none_is(server.type_indexes@, |types: TypeIndex| types.file_id == id)
            ==> server.type_index(id) is None,
{
    lemma_first_is(
        server.type_indexes@,
        types_of(id),
        |types: TypeIndex| types.file_id == id,
        index,
    );
}

/// An offset leads to the first resolved name that starts at or before it and ends
/// behind it.
pub proof fn law_names_are_found_by_offset(analysis: FileAnalysis, offset: u32, index: int)
    ensures
        first_is(
            analysis.resolved@,
            |name: ResolvedName| name.start <= offset && offset < name.end,
            index,
        ) ==> analysis.resolved_at(offset) == Some(analysis.resolved@[index]),
        none_is(
            analysis.resolved@,
            |name: ResolvedName| name.start <= offset && offset < name.end,
        ) ==> analysis.resolved_at(offset) is None,
{
    lemma_first_is(
        analysis.resolved@,
        name_covers(offset),
        |name: ResolvedName| name.start <= offset && offset < name.end,
        index,
    );
}

/// The resolved name in a file is looked up in that file's analysis.
pub proof fn law_names_are_those_of_the_file(server: Server, id: FileId, offset: u32)
    ensures
        server.analysis(id) matches Some(analysis) ==> server.resolved_at(id, offset)
            == analysis.resolved_at(offset),
        server.analysis(id) is None ==> server.resolved_at(id, offset) is None,
{
}

/// A range leads to what is shown for exactly that range.
pub proof fn law_types_are_found_by_range(types: TypeIndex, range: Range, index: int)
    ensures
        first_is(
            types.display_by_span@,
            |entry: ExpressionType|
                entry.range.start == range.start && entry.range.end == range.end,
            index,
        ) ==> types.display_at(range) == Some(types.display_by_span@[index].display@),
        none_is(
            types.display_by_span@,
            |entry: ExpressionType|
                entry.range.start == range.start && entry.range.end == range.end,
        ) ==> types.display_at(range) is None,
        first_is(
            types.inferred_returns_by_span@,
            |entry: InferredReturn| entry.span.start == range.start && entry.span.end == range.end,
            index,
        ) ==> types.inferred_return_at(range) == Some(
            types.inferred_returns_by_span@[index].inferred,
        ),
        none_is(
            types.inferred_returns_by_span@,
            |entry: InferredReturn| entry.span.start == range.start && entry.span.end == range.end,
        ) ==> types.inferred_return_at(range) is None,
{
    lemma_first_is(
        types.display_by_span@,
        expression_at(range),
        |entry: ExpressionType| entry.range.start == range.start && entry.range.end == range.end,
        index,
    );
    lemma_first_is(
        types.inferred_returns_by_span@,
        return_at(range),
        |entry: InferredReturn| entry.span.start == range.start && entry.span.end == range.end,
        index,
    );
}

// ---- The codebase --------------------------------------------------------

/// Class-likes and functions are found by name ignoring case, constants exactly;
/// the first that fits counts.
pub proof fn law_symbols_are_found_by_name(codebase: CodebaseMetadata, name: Seq<u8>, index: int)
    ensures
        first_is(
            codebase.class_likes@,
            |meta: ClassLikeMetadata| equal_ignoring_case(meta.name@, name),
            index,
        ) ==> codebase.class_like(name) == Some(codebase.class_likes@[index]),
        none_is(
            codebase.class_likes@,
            |meta: ClassLikeMetadata| equal_ignoring_case(meta.name@, name),
        ) ==> codebase.class_like(name) is None,
        first_is(
            codebase.functions@,
            |meta: FunctionLikeMetadata| equal_ignoring_case(meta.name@, name),
            index,
        ) ==> codebase.function(name) == Some(codebase.functions@[index]),
        none_is(
            codebase.functions@,
            |meta: FunctionLikeMetadata| equal_ignoring_case(meta.name@, name),
        ) ==> codebase.function(name) is None,
        first_is(codebase.constants@, |meta: ConstantMetadata| meta.name@ == name, index)
            ==> codebase.constant(name) == Some(codebase.constants@[index]),
        none_is(codebase.constants@, |meta: ConstantMetadata| meta.name@ == name)
            ==> codebase.constant(name) is None,
{
    lemma_first_is(
        codebase.class_likes@,
        class_named(name),
        |meta: ClassLikeMetadata| equal_ignoring_case(meta.name@, name),
        index,
    );
    lemma_first_is(
        codebase.functions@,
        function_named(name),
        |meta: FunctionLikeMetadata| equal_ignoring_case(meta.name@, name),
        index,
    );
    lemma_first_is(
        codebase.constants@,
        constant_named(name),
        |meta: ConstantMetadata| meta.name@ == name,
        index,
    );
}

/// Constants, cases and properties of a class-like are found by their exact names,
/// each among its own kind; the first that fits counts.
pub proof fn law_members_are_found_by_name(meta: ClassLikeMetadata, name: Seq<u8>, index: int)
    ensures
        first_is(
            meta.constants@,
            |constant: ClassLikeConstantMetadata| constant.name@ == name,
            index,
        ) ==> meta.constant(name) == Some(meta.constants@[index]),
        none_is(meta.constants@, |constant: ClassLikeConstantMetadata| constant.name@ == name)
            ==> meta.constant(name) is None,
        first_is(meta.enum_cases@, |case: EnumCaseMetadata| case.name@ == name, index)
            ==> meta.enum_case(name) == Some(meta.enum_cases@[index]),
        none_is(meta.enum_cases@, |case: EnumCaseMetadata| case.name@ == name)
            ==> meta.enum_case(name) is None,
        first_is(meta.properties@, |property: PropertyMetadata| property.name@ == name, index)
            ==> meta.property(name) == Some(meta.properties@[index]),
        none_is(meta.properties@, |property: PropertyMetadata| property.name@ == name)
            ==> meta.property(name) is None,
{
    lemma_first_is(
        meta.constants@,
        member_constant_named(name),
        |constant: ClassLikeConstantMetadata| constant.name@ == name,
        index,
    );
    lemma_first_is(
        meta.enum_cases@,
        case_named(name),
        |case: EnumCaseMetadata| case.name@ == name,
        index,
    );
    lemma_first_is(
        meta.properties@,
        property_named(name),
        |property: PropertyMetadata| property.name@ == name,
        index,
    );
}

/// The members of a class are those of the class-like of that name: a method is
/// found ignoring case, a case or constant exactly. A class that is not known has
/// none.
pub proof fn law_class_members(
    codebase: CodebaseMetadata,
    class: Seq<u8>,
    name: Seq<u8>,
    index: int,
)
    ensures
        codebase.class_like(class) matches Some(meta) ==> {
            &&& first_is(
                meta.methods@,
                |method: FunctionLikeMetadata| equal_ignoring_case(method.name@, name),
                index,
            ) ==> codebase.method(class, name) == Some(meta.methods@[index])
            &&& none_is(
                meta.methods@,
                |method: FunctionLikeMetadata| equal_ignoring_case(method.name@, name),
            ) ==> codebase.method(class, name) is None
            &&& codebase.enum_case(class, name) == meta.enum_case(name)
            &&& codebase.class_constant(class, name) == meta.constant(name)
        },
        codebase.class_like(class) is None ==> codebase.method(class, name) is None
            && codebase.enum_case(class, name) is None && codebase.class_constant(
            class,
            name,
        ) is None,
{
    if let Some(meta) = codebase.class_like(class) {
        lemma_first_is(
            meta.methods@,
            function_named(name),
            |method: FunctionLikeMetadata| equal_ignoring_case(method.name@, name),
            index,
        );
    }
}

/// Which class declares a member of `class` is what `class` itself has recorded:
/// for a method ignoring case, for a property exactly. A class that is not known
/// has nothing recorded.
pub proof fn law_declaring_classes(
    codebase: CodebaseMetadata,
    class: Seq<u8>,
    name: Seq<u8>,
    index: int,
)
    ensures
        codebase.class_like(class) matches Some(meta) ==> {
            &&& first_is(
                meta.declaring_methods@,
                |entry: DeclaringClass| equal_ignoring_case(entry.member@, name),
                index,
            ) ==> codebase.declaring_method_class(class, name) == Some(
                meta.declaring_methods@[index].class@,
            )
            &&& none_is(
                meta.declaring_methods@,
                |entry: DeclaringClass| equal_ignoring_case(entry.member@, name),
            ) ==> codebase.declaring_method_class(class, name) is None
            &&& first_is(
                meta.declaring_properties@,
                |entry: DeclaringClass| entry.member@ == name,
                index,
            ) ==> codebase.declaring_property_class(class, name) == Some(
                meta.declaring_properties@[index].class@,
            )
            &&& none_is(meta.declaring_properties@, |entry: DeclaringClass| entry.member@ == name)
                ==> codebase.declaring_property_class(class, name) is None
        },
        codebase.class_like(class) is None ==> codebase.declaring_method_class(class, name) is None
            && codebase.declaring_property_class(class, name) is None,
{
    if let Some(meta) = codebase.class_like(class) {
        lemma_first_is(
            meta.declaring_methods@,
            declares_method(name),
            |entry: DeclaringClass| equal_ignoring_case(entry.member@, name),
            index,
        );
        lemma_first_is(
            meta.declaring_properties@,
            declares_property(name),
            |entry: DeclaringClass| entry.member@ == name,
            index,
        );
    }
}

/// An inherited member is the one of the class that declares it. A method that no
/// class is recorded for is looked up in the class itself, a property is not.
pub proof fn law_inherited_members(codebase: CodebaseMetadata, class: Seq<u8>, name: Seq<u8>)
    ensures
        codebase.declaring_method_class(class, name) matches Some(declaring)
            ==> codebase.declaring_method(class, name) == codebase.method(declaring, name),
        codebase.declaring_method_class(class, name) is None ==> codebase.declaring_method(
            class,
            name,
        ) == codebase.method(class, name),
        codebase.declaring_property_class(class, name) matches Some(declaring) ==> (
        codebase.class_like(declaring) matches Some(meta) ==> codebase.declaring_property(
            class,
            name,
        ) == meta.property(name)) && (codebase.class_like(declaring) is None
            ==> codebase.declaring_property(class, name) is None),
        codebase.declaring_property_class(class, name) is None ==> codebase.declaring_property(
            class,
            name,
        ) is None,
{
}

/// A symbol is declared where the class-like of that name is, else the function,
/// else the constant.
pub proof fn law_symbols_are_declared(codebase: CodebaseMetadata, name: Seq<u8>)
    ensures
        codebase.class_like(name) matches Some(meta) ==> codebase.symbol_span(name) == Some(
            meta.span,
        ),
        codebase.class_like(name) is None ==> (codebase.function(name) matches Some(meta)
            ==> codebase.symbol_span(name) == Some(meta.span)),
        codebase.class_like(name) is None && codebase.function(name) is None ==> (
        codebase.constant(name) matches Some(meta) ==> codebase.symbol_span(name) == Some(
            meta.span,
        )),
        codebase.class_like(name) is None && codebase.function(name) is None && codebase.constant(
            name,
        ) is None ==> codebase.symbol_span(name) is None,
{
}

/// A class-like is well-formed when it does not end before it starts, the name of
/// each constant ends at a 32-bit offset, and the span of each property's name has
/// room for its `$`.
pub proof fn law_well_formed_class_like(meta: ClassLikeMetadata)
    ensures
        meta.wf() <==> meta.span.start.offset <= meta.span.end.offset && (forall|i: int|
            0 <= i < meta.constants@.len() ==> (#[trigger] meta.constants@[i]).span.start.offset
                + meta.constants@[i].name@.len() <= 0xffff_ffff) && (forall|i: int|
            0 <= i < meta.properties@.len() ==> (
            #[trigger] meta.properties@[i]).name_span is None
                || meta.properties@[i].name_span->0.start.offset < 0xffff_ffff),
{
    if meta.wf() {
        assert forall|i: int| 0 <= i < meta.constants@.len() implies (
        #[trigger] meta.constants@[i]).span.start.offset + meta.constants@[i].name@.len()
            <= 0xffff_ffff by {
            assert(crate::codebase::constant_fits(meta.constants@[i]));
        }
        assert forall|i: int| 0 <= i < meta.properties@.len() implies (
        #[trigger] meta.properties@[i]).name_span is None
            || meta.properties@[i].name_span->0.start.offset < 0xffff_ffff by {
            assert(crate::codebase::property_fits(meta.properties@[i]));
        }
    }
}

// ---- Issues --------------------------------------------------------------

/// An issue points where its first primary annotation does, and where its first
/// annotation does when none is primary.
pub proof fn law_issue_points_at_its_primary_annotation(issue: Issue, index: int)
    ensures
        first_is(
            issue.annotations@,
            |annotation: Annotation| annotation.kind == AnnotationKind::Primary,
            index,
        ) ==> issue.primary() == Some(issue.annotations@[index]),
        none_is(
            issue.annotations@,
            |annotation: Annotation| annotation.kind == AnnotationKind::Primary,
        ) && issue.annotations@.len() > 0 ==> issue.primary() == Some(issue.annotations@[0]),
        issue.annotations@.len() == 0 ==> issue.primary() is None,
{
    lemma_first_is(
        issue.annotations@,
        is_primary(),
        |annotation: Annotation| annotation.kind == AnnotationKind::Primary,
        index,
    );
    if issue.annotations@.len() == 0 {
        assert(none_is(
            issue.annotations@,
            |annotation: Annotation| annotation.kind == AnnotationKind::Primary,
        ));
    }
}

/// The edits of an issue for a file are the first that are listed for it.
pub proof fn law_edits_are_found_by_file(issue: Issue, file: FileId, index: int)
    ensures
        first_is(issue.edits@, |edits: FileEdits| edits.file == file, index) ==> issue.edits_for(
            file,
        ) == Some(issue.edits@[index]),
        none_is(issue.edits@, |edits: FileEdits| edits.file == file) ==> issue.edits_for(
            file,
        ) is None,
{
    lemma_first_is(issue.edits@, edits_in(file), |edits: FileEdits| edits.file == file, index);
}

/// The view of an issue, of its annotations and of its edits tells all that they
/// hold.
pub proof fn law_issue_views(issue: Issue, annotation: Annotation, edit: TextEdit, i: int, k: int)
    ensures
        annotation@.kind == annotation.kind && annotation@.span == annotation.span,
        annotation@.message == match annotation.message {
            Some(message) => Some(message@),
            None => None,
        },
        edit@.range == edit.range && edit@.new_text == edit.new_text@ && edit@.safety
            == edit.safety,
        issue@.level == issue.level && issue@.message == issue.message@,
        issue@.code == match issue.code {
            Some(code) => Some(code@),
            None => None,
        },
        issue@.help == match issue.help {
            Some(help) => Some(help@),
            None => None,
        },
        issue@.notes.len() == issue.notes@.len(),
        0 <= i < issue.notes@.len() ==> issue@.notes[i] == issue.notes@[i]@,
        issue@.annotations.len() == issue.annotations@.len(),
        0 <= i < issue.annotations@.len() ==> issue@.annotations[i] == issue.annotations@[i]@,
        issue@.edits.len() == issue.edits@.len(),
        0 <= i < issue.edits@.len() ==> issue@.edits[i].0 == issue.edits@[i].file
            && issue@.edits[i].1.len() == issue.edits@[i].edits@.len(),
        0 <= i < issue.edits@.len() && 0 <= k < issue.edits@[i].edits@.len()
            ==> issue@.edits[i].1[k] == issue.edits@[i].edits@[k]@,
{
}

} // verus!
