//! Laws on definitions and hovers.

use vstd::prelude::*;

use crate::codebase::{
    ClassLikeMetadata, CodebaseMetadata, FunctionLikeMetadata, ParameterMetadata, SymbolKind,
};
use crate::definition::definition_at;
use crate::domain::{FileId, Range, Span, SymbolLocation};
use crate::hover::{
    class_text, display_at, function_text, hover_at, hover_view, member_text, names_text,
    owner_text, parameter_text, parameters_text, symbol_text, variable_text, HoverInfo,
};
use crate::lookup::variable_extent;
use crate::member::{member_at, MemberKind, MemberTargetView};
use crate::outside::lossy;
use crate::server::Server;

verus! {

// ---- Definitions ---------------------------------------------------------

/// The location is that of the span: in its file, from its start to its end.
pub open spec fn lies_at(location: Option<SymbolLocation>, span: Span) -> bool {
    &&& location is Some
    &&& location->0.file == span.file_id
    &&& location->0.range.start == span.start.offset
    &&& location->0.range.end == span.end.offset
}

/// A name leads to the declaration of the class-like that it names, else of the
/// function, else of the constant: to the file and the stretch of its span,
/// whichever file the cursor is in.
pub proof fn law_definition_of_a_symbol(server: Server, file_id: FileId, offset: u32)
    ensures
        server.resolved_at(file_id, offset) matches Some(name) ==> {
            let class = server.codebase.class_like(name.name@);
            let function = server.codebase.function(name.name@);
            let constant = server.codebase.constant(name.name@);
            let found = definition_at(server, file_id, offset);
            &&& class is Some ==> lies_at(found, class->0.span)
            &&& class is None && function is Some ==> lies_at(found, function->0.span)
            &&& class is None && function is None && constant is Some ==> lies_at(
                found,
                constant->0.span,
            )
        },
{
}

/// Where no name at the cursor names a known symbol, the cursor leads to the
/// declaration of the class member there, and to nothing where there is none.
pub proof fn law_definition_of_a_member(server: Server, file_id: FileId, offset: u32)
    requires
        server.resolved_at(file_id, offset) matches Some(name) ==> server.codebase.class_like(
            name.name@,
        ) is None && server.codebase.function(name.name@) is None && server.codebase.constant(
            name.name@,
        ) is None,
    ensures
        member_at(server, file_id, offset) matches Some((range, target)) ==> lies_at(
            definition_at(server, file_id, offset),
            target.declaration,
        ),
        member_at(server, file_id, offset) is None ==> definition_at(
            server,
            file_id,
            offset,
        ) is None,
{
}

// ---- Functions -----------------------------------------------------------

/// Parameters are listed in order with commas between them.
pub proof fn law_parameters(parameters: Seq<ParameterMetadata>, count: int)
    requires
        1 <= count < parameters.len(),
    ensures
        parameters_text(parameters, 0) == Seq::<char>::empty(),
        parameters_text(parameters, 1) == parameter_text(parameters[0]),
        parameters_text(parameters, count + 1) == parameters_text(parameters, count) + ", "@
            + parameter_text(parameters[count]),
{
}

/// A single parameter is shown behind its type where that is known.
pub proof fn law_parameter(parameter: ParameterMetadata)
    ensures
        parameter.type_id matches Some(ty) ==> parameter_text(parameter) == lossy(ty@) + " "@
            + lossy(parameter.name@),
        parameter.type_id is None ==> parameter_text(parameter) == lossy(parameter.name@),
        parameters_text(Seq::empty(), 0) == Seq::<char>::empty(),
        parameters_text(seq![parameter], 1) == parameter_text(parameter),
{
}

/// A signature shows, in a PHP block, the keyword, the class of a method, the name
/// as it is written, every parameter, and the return type where that is known.
pub proof fn law_signature(
    keyword: Seq<char>,
    meta: FunctionLikeMetadata,
    class: Option<Seq<u8>>,
    signature: Seq<char>,
)
    requires
        signature == function_text(keyword, meta, class),
    ensures
        ({
            let count = meta.parameters@.len() as int;
            let called = lossy(meta.original_name@) + "("@ + parameters_text(
                meta.parameters@,
                count,
            ) + ")"@;
            let shown = match class {
                Some(class) => lossy(class) + "::"@ + called,
                None => called,
            };
            let typed = match meta.return_type {
                Some(ty) => shown + ": "@ + lossy(ty@),
                None => shown,
            };
            signature == "```php\n"@ + (keyword + " "@ + typed) + "\n```"@
        }),
{
    let count = meta.parameters@.len() as int;
    let called = lossy(meta.original_name@) + "("@ + parameters_text(meta.parameters@, count)
        + ")"@;
    let shown = match class {
        Some(class) => lossy(class) + "::"@ + called,
        None => called,
    };
    let typed = match meta.return_type {
        Some(ty) => shown + ": "@ + lossy(ty@),
        None => shown,
    };
    assert(signature =~= "```php\n"@ + (keyword + " "@ + typed) + "\n```"@);
}

// ---- Class-likes ---------------------------------------------------------

/// Names are listed in order with commas between them.
pub proof fn law_names(names: Seq<Vec<u8>>, count: int)
    requires
        1 <= count < names.len(),
    ensures
        names_text(names, 0) == Seq::<char>::empty(),
        names_text(names, 1) == lossy(names[0]@),
        names_text(names, count + 1) == names_text(names, count) + ", "@ + lossy(names[count]@),
{
}

/// A single name is listed as it is.
pub proof fn law_single_name(name: Vec<u8>)
    ensures
        names_text(seq![name], 1) == lossy(name@),
{
}

/// The head of a class-like shows, in a PHP block, its kind, its name as it is
/// written, the class it extends, and the interfaces: behind `extends` for an
/// interface, behind `implements` for any other. The traits stand below the block.
pub proof fn law_class_head(meta: ClassLikeMetadata)
    ensures
        ({
            let kind = match meta.kind {
                SymbolKind::Class => "class"@,
                SymbolKind::Interface => "interface"@,
                SymbolKind::Trait => "trait"@,
                SymbolKind::Enum => "enum"@,
            };
            let named = kind + " "@ + lossy(meta.original_name@);
            let extending = match meta.direct_parent_class {
                Some(parent) => named + " extends "@ + lossy(parent@),
                None => named,
            };
            let interfaces = names_text(
                meta.direct_parent_interfaces@,
                meta.direct_parent_interfaces@.len() as int,
            );
            let head = if meta.direct_parent_interfaces@.len() == 0 {
                extending
            } else if meta.kind == SymbolKind::Interface {
                extending + " extends "@ + interfaces
            } else {
                extending + " implements "@ + interfaces
            };
            let block = "```php\n"@ + head + "\n```"@;
            class_text(meta) == if meta.used_traits@.len() == 0 {
                block
            } else {
                block + "\n\n**Uses traits:** "@ + names_text(
                    meta.used_traits@,
                    meta.used_traits@.len() as int,
                )
            }
        }),
{
    let kind = match meta.kind {
        SymbolKind::Class => "class"@,
        SymbolKind::Interface => "interface"@,
        SymbolKind::Trait => "trait"@,
        SymbolKind::Enum => "enum"@,
    };
    let named = kind + " "@ + lossy(meta.original_name@);
    let extending = match meta.direct_parent_class {
        Some(parent) => named + " extends "@ + lossy(parent@),
        None => named,
    };
    let interfaces = names_text(
        meta.direct_parent_interfaces@,
        meta.direct_parent_interfaces@.len() as int,
    );
    let head = if meta.direct_parent_interfaces@.len() == 0 {
        extending
    } else if meta.kind == SymbolKind::Interface {
        extending + " extends "@ + interfaces
    } else {
        extending + " implements "@ + interfaces
    };
    let block = "```php\n"@ + head + "\n```"@;
    let traits = names_text(meta.used_traits@, meta.used_traits@.len() as int);
    if meta.used_traits@.len() == 0 {
        assert(class_text(meta) =~= block);
    } else {
        assert(class_text(meta) =~= block + "\n\n**Uses traits:** "@ + traits);
    }
}

// ---- Symbols -------------------------------------------------------------

/// A symbol is summarised as the class-like of that name, else as the function, else
/// as the constant.
pub proof fn law_symbol_summary(codebase: CodebaseMetadata, name: Seq<u8>)
    ensures
        ({
            let class = codebase.class_like(name);
            let function = codebase.function(name);
            let constant = codebase.constant(name);
            let summary = symbol_text(codebase, name);
            &&& class is Some ==> summary == Some(class_text(class->0))
            &&& class is None && function is Some ==> summary == Some(
                function_text("function"@, function->0, None),
            )
            &&& class is None && function is None && constant is Some ==> summary == Some(
                "```php\nconst "@ + lossy(constant->0.name@) + "\n```"@,
            )
            &&& class is None && function is None && constant is None ==> summary is None
        }),
{
}

// ---- Members -------------------------------------------------------------

/// The class of a member is shown as it is written at its declaration, or as it was
/// given where that is not known.
pub proof fn law_shown_owner(codebase: CodebaseMetadata, class: Seq<u8>)
    ensures
        codebase.class_like(class) matches Some(meta) ==> owner_text(codebase, Some(class)) == Some(
            meta.original_name@,
        ),
        codebase.class_like(class) is None ==> owner_text(codebase, Some(class)) == Some(class),
        owner_text(codebase, None) is None,
{
}

/// A static method that is known is shown by its signature, behind `static function`
/// and with its class.
pub proof fn law_method_summary(codebase: CodebaseMetadata, member: MemberTargetView)
    requires
        member.kind == MemberKind::StaticMethod,
        owner_text(codebase, member.class) is Some,
        codebase.declaring_method(
            owner_text(codebase, member.class)->0,
            member.name,
        ) is Some,
    ensures
        member_text(codebase, member) == function_text(
            "static function"@,
            codebase.declaring_method(owner_text(codebase, member.class)->0, member.name)->0,
            owner_text(codebase, member.class),
        ),
{
}

/// Any other member is shown by its keyword, its class where that is known, and its
/// name: a static property with its `$`, an enum case with its value where that is
/// known.
pub proof fn law_member_summary(codebase: CodebaseMetadata, member: MemberTargetView)
    requires
        member.kind != MemberKind::StaticMethod || owner_text(codebase, member.class) is None
            || codebase.declaring_method(
            owner_text(codebase, member.class)->0,
            member.name,
        ) is None,
    ensures
        ({
            let owner = owner_text(codebase, member.class);
            let keyword = match member.kind {
                MemberKind::EnumCase => "case"@,
                MemberKind::ClassConstant => "const"@,
                MemberKind::StaticMethod => "static function"@,
                MemberKind::StaticProperty => "static"@,
            };
            let named = if member.kind == MemberKind::StaticProperty {
                "$"@ + lossy(member.name)
            } else {
                lossy(member.name)
            };
            let owned = match owner {
                Some(owner) => lossy(owner) + "::"@ + named,
                None => named,
            };
            let case = if member.kind == MemberKind::EnumCase && owner is Some {
                codebase.enum_case(owner->0, member.name)
            } else {
                None
            };
            let valued = if case is Some && case->0.value_type is Some {
                owned + " = "@ + lossy(case->0.value_type->0@)
            } else {
                owned
            };
            member_text(codebase, member) == "```php\n"@ + (keyword + " "@ + valued) + "\n```"@
        }),
{
    let owner = owner_text(codebase, member.class);
    let keyword = match member.kind {
        MemberKind::EnumCase => "case"@,
        MemberKind::ClassConstant => "const"@,
        MemberKind::StaticMethod => "static function"@,
        MemberKind::StaticProperty => "static"@,
    };
    let named = if member.kind == MemberKind::StaticProperty {
        "$"@ + lossy(member.name)
    } else {
        lossy(member.name)
    };
    let owned = match owner {
        Some(owner) => lossy(owner) + "::"@ + named,
        None => named,
    };
    let case = if member.kind == MemberKind::EnumCase && owner is Some {
        codebase.enum_case(owner->0, member.name)
    } else {
        None
    };
    let valued = if case is Some && case->0.value_type is Some {
        owned + " = "@ + lossy(case->0.value_type->0@)
    } else {
        owned
    };
    assert(member_text(codebase, member) =~= "```php\n"@ + (keyword + " "@ + valued) + "\n```"@);
}

// ---- Hovers --------------------------------------------------------------

/// A variable is shown with its `$`, behind its type where that is known.
pub proof fn law_variable_summary(name: Seq<u8>, ty: Seq<char>)
    ensures
        variable_text(name, None) == "_@var_ $"@ + lossy(name),
        variable_text(name, Some(ty)) == "_@var_ `"@ + ty + "` `$"@ + lossy(name) + "`"@,
{
}

/// What a variable's type is shown as is what the types of its file say of its range.
pub proof fn law_variable_type(server: Server, file_id: FileId, range: Range)
    ensures
        server.type_index(file_id) matches Some(types) ==> display_at(server, file_id, range)
            == types.display_at(range),
        server.type_index(file_id) is None ==> display_at(server, file_id, range) is None,
{
}

/// A hover shows the symbol that the name at the cursor resolves to, at the range of
/// that name, or nothing where the symbol is not known. Only where there is no such
/// name it shows the class member at the cursor, and only where there is no such
/// member the variable.
pub proof fn law_hover(server: Server, file_id: FileId, offset: u32)
    ensures
        server.file(file_id) is None || server.analysis(file_id) is None ==> hover_at(
            server,
            file_id,
            offset,
        ) is None,
        server.file(file_id) is Some && server.analysis(file_id) is Some ==> {
            let contents = server.file(file_id)->0.contents@;
            let name = server.analysis(file_id)->0.resolved_at(offset);
            let member = member_at(server, file_id, offset);
            let hover = hover_at(server, file_id, offset);
            &&& name is Some ==> match symbol_text(server.codebase, name->0.name@) {
                Some(text) => hover == Some(
                    (text, Range { start: name->0.start, end: name->0.end }),
                ),
                None => hover is None,
            }
            &&& name is None ==> (member matches Some((range, target)) ==> hover == Some(
                (member_text(server.codebase, target), range),
            ))
            &&& name is None && member is None ==> match variable_extent(contents, offset as int) {
                Some((start, end)) => hover == Some(
                    (
                        variable_text(
                            contents.subrange(start + 1, end),
                            display_at(
                                server,
                                file_id,
                                Range { start: start as u32, end: end as u32 },
                            ),
                        ),
                        Range { start: start as u32, end: end as u32 },
                    ),
                ),
                None => hover is None,
            }
        },
{
}

/// The view of a hover tells its text and its range.
pub proof fn law_hover_view(hover: HoverInfo)
    ensures
        hover_view(Some(hover)) == Some((hover.markdown@, hover.range)),
        hover_view(None) is None,
{
}

} // verus!
