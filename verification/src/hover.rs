//! A Markdown summary of the identifier (or variable, or `::`-accessed class
//! member) under the cursor.

use vstd::prelude::*;
use vstd::string::StringExecFns;

use crate::codebase::{
    ClassLikeMetadata, CodebaseMetadata, FunctionLikeMetadata, ParameterMetadata, SymbolKind,
};
use crate::domain::{FileId, Range};
use crate::lookup::{variable_at_offset, variable_covers, variable_extent};
use crate::member::{
    keyword_text, law_member_is_under_the_cursor, member_at, under_cursor, MemberKind,
    MemberTarget, MemberTargetView,
};
use crate::outside::{lossy, lossy_text};
use crate::seqs::lemma_first_from;
use crate::server::{file_numbered, name_covers, Server};

verus! {

/// What to show for the token under the cursor.
#[derive(Debug)]
pub struct HoverInfo {
    pub markdown: String,
    pub range: Range,
}

/// The text and the range of a [`HoverInfo`].
pub open spec fn hover_view(hover: Option<HoverInfo>) -> Option<(Seq<char>, Range)> {
    match hover {
        Some(hover) => Some((hover.markdown@, hover.range)),
        None => None,
    }
}

// ---- Functions -----------------------------------------------------------

/// One parameter: its type, if known, and its name.
pub open spec fn parameter_text(parameter: ParameterMetadata) -> Seq<char> {
    match parameter.type_id {
        Some(ty) => lossy(ty@) + " "@ + lossy(parameter.name@),
        None => lossy(parameter.name@),
    }
}

/// The first `count` parameters, with commas between them.
pub open spec fn parameters_text(parameters: Seq<ParameterMetadata>, count: int) -> Seq<char>
    decreases count,
{
    if count <= 0 {
        Seq::empty()
    } else if count == 1 {
        parameter_text(parameters[0])
    } else {
        parameters_text(parameters, count - 1) + ", "@ + parameter_text(parameters[count - 1])
    }
}

/// The signature of a function, or of a method of `method_of`, behind `keyword`.
pub open spec fn function_text(
    keyword: Seq<char>,
    meta: FunctionLikeMetadata,
    method_of: Option<Seq<u8>>,
) -> Seq<char> {
    let owner = match method_of {
        Some(class) => lossy(class) + "::"@,
        None => Seq::empty(),
    };
    let result = match meta.return_type {
        Some(ty) => ": "@ + lossy(ty@),
        None => Seq::empty(),
    };
    "```php\n"@ + keyword + " "@ + owner + lossy(meta.original_name@) + "("@ + parameters_text(
        meta.parameters@,
        meta.parameters@.len() as int,
    ) + ")"@ + result + "\n```"@
}

/// Add `bytes` to the end, as text.
fn push_bytes(out: &mut String, bytes: &[u8])
    ensures
        final(out)@ == old(out)@ + lossy(bytes@),
{
    let text = lossy_text(bytes);
    out.append(text.as_str());
}

/// The signature of a function, or of a method of `method_of`, behind `keyword`.
pub fn render_function_like(
    keyword: &str,
    meta: &FunctionLikeMetadata,
    method_of: Option<&[u8]>,
) -> (signature: String)
    ensures
        signature@ == function_text(
            keyword@,
            *meta,
            match method_of {
                Some(class) => Some(class@),
                None => None,
            },
        ),
{
    let mut signature = "```php\n".to_string();
    signature.append(keyword);
    signature.append(" ");
    if let Some(class) = method_of {
        push_bytes(&mut signature, class);
        signature.append("::");
    }
    push_bytes(&mut signature, meta.original_name.as_slice());
    signature.append("(");
    let ghost head = signature@;
    proof {
        let owner = match method_of {
            Some(class) => lossy(class@) + "::"@,
            None => Seq::empty(),
        };
        assert(head =~= "```php\n"@ + keyword@ + " "@ + owner + lossy(meta.original_name@) + "("@);
    }
    let mut i: usize = 0;
    assert(head + Seq::<char>::empty() =~= head);
    while i < meta.parameters.len()
        invariant
            i <= meta.parameters@.len(),
            signature@ == head + parameters_text(meta.parameters@, i as int),
        decreases meta.parameters.len() - i,
    {
        let parameter = &meta.parameters[i];
        let ghost before = parameters_text(meta.parameters@, i as int);
        if i > 0 {
            signature.append(", ");
        }
        if let Some(ty) = &parameter.type_id {
            push_bytes(&mut signature, ty.as_slice());
            signature.append(" ");
        }
        push_bytes(&mut signature, parameter.name.as_slice());
        i += 1;
        assert(signature@ =~= head + parameters_text(meta.parameters@, i as int));
    }
    signature.append(")");
    if let Some(ty) = &meta.return_type {
        signature.append(": ");
        push_bytes(&mut signature, ty.as_slice());
    }
    signature.append("\n```");
    proof {
        let method_of = match method_of {
            Some(class) => Some(class@),
            None => None,
        };
        assert(signature@ =~= function_text(keyword@, *meta, method_of));
    }
    signature
}

// ---- Class-likes ---------------------------------------------------------

/// The first `count` names, with commas between them.
pub open spec fn names_text(names: Seq<Vec<u8>>, count: int) -> Seq<char>
    decreases count,
{
    if count <= 0 {
        Seq::empty()
    } else if count == 1 {
        lossy(names[0]@)
    } else {
        names_text(names, count - 1) + ", "@ + lossy(names[count - 1]@)
    }
}

pub open spec fn symbol_kind_text(kind: SymbolKind) -> Seq<char> {
    match kind {
        SymbolKind::Class => "class"@,
        SymbolKind::Interface => "interface"@,
        SymbolKind::Trait => "trait"@,
        SymbolKind::Enum => "enum"@,
    }
}

/// The head of a class-like's declaration, and the traits that it uses.
pub open spec fn class_text(meta: ClassLikeMetadata) -> Seq<char> {
    let parent = match meta.direct_parent_class {
        Some(parent) => " extends "@ + lossy(parent@),
        None => Seq::empty(),
    };
    let interfaces = if meta.direct_parent_interfaces@.len() > 0 {
        (if meta.kind == SymbolKind::Interface {
            " extends "@
        } else {
            " implements "@
        }) + names_text(
            meta.direct_parent_interfaces@,
            meta.direct_parent_interfaces@.len() as int,
        )
    } else {
        Seq::empty()
    };
    let traits = if meta.used_traits@.len() > 0 {
        "\n\n**Uses traits:** "@ + names_text(meta.used_traits@, meta.used_traits@.len() as int)
    } else {
        Seq::empty()
    };
    "```php\n"@ + symbol_kind_text(meta.kind) + " "@ + lossy(meta.original_name@) + parent
        + interfaces + "\n```"@ + traits
}

/// Add `names` to the end, with commas between them.
fn push_names(out: &mut String, names: &Vec<Vec<u8>>)
    ensures
        final(out)@ == old(out)@ + names_text(names@, names@.len() as int),
{
    let ghost head = out@;
    let mut i: usize = 0;
    assert(head + Seq::<char>::empty() =~= head);
    while i < names.len()
        invariant
            i <= names@.len(),
            out@ == head + names_text(names@, i as int),
        decreases names.len() - i,
    {
        if i > 0 {
            out.append(", ");
        }
        push_bytes(out, names[i].as_slice());
        i += 1;
        assert(out@ =~= head + names_text(names@, i as int));
    }
}

/// The head of a class-like's declaration, and the traits that it uses.
pub fn render_class_like(meta: &ClassLikeMetadata) -> (out: String)
    ensures
        out@ == class_text(*meta),
{
    let kind = match meta.kind {
        SymbolKind::Class => "class",
        SymbolKind::Interface => "interface",
        SymbolKind::Trait => "trait",
        SymbolKind::Enum => "enum",
    };
    let mut out = "```php\n".to_string();
    out.append(kind);
    out.append(" ");
    push_bytes(&mut out, meta.original_name.as_slice());
    if let Some(parent) = &meta.direct_parent_class {
        out.append(" extends ");
        push_bytes(&mut out, parent.as_slice());
    }
    if meta.direct_parent_interfaces.len() > 0 {
        if matches!(meta.kind, SymbolKind::Interface) {
            out.append(" extends ");
        } else {
            out.append(" implements ");
        }
        push_names(&mut out, &meta.direct_parent_interfaces);
    }
    out.append("\n```");
    if meta.used_traits.len() > 0 {
        out.append("\n\n**Uses traits:** ");
        push_names(&mut out, &meta.used_traits);
    }
    assert(out@ =~= class_text(*meta));
    out
}

// ---- Symbols -------------------------------------------------------------

/// The summary of the class-like, function or constant `name`; they are tried in
/// that order.
pub open spec fn symbol_text(codebase: CodebaseMetadata, name: Seq<u8>) -> Option<Seq<char>> {
    match codebase.class_like(name) {
        Some(meta) => Some(class_text(meta)),
        None => match codebase.function(name) {
            Some(meta) => Some(function_text("function"@, meta, None)),
            None => match codebase.constant(name) {
                Some(meta) => Some("```php\nconst "@ + lossy(meta.name@) + "\n```"@),
                None => None,
            },
        },
    }
}

/// The summary of the symbol of this fully qualified name.
pub fn render(codebase: &CodebaseMetadata, fqcn: &[u8]) -> (markdown: Option<String>)
    ensures
        symbol_text(*codebase, fqcn@) == match markdown {
            Some(markdown) => Some(markdown@),
            None => None,
        },
{
    if let Some(meta) = codebase.get_class_like(fqcn) {
        return Some(render_class_like(meta));
    }
    if let Some(meta) = codebase.get_function(fqcn) {
        return Some(render_function_like("function", meta, None));
    }
    match codebase.get_constant(fqcn) {
        Some(meta) => {
            let mut out = "```php\nconst ".to_string();
            push_bytes(&mut out, meta.name.as_slice());
            out.append("\n```");
            Some(out)
        },
        None => None,
    }
}

// ---- Members -------------------------------------------------------------

/// The class of a member, as it is written at its declaration where that is
/// known.
pub open spec fn owner_text(codebase: CodebaseMetadata, class: Option<Seq<u8>>) -> Option<Seq<u8>> {
    match class {
        Some(class) => match codebase.class_like(class) {
            Some(meta) => Some(meta.original_name@),
            None => Some(class),
        },
        None => None,
    }
}

/// The value of an enum case, where it is known.
pub open spec fn case_value_text(
    codebase: CodebaseMetadata,
    owner: Option<Seq<u8>>,
    member: MemberTargetView,
) -> Seq<char> {
    if member.kind == MemberKind::EnumCase && owner is Some {
        match codebase.enum_case(owner->0, member.name) {
            Some(case) => match case.value_type {
                Some(value) => " = "@ + lossy(value@),
                None => Seq::empty(),
            },
            None => Seq::empty(),
        }
    } else {
        Seq::empty()
    }
}

/// The summary of a `::`-accessed member: its keyword, declaring class and name,
/// with a method's signature or an enum case's value where that is known.
pub open spec fn member_text(codebase: CodebaseMetadata, member: MemberTargetView) -> Seq<char> {
    let owner = owner_text(codebase, member.class);
    let method = if member.kind == MemberKind::StaticMethod && owner is Some {
        codebase.declaring_method(owner->0, member.name)
    } else {
        None
    };
    match method {
        Some(meta) => function_text(keyword_text(member.kind), meta, owner),
        None => {
            let class = match owner {
                Some(owner) => lossy(owner) + "::"@,
                None => Seq::empty(),
            };
            let dollar = if member.kind == MemberKind::StaticProperty {
                "$"@
            } else {
                Seq::empty()
            };
            "```php\n"@ + keyword_text(member.kind) + " "@ + class + dollar + lossy(member.name)
                + case_value_text(codebase, owner, member) + "\n```"@
        },
    }
}

/// Render a `::`-accessed member: its declaring class, keyword, and name, plus a
/// signature or value when the metadata carries one.
pub fn render_member(codebase: &CodebaseMetadata, member: &MemberTarget) -> (out: String)
    ensures
        out@ == member_text(*codebase, member@),
{
    let owner: Option<&Vec<u8>> = match &member.class {
        Some(class) => match codebase.get_class_like(class.as_slice()) {
            Some(meta) => Some(&meta.original_name),
            None => Some(class),
        },
        None => None,
    };
    let ghost owner_view = owner_text(*codebase, member@.class);
    assert(owner_view == match owner {
        Some(owner) => Some(owner@),
        None => None,
    });
    if member.kind == MemberKind::StaticMethod {
        if let Some(owner) = owner {
            if let Some(meta) = codebase.get_declaring_method(
                owner.as_slice(),
                member.name.as_slice(),
            ) {
                return render_function_like(
                    member.kind.keyword(),
                    meta,
                    Some(owner.as_slice()),
                );
            }
        }
    }
    let mut out = "```php\n".to_string();
    out.append(member.kind.keyword());
    out.append(" ");
    if let Some(owner) = owner {
        push_bytes(&mut out, owner.as_slice());
        out.append("::");
    }
    if member.kind == MemberKind::StaticProperty {
        out.append("$");
    }
    push_bytes(&mut out, member.name.as_slice());
    if member.kind == MemberKind::EnumCase {
        if let Some(owner) = owner {
            if let Some(case) = codebase.get_enum_case(owner.as_slice(), member.name.as_slice()) {
                if let Some(value) = &case.value_type {
                    out.append(" = ");
                    push_bytes(&mut out, value.as_slice());
                }
            }
        }
    }
    out.append("\n```");
    assert(out@ =~= member_text(*codebase, member@));
    out
}

// ---- Variables -----------------------------------------------------------

/// The summary of a variable, with its type where that is known.
pub open spec fn variable_text(name: Seq<u8>, ty: Option<Seq<char>>) -> Seq<char> {
    match ty {
        Some(ty) => "_@var_ `"@ + ty + "` `$"@ + lossy(name) + "`"@,
        None => "_@var_ $"@ + lossy(name),
    }
}

/// The summary of a variable; `name` stands without its `$`.
pub fn render_variable(name: &[u8], ty: Option<&str>) -> (out: String)
    ensures
        out@ == variable_text(
            name@,
            match ty {
                Some(ty) => Some(ty@),
                None => None,
            },
        ),
{
    match ty {
        Some(ty) => {
            let mut out = "_@var_ `".to_string();
            out.append(ty);
            out.append("` `$");
            push_bytes(&mut out, name);
            out.append("`");
            out
        },
        None => {
            let mut out = "_@var_ $".to_string();
            push_bytes(&mut out, name);
            out
        },
    }
}

// ---- Hover ---------------------------------------------------------------

/// How the expression at `range` of the file is typed.
pub open spec fn display_at(server: Server, file_id: FileId, range: Range) -> Option<Seq<char>> {
    match server.type_index(file_id) {
        Some(index) => index.display_at(range),
        None => None,
    }
}

/// The hover for what stands at `offset`: a symbol, else a class member, else a
/// variable. A name that resolves to no known symbol has none.
pub open spec fn hover_at(server: Server, file_id: FileId, offset: u32) -> Option<
    (Seq<char>, Range),
> {
    match (server.file(file_id), server.analysis(file_id)) {
        (Some(file), Some(analysis)) => match analysis.resolved_at(offset) {
            Some(name) => match symbol_text(server.codebase, name.name@) {
                Some(markdown) => Some((markdown, Range { start: name.start, end: name.end })),
                None => None,
            },
            None => match member_at(server, file_id, offset) {
                Some((range, member)) => Some((member_text(server.codebase, member), range)),
                None => match variable_extent(file.contents@, offset as int) {
                    Some((start, end)) => {
                        let range = Range { start: start as u32, end: end as u32 };
                        let name = file.contents@.subrange(start + 1, end);
                        Some((variable_text(name, display_at(server, file_id, range)), range))
                    },
                    None => None,
                },
            },
        },
        _ => None,
    }
}

impl Server {
    /// Hover context for the token covering `offset` in `file_id`: rendered
    /// markdown plus the token's span. Resolves named symbols against the
    /// codebase, and falls back to a plain summary for `$variable`s.
    pub fn get_context(&self, file_id: FileId, offset: u32) -> (hover: Option<HoverInfo>)
        requires
            self.wf(),
        ensures
            hover_view(hover) == hover_at(*self, file_id, offset),
    {
        let file = match self.get_file(file_id) {
            Some(file) => file,
            None => return None,
        };
        let analysis = match self.file_analysis_for(file_id) {
            Some(analysis) => analysis,
            None => return None,
        };
        if let Some(name) = analysis.at_offset(offset) {
            return match render(&self.codebase, name.name.as_slice()) {
                Some(markdown) => Some(
                    HoverInfo { markdown, range: Range::new(name.start, name.end) },
                ),
                None => None,
            };
        }
        if let Some((range, member)) = self.resolve_static_member(file_id, offset) {
            let markdown = render_member(&self.codebase, &member);
            return Some(HoverInfo { markdown, range });
        }
        let var = match variable_at_offset(file, offset) {
            Some(var) => var,
            None => return None,
        };
        let range = Range::new(var.start, var.end);
        let ty = match self.type_index_for(file_id) {
            Some(index) => index.get_display(range),
            None => None,
        };
        Some(HoverInfo { markdown: render_variable(var.name, ty), range })
    }
}

/// A symbol can be summarised exactly when its declaration can be found.
pub proof fn law_hover_and_definition_agree(codebase: CodebaseMetadata, name: Seq<u8>)
    ensures
        symbol_text(codebase, name) is Some <==> codebase.symbol_span(name) is Some,
{
}

/// What is shown is about what is under the cursor.
pub proof fn law_hover_is_under_the_cursor(server: Server, file_id: FileId, offset: u32)
    requires
        server.wf(),
    ensures
        hover_at(server, file_id, offset) matches Some((markdown, range)) ==> under_cursor(
            range,
            offset,
        ),
{
    law_member_is_under_the_cursor(server, file_id, offset);
    if let Some(analysis) = server.analysis(file_id) {
        lemma_first_from(analysis.resolved@, name_covers(offset), 0);
    }
    if let Some(file) = server.file(file_id) {
        lemma_first_from(server.files@, file_numbered(file_id), 0);
        assert(file.wf());
        if let Some((start, end)) = variable_extent(file.contents@, offset as int) {
            assert(variable_covers(file.contents@, start, end, offset as int));
        }
    }
}

} // verus!
