//! Where the symbol under the cursor is declared.
//!
//! Falls back to [`crate::member`] for `::`-accessed class members, which never
//! appear among the resolved names.

use vstd::prelude::*;

use crate::domain::{FileId, Range, Span, SymbolLocation};
use crate::member::{member_at, refers_back, span_range, MemberTargetView};
use crate::server::Server;

verus! {

/// Where `span` lies.
pub open spec fn location_of(span: Span) -> SymbolLocation {
    SymbolLocation { file: span.file_id, range: span_range(span) }
}

/// Where the name that covers `offset` is declared, if it names a known symbol.
pub open spec fn symbol_declared(server: Server, file_id: FileId, offset: u32) -> Option<Span> {
    match server.resolved_at(file_id, offset) {
        Some(name) => server.codebase.symbol_span(name.name@),
        None => None,
    }
}

/// Where what stands at `offset` is declared: a symbol, else a class member.
pub open spec fn definition_at(server: Server, file_id: FileId, offset: u32) -> Option<
    SymbolLocation,
> {
    match symbol_declared(server, file_id, offset) {
        Some(span) => Some(location_of(span)),
        None => match member_at(server, file_id, offset) {
            Some((_, target)) => Some(location_of(target.declaration)),
            None => None,
        },
    }
}

impl Server {
    /// The declaration location of the symbol whose identifier covers `offset`
    /// in `file_id`, or `None` if the offset isn't on a resolvable name.
    pub fn get_definition(&self, file_id: FileId, offset: u32) -> (location: Option<SymbolLocation>)
        requires
            self.wf(),
        ensures
            location == definition_at(*self, file_id, offset),
    {
        if let Some(name) = self.name_at(file_id, offset) {
            if let Some(span) = self.codebase.span_of(name.name.as_slice()) {
                return Some(
                    SymbolLocation {
                        file: span.file_id,
                        range: Range::new(span.start.offset, span.end.offset),
                    },
                );
            }
        }
        match self.resolve_static_member(file_id, offset) {
            Some((_, member)) => {
                let span = member.declaration;
                Some(
                    SymbolLocation {
                        file: span.file_id,
                        range: Range::new(span.start.offset, span.end.offset),
                    },
                )
            },
            None => None,
        }
    }
}

/// Every reported reference of a member leads back to its declaration, unless the
/// place is also a name of its own.
pub proof fn law_references_lead_back(
    server: Server,
    location: SymbolLocation,
    target: MemberTargetView,
)
    requires
        refers_back(server, location, target),
        symbol_declared(server, location.file, location.range.start) is None,
    ensures
        definition_at(server, location.file, location.range.start) == Some(
            location_of(target.declaration),
        ),
{
}

} // verus!
