//! Laws on renaming.

use vstd::prelude::*;

use crate::domain::{Range, SymbolLocation};
use crate::file::File;
use crate::laws::highlighting::law_last_separator;
use crate::lookup::variable_extent;
use crate::member::{member_at, MemberKind};
use crate::outside::lossy;
use crate::rename::{
    address_of, by_document, changes_at, changes_views, local_name, rename_start, renamed,
    renamed_at, replacement_for, valid_identifier, with_reference, without_sigil, ChangesView,
    DocumentChanges,
};
use crate::seqs::{first_is, lemma_first_is, none_is};
use crate::server::Server;

verus! {

/// The local part of a name is what stands behind its last `\`, or all of it where
/// there is none.
pub proof fn law_local_name(name: Seq<u8>, at: int)
    ensures
        0 <= at < name.len() && name[at] == 0x5c && (forall|i: int|
            at < i < name.len() ==> #[trigger] name[i] != 0x5c) ==> local_name(name)
            == name.subrange(at + 1, name.len() as int),
        (forall|i: int| 0 <= i < name.len() ==> #[trigger] name[i] != 0x5c) ==> local_name(name)
            == name,
{
    law_last_separator(name, name.len() as int, at);
    if 0 <= at < name.len() {
        assert(name.skip(at + 1) =~= name.subrange(at + 1, name.len() as int));
    }
}

/// A rename starts from the local part of the name that resolves at the cursor, at
/// the range of that name; else from the name of the class member there, at the
/// member's range; else from the variable with its `$`; and from nothing otherwise.
pub proof fn law_rename_starts_from(server: Server, file: File, offset: u32)
    ensures
        ({
            let name = server.resolved_at(file.id, offset);
            let member = member_at(server, file.id, offset);
            let variable = variable_extent(file.contents@, offset as int);
            let start = rename_start(server, file, offset);
            &&& name is Some ==> start == Some(
                (
                    Range { start: name->0.start, end: name->0.end },
                    lossy(local_name(name->0.name@)),
                ),
            )
            &&& name is None ==> (member matches Some((range, target)) ==> start == Some(
                (range, lossy(target.name)),
            ))
            &&& name is None && member is None ==> (variable matches Some((from, to)) ==> start
                == Some(
                (
                    Range { start: from as u32, end: to as u32 },
                    lossy(file.contents@.subrange(from, to)),
                ),
            ))
            &&& name is None && member is None && variable is None ==> start is None
        }),
{
}

/// The characters are a name: letters, digits and `_`, no digit in front, and not
/// none at all.
pub open spec fn is_name(name: Seq<char>) -> bool {
    &&& name.len() > 0
    &&& !('0' <= name[0] <= '9')
    &&& forall|i: int|
        0 <= i < name.len() ==> 'a' <= #[trigger] name[i] <= 'z' || 'A' <= name[i] <= 'Z' || '0'
            <= name[i] <= '9' || name[i] == '_'
}

/// A new name is valid when it is made of ASCII letters, digits and `_` and does not
/// start with a digit.
pub proof fn law_valid_names(name: Seq<char>)
    ensures
        valid_identifier(name) <==> is_name(name),
{
    if is_name(name) {
        assert('a' <= name[0] <= 'z' || 'A' <= name[0] <= 'Z' || '0' <= name[0] <= '9' || name[0]
            == '_');
        assert forall|i: int| 0 < i < name.len() implies crate::rename::ascii_letter(
            #[trigger] name[i],
        ) || '0' <= name[i] <= '9' || name[i] == '_' by {
            assert('a' <= name[i] <= 'z' || 'A' <= name[i] <= 'Z' || '0' <= name[i] <= '9'
                || name[i] == '_');
        }
    }
    if valid_identifier(name) {
        assert forall|i: int| 0 <= i < name.len() implies 'a' <= #[trigger] name[i] <= 'z' || 'A'
            <= name[i] <= 'Z' || '0' <= name[i] <= '9' || name[i] == '_' by {
            if i > 0 {
                assert(crate::rename::ascii_letter(name[i]) || '0' <= name[i] <= '9' || name[i]
                    == '_');
            }
        }
    }
}

/// A `$` in front of a typed name can be left out, and one is enough.
pub proof fn law_typed_dollar(name: Seq<char>)
    ensures
        name.len() > 0 && name[0] == '$' ==> without_sigil(name) == name.subrange(
            1,
            name.len() as int,
        ),
        name.len() == 0 || name[0] != '$' ==> without_sigil(name) == name,
{
    if name.len() > 0 {
        assert(name.skip(1) =~= name.subrange(1, name.len() as int));
    }
}

/// In place of each reference to a class member goes a bare name without a `$`: for a
/// case, a constant or a method exactly the name that was typed, for a static
/// property that name without a typed `$`. A name that is not valid is refused.
pub proof fn law_members_are_renamed_without_a_dollar(
    server: Server,
    file: File,
    offset: u32,
    new_name: Seq<char>,
)
    ensures
        member_at(server, file.id, offset) matches Some((range, member)) ==> {
            let text = replacement_for(renamed_at(server, file, offset), new_name);
            &&& text is Some ==> is_name(text->0) && text->0[0] != '$'
            &&& member.kind != MemberKind::StaticProperty ==> (is_name(new_name) ==> text == Some(
                new_name,
            )) && (!is_name(new_name) ==> text is None)
            &&& member.kind == MemberKind::StaticProperty ==> {
                let bare = if new_name.len() > 0 && new_name[0] == '$' {
                    new_name.subrange(1, new_name.len() as int)
                } else {
                    new_name
                };
                (is_name(bare) ==> text == Some(bare)) && (!is_name(bare) ==> text is None)
            }
        },
{
    law_valid_names(new_name);
    law_typed_dollar(new_name);
    law_valid_names(without_sigil(new_name));
    if let Some(text) = replacement_for(renamed_at(server, file, offset), new_name) {
        if member_at(server, file.id, offset) is Some {
            assert(is_name(text));
            assert('a' <= text[0] <= 'z' || 'A' <= text[0] <= 'Z' || '0' <= text[0] <= '9'
                || text[0] == '_');
        }
    }
}

/// In place of each reference to a variable, where no class member is at the cursor,
/// goes a `$` and the name that was typed, without a `$` that was typed. Where there
/// is no variable either, it is exactly the name that was typed.
pub proof fn law_variables_are_renamed_with_a_dollar(
    server: Server,
    file: File,
    offset: u32,
    new_name: Seq<char>,
)
    requires
        member_at(server, file.id, offset) is None,
    ensures
        ({
            let text = replacement_for(renamed_at(server, file, offset), new_name);
            let bare = if new_name.len() > 0 && new_name[0] == '$' {
                new_name.subrange(1, new_name.len() as int)
            } else {
                new_name
            };
            if variable_extent(file.contents@, offset as int) is Some {
                (is_name(bare) ==> text == Some("$"@ + bare)) && (!is_name(bare) ==> text is None)
            } else {
                (is_name(new_name) ==> text == Some(new_name)) && (!is_name(new_name)
                    ==> text is None)
            }
        }),
{
    law_valid_names(new_name);
    law_typed_dollar(new_name);
    law_valid_names(without_sigil(new_name));
}

/// A reference is reached under the address of its file, where the file is known and
/// has one.
pub proof fn law_address_of_a_reference(server: Server, reference: SymbolLocation)
    ensures
        server.file(reference.file) is None ==> address_of(server, reference) is None,
        server.file(reference.file) matches Some(file) ==> (file.uri is None ==> address_of(
            server,
            reference,
        ) is None) && (file.uri matches Some(uri) ==> address_of(server, reference) == Some(uri@)),
{
}

/// One reference more joins those of its document, behind them, or starts a new
/// document behind the others; one that cannot be reached changes nothing.
pub proof fn law_references_join_their_document(
    changes: Seq<ChangesView>,
    server: Server,
    reference: SymbolLocation,
    index: int,
)
    ensures
        address_of(server, reference) is None ==> with_reference(changes, server, reference)
            == changes,
        address_of(server, reference) matches Some(uri) ==> {
            let after = with_reference(changes, server, reference);
            &&& first_is(changes, |document: ChangesView| document.uri == uri, index)
                ==> after.len() == changes.len() && after[index].uri == uri
                && after[index].locations == changes[index].locations.push(reference)
                && forall|i: int|
                0 <= i < changes.len() && i != index ==> #[trigger] after[i] == changes[i]
            &&& none_is(changes, |document: ChangesView| document.uri == uri) ==> after.len()
                == changes.len() + 1 && after.drop_last() == changes && after.last().uri == uri
                && after.last().locations == seq![reference]
        },
{
    if let Some(uri) = address_of(server, reference) {
        lemma_first_is(
            changes,
            changes_at(uri),
            |document: ChangesView| document.uri == uri,
            index,
        );
        let more = ChangesView { uri, locations: seq![reference] };
        assert(changes.push(more).drop_last() =~= changes);
    }
}

/// References are taken one after the other.
pub proof fn law_references_are_taken_in_order(
    server: Server,
    references: Seq<SymbolLocation>,
    count: int,
)
    requires
        0 <= count < references.len(),
    ensures
        by_document(server, references, 0).len() == 0,
        by_document(server, references, count + 1) == with_reference(
            by_document(server, references, count),
            server,
            references[count],
        ),
{
}

/// A rename replaces all the references, by document, with one text; it does nothing
/// where the new name is refused or no reference can be reached.
pub proof fn law_rename_replaces_every_reference(
    server: Server,
    file: File,
    offset: u32,
    new_name: Seq<char>,
    references: Seq<SymbolLocation>,
)
    ensures
        ({
            let text = replacement_for(renamed_at(server, file, offset), new_name);
            let documents = by_document(server, references, references.len() as int);
            let edit = renamed(server, file, offset, new_name, references);
            &&& text is Some && documents.len() > 0 ==> edit == Some((documents, text->0))
            &&& text is None || documents.len() == 0 ==> edit is None
        }),
{
}

/// The views of the documents tell their addresses and all of their references.
pub proof fn law_rename_views(changes: Seq<DocumentChanges>, i: int)
    ensures
        changes_views(changes).len() == changes.len(),
        0 <= i < changes.len() ==> changes_views(changes)[i].uri == changes[i].uri@
            && changes_views(changes)[i].locations == changes[i].locations@,
{
}

} // verus!
