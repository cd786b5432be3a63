//! Renaming the symbol under the cursor.
//!
//! Every reference to the symbol is replaced by the new name. `use` statements
//! and namespace prefixes are not fixed up, so renames at the bare identifier
//! level are safest.
//!
//! Names, `$variables`, and `::`-accessed class members (enum cases, class
//! constants, static methods and properties) are renameable; instance members are
//! not, because resolving `$foo->bar` to an owning class needs type inference.

use vstd::prelude::*;
use vstd::string::StringExecFns;

use crate::ascii::BACKSLASH;
use crate::domain::{Range, SymbolLocation};
use crate::file::File;
use crate::lookup::{
    var_char, var_first_char, variable_at_offset, variable_covers, variable_extent,
};
use crate::member::{law_member_is_under_the_cursor, member_at, under_cursor, MemberKind};
use crate::outside::{
    find_last_byte, lossy, lossy_text, slot_map_get, slot_map_insert, slot_map_new, slots,
};
use crate::semantic_tokens::last_separator;
use crate::seqs::{
    first_from, lemma_first_alike, lemma_first_from, lemma_first_of_longer, lemma_first_skips,
};
use crate::server::{name_covers, Server};
use crate::text::{chars_of, law_ascii_bytes_are_their_text, text_between};

verus! {

// ---- What can be renamed -------------------------------------------------

/// The stretch that a rename would start from, and the name to start from.
#[derive(Debug)]
pub struct PrepareRename {
    pub range: Range,
    pub placeholder: String,
}

/// What stands behind the last `\` of a fully qualified name.
pub open spec fn local_name(name: Seq<u8>) -> Seq<u8> {
    match last_separator(name, name.len() as int) {
        Some(separator) => name.skip(separator + 1),
        None => name,
    }
}

/// What can be renamed at `offset`: a name, else a class member, else a variable.
pub open spec fn rename_start(server: Server, file: File, offset: u32) -> Option<
    (Range, Seq<char>),
> {
    match server.resolved_at(file.id, offset) {
        Some(name) => Some(
            (Range { start: name.start, end: name.end }, lossy(local_name(name.name@))),
        ),
        None => match member_at(server, file.id, offset) {
            Some((range, member)) => Some((range, lossy(member.name))),
            None => match variable_extent(file.contents@, offset as int) {
                Some((start, end)) => Some(
                    (
                        Range { start: start as u32, end: end as u32 },
                        lossy(file.contents@.subrange(start, end)),
                    ),
                ),
                None => None,
            },
        },
    }
}

proof fn lemma_last_separator_is(name: Seq<u8>, count: int, at: int)
    requires
        0 <= at < count <= name.len(),
        name[at] == BACKSLASH,
        forall|i: int| at < i < count ==> name[i] != BACKSLASH,
    ensures
        last_separator(name, count) == Some(at),
    decreases count,
{
    if at < count - 1 {
        lemma_last_separator_is(name, count - 1, at);
    }
}

proof fn lemma_no_separator(name: Seq<u8>, count: int)
    requires
        0 <= count <= name.len(),
        forall|i: int| 0 <= i < count ==> name[i] != BACKSLASH,
    ensures
        last_separator(name, count) is None,
    decreases count,
{
    if count > 0 {
        lemma_no_separator(name, count - 1);
    }
}

/// What stands behind the last `\` of a fully qualified name.
fn local_part(name: &[u8]) -> (local: &[u8])
    ensures
        local@ == local_name(name@),
{
    match find_last_byte(BACKSLASH, name) {
        Some(separator) => {
            proof {
                lemma_last_separator_is(name@, name@.len() as int, separator as int);
            }
            assert(name@.len() == name.len());
            let local: &[u8] = vstd::slice::slice_subrange(name, separator + 1, name.len());
            assert(local@ =~= name@.skip(separator + 1));
            local
        },
        None => {
            proof {
                assert forall|i: int| 0 <= i < name@.len() implies name@[i] != BACKSLASH by {
                    if name@[i] == BACKSLASH {
                        assert(name@.contains(BACKSLASH));
                    }
                }
                lemma_no_separator(name@, name@.len() as int);
            }
            name
        },
    }
}

/// What a rename at `offset` of `file` would start from, if anything can be
/// renamed there.
pub fn prepare(server: &Server, file: &File, offset: u32) -> (prepared: Option<PrepareRename>)
    requires
        server.wf(),
        file.wf(),
    ensures
        rename_start(*server, *file, offset) == match prepared {
            Some(prepared) => Some((prepared.range, prepared.placeholder@)),
            None => None,
        },
{
    if let Some(name) = server.name_at(file.id, offset) {
        let placeholder = lossy_text(local_part(name.name.as_slice()));
        return Some(PrepareRename { range: Range::new(name.start, name.end), placeholder });
    }
    if let Some((range, member)) = server.resolve_static_member(file.id, offset) {
        return Some(PrepareRename { range, placeholder: lossy_text(member.name.as_slice()) });
    }
    match variable_at_offset(file, offset) {
        Some(var) => Some(
            PrepareRename {
                range: Range::new(var.start, var.end),
                placeholder: lossy_text(var.raw),
            },
        ),
        None => None,
    }
}

// ---- The new name --------------------------------------------------------

pub open spec fn ascii_letter(c: char) -> bool {
    'a' <= c <= 'z' || 'A' <= c <= 'Z'
}

/// A name that PHP takes, of ASCII characters only.
pub open spec fn valid_identifier(name: Seq<char>) -> bool {
    &&& name.len() > 0
    &&& ascii_letter(name[0]) || name[0] == '_'
    &&& forall|i: int|
        0 < i < name.len() ==> ascii_letter(#[trigger] name[i]) || '0' <= name[i] <= '9' || name[i]
            == '_'
}

/// `name` without a `$` in front.
pub open spec fn without_sigil(name: Seq<char>) -> Seq<char> {
    if name.len() > 0 && name[0] == '$' {
        name.skip(1)
    } else {
        name
    }
}

/// What kind of thing is renamed, as far as the new name depends on it.
pub enum Renamed {
    Variable,
    StaticProperty,
    Other,
}

/// What kind of thing stands at `offset`.
pub open spec fn renamed_at(server: Server, file: File, offset: u32) -> Renamed {
    match member_at(server, file.id, offset) {
        Some((_, member)) => if member.kind == MemberKind::StaticProperty {
            Renamed::StaticProperty
        } else {
            Renamed::Other
        },
        None => if variable_extent(file.contents@, offset as int) is Some {
            Renamed::Variable
        } else {
            Renamed::Other
        },
    }
}

/// The text to put in place of each reference, if the new name is valid. A
/// variable keeps its `$`; the references of a static property are without it.
pub open spec fn replacement_for(renamed: Renamed, new_name: Seq<char>) -> Option<Seq<char>> {
    match renamed {
        Renamed::Variable => if valid_identifier(without_sigil(new_name)) {
            Some("$"@ + without_sigil(new_name))
        } else {
            None
        },
        Renamed::StaticProperty => if valid_identifier(without_sigil(new_name)) {
            Some(without_sigil(new_name))
        } else {
            None
        },
        Renamed::Other => if valid_identifier(new_name) {
            Some(new_name)
        } else {
            None
        },
    }
}

fn is_ascii_letter(c: char) -> (yes: bool)
    ensures
        yes == ascii_letter(c),
{
    ('a' <= c && c <= 'z') || ('A' <= c && c <= 'Z')
}

/// Are the characters from `from` on a valid name?
fn is_valid_from(chars: &Vec<char>, from: usize) -> (yes: bool)
    requires
        from <= chars@.len(),
    ensures
        yes == valid_identifier(chars@.skip(from as int)),
{
    let ghost name = chars@.skip(from as int);
    if from == chars.len() {
        return false;
    }
    let first = chars[from];
    assert(name[0] == first);
    if !(is_ascii_letter(first) || first == '_') {
        return false;
    }
    let mut i: usize = from + 1;
    while i < chars.len()
        invariant
            from < i <= chars@.len(),
            name == chars@.skip(from as int),
            forall|k: int|
                0 < k < i - from ==> ascii_letter(#[trigger] name[k]) || '0' <= name[k] <= '9'
                    || name[k] == '_',
        decreases chars.len() - i,
    {
        let c = chars[i];
        assert(name[i - from] == c);
        if !(is_ascii_letter(c) || ('0' <= c && c <= '9') || c == '_') {
            return false;
        }
        i += 1;
    }
    true
}

/// Is `name` one that PHP takes?
pub fn is_valid_php_identifier(name: &str) -> (yes: bool)
    ensures
        yes == valid_identifier(name@),
{
    let chars = chars_of(name);
    assert(chars@.skip(0) =~= chars@);
    is_valid_from(&chars, 0)
}

/// The text to put in place of each reference, if the new name is valid.
pub fn replacement_name(server: &Server, file: &File, offset: u32, new_name: &str) -> (name: Option<
    String,
>)
    requires
        server.wf(),
        file.wf(),
    ensures
        replacement_for(renamed_at(*server, *file, offset), new_name@) == match name {
            Some(name) => Some(name@),
            None => None,
        },
{
    let member = server.resolve_static_member(file.id, offset);
    let is_static_property = match &member {
        Some((_, member)) => member.kind == MemberKind::StaticProperty,
        None => false,
    };
    let is_variable = member.is_none() && variable_at_offset(file, offset).is_some();
    if !is_variable && !is_static_property {
        return if is_valid_php_identifier(new_name) {
            Some(new_name.to_string())
        } else {
            None
        };
    }
    let chars = chars_of(new_name);
    let from: usize = if chars.len() > 0 && chars[0] == '$' {
        1
    } else {
        0
    };
    proof {
        assert(chars@.skip(0) =~= chars@);
        assert(chars@.subrange(from as int, chars@.len() as int) =~= chars@.skip(from as int));
    }
    if !is_valid_from(&chars, from) {
        return None;
    }
    let bare = text_between(chars.as_slice(), from, chars.len());
    if is_variable {
        let mut name = "$".to_string();
        name.append(bare.as_str());
        Some(name)
    } else {
        // Edits for a static property cover the bare name, so a typed `$` would
        // otherwise be doubled up.
        Some(bare)
    }
}

// ---- The edits -----------------------------------------------------------

/// The references to replace in the document at one address.
#[derive(Debug)]
pub struct DocumentChanges {
    pub uri: String,
    pub locations: Vec<SymbolLocation>,
}

/// Everything that a rename replaces: the documents, and what goes in the place of
/// each reference.
#[derive(Debug)]
pub struct WorkspaceEdit {
    pub changes: Vec<DocumentChanges>,
    pub new_text: String,
}

/// What a [`DocumentChanges`] says.
pub struct ChangesView {
    pub uri: Seq<char>,
    pub locations: Seq<SymbolLocation>,
}

impl View for DocumentChanges {
    type V = ChangesView;

    open spec fn view(&self) -> ChangesView {
        ChangesView { uri: self.uri@, locations: self.locations@ }
    }
}

pub open spec fn changes_views(changes: Seq<DocumentChanges>) -> Seq<ChangesView> {
    Seq::new(changes.len(), |i: int| changes[i]@)
}

pub open spec fn changes_at(uri: Seq<char>) -> spec_fn(ChangesView) -> bool {
    |changes: ChangesView| changes.uri == uri
}

/// The address of the file that a reference lies in, if the editor can reach it.
pub open spec fn address_of(server: Server, reference: SymbolLocation) -> Option<Seq<char>> {
    match server.file(reference.file) {
        Some(file) => match file.uri {
            Some(uri) => Some(uri@),
            None => None,
        },
        None => None,
    }
}

/// `changes` with one more reference.
pub open spec fn with_reference(
    changes: Seq<ChangesView>,
    server: Server,
    reference: SymbolLocation,
) -> Seq<ChangesView> {
    match address_of(server, reference) {
        Some(uri) => match first_from(changes, changes_at(uri), 0) {
            Some(index) => changes.update(
                index,
                ChangesView { uri, locations: changes[index].locations.push(reference) },
            ),
            None => changes.push(ChangesView { uri, locations: seq![reference] }),
        },
        None => changes,
    }
}

/// The first `count` references by document, the documents in the order in which
/// they first come up.
pub open spec fn by_document(
    server: Server,
    references: Seq<SymbolLocation>,
    count: int,
) -> Seq<ChangesView>
    decreases count,
{
    if count <= 0 {
        Seq::empty()
    } else {
        with_reference(
            by_document(server, references, count - 1),
            server,
            references[count - 1],
        )
    }
}

/// What a rename does: nothing when the new name is not valid or no reference can
/// be reached.
pub open spec fn renamed(
    server: Server,
    file: File,
    offset: u32,
    new_name: Seq<char>,
    references: Seq<SymbolLocation>,
) -> Option<(Seq<ChangesView>, Seq<char>)> {
    match replacement_for(renamed_at(server, file, offset), new_name) {
        Some(new_text) => {
            let changes = by_document(server, references, references.len() as int);
            if changes.len() > 0 {
                Some((changes, new_text))
            } else {
                None
            }
        },
        None => None,
    }
}

/// Group the references by document.
fn group_references(server: &Server, references: &[SymbolLocation]) -> (changes: Vec<
    DocumentChanges,
>)
    requires
        server.wf(),
    ensures
        changes_views(changes@) == by_document(*server, references@, references@.len() as int),
{
    let mut by_uri: foldhash::HashMap<String, usize> = slot_map_new();
    let mut changes: Vec<DocumentChanges> = Vec::new();
    let mut i: usize = 0;
    assert(changes_views(changes@) =~= Seq::empty());
    while i < references.len()
        invariant
            server.wf(),
            i <= references@.len(),
            changes_views(changes@) == by_document(*server, references@, i as int),
            forall|uri: Seq<char>| #[trigger]
                slots(by_uri).dom().contains(uri) ==> slots(by_uri)[uri] < changes@.len()
                    && changes@[slots(by_uri)[uri] as int].uri@ == uri,
            forall|k: int|
                0 <= k < changes@.len() ==> slots(by_uri).dom().contains(
                    (#[trigger] changes@[k]).uri@,
                ) && slots(by_uri)[changes@[k].uri@] == k,
        decreases references.len() - i,
    {
        let reference = references[i];
        let ghost before = changes_views(changes@);
        if let Some(file) = server.get_file(reference.file) {
            if let Some(uri) = &file.uri {
                match slot_map_get(&by_uri, uri.as_str()) {
                    Some(slot) => {
                        let slot: usize = *slot;
                        proof {
                            assert forall|k: int| 0 <= k < slot implies !changes_at(uri@)(
                                #[trigger] before[k],
                            ) by {
                                assert(slots(by_uri)[changes@[k].uri@] == k);
                            }
                            lemma_first_skips(before, changes_at(uri@), 0, slot as int);
                        }
                        let document = &mut changes[slot];
                        document.locations.push(reference);
                        assert(changes_views(changes@) =~= with_reference(
                            before,
                            *server,
                            reference,
                        ));
                    },
                    None => {
                        proof {
                            assert forall|k: int| 0 <= k < before.len() implies !changes_at(uri@)(
                                #[trigger] before[k],
                            ) by {
                                assert(slots(by_uri).dom().contains(changes@[k].uri@));
                            }
                            lemma_first_skips(before, changes_at(uri@), 0, before.len() as int);
                        }
                        let mut locations: Vec<SymbolLocation> = Vec::new();
                        locations.push(reference);
                        assert(locations@ =~= seq![reference]);
                        slot_map_insert(&mut by_uri, uri.as_str().to_string(), changes.len());
                        changes.push(
                            DocumentChanges { uri: uri.as_str().to_string(), locations },
                        );
                        assert(changes_views(changes@) =~= with_reference(
                            before,
                            *server,
                            reference,
                        ));
                    },
                }
            }
        }
        i += 1;
    }
    changes
}

/// Rename what stands at `offset` of `file` to `new_name`, where `references` are
/// the places that refer to it, the declaration among them.
pub fn compute(
    server: &Server,
    file: &File,
    offset: u32,
    new_name: &str,
    references: &[SymbolLocation],
) -> (edit: Option<WorkspaceEdit>)
    requires
        server.wf(),
        file.wf(),
    ensures
        renamed(*server, *file, offset, new_name@, references@) == match edit {
            Some(edit) => Some((changes_views(edit.changes@), edit.new_text@)),
            None => None,
        },
{
    let new_text = match replacement_name(server, file, offset, new_name) {
        Some(name) => name,
        None => return None,
    };
    let changes = group_references(server, references);
    if changes.len() == 0 {
        return None;
    }
    Some(WorkspaceEdit { changes, new_text })
}

// ---- Laws ----------------------------------------------------------------

/// A rename starts from what is under the cursor.
pub proof fn law_rename_starts_under_the_cursor(server: Server, file: File, offset: u32)
    requires
        server.wf(),
        file.wf(),
    ensures
        rename_start(server, file, offset) matches Some((range, placeholder)) ==> under_cursor(
            range,
            offset,
        ),
{
    law_member_is_under_the_cursor(server, file.id, offset);
    if let Some(analysis) = server.analysis(file.id) {
        lemma_first_from(analysis.resolved@, name_covers(offset), 0);
    }
    if let Some((start, end)) = variable_extent(file.contents@, offset as int) {
        assert(variable_covers(file.contents@, start, end, offset as int));
    }
}

/// A new name for a variable or a static property can be typed with its `$` or
/// without.
pub proof fn law_sigil_is_optional(renamed: Renamed, name: Seq<char>)
    requires
        renamed is Variable || renamed is StaticProperty,
        name.len() == 0 || name[0] != '$',
    ensures
        replacement_for(renamed, "$"@ + name) == replacement_for(renamed, name),
{
    reveal_strlit("$");
    assert(("$"@ + name).skip(1) =~= name);
}

/// Whatever is put in place of a reference is a valid name, behind a `$` for a
/// variable.
pub proof fn law_replacement_is_valid(renamed: Renamed, new_name: Seq<char>)
    ensures
        replacement_for(renamed, new_name) matches Some(text) ==> if renamed is Variable {
            text.len() > 0 && text[0] == '$' && valid_identifier(text.skip(1))
        } else {
            valid_identifier(text)
        },
{
    reveal_strlit("$");
    assert(("$"@ + without_sigil(new_name)).skip(1) =~= without_sigil(new_name));
}

/// The name that a rename of a variable starts from is one that it accepts, and
/// changes nothing.
pub proof fn law_variable_can_keep_its_name(contents: Seq<u8>, offset: int)
    ensures
        variable_extent(contents, offset) matches Some((start, end)) ==> replacement_for(
            Renamed::Variable,
            lossy(contents.subrange(start, end)),
        ) == Some(lossy(contents.subrange(start, end))),
{
    if let Some((start, end)) = variable_extent(contents, offset) {
        let raw = contents.subrange(start, end);
        assert(variable_covers(contents, start, end, offset));
        assert forall|i: int| 0 <= i < raw.len() implies #[trigger] raw[i] < 0x80 by {
            if i > 0 {
                assert(var_char(contents[start + i]));
            }
        }
        law_ascii_bytes_are_their_text(raw);
        let text = lossy(raw);
        let bare = text.skip(1);
        assert(text[0] == '$');
        assert(text[1] == raw[1] as char);
        assert(var_first_char(contents[start + 1]));
        assert forall|i: int| 0 < i < bare.len() implies ascii_letter(#[trigger] bare[i]) || '0'
            <= bare[i] <= '9' || bare[i] == '_' by {
            assert(bare[i] == raw[i + 1] as char);
            assert(var_char(contents[start + i + 1]));
        }
        assert(valid_identifier(bare));
        reveal_strlit("$");
        assert("$"@ + bare =~= text);
    }
}

/// No document comes up twice.
pub open spec fn uris_differ(changes: Seq<ChangesView>) -> bool {
    forall|i: int, j: int|
        0 <= i < j < changes.len() ==> (#[trigger] changes[i]).uri != (#[trigger] changes[j]).uri
}

/// The references that are replaced in the document at `uri`.
pub open spec fn replaced_in(changes: Seq<ChangesView>, uri: Seq<char>) -> Seq<SymbolLocation> {
    match first_from(changes, changes_at(uri), 0) {
        Some(index) => changes[index].locations,
        None => Seq::empty(),
    }
}

/// The references, from among the first `count`, that lie in the document at
/// `uri`.
pub open spec fn lying_in(
    server: Server,
    references: Seq<SymbolLocation>,
    uri: Seq<char>,
    count: int,
) -> Seq<SymbolLocation>
    decreases count,
{
    if count <= 0 {
        Seq::empty()
    } else if address_of(server, references[count - 1]) == Some(uri) {
        lying_in(server, references, uri, count - 1).push(references[count - 1])
    } else {
        lying_in(server, references, uri, count - 1)
    }
}

/// Each document comes up once, with exactly the references that lie in it, in
/// order.
pub proof fn law_references_are_grouped(
    server: Server,
    references: Seq<SymbolLocation>,
    uri: Seq<char>,
    count: int,
)
    requires
        0 <= count <= references.len(),
    ensures
        uris_differ(by_document(server, references, count)),
        replaced_in(by_document(server, references, count), uri) == lying_in(
            server,
            references,
            uri,
            count,
        ),
    decreases count,
{
    if count > 0 {
        law_references_are_grouped(server, references, uri, count - 1);
        let before = by_document(server, references, count - 1);
        let after = by_document(server, references, count);
        let reference = references[count - 1];
        if let Some(address) = address_of(server, reference) {
            lemma_first_from(before, changes_at(address), 0);
            lemma_first_from(before, changes_at(uri), 0);
            match first_from(before, changes_at(address), 0) {
                Some(index) => {
                    assert forall|i: int| 0 <= i < before.len() implies (#[trigger] before[i]).uri
                        == after[i].uri by {}
                    lemma_first_alike(before, after, changes_at(uri), 0);
                    assert forall|i: int, j: int| 0 <= i < j < after.len() implies (
                    #[trigger] after[i]).uri != (#[trigger] after[j]).uri by {
                        assert(before[i].uri == after[i].uri && before[j].uri == after[j].uri);
                    }
                },
                None => {
                    let more = ChangesView { uri: address, locations: seq![reference] };
                    lemma_first_of_longer(before, more, changes_at(uri), 0);
                    assert(Seq::<SymbolLocation>::empty().push(reference) =~= seq![reference]);
                    assert forall|i: int, j: int| 0 <= i < j < after.len() implies (
                    #[trigger] after[i]).uri != (#[trigger] after[j]).uri by {
                        assert(after[i] == before[i]);
                        assert(!changes_at(address)(before[i]));
                    }
                },
            }
        }
    }
}

} // verus!
