//! Documents that are open in the editor, and what their events do to the
//! database of files.
//!
//! While a document is open its buffer is the truth, not the file on disk. A
//! document that the database did not know of is added for as long as it is open.

use vstd::prelude::*;
use vstd::utf8::encode_utf8;

use crate::domain::FileId;
use crate::text_map::TextMap;

verus! {

/// How long to wait after the last change in a burst before running the
/// (expensive) incremental analysis, in milliseconds. Short enough to feel
/// immediate on a pause, long enough to coalesce a run of keystrokes into one
/// analysis.
pub const CHANGE_DEBOUNCE_MILLIS: u64 = 150;

/// A document that is open in the editor.
#[derive(Clone, Copy, Debug, PartialEq, Eq, Structural)]
pub struct OpenDocument {
    pub file_id: FileId,
    /// Whether the database only knows the file because the document is open.
    pub virtual_file: bool,
    pub version: i32,
}

/// Something to do to the database of files.
#[derive(Debug)]
pub enum DatabaseAction {
    /// Add a file of the project.
    Add { id: FileId, contents: Vec<u8> },
    /// Replace what a file holds.
    Update { id: FileId, contents: Vec<u8> },
    /// Remove a file.
    Delete { id: FileId },
    /// Replace what a file holds by what is on disk, if that can be read.
    Reload { id: FileId },
}

/// What a [`DatabaseAction`] says.
pub enum DatabaseActionView {
    Add { id: FileId, contents: Seq<u8> },
    Update { id: FileId, contents: Seq<u8> },
    Delete { id: FileId },
    Reload { id: FileId },
}

impl View for DatabaseAction {
    type V = DatabaseActionView;

    open spec fn view(&self) -> DatabaseActionView {
        match *self {
            DatabaseAction::Add { id, contents } => DatabaseActionView::Add {
                id,
                contents: contents@,
            },
            DatabaseAction::Update { id, contents } => DatabaseActionView::Update {
                id,
                contents: contents@,
            },
            DatabaseAction::Delete { id } => DatabaseActionView::Delete { id },
            DatabaseAction::Reload { id } => DatabaseActionView::Reload { id },
        }
    }
}

/// The view of an action that there may be.
pub open spec fn database_action(action: Option<DatabaseAction>) -> Option<DatabaseActionView> {
    match action {
        Some(action) => Some(action@),
        None => None,
    }
}

/// The file that an action is about.
pub open spec fn subject(action: DatabaseActionView) -> FileId {
    match action {
        DatabaseActionView::Add { id, contents } => id,
        DatabaseActionView::Update { id, contents } => id,
        DatabaseActionView::Delete { id } => id,
        DatabaseActionView::Reload { id } => id,
    }
}

/// What the database holds after an action, where the file on disk, if it can be
/// read, holds `disk`.
pub open spec fn applied(
    database: Map<FileId, Seq<u8>>,
    action: DatabaseActionView,
    disk: Option<Seq<u8>>,
) -> Map<FileId, Seq<u8>> {
    match action {
        DatabaseActionView::Add { id, contents } => database.insert(id, contents),
        DatabaseActionView::Update { id, contents } => if database.dom().contains(id) {
            database.insert(id, contents)
        } else {
            database
        },
        DatabaseActionView::Delete { id } => database.remove(id),
        DatabaseActionView::Reload { id } => match disk {
            Some(contents) => if database.dom().contains(id) {
                database.insert(id, contents)
            } else {
                database
            },
            None => database,
        },
    }
}

/// What puts `contents` into the database: an update of a file that it knows,
/// else a new file.
pub open spec fn put(id: FileId, contents: Seq<u8>, known: bool) -> DatabaseActionView {
    if known {
        DatabaseActionView::Update { id, contents }
    } else {
        DatabaseActionView::Add { id, contents }
    }
}

/// What closing a document does: a file that was only known for being open goes,
/// any other goes back to what is on disk.
pub open spec fn closing(document: OpenDocument) -> DatabaseActionView {
    if document.virtual_file {
        DatabaseActionView::Delete { id: document.file_id }
    } else {
        DatabaseActionView::Reload { id: document.file_id }
    }
}

fn put_action(id: FileId, contents: Vec<u8>, known: bool) -> (action: DatabaseAction)
    ensures
        action@ == put(id, contents@, known),
{
    if known {
        DatabaseAction::Update { id, contents }
    } else {
        DatabaseAction::Add { id, contents }
    }
}

/// The bytes of a buffer.
fn buffer_bytes(text: &str) -> (bytes: Vec<u8>)
    ensures
        bytes@ == encode_utf8(text@),
{
    vstd::slice::slice_to_vec(text.as_bytes())
}

/// The files to analyse after an action.
pub fn changed_files(action: &Option<DatabaseAction>) -> (changed: Vec<FileId>)
    ensures
        changed@ == match database_action(*action) {
            Some(action) => seq![subject(action)],
            None => Seq::empty(),
        },
{
    let mut changed: Vec<FileId> = Vec::new();
    if let Some(action) = action {
        let id: FileId = match action {
            DatabaseAction::Add { id, contents } => *id,
            DatabaseAction::Update { id, contents } => *id,
            DatabaseAction::Delete { id } => *id,
            DatabaseAction::Reload { id } => *id,
        };
        changed.push(id);
        assert(changed@ =~= seq![subject(action@)]);
    }
    changed
}

/// A document was opened with `text` in its buffer. `file_id` is the file that it
/// stands for, and `known` says whether the database has that file already.
pub fn buffer_opened(
    open: &mut TextMap<OpenDocument>,
    uri: String,
    file_id: FileId,
    known: bool,
    text: &str,
    version: i32,
) -> (action: DatabaseAction)
    requires
        old(open).wf(),
    ensures
        final(open).wf(),
        final(open)@ == old(open)@.insert(
            uri@,
            OpenDocument { file_id, virtual_file: !known, version },
        ),
        action@ == put(file_id, encode_utf8(text@), known),
{
    open.insert(uri, OpenDocument { file_id, virtual_file: !known, version });
    put_action(file_id, buffer_bytes(text), known)
}

/// The buffer of a document now holds `text`. Nothing comes of it when the
/// document is not open.
pub fn buffer_changed(
    open: &mut TextMap<OpenDocument>,
    uri: String,
    text: &str,
    version: i32,
) -> (action: Option<DatabaseAction>)
    requires
        old(open).wf(),
    ensures
        final(open).wf(),
        match action {
            Some(action) => {
                &&& old(open)@.dom().contains(uri@)
                &&& final(open)@ == old(open)@.insert(
                    uri@,
                    OpenDocument { version, ..old(open)@[uri@] },
                )
                &&& action@ == (DatabaseActionView::Update {
                    id: old(open)@[uri@].file_id,
                    contents: encode_utf8(text@),
                })
            },
            None => !old(open)@.dom().contains(uri@) && final(open)@ == old(open)@,
        },
{
    let document = match open.get(uri.as_str()) {
        Some(document) => *document,
        None => return None,
    };
    open.insert(
        uri,
        OpenDocument {
            file_id: document.file_id,
            virtual_file: document.virtual_file,
            version,
        },
    );
    Some(DatabaseAction::Update { id: document.file_id, contents: buffer_bytes(text) })
}

/// A document was closed. Nothing comes of it when it was not open.
pub fn buffer_closed(open: &mut TextMap<OpenDocument>, uri: &str) -> (action: Option<
    DatabaseAction,
>)
    requires
        old(open).wf(),
    ensures
        final(open).wf(),
        final(open)@ == old(open)@.remove(uri@),
        database_action(action) == if old(open)@.dom().contains(uri@) {
            Some(closing(old(open)@[uri@]))
        } else {
            None
        },
{
    match open.remove(uri) {
        Some(document) => if document.virtual_file {
            Some(DatabaseAction::Delete { id: document.file_id })
        } else {
            Some(DatabaseAction::Reload { id: document.file_id })
        },
        None => None,
    }
}

/// A file changed on disk and now holds `contents`; `known` says whether the
/// database has it. Nothing comes of it while the document is open.
pub fn disk_changed(
    open: &TextMap<OpenDocument>,
    uri: &str,
    file_id: FileId,
    contents: Vec<u8>,
    known: bool,
) -> (action: Option<DatabaseAction>)
    requires
        open.wf(),
    ensures
        database_action(action) == if open@.dom().contains(uri@) {
            None
        } else {
            Some(put(file_id, contents@, known))
        },
{
    if open.contains_key(uri) {
        return None;
    }
    Some(put_action(file_id, contents, known))
}

/// A file was deleted on disk; `known` says whether the database has it.
pub fn disk_deleted(file_id: FileId, known: bool) -> (action: Option<DatabaseAction>)
    ensures
        database_action(action) == if known {
            Some(DatabaseActionView::Delete { id: file_id })
        } else {
            None
        },
{
    if known {
        Some(DatabaseAction::Delete { id: file_id })
    } else {
        None
    }
}

// ---- Debouncing ----------------------------------------------------------

/// The newest change of each document that has not been analyzed yet.
#[derive(Debug)]
pub struct PendingChanges {
    pub versions: TextMap<i32>,
}

/// The change of this version is the one to analyze.
pub open spec fn due(pending: Map<Seq<char>, i32>, uri: Seq<char>, version: i32) -> bool {
    pending.dom().contains(uri) && pending[uri] == version
}

impl PendingChanges {
    pub open spec fn wf(self) -> bool {
        self.versions.wf()
    }

    pub fn new() -> (pending: PendingChanges)
        ensures
            pending.wf(),
            pending.versions@ == Map::<Seq<char>, i32>::empty(),
    {
        PendingChanges { versions: TextMap::new() }
    }

    /// A change came in.
    pub fn note(&mut self, uri: String, version: i32)
        requires
            old(self).wf(),
        ensures
            final(self).wf(),
            final(self).versions@ == old(self).versions@.insert(uri@, version),
    {
        self.versions.insert(uri, version);
    }

    /// The wait after a change is over: is it still the newest? If so it is
    /// settled, and to be analyzed now.
    pub fn settle(&mut self, uri: &str, version: i32) -> (yes: bool)
        requires
            old(self).wf(),
        ensures
            final(self).wf(),
            yes == due(old(self).versions@, uri@, version),
            final(self).versions@ == if yes {
                old(self).versions@.remove(uri@)
            } else {
                old(self).versions@
            },
    {
        let newest = match self.versions.get(uri) {
            Some(newest) => *newest == version,
            None => false,
        };
        if newest {
            self.versions.remove(uri);
        }
        newest
    }

    /// Drop the pending change of a document.
    pub fn forget(&mut self, uri: &str)
        requires
            old(self).wf(),
        ensures
            final(self).wf(),
            final(self).versions@ == old(self).versions@.remove(uri@),
    {
        self.versions.remove(uri);
    }
}

// ---- Laws ----------------------------------------------------------------

/// Right after a document was opened the database holds its buffer.
pub proof fn law_open_shows_the_buffer(
    database: Map<FileId, Seq<u8>>,
    id: FileId,
    contents: Seq<u8>,
    disk: Option<Seq<u8>>,
)
    ensures
        applied(database, put(id, contents, database.dom().contains(id)), disk)
            == database.insert(id, contents),
{
}

/// Opening and closing a document that the database did not know of leaves the
/// database as it was.
pub proof fn law_virtual_file_leaves_no_trace(
    database: Map<FileId, Seq<u8>>,
    document: OpenDocument,
    contents: Seq<u8>,
    disk: Option<Seq<u8>>,
)
    requires
        document.virtual_file,
        !database.dom().contains(document.file_id),
    ensures
        applied(
            applied(database, put(document.file_id, contents, !document.virtual_file), disk),
            closing(document),
            disk,
        ) == database,
{
    assert(database.insert(document.file_id, contents).remove(document.file_id) =~= database);
}

/// Closing a document of a known file brings back what is on disk, or leaves the
/// last buffer where that cannot be read.
pub proof fn law_close_returns_to_disk(
    database: Map<FileId, Seq<u8>>,
    document: OpenDocument,
    disk: Option<Seq<u8>>,
)
    requires
        !document.virtual_file,
        database.dom().contains(document.file_id),
    ensures
        applied(database, closing(document), disk) == match disk {
            Some(contents) => database.insert(document.file_id, contents),
            None => database,
        },
{
}

/// An action leaves every other file alone.
pub proof fn law_action_touches_its_file_only(
    database: Map<FileId, Seq<u8>>,
    action: DatabaseActionView,
    disk: Option<Seq<u8>>,
    other: FileId,
)
    requires
        other != subject(action),
    ensures
        applied(database, action, disk).dom().contains(other) == database.dom().contains(other),
        database.dom().contains(other) ==> applied(database, action, disk)[other]
            == database[other],
{
}

/// Of a burst of changes only the newest is analyzed, and it is; other documents
/// are not affected.
pub proof fn law_newest_change_is_analyzed(
    pending: Map<Seq<char>, i32>,
    uri: Seq<char>,
    earlier: i32,
    newest: i32,
    other: Seq<char>,
    version: i32,
)
    requires
        earlier != newest,
        other != uri,
    ensures
        !due(pending.insert(uri, earlier).insert(uri, newest), uri, earlier),
        due(pending.insert(uri, earlier).insert(uri, newest), uri, newest),
        due(pending.insert(uri, newest), other, version) == due(pending, other, version),
{
}

/// A change is analyzed once, and not at all once its document is closed.
pub proof fn law_settled_change_is_not_due(
    pending: Map<Seq<char>, i32>,
    uri: Seq<char>,
    version: i32,
)
    ensures
        !due(pending.remove(uri), uri, version),
{
}

} // verus!
