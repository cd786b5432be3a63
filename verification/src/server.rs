//! The state that every capability reads: files, symbols, and what the analyzer
//! and the linter found.

use vstd::prelude::*;

use crate::codebase::CodebaseMetadata;
use crate::domain::{FileId, Range};
use crate::file::File;
use crate::phpdoc::{InferredType, Reread};
use crate::reporting::Issue;
use crate::seqs::{first_where, lemma_first_from, lemma_first_where};

verus! {

/// A name in a file, resolved to what it denotes.
#[derive(Debug)]
pub struct ResolvedName {
    pub start: u32,
    pub end: u32,
    /// The fully qualified name.
    pub name: Vec<u8>,
    /// Whether an import brought the name in.
    pub imported: bool,
}

/// A function or method declaration in a file.
#[derive(Clone, Copy, Debug, PartialEq, Eq, Structural)]
pub struct FunctionLikeSite {
    pub span: Range,
    /// The docblock right above it.
    pub docblock: Option<Range>,
}

/// What is known of one file.
#[derive(Debug)]
pub struct FileAnalysis {
    pub file_id: FileId,
    pub resolved: Vec<ResolvedName>,
    pub function_like_sites: Vec<FunctionLikeSite>,
    pub lint_issues: Vec<Issue>,
}

/// How the analyzer renders the type of the expression at `range`.
#[derive(Debug)]
pub struct ExpressionType {
    pub range: Range,
    pub display: String,
}

/// The return type that the analyzer inferred for the function-like at `span`.
#[derive(Debug)]
pub struct InferredReturn {
    pub span: Range,
    pub inferred: InferredType,
}

/// The types that the analyzer worked out in one file.
#[derive(Debug)]
pub struct TypeIndex {
    pub file_id: FileId,
    pub display_by_span: Vec<ExpressionType>,
    pub inferred_returns_by_span: Vec<InferredReturn>,
}

/// A workspace, as far as the capabilities read it.
#[derive(Debug)]
pub struct Server {
    pub files: Vec<File>,
    pub codebase: CodebaseMetadata,
    pub analyses: Vec<FileAnalysis>,
    pub type_indexes: Vec<TypeIndex>,
    /// What candidate texts for inferred types parse to.
    pub rereads: Vec<Reread>,
    /// The issues of the last analysis of the whole workspace.
    pub last_issues: Option<Vec<Issue>>,
}

// ---- What the tables say -------------------------------------------------

pub open spec fn file_numbered(id: FileId) -> spec_fn(File) -> bool {
    |file: File| file.id == id
}

/// No two files share an id.
pub open spec fn ids_differ(files: Seq<File>) -> bool {
    forall|i: int, j: int|
        0 <= i < j < files.len() ==> (#[trigger] files[i]).id != (#[trigger] files[j]).id
}

pub open spec fn analysis_of(id: FileId) -> spec_fn(FileAnalysis) -> bool {
    |analysis: FileAnalysis| analysis.file_id == id
}

pub open spec fn types_of(id: FileId) -> spec_fn(TypeIndex) -> bool {
    |index: TypeIndex| index.file_id == id
}

pub open spec fn name_covers(offset: u32) -> spec_fn(ResolvedName) -> bool {
    |name: ResolvedName| name.start <= offset < name.end
}

pub open spec fn expression_at(range: Range) -> spec_fn(ExpressionType) -> bool {
    |entry: ExpressionType| entry.range == range
}

pub open spec fn return_at(span: Range) -> spec_fn(InferredReturn) -> bool {
    |entry: InferredReturn| entry.span == span
}

/// The file that an id leads to is one of the server's, and has that id.
pub proof fn lemma_server_file(server: Server, id: FileId)
    requires
        server.wf(),
    ensures
        server.file(id) matches Some(file) ==> file.wf() && file.id == id
            && server.files@.contains(file),
{
    lemma_first_from(server.files@, file_numbered(id), 0);
}

/// The id of a file leads to it.
pub proof fn lemma_file_of_id(server: Server, index: int)
    requires
        server.wf(),
        0 <= index < server.files@.len(),
    ensures
        server.file(server.files@[index].id) == Some(server.files@[index]),
{
    lemma_first_where(server.files@, file_numbered(server.files@[index].id), index);
}

impl FileAnalysis {
    /// The name that covers `offset`.
    pub open spec fn resolved_at(self, offset: u32) -> Option<ResolvedName> {
        first_where(self.resolved@, name_covers(offset))
    }

    /// The resolved name whose span covers `offset`.
    pub fn at_offset(&self, offset: u32) -> (found: Option<&ResolvedName>)
        ensures
            self.resolved_at(offset) == match found {
                Some(name) => Some(*name),
                None => None,
            },
    {
        let mut i: usize = 0;
        while i < self.resolved.len()
            invariant
                i <= self.resolved@.len(),
                forall|k: int| 0 <= k < i ==> !name_covers(offset)(#[trigger] self.resolved@[k]),
            decreases self.resolved.len() - i,
        {
            proof {
                lemma_first_where(self.resolved@, name_covers(offset), i as int);
            }
            if self.resolved[i].start <= offset && offset < self.resolved[i].end {
                return Some(&self.resolved[i]);
            }
            i += 1;
        }
        proof {
            lemma_first_where(self.resolved@, name_covers(offset), i as int);
        }
        None
    }
}

impl TypeIndex {
    /// How the type of the expression at `range` is rendered.
    pub open spec fn display_at(self, range: Range) -> Option<Seq<char>> {
        match first_where(self.display_by_span@, expression_at(range)) {
            Some(entry) => Some(entry.display@),
            None => None,
        }
    }

    /// The type inferred for what the function-like at `span` returns.
    pub open spec fn inferred_return_at(self, span: Range) -> Option<InferredType> {
        match first_where(self.inferred_returns_by_span@, return_at(span)) {
            Some(entry) => Some(entry.inferred),
            None => None,
        }
    }

    pub fn get_display(&self, range: Range) -> (display: Option<&str>)
        ensures
            self.display_at(range) == match display {
                Some(display) => Some(display@),
                None => None,
            },
    {
        let mut i: usize = 0;
        while i < self.display_by_span.len()
            invariant
                i <= self.display_by_span@.len(),
                forall|k: int|
                    0 <= k < i ==> !expression_at(range)(#[trigger] self.display_by_span@[k]),
            decreases self.display_by_span.len() - i,
        {
            proof {
                lemma_first_where(self.display_by_span@, expression_at(range), i as int);
            }
            if self.display_by_span[i].range == range {
                return Some(self.display_by_span[i].display.as_str());
            }
            i += 1;
        }
        proof {
            lemma_first_where(self.display_by_span@, expression_at(range), i as int);
        }
        None
    }

    pub fn get_inferred_return(&self, span: Range) -> (inferred: Option<&InferredType>)
        ensures
            self.inferred_return_at(span) == match inferred {
                Some(inferred) => Some(*inferred),
                None => None,
            },
    {
        let mut i: usize = 0;
        while i < self.inferred_returns_by_span.len()
            invariant
                i <= self.inferred_returns_by_span@.len(),
                forall|k: int|
                    0 <= k < i ==> !return_at(span)(#[trigger] self.inferred_returns_by_span@[k]),
            decreases self.inferred_returns_by_span.len() - i,
        {
            proof {
                lemma_first_where(self.inferred_returns_by_span@, return_at(span), i as int);
            }
            if self.inferred_returns_by_span[i].span == span {
                return Some(&self.inferred_returns_by_span[i].inferred);
            }
            i += 1;
        }
        proof {
            lemma_first_where(self.inferred_returns_by_span@, return_at(span), i as int);
        }
        None
    }
}

impl Server {
    /// Every file has an id of its own, and the files and the codebase are
    /// well-formed.
    pub open spec fn wf(self) -> bool {
        &&& ids_differ(self.files@)
        &&& forall|i: int| 0 <= i < self.files@.len() ==> (#[trigger] self.files@[i]).wf()
        &&& self.codebase.wf()
    }

    /// The file of this id.
    pub open spec fn file(self, id: FileId) -> Option<File> {
        first_where(self.files@, file_numbered(id))
    }

    /// What is known of the file of this id.
    pub open spec fn analysis(self, id: FileId) -> Option<FileAnalysis> {
        first_where(self.analyses@, analysis_of(id))
    }

    /// The types in the file of this id.
    pub open spec fn type_index(self, id: FileId) -> Option<TypeIndex> {
        first_where(self.type_indexes@, types_of(id))
    }

    /// The name that covers `offset` in the file of this id.
    pub open spec fn resolved_at(self, id: FileId, offset: u32) -> Option<ResolvedName> {
        match self.analysis(id) {
            Some(analysis) => analysis.resolved_at(offset),
            None => None,
        }
    }

    /// A server over these parts, or `None` when two files share an id. The
    /// files and the codebase come from [`File::new`] and
    /// [`CodebaseMetadata::new`].
    pub fn new(
        files: Vec<File>,
        codebase: CodebaseMetadata,
        analyses: Vec<FileAnalysis>,
        type_indexes: Vec<TypeIndex>,
        rereads: Vec<Reread>,
        last_issues: Option<Vec<Issue>>,
    ) -> (server: Option<Server>)
        requires
            forall|i: int| 0 <= i < files@.len() ==> (#[trigger] files@[i]).wf(),
            codebase.wf(),
        ensures
            server is Some <==> ids_differ(files@),
            server matches Some(server) ==> server.wf() && server == (Server {
                files,
                codebase,
                analyses,
                type_indexes,
                rereads,
                last_issues,
            }),
    {
        let mut i: usize = 0;
        while i < files.len()
            invariant
                i <= files@.len(),
                ids_differ(files@.take(i as int)),
            decreases files.len() - i,
        {
            let mut j: usize = 0;
            while j < i
                invariant
                    j <= i < files@.len(),
                    forall|k: int| 0 <= k < j ==> (#[trigger] files@[k]).id != files@[i as int].id,
                decreases i - j,
            {
                if files[j].id == files[i].id {
                    assert(files@[j as int].id == files@[i as int].id);
                    return None;
                }
                j += 1;
            }
            proof {
                let shorter = files@.take(i as int);
                let longer = files@.take(i + 1);
                assert forall|k: int, l: int| 0 <= k < l < longer.len() implies (
                #[trigger] longer[k]).id != (#[trigger] longer[l]).id by {
                    assert(longer[k] == files@[k] && longer[l] == files@[l]);
                    if l < i {
                        assert(shorter[k] == longer[k] && shorter[l] == longer[l]);
                    }
                }
            }
            i += 1;
        }
        assert(files@.take(i as int) =~= files@);
        Some(Server { files, codebase, analyses, type_indexes, rereads, last_issues })
    }

    /// The file of this id.
    pub fn get_file(&self, id: FileId) -> (found: Option<&File>)
        ensures
            self.file(id) == match found {
                Some(file) => Some(*file),
                None => None,
            },
            self.wf() ==> (found matches Some(file) ==> file.wf() && file.id == id),
    {
        let mut i: usize = 0;
        while i < self.files.len()
            invariant
                i <= self.files@.len(),
                forall|k: int| 0 <= k < i ==> !file_numbered(id)(#[trigger] self.files@[k]),
            decreases self.files.len() - i,
        {
            proof {
                lemma_first_where(self.files@, file_numbered(id), i as int);
            }
            if self.files[i].id == id {
                assert(self.wf() ==> self.files@[i as int].wf());
                return Some(&self.files[i]);
            }
            i += 1;
        }
        proof {
            lemma_first_where(self.files@, file_numbered(id), i as int);
        }
        None
    }

    /// What is known of the file of this id.
    pub fn file_analysis_for(&self, id: FileId) -> (found: Option<&FileAnalysis>)
        ensures
            self.analysis(id) == match found {
                Some(analysis) => Some(*analysis),
                None => None,
            },
    {
        let mut i: usize = 0;
        while i < self.analyses.len()
            invariant
                i <= self.analyses@.len(),
                forall|k: int| 0 <= k < i ==> !analysis_of(id)(#[trigger] self.analyses@[k]),
            decreases self.analyses.len() - i,
        {
            proof {
                lemma_first_where(self.analyses@, analysis_of(id), i as int);
            }
            if self.analyses[i].file_id == id {
                return Some(&self.analyses[i]);
            }
            i += 1;
        }
        proof {
            lemma_first_where(self.analyses@, analysis_of(id), i as int);
        }
        None
    }

    /// The types in the file of this id.
    pub fn type_index_for(&self, id: FileId) -> (found: Option<&TypeIndex>)
        ensures
            self.type_index(id) == match found {
                Some(index) => Some(*index),
                None => None,
            },
    {
        let mut i: usize = 0;
        while i < self.type_indexes.len()
            invariant
                i <= self.type_indexes@.len(),
                forall|k: int| 0 <= k < i ==> !types_of(id)(#[trigger] self.type_indexes@[k]),
            decreases self.type_indexes.len() - i,
        {
            proof {
                lemma_first_where(self.type_indexes@, types_of(id), i as int);
            }
            if self.type_indexes[i].file_id == id {
                return Some(&self.type_indexes[i]);
            }
            i += 1;
        }
        proof {
            lemma_first_where(self.type_indexes@, types_of(id), i as int);
        }
        None
    }

    /// The name that covers `offset` in the file of this id.
    pub fn name_at(&self, id: FileId, offset: u32) -> (found: Option<&ResolvedName>)
        ensures
            self.resolved_at(id, offset) == match found {
                Some(name) => Some(*name),
                None => None,
            },
    {
        match self.file_analysis_for(id) {
            Some(analysis) => analysis.at_offset(offset),
            None => None,
        }
    }
}

} // verus!
