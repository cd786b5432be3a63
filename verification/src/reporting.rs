//! Issues, as the analyzer and the linter report them.

use vstd::prelude::*;

use crate::domain::{text_of, FileId, Level, Range, Span};
use crate::seqs::{first_where, lemma_first_where};

verus! {

/// Whether an edit can be applied without looking.
#[derive(Clone, Copy, Debug, PartialEq, Eq, Structural)]
pub enum Safety {
    Safe,
    PotentiallyUnsafe,
    Unsafe,
}

/// A stretch of a file to replace.
#[derive(Debug)]
pub struct TextEdit {
    pub range: Range,
    pub new_text: Vec<u8>,
    pub safety: Safety,
}

/// The edits that an issue proposes for one file.
#[derive(Debug)]
pub struct FileEdits {
    pub file: FileId,
    pub edits: Vec<TextEdit>,
}

#[derive(Clone, Copy, Debug, PartialEq, Eq, Structural)]
pub enum AnnotationKind {
    Primary,
    Secondary,
}

/// A stretch of a file that an issue points at.
#[derive(Debug)]
pub struct Annotation {
    pub kind: AnnotationKind,
    pub span: Span,
    pub message: Option<String>,
}

/// Something that the analyzer or the linter has to say about a file.
#[derive(Debug)]
pub struct Issue {
    pub level: Level,
    pub code: Option<String>,
    pub message: String,
    pub notes: Vec<String>,
    pub help: Option<String>,
    pub annotations: Vec<Annotation>,
    pub edits: Vec<FileEdits>,
}

pub open spec fn is_primary() -> spec_fn(Annotation) -> bool {
    |annotation: Annotation| annotation.kind == AnnotationKind::Primary
}

pub open spec fn edits_in(file: FileId) -> spec_fn(FileEdits) -> bool {
    |edits: FileEdits| edits.file == file
}

impl Issue {
    /// The first primary annotation, or the first of all.
    pub open spec fn primary(self) -> Option<Annotation> {
        match first_where(self.annotations@, is_primary()) {
            Some(annotation) => Some(annotation),
            None => if self.annotations@.len() > 0 {
                Some(self.annotations@[0])
            } else {
                None
            },
        }
    }

    /// The edits for `file`.
    pub open spec fn edits_for(self, file: FileId) -> Option<FileEdits> {
        first_where(self.edits@, edits_in(file))
    }

    /// Where the issue points.
    pub fn primary_annotation(&self) -> (found: Option<&Annotation>)
        ensures
            self.primary() == match found {
                Some(annotation) => Some(*annotation),
                None => None,
            },
    {
        let mut i: usize = 0;
        while i < self.annotations.len()
            invariant
                i <= self.annotations@.len(),
                forall|k: int| 0 <= k < i ==> !is_primary()(#[trigger] self.annotations@[k]),
            decreases self.annotations.len() - i,
        {
            proof {
                lemma_first_where(self.annotations@, is_primary(), i as int);
            }
            if self.annotations[i].kind == AnnotationKind::Primary {
                return Some(&self.annotations[i]);
            }
            i += 1;
        }
        proof {
            lemma_first_where(self.annotations@, is_primary(), i as int);
        }
        if self.annotations.len() > 0 {
            Some(&self.annotations[0])
        } else {
            None
        }
    }

    pub fn get_edits(&self, file: FileId) -> (found: Option<&FileEdits>)
        ensures
            self.edits_for(file) == match found {
                Some(edits) => Some(*edits),
                None => None,
            },
    {
        let mut i: usize = 0;
        while i < self.edits.len()
            invariant
                i <= self.edits@.len(),
                forall|k: int| 0 <= k < i ==> !edits_in(file)(#[trigger] self.edits@[k]),
            decreases self.edits.len() - i,
        {
            proof {
                lemma_first_where(self.edits@, edits_in(file), i as int);
            }
            if self.edits[i].file == file {
                return Some(&self.edits[i]);
            }
            i += 1;
        }
        proof {
            lemma_first_where(self.edits@, edits_in(file), i as int);
        }
        None
    }
}

// ---- What an issue says --------------------------------------------------

/// What a [`TextEdit`] says.
pub struct TextEditView {
    pub range: Range,
    pub new_text: Seq<u8>,
    pub safety: Safety,
}

impl View for TextEdit {
    type V = TextEditView;

    open spec fn view(&self) -> TextEditView {
        TextEditView { range: self.range, new_text: self.new_text@, safety: self.safety }
    }
}

/// What an [`Annotation`] says.
pub struct AnnotationView {
    pub kind: AnnotationKind,
    pub span: Span,
    pub message: Option<Seq<char>>,
}

impl View for Annotation {
    type V = AnnotationView;

    open spec fn view(&self) -> AnnotationView {
        AnnotationView { kind: self.kind, span: self.span, message: text_of(self.message) }
    }
}

/// What an [`Issue`] says.
pub struct IssueView {
    pub level: Level,
    pub code: Option<Seq<char>>,
    pub message: Seq<char>,
    pub notes: Seq<Seq<char>>,
    pub help: Option<Seq<char>>,
    pub annotations: Seq<AnnotationView>,
    /// The edits of each file that has any listed.
    pub edits: Seq<(FileId, Seq<TextEditView>)>,
}

impl View for Issue {
    type V = IssueView;

    open spec fn view(&self) -> IssueView {
        IssueView {
            level: self.level,
            code: text_of(self.code),
            message: self.message@,
            notes: Seq::new(self.notes@.len(), |i: int| self.notes@[i]@),
            help: text_of(self.help),
            annotations: Seq::new(self.annotations@.len(), |i: int| self.annotations@[i]@),
            edits: Seq::new(
                self.edits@.len(),
                |i: int|
                    (
                        self.edits@[i].file,
                        Seq::new(
                            self.edits@[i].edits@.len(),
                            |k: int| self.edits@[i].edits@[k]@,
                        ),
                    ),
            ),
        }
    }
}

} // verus!
