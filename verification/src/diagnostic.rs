//! Diagnostics as the editor is told of them, and when two of them are the same.

use vstd::prelude::*;

use crate::domain::{text_of, Severity};
use crate::text::{copy_text, same_text};

verus! {

/// A place in a document as the editor counts: lines, and columns in a line, from
/// zero.
#[derive(Clone, Copy, Debug, PartialEq, Eq, Structural)]
pub struct Place {
    pub line: u32,
    pub column: u32,
}

/// What identifies the kind of a diagnostic.
#[derive(Debug)]
pub enum DiagnosticCode {
    Number(i32),
    Text(String),
}

/// What a [`DiagnosticCode`] says.
pub enum CodeView {
    Number(i32),
    Text(Seq<char>),
}

impl View for DiagnosticCode {
    type V = CodeView;

    open spec fn view(&self) -> CodeView {
        match *self {
            DiagnosticCode::Number(number) => CodeView::Number(number),
            DiagnosticCode::Text(text) => CodeView::Text(text@),
        }
    }
}

/// More that is known of what a diagnostic is about.
#[derive(Clone, Copy, Debug, PartialEq, Eq, Structural)]
pub enum DiagnosticTag {
    Unnecessary,
    Deprecated,
}

/// A place that has to do with a diagnostic.
#[derive(Debug)]
pub struct RelatedInformation {
    pub uri: String,
    pub start: Place,
    pub end: Place,
    pub message: String,
}

/// What a [`RelatedInformation`] says.
pub struct RelatedView {
    pub uri: Seq<char>,
    pub start: Place,
    pub end: Place,
    pub message: Seq<char>,
}

impl View for RelatedInformation {
    type V = RelatedView;

    open spec fn view(&self) -> RelatedView {
        RelatedView { uri: self.uri@, start: self.start, end: self.end, message: self.message@ }
    }
}

/// A diagnostic as the editor shows it.
#[derive(Debug)]
pub struct Diagnostic {
    pub start: Place,
    pub end: Place,
    pub severity: Option<Severity>,
    pub code: Option<DiagnosticCode>,
    /// The address of a description of the code.
    pub code_description: Option<String>,
    /// Who found it.
    pub source: Option<String>,
    pub message: String,
    pub related_information: Option<Vec<RelatedInformation>>,
    pub tags: Option<Vec<DiagnosticTag>>,
    /// What the editor hands back when it asks for code actions: JSON in one fixed
    /// form, so that equal data are equal texts.
    pub data: Option<String>,
}

/// What a [`Diagnostic`] says.
pub struct DiagnosticView {
    pub start: Place,
    pub end: Place,
    pub severity: Option<Severity>,
    pub code: Option<CodeView>,
    pub code_description: Option<Seq<char>>,
    pub source: Option<Seq<char>>,
    pub message: Seq<char>,
    pub related_information: Option<Seq<RelatedView>>,
    pub tags: Option<Seq<DiagnosticTag>>,
    pub data: Option<Seq<char>>,
}

pub open spec fn code_of(code: Option<DiagnosticCode>) -> Option<CodeView> {
    match code {
        Some(code) => Some(code@),
        None => None,
    }
}

pub open spec fn related_views(related: Seq<RelatedInformation>) -> Seq<RelatedView> {
    Seq::new(related.len(), |i: int| related[i]@)
}

pub open spec fn related_of(related: Option<Vec<RelatedInformation>>) -> Option<Seq<RelatedView>> {
    match related {
        Some(related) => Some(related_views(related@)),
        None => None,
    }
}

pub open spec fn tags_of(tags: Option<Vec<DiagnosticTag>>) -> Option<Seq<DiagnosticTag>> {
    match tags {
        Some(tags) => Some(tags@),
        None => None,
    }
}

impl View for Diagnostic {
    type V = DiagnosticView;

    open spec fn view(&self) -> DiagnosticView {
        DiagnosticView {
            start: self.start,
            end: self.end,
            severity: self.severity,
            code: code_of(self.code),
            code_description: text_of(self.code_description),
            source: text_of(self.source),
            message: self.message@,
            related_information: related_of(self.related_information),
            tags: tags_of(self.tags),
            data: text_of(self.data),
        }
    }
}

pub open spec fn diagnostic_views(diagnostics: Seq<Diagnostic>) -> Seq<DiagnosticView> {
    Seq::new(diagnostics.len(), |i: int| diagnostics[i]@)
}

// ---- Comparing -----------------------------------------------------------

/// Do the two optional texts hold the same characters?
fn same_optional_text(left: &Option<String>, right: &Option<String>) -> (yes: bool)
    ensures
        yes == (text_of(*left) == text_of(*right)),
{
    match (left, right) {
        (Some(left), Some(right)) => same_text(left.as_str(), right.as_str()),
        (None, None) => true,
        _ => false,
    }
}

fn same_severity(left: Option<Severity>, right: Option<Severity>) -> (yes: bool)
    ensures
        yes == (left == right),
{
    match (left, right) {
        (Some(left), Some(right)) => left == right,
        (None, None) => true,
        _ => false,
    }
}

fn same_code(left: &Option<DiagnosticCode>, right: &Option<DiagnosticCode>) -> (yes: bool)
    ensures
        yes == (code_of(*left) == code_of(*right)),
{
    match (left, right) {
        (Some(left), Some(right)) => match (left, right) {
            (DiagnosticCode::Number(left), DiagnosticCode::Number(right)) => *left == *right,
            (DiagnosticCode::Text(left), DiagnosticCode::Text(right)) => same_text(
                left.as_str(),
                right.as_str(),
            ),
            _ => false,
        },
        (None, None) => true,
        _ => false,
    }
}

fn same_related_place(left: &RelatedInformation, right: &RelatedInformation) -> (yes: bool)
    ensures
        yes == (left@ == right@),
{
    left.start == right.start && left.end == right.end && same_text(
        left.uri.as_str(),
        right.uri.as_str(),
    ) && same_text(left.message.as_str(), right.message.as_str())
}

fn same_related_row(left: &Vec<RelatedInformation>, right: &Vec<RelatedInformation>) -> (yes: bool)
    ensures
        yes == (related_views(left@) == related_views(right@)),
{
    if left.len() != right.len() {
        assert(related_views(left@).len() != related_views(right@).len());
        return false;
    }
    let mut i: usize = 0;
    while i < left.len()
        invariant
            i <= left@.len() == right@.len(),
            forall|k: int| 0 <= k < i ==> (#[trigger] left@[k])@ == right@[k]@,
        decreases left.len() - i,
    {
        if !same_related_place(&left[i], &right[i]) {
            assert(related_views(left@)[i as int] != related_views(right@)[i as int]);
            return false;
        }
        i += 1;
    }
    assert(related_views(left@) =~= related_views(right@));
    true
}

fn same_related(
    left: &Option<Vec<RelatedInformation>>,
    right: &Option<Vec<RelatedInformation>>,
) -> (yes: bool)
    ensures
        yes == (related_of(*left) == related_of(*right)),
{
    match (left, right) {
        (Some(left), Some(right)) => same_related_row(left, right),
        (None, None) => true,
        _ => false,
    }
}

fn same_tag_row(left: &Vec<DiagnosticTag>, right: &Vec<DiagnosticTag>) -> (yes: bool)
    ensures
        yes == (left@ == right@),
{
    if left.len() != right.len() {
        return false;
    }
    let mut i: usize = 0;
    while i < left.len()
        invariant
            i <= left@.len() == right@.len(),
            forall|k: int| 0 <= k < i ==> #[trigger] left@[k] == right@[k],
        decreases left.len() - i,
    {
        if left[i] != right[i] {
            return false;
        }
        i += 1;
    }
    assert(left@ =~= right@);
    true
}

fn same_tags(left: &Option<Vec<DiagnosticTag>>, right: &Option<Vec<DiagnosticTag>>) -> (yes: bool)
    ensures
        yes == (tags_of(*left) == tags_of(*right)),
{
    match (left, right) {
        (Some(left), Some(right)) => same_tag_row(left, right),
        (None, None) => true,
        _ => false,
    }
}

fn same_diagnostic(left: &Diagnostic, right: &Diagnostic) -> (yes: bool)
    ensures
        yes == (left@ == right@),
{
    left.start == right.start && left.end == right.end && same_severity(
        left.severity,
        right.severity,
    ) && same_code(&left.code, &right.code) && same_optional_text(
        &left.code_description,
        &right.code_description,
    ) && same_optional_text(&left.source, &right.source) && same_text(
        left.message.as_str(),
        right.message.as_str(),
    ) && same_related(&left.related_information, &right.related_information) && same_tags(
        &left.tags,
        &right.tags,
    ) && same_optional_text(&left.data, &right.data)
}

/// Do the two rows hold the same diagnostics?
pub fn same_diagnostics(left: &Vec<Diagnostic>, right: &Vec<Diagnostic>) -> (yes: bool)
    ensures
        yes == (diagnostic_views(left@) == diagnostic_views(right@)),
{
    if left.len() != right.len() {
        assert(diagnostic_views(left@).len() != diagnostic_views(right@).len());
        return false;
    }
    let mut i: usize = 0;
    while i < left.len()
        invariant
            i <= left@.len() == right@.len(),
            forall|k: int| 0 <= k < i ==> (#[trigger] left@[k])@ == right@[k]@,
        decreases left.len() - i,
    {
        if !same_diagnostic(&left[i], &right[i]) {
            assert(diagnostic_views(left@)[i as int] != diagnostic_views(right@)[i as int]);
            return false;
        }
        i += 1;
    }
    assert(diagnostic_views(left@) =~= diagnostic_views(right@));
    true
}

// ---- Copying -------------------------------------------------------------

fn copy_code(code: &Option<DiagnosticCode>) -> (copy: Option<DiagnosticCode>)
    ensures
        code_of(copy) == code_of(*code),
{
    match code {
        Some(DiagnosticCode::Number(number)) => Some(DiagnosticCode::Number(*number)),
        Some(DiagnosticCode::Text(text)) => Some(DiagnosticCode::Text(text.as_str().to_string())),
        None => None,
    }
}

fn copy_related(related: &Option<Vec<RelatedInformation>>) -> (copy: Option<
    Vec<RelatedInformation>,
>)
    ensures
        related_of(copy) == related_of(*related),
{
    let related = match related {
        Some(related) => related,
        None => return None,
    };
    let mut copy: Vec<RelatedInformation> = Vec::with_capacity(related.len());
    let mut i: usize = 0;
    while i < related.len()
        invariant
            i <= related@.len(),
            copy@.len() == i,
            forall|k: int| 0 <= k < i ==> (#[trigger] copy@[k])@ == related@[k]@,
        decreases related.len() - i,
    {
        let place = &related[i];
        copy.push(
            RelatedInformation {
                uri: place.uri.as_str().to_string(),
                start: place.start,
                end: place.end,
                message: place.message.as_str().to_string(),
            },
        );
        i += 1;
    }
    assert(related_views(copy@) =~= related_views(related@));
    Some(copy)
}

fn copy_tags(tags: &Option<Vec<DiagnosticTag>>) -> (copy: Option<Vec<DiagnosticTag>>)
    ensures
        tags_of(copy) == tags_of(*tags),
{
    let tags = match tags {
        Some(tags) => tags,
        None => return None,
    };
    let mut copy: Vec<DiagnosticTag> = Vec::with_capacity(tags.len());
    let mut i: usize = 0;
    while i < tags.len()
        invariant
            i <= tags@.len(),
            copy@.len() == i,
            forall|k: int| 0 <= k < i ==> #[trigger] copy@[k] == tags@[k],
        decreases tags.len() - i,
    {
        copy.push(tags[i]);
        i += 1;
    }
    assert(copy@ =~= tags@);
    Some(copy)
}

pub fn copy_diagnostics(diagnostics: &Vec<Diagnostic>) -> (copy: Vec<Diagnostic>)
    ensures
        diagnostic_views(copy@) == diagnostic_views(diagnostics@),
{
    let mut copy: Vec<Diagnostic> = Vec::with_capacity(diagnostics.len());
    let mut i: usize = 0;
    while i < diagnostics.len()
        invariant
            i <= diagnostics@.len(),
            copy@.len() == i,
            forall|k: int| 0 <= k < i ==> (#[trigger] copy@[k])@ == diagnostics@[k]@,
        decreases diagnostics.len() - i,
    {
        let diagnostic = &diagnostics[i];
        copy.push(
            Diagnostic {
                start: diagnostic.start,
                end: diagnostic.end,
                severity: diagnostic.severity,
                code: copy_code(&diagnostic.code),
                code_description: copy_text(&diagnostic.code_description),
                source: copy_text(&diagnostic.source),
                message: diagnostic.message.as_str().to_string(),
                related_information: copy_related(&diagnostic.related_information),
                tags: copy_tags(&diagnostic.tags),
                data: copy_text(&diagnostic.data),
            },
        );
        i += 1;
    }
    assert(diagnostic_views(copy@) =~= diagnostic_views(diagnostics@));
    copy
}

} // verus!
