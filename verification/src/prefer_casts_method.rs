//! The lint rule `prefer-casts-method`: Eloquent models should declare their
//! casts in a `casts()` method, not in a `$casts` property.

use vstd::prelude::*;
use vstd::string::StringExecFns;
use vstd::utf8::encode_utf8;

use crate::ascii::{equal_ignoring_case, same_bytes, same_ignoring_case, NEWLINE};
use crate::domain::{FileId, Level, Range, Span};
use crate::file::line_start;
use crate::indent::{blanks, blanks_from};
use crate::outside::{lossy, lossy_text};
use crate::reporting::{
    Annotation, AnnotationKind, AnnotationView, FileEdits, Issue, IssueView, Safety, TextEdit,
    TextEditView,
};

verus! {

// ---- Syntax --------------------------------------------------------------

/// A word in front of a property declaration, as far as the rule tells them
/// apart.
#[derive(Clone, Copy, Debug, PartialEq, Eq, Structural)]
pub enum Modifier {
    Static,
    Public,
    Protected,
    Private,
    Other,
}

/// What a property is initialised with, as far as the rule tells it apart.
#[derive(Clone, Copy, Debug, PartialEq, Eq, Structural)]
pub enum ValueKind {
    /// `[…]`
    Array,
    /// `array(…)`
    LegacyArray,
    Other,
}

/// A property with an initial value.
#[derive(Debug)]
pub struct ConcreteItem {
    /// The name with its `$`.
    pub name: Vec<u8>,
    pub name_span: Span,
    pub value: ValueKind,
    pub value_span: Span,
}

/// One of the properties that a declaration declares.
#[derive(Debug)]
pub enum PropertyItem {
    /// Without an initial value.
    Abstract,
    Concrete(ConcreteItem),
}

/// A property declaration without hooks.
#[derive(Debug)]
pub struct PlainProperty {
    pub modifiers: Vec<Modifier>,
    pub items: Vec<PropertyItem>,
    pub has_attributes: bool,
    pub span: Span,
}

/// A node of the syntax tree, as far as the rule looks at it.
#[derive(Debug)]
pub enum Node {
    PlainProperty(PlainProperty),
    Other,
}

/// The kind of node that a rule asks to see.
#[derive(Clone, Copy, Debug, PartialEq, Eq, Structural)]
pub enum NodeKind {
    Property,
}

/// A member of a class-like.
#[derive(Debug)]
pub enum ClassLikeMember {
    Method(Vec<u8>),
    Other,
}

/// A node around the one that is checked.
#[derive(Debug)]
pub enum Ancestor {
    /// A class, an anonymous class, a trait, an enum or an interface.
    ClassLike(Vec<ClassLikeMember>),
    Other,
}

/// What surrounds the node that is checked.
#[derive(Debug)]
pub struct LintContext {
    pub file_id: FileId,
    pub source: Vec<u8>,
    /// The nodes around it, the nearest first.
    pub parents: Vec<Ancestor>,
}

/// The spans of a declaration lie inside a source of `length` bytes.
pub open spec fn property_in_source(property: PlainProperty, length: nat) -> bool {
    &&& property.span.start.offset <= length
    &&& forall|i: int|
        0 <= i < property.items@.len() ==> (#[trigger] property.items@[i] matches
            PropertyItem::Concrete(concrete) ==> concrete.value_span.start.offset
            <= concrete.value_span.end.offset <= length)
}

/// The spans of the node lie inside a source of `length` bytes.
pub open spec fn node_in_source(node: Node, length: nat) -> bool {
    match node {
        Node::PlainProperty(property) => property_in_source(property, length),
        Node::Other => true,
    }
}

// ---- The rule ------------------------------------------------------------

#[derive(Clone, Copy, Debug, PartialEq, Eq, Structural)]
pub enum Category {
    BestPractices,
}

#[derive(Clone, Copy, Debug, PartialEq, Eq, Structural)]
pub enum Integration {
    Laravel,
}

/// What a project must use for a rule to apply.
#[derive(Clone, Copy, Debug, PartialEq, Eq, Structural)]
pub enum RuleRequirements {
    Integration(Integration),
}

/// What is told of a rule.
#[derive(Clone, Copy, Debug)]
pub struct RuleMeta {
    pub name: &'static str,
    pub code: &'static str,
    pub description: &'static str,
    pub good_example: &'static str,
    pub bad_example: &'static str,
    pub category: Category,
    pub requirements: RuleRequirements,
}

/// How the rule is set up.
#[derive(Debug, Clone, Copy, Eq, PartialEq, Hash, Structural)]
pub struct PreferCastsMethodConfig {
    pub level: Level,
}

impl Default for PreferCastsMethodConfig {
    fn default() -> (config: Self)
        ensures
            config.level == Level::Note,
    {
        PreferCastsMethodConfig { level: Level::Note }
    }
}

impl PreferCastsMethodConfig {
    pub fn level(&self) -> (level: Level)
        ensures
            level == self.level,
    {
        self.level
    }
}

/// What a user chose for the rule.
#[derive(Clone, Copy, Debug)]
pub struct RuleSettings {
    pub config: PreferCastsMethodConfig,
}

/// The rule, set up.
#[derive(Debug, Clone, Copy)]
pub struct PreferCastsMethodRule {
    pub meta: RuleMeta,
    pub cfg: PreferCastsMethodConfig,
}

/// The bytes of `$casts`.
pub open spec fn casts_property() -> Seq<u8> {
    seq![0x24u8, 0x63u8, 0x61u8, 0x73u8, 0x74u8, 0x73u8]
}

/// The bytes of `casts`.
pub open spec fn casts_method() -> Seq<u8> {
    seq![0x63u8, 0x61u8, 0x73u8, 0x74u8, 0x73u8]
}

/// The item is `$casts`, initialised with an array. Property names are
/// case-sensitive in PHP.
pub open spec fn declares_casts(item: PropertyItem) -> bool {
    match item {
        PropertyItem::Concrete(concrete) => concrete.name@ == casts_property() && (concrete.value
            == ValueKind::Array || concrete.value == ValueKind::LegacyArray),
        PropertyItem::Abstract => false,
    }
}

/// The first item, at or behind `from`, that declares `$casts`.
pub open spec fn casts_item(items: Seq<PropertyItem>, from: int) -> Option<ConcreteItem>
    decreases items.len() - from,
{
    if from < 0 || from >= items.len() {
        None
    } else if declares_casts(items[from]) {
        Some(items[from]->Concrete_0)
    } else {
        casts_item(items, from + 1)
    }
}

/// A method called `casts` is among the members; method names are
/// case-insensitive in PHP.
pub open spec fn has_casts_method(members: Seq<ClassLikeMember>) -> bool {
    exists|i: int|
        0 <= i < members.len() && (#[trigger] members[i] matches ClassLikeMember::Method(name)
            && equal_ignoring_case(name@, casts_method()))
}

/// The nearest class-like among the parents from `depth` up to the fourth has a
/// method called `casts`.
pub open spec fn casts_method_around(parents: Seq<Ancestor>, depth: int) -> bool
    decreases 4 - depth,
{
    if depth < 0 || depth >= 4 || depth >= parents.len() {
        false
    } else {
        match parents[depth] {
            Ancestor::ClassLike(members) => has_casts_method(members@),
            Ancestor::Other => casts_method_around(parents, depth + 1),
        }
    }
}

/// The visibility that the modifiers from `from` on spell out, `protected` where
/// they spell none.
pub open spec fn visibility_text(modifiers: Seq<Modifier>, from: int) -> Seq<char>
    decreases modifiers.len() - from,
{
    if from < 0 || from >= modifiers.len() {
        "protected"@
    } else {
        match modifiers[from] {
            Modifier::Public => "public"@,
            Modifier::Protected => "protected"@,
            Modifier::Private => "private"@,
            _ => visibility_text(modifiers, from + 1),
        }
    }
}

/// `text` with every line after the first set one level deeper.
pub open spec fn reindented(text: Seq<char>) -> Seq<char>
    decreases text.len(),
{
    if text.len() == 0 {
        Seq::empty()
    } else if text.last() == '\n' {
        reindented(text.drop_last()) + "\n    "@
    } else {
        reindented(text.drop_last()).push(text.last())
    }
}

/// The `casts()` method that returns `array`, in a body set at `indent`.
pub open spec fn method_text(
    visibility: Seq<char>,
    indent: Seq<char>,
    array: Seq<char>,
) -> Seq<char> {
    visibility + " function casts(): array\n"@ + indent + "{\n"@ + indent + "    return "@ + array
        + ";\n"@ + indent + "}"@
}

/// The method that takes the place of a property declaration.
pub open spec fn casts_replacement(
    source: Seq<u8>,
    property: PlainProperty,
    concrete: ConcreteItem,
) -> Seq<char> {
    let start = property.span.start.offset as int;
    method_text(
        visibility_text(property.modifiers@, 0),
        blanks(source, line_start(source, start), source.len() as int),
        reindented(
            lossy(
                source.subrange(
                    concrete.value_span.start.offset as int,
                    concrete.value_span.end.offset as int,
                ),
            ),
        ),
    )
}

/// The property can be rewritten: it is declared alone, without attributes, and
/// there is no `casts()` method that the new one would clash with.
pub open spec fn rewritable(context: LintContext, property: PlainProperty) -> bool {
    property.items@.len() == 1 && !property.has_attributes && !casts_method_around(
        context.parents@,
        0,
    )
}

/// The edits that the issue proposes.
pub open spec fn casts_edits(
    context: LintContext,
    property: PlainProperty,
    concrete: ConcreteItem,
) -> Seq<(FileId, Seq<TextEditView>)> {
    if rewritable(context, property) {
        seq![
            (
                context.file_id,
                seq![
                    TextEditView {
                        range: Range {
                            start: property.span.start.offset,
                            end: property.span.end.offset,
                        },
                        new_text: encode_utf8(
                            casts_replacement(context.source@, property, concrete),
                        ),
                        safety: Safety::PotentiallyUnsafe,
                    },
                ],
            ),
        ]
    } else {
        Seq::empty()
    }
}

/// The issue about a `$casts` property.
pub open spec fn casts_issue(
    level: Level,
    code: Seq<char>,
    context: LintContext,
    property: PlainProperty,
    concrete: ConcreteItem,
) -> IssueView {
    IssueView {
        level,
        code: Some(code),
        message: "Define model casts in the `casts()` method instead of the `$casts` property."@,
        notes: seq![
            "Laravel 11 introduced the `casts()` method as the modern way to declare attribute casts."@,
        ],
        help: Some(
            "Move the cast definitions into a `protected function casts(): array` method that returns the array."@,
        ),
        annotations: seq![
            AnnotationView {
                kind: AnnotationKind::Primary,
                span: concrete.name_span,
                message: Some("This `$casts` property should be a `casts()` method"@),
            },
        ],
        edits: casts_edits(context, property, concrete),
    }
}

/// What the rule has to say about a node.
pub open spec fn checked(rule: PreferCastsMethodRule, context: LintContext, node: Node) -> Option<
    IssueView,
> {
    match node {
        Node::PlainProperty(property) => if property.modifiers@.contains(Modifier::Static) {
            None
        } else {
            match casts_item(property.items@, 0) {
                Some(concrete) => Some(
                    casts_issue(rule.cfg.level, rule.meta.code@, context, property, concrete),
                ),
                None => None,
            }
        },
        Node::Other => None,
    }
}

/// What is told of the rule.
pub open spec fn describes_rule(meta: RuleMeta) -> bool {
    &&& meta.name@ == "Prefer Casts Method"@
    &&& meta.code@ == "prefer-casts-method"@
    &&& meta.description@ == "Detects the `$casts` property on an Eloquent model. Laravel 11 introduced the `casts()`\nmethod as the modern way to declare attribute casts, allowing the cast values to be\nexpressed with code (such as enum or class references) rather than a static array.\n"@
    &&& meta.good_example@ == "<?php\n\nclass User\n{\n    protected function casts(): array\n    {\n        return [\n            'is_admin' => 'boolean',\n        ];\n    }\n}\n"@
    &&& meta.bad_example@ == "<?php\n\nclass User\n{\n    protected $casts = [\n        'is_admin' => 'boolean',\n    ];\n}\n"@
    &&& meta.category == Category::BestPractices
    &&& meta.requirements == RuleRequirements::Integration(Integration::Laravel)
}

impl PreferCastsMethodRule {
    /// What is told of the rule.
    pub fn meta() -> (meta: RuleMeta)
        ensures
            describes_rule(meta),
    {
        RuleMeta {
            name: "Prefer Casts Method",
            code: "prefer-casts-method",
            description: "Detects the `$casts` property on an Eloquent model. Laravel 11 introduced the `casts()`\nmethod as the modern way to declare attribute casts, allowing the cast values to be\nexpressed with code (such as enum or class references) rather than a static array.\n",
            good_example: "<?php\n\nclass User\n{\n    protected function casts(): array\n    {\n        return [\n            'is_admin' => 'boolean',\n        ];\n    }\n}\n",
            bad_example: "<?php\n\nclass User\n{\n    protected $casts = [\n        'is_admin' => 'boolean',\n    ];\n}\n",
            category: Category::BestPractices,
            requirements: RuleRequirements::Integration(Integration::Laravel),
        }
    }

    /// The kinds of node that the rule asks to see.
    pub fn targets() -> (targets: Vec<NodeKind>)
        ensures
            targets@ == seq![NodeKind::Property],
    {
        let mut targets: Vec<NodeKind> = Vec::new();
        targets.push(NodeKind::Property);
        assert(targets@ =~= seq![NodeKind::Property]);
        targets
    }

    pub fn build(settings: &RuleSettings) -> (rule: PreferCastsMethodRule)
        ensures
            rule.cfg == settings.config,
            describes_rule(rule.meta),
    {
        PreferCastsMethodRule { meta: PreferCastsMethodRule::meta(), cfg: settings.config }
    }

    /// Check one node. At most one issue comes of it.
    pub fn check(&self, context: &LintContext, node: &Node) -> (issue: Option<Issue>)
        requires
            node_in_source(*node, context.source@.len()),
        ensures
            checked(*self, *context, *node) == match issue {
                Some(issue) => Some(issue@),
                None => None,
            },
    {
        let property = match node {
            Node::PlainProperty(property) => property,
            Node::Other => return None,
        };
        // A `casts()` method is never static, so a static `$casts` is left alone.
        if has_static(&property.modifiers) {
            return None;
        }
        let casts: [u8; 6] = [0x24, 0x63, 0x61, 0x73, 0x74, 0x73];
        assert(casts@ =~= casts_property());
        let mut i: usize = 0;
        while i < property.items.len()
            invariant
                i <= property.items@.len(),
                *node == Node::PlainProperty(*property),
                node_in_source(*node, context.source@.len()),
                !property.modifiers@.contains(Modifier::Static),
                casts@ == casts_property(),
                casts_item(property.items@, 0) == casts_item(property.items@, i as int),
            decreases property.items.len() - i,
        {
            if let PropertyItem::Concrete(concrete) = &property.items[i] {
                if same_bytes(concrete.name.as_slice(), casts.as_slice()) && matches!(
                    concrete.value,
                    ValueKind::Array | ValueKind::LegacyArray
                ) {
                    assert(casts_item(property.items@, 0) == Some(*concrete));
                    return Some(self.report(context, property, concrete));
                }
            }
            i += 1;
        }
        None
    }

    /// The issue about a `$casts` property, with its fix where there can be one.
    fn report(&self, context: &LintContext, property: &PlainProperty, concrete: &ConcreteItem) -> (
    issue: Issue)
        requires
            property.span.start.offset <= context.source@.len(),
            concrete.value_span.start.offset <= concrete.value_span.end.offset
                <= context.source@.len(),
        ensures
            issue@ == casts_issue(
                self.cfg.level,
                self.meta.code@,
                *context,
                *property,
                *concrete,
            ),
    {
        let mut annotations: Vec<Annotation> = Vec::new();
        annotations.push(
            Annotation {
                kind: AnnotationKind::Primary,
                span: concrete.name_span,
                message: Some("This `$casts` property should be a `casts()` method".to_string()),
            },
        );
        let mut notes: Vec<String> = Vec::new();
        notes.push(
            "Laravel 11 introduced the `casts()` method as the modern way to declare attribute casts.".to_string(),
        );
        let mut edits: Vec<FileEdits> = Vec::new();
        // `$casts` can only be rewritten into a `casts()` method when the property
        // declaration is self-contained: a single `$casts` item, with no
        // attributes to relocate, and no existing `casts()` method that the new
        // one would clash with.
        if property.items.len() == 1 && !property.has_attributes && !enclosing_has_casts_method(
            &context.parents,
        ) {
            let method = replacement_method(context.source.as_slice(), property, concrete);
            let mut file_edits: Vec<TextEdit> = Vec::new();
            // Relies on the array being reindented one level deeper; keep a human
            // in the loop.
            file_edits.push(
                TextEdit {
                    range: Range::new(property.span.start.offset, property.span.end.offset),
                    new_text: vstd::slice::slice_to_vec(method.as_str().as_bytes()),
                    safety: Safety::PotentiallyUnsafe,
                },
            );
            edits.push(FileEdits { file: context.file_id, edits: file_edits });
        }
        let issue = Issue {
            level: self.cfg.level(),
            code: Some(self.meta.code.to_string()),
            message: "Define model casts in the `casts()` method instead of the `$casts` property.".to_string(),
            notes,
            help: Some(
                "Move the cast definitions into a `protected function casts(): array` method that returns the array.".to_string(),
            ),
            annotations,
            edits,
        };
        proof {
            let expected = casts_issue(
                self.cfg.level,
                self.meta.code@,
                *context,
                *property,
                *concrete,
            );
            assert(issue@.notes =~= expected.notes);
            assert(issue@.annotations =~= expected.annotations);
            if rewritable(*context, *property) {
                assert(issue@.edits[0].1 =~= expected.edits[0].1);
            }
            assert(issue@.edits =~= expected.edits);
        }
        issue
    }
}

/// Is one of the modifiers `static`?
fn has_static(modifiers: &Vec<Modifier>) -> (yes: bool)
    ensures
        yes == modifiers@.contains(Modifier::Static),
{
    let mut i: usize = 0;
    while i < modifiers.len()
        invariant
            i <= modifiers@.len(),
            forall|k: int| 0 <= k < i ==> modifiers@[k] != Modifier::Static,
        decreases modifiers.len() - i,
    {
        if modifiers[i] == Modifier::Static {
            return true;
        }
        i += 1;
    }
    false
}

/// The visibility that the modifiers spell out.
fn visibility_of(modifiers: &Vec<Modifier>) -> (word: &'static str)
    ensures
        word@ == visibility_text(modifiers@, 0),
{
    let mut i: usize = 0;
    while i < modifiers.len()
        invariant
            i <= modifiers@.len(),
            visibility_text(modifiers@, 0) == visibility_text(modifiers@, i as int),
        decreases modifiers.len() - i,
    {
        match modifiers[i] {
            Modifier::Public => return "public",
            Modifier::Protected => return "protected",
            Modifier::Private => return "private",
            _ => {},
        }
        i += 1;
    }
    "protected"
}

/// The method that takes the place of the property declaration.
fn replacement_method(source: &[u8], property: &PlainProperty, concrete: &ConcreteItem) -> (method:
    String)
    requires
        property.span.start.offset <= source@.len(),
        concrete.value_span.start.offset <= concrete.value_span.end.offset <= source@.len(),
    ensures
        method@ == casts_replacement(source@, *property, *concrete),
{
    let indent = line_indent(source, property.span.start.offset as usize);
    let value: &[u8] = vstd::slice::slice_subrange(
        source,
        concrete.value_span.start.offset as usize,
        concrete.value_span.end.offset as usize,
    );
    let text = lossy_text(value);
    let array = reindent(text.as_str());
    let mut method = visibility_of(&property.modifiers).to_string();
    method.append(" function casts(): array\n");
    method.append(indent.as_str());
    method.append("{\n");
    method.append(indent.as_str());
    method.append("    return ");
    method.append(array.as_str());
    method.append(";\n");
    method.append(indent.as_str());
    method.append("}");
    method
}

/// The leading whitespace of the line that `offset` falls on.
pub fn line_indent(source: &[u8], offset: usize) -> (indent: String)
    requires
        offset <= source@.len(),
    ensures
        indent@ == blanks(source@, line_start(source@, offset as int), source@.len() as int),
{
    let mut start: usize = offset;
    while start > 0 && source[start - 1] != NEWLINE
        invariant
            start <= offset <= source@.len(),
            line_start(source@, offset as int) == line_start(source@, start as int),
        decreases start,
    {
        start -= 1;
    }
    blanks_from(source, start, source.len())
}

/// Adds one indentation level (four spaces) to every line after the first, so an
/// array lifted out of a property initializer sits correctly inside the `return`
/// of the generated `casts()` method: the initializer nests one level deeper as a
/// method body, so each continuation line shifts by one unit.
pub fn reindent(text: &str) -> (result: String)
    ensures
        result@ == reindented(text@),
{
    let mut result = String::new();
    assert(text@.take(0) =~= Seq::empty());
    for c in it: text.chars()
        invariant
            it.seq() == text@,
            result@ == reindented(text@.take(it.index() as int)),
    {
        let ghost before = text@.take(it.index() as int);
        let ghost after = text@.take(it.index() as int + 1);
        proof {
            assert(after.drop_last() =~= before);
            assert(after.last() == c);
        }
        if c == '\n' {
            result.append("\n    ");
        } else {
            result.push(c);
        }
    }
    assert(text@.take(text@.len() as int) =~= text@);
    result
}

/// Whether the class-like that encloses the current property already declares a
/// `casts` method (method names are case-insensitive in PHP), in which case
/// generating another would be a conflict.
pub fn enclosing_has_casts_method(parents: &Vec<Ancestor>) -> (yes: bool)
    ensures
        yes == casts_method_around(parents@, 0),
{
    let mut depth: usize = 0;
    while depth < 4 && depth < parents.len()
        invariant
            depth <= 4,
            depth <= parents@.len(),
            casts_method_around(parents@, 0) == casts_method_around(parents@, depth as int),
        decreases 4 - depth,
    {
        if let Ancestor::ClassLike(members) = &parents[depth] {
            return declares_casts_method(members);
        }
        depth += 1;
    }
    false
}

/// Is a method called `casts` among the members?
fn declares_casts_method(members: &Vec<ClassLikeMember>) -> (yes: bool)
    ensures
        yes == has_casts_method(members@),
{
    let casts: [u8; 5] = [0x63, 0x61, 0x73, 0x74, 0x73];
    assert(casts@ =~= casts_method());
    let mut i: usize = 0;
    while i < members.len()
        invariant
            i <= members@.len(),
            casts@ == casts_method(),
            forall|k: int|
                0 <= k < i ==> !(#[trigger] members@[k] matches ClassLikeMember::Method(name)
                    && equal_ignoring_case(name@, casts_method())),
        decreases members.len() - i,
    {
        if let ClassLikeMember::Method(name) = &members[i] {
            if same_ignoring_case(name.as_slice(), casts.as_slice()) {
                assert(members@[i as int] == ClassLikeMember::Method(*name));
                return true;
            }
        }
        i += 1;
    }
    false
}

/// Text on one line is not changed by indenting its later lines.
pub proof fn law_single_line_keeps_its_indent(text: Seq<char>)
    requires
        !text.contains('\n'),
    ensures
        reindented(text) == text,
    decreases text.len(),
{
    if text.len() > 0 {
        let rest = text.drop_last();
        assert(text[text.len() - 1] == text.last());
        assert forall|i: int| 0 <= i < rest.len() implies rest[i] != '\n' by {
            assert(rest[i] == text[i]);
        }
        law_single_line_keeps_its_indent(rest);
        assert(rest.push(text.last()) =~= text);
    } else {
        assert(text =~= Seq::empty());
    }
}

/// A fix replaces the declaration and nothing else, is never marked as safe, and
/// is only proposed where it cannot clash.
pub proof fn law_fix_is_guarded(rule: PreferCastsMethodRule, context: LintContext, node: Node)
    ensures
        checked(rule, context, node) matches Some(issue) ==> node matches Node::PlainProperty(
            property,
        ) && {
            &&& issue.edits.len() == 0 || issue.edits.len() == 1
            &&& issue.edits.len() == 1 <==> rewritable(context, property)
            &&& issue.edits.len() == 1 ==> issue.edits[0].0 == context.file_id
                && issue.edits[0].1.len() == 1 && issue.edits[0].1[0].safety
                == Safety::PotentiallyUnsafe && issue.edits[0].1[0].range == (Range {
                start: property.span.start.offset,
                end: property.span.end.offset,
            })
        },
{
}

} // verus!
