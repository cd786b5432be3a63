//! The rule `prefer-casts-method`.

use mago_server::domain::{Level, Position, Range, Span};
use mago_server::prefer_casts_method::{
    enclosing_has_casts_method, line_indent, reindent, Ancestor, Category, ClassLikeMember,
    ConcreteItem, Integration, LintContext, Modifier, Node, NodeKind, PlainProperty,
    PreferCastsMethodConfig, PreferCastsMethodRule, PropertyItem, RuleRequirements, RuleSettings,
    ValueKind,
};
use mago_server::reporting::{AnnotationKind, Issue, Safety};

fn span(source: &str, text: &str) -> Span {
    let start = match source.find(text) {
        Some(start) => start,
        None => panic!("`{text}` is in the source"),
    };
    Span::new(
        1,
        Position { offset: start as u32 },
        Position { offset: (start + text.len()) as u32 },
    )
}

fn rule() -> PreferCastsMethodRule {
    PreferCastsMethodRule::build(&RuleSettings { config: PreferCastsMethodConfig::default() })
}

fn concrete(source: &str, name: &str, value: &str, kind: ValueKind) -> PropertyItem {
    PropertyItem::Concrete(ConcreteItem {
        name: name.as_bytes().to_vec(),
        name_span: span(source, name),
        value: kind,
        value_span: span(source, value),
    })
}

fn context(source: &str, members: Vec<ClassLikeMember>) -> LintContext {
    LintContext {
        file_id: 1,
        source: source.as_bytes().to_vec(),
        parents: vec![Ancestor::Other, Ancestor::ClassLike(members)],
    }
}

fn declaration(
    source: &str,
    text: &str,
    modifiers: Vec<Modifier>,
    items: Vec<PropertyItem>,
) -> PlainProperty {
    PlainProperty { modifiers, items, has_attributes: false, span: span(source, text) }
}

fn check(source: &str, members: Vec<ClassLikeMember>, property: PlainProperty) -> Option<Issue> {
    rule().check(&context(source, members), &Node::PlainProperty(property))
}

fn fixed(source: &str, issue: &Issue) -> String {
    assert_eq!(issue.edits.len(), 1);
    assert_eq!(issue.edits[0].file, 1);
    assert_eq!(issue.edits[0].edits.len(), 1);
    let edit = &issue.edits[0].edits[0];
    assert_eq!(edit.safety, Safety::PotentiallyUnsafe);
    let mut bytes = source.as_bytes().to_vec();
    bytes.splice(edit.range.start as usize..edit.range.end as usize, edit.new_text.clone());
    match String::from_utf8(bytes) {
        Ok(text) => text,
        Err(_) => panic!("the fix is text"),
    }
}

const MULTILINE: &str = "<?php

class User
{
    protected $casts = [
        'options' => 'array',
    ];
}
";

const MULTILINE_VALUE: &str = "[
        'options' => 'array',
    ]";

#[test]
fn fixes_a_multiline_casts_property() {
    let value = concrete(MULTILINE, "$casts", MULTILINE_VALUE, ValueKind::Array);
    let text = format!("protected $casts = {MULTILINE_VALUE};");
    let property = declaration(MULTILINE, &text, vec![Modifier::Protected], vec![value]);
    let issue = match check(MULTILINE, vec![ClassLikeMember::Other], property) {
        Some(issue) => issue,
        None => panic!("there is an issue"),
    };
    assert_eq!(
        fixed(MULTILINE, &issue),
        "<?php

class User
{
    protected function casts(): array
    {
        return [
            'options' => 'array',
        ];
    }
}
"
    );
    assert_eq!(issue.level, Level::Note);
    assert_eq!(issue.code.as_deref(), Some("prefer-casts-method"));
    assert_eq!(
        issue.message,
        "Define model casts in the `casts()` method instead of the `$casts` property."
    );
    assert_eq!(
        issue.help.as_deref(),
        Some("Move the cast definitions into a `protected function casts(): array` method that returns the array.")
    );
    assert_eq!(
        issue.notes,
        vec!["Laravel 11 introduced the `casts()` method as the modern way to declare attribute casts."]
    );
    assert_eq!(issue.annotations.len(), 1);
    assert_eq!(issue.annotations[0].kind, AnnotationKind::Primary);
    assert_eq!(issue.annotations[0].span, span(MULTILINE, "$casts"));
    assert_eq!(
        issue.annotations[0].message.as_deref(),
        Some("This `$casts` property should be a `casts()` method")
    );
}

const EMPTY: &str = "<?php

class User
{
    protected $casts = [];
}
";

fn empty_property(modifiers: Vec<Modifier>) -> PlainProperty {
    let value = concrete(EMPTY, "$casts", "[]", ValueKind::Array);
    declaration(EMPTY, "protected $casts = [];", modifiers, vec![value])
}

#[test]
fn fixes_an_empty_casts_property() {
    let issue = match check(EMPTY, vec![], empty_property(vec![Modifier::Protected])) {
        Some(issue) => issue,
        None => panic!("there is an issue"),
    };
    assert_eq!(
        fixed(EMPTY, &issue),
        "<?php

class User
{
    protected function casts(): array
    {
        return [];
    }
}
"
    );
    assert_eq!(issue.edits[0].edits[0].range, {
        let span = span(EMPTY, "protected $casts = [];");
        Range::new(span.start.offset, span.end.offset)
    });
}

#[test]
fn keeps_the_visibility() {
    for (modifier, word) in [
        (Modifier::Public, "public"),
        (Modifier::Protected, "protected"),
        (Modifier::Private, "private"),
        (Modifier::Other, "protected"),
    ] {
        let issue = match check(EMPTY, vec![], empty_property(vec![Modifier::Other, modifier])) {
            Some(issue) => issue,
            None => panic!("there is an issue"),
        };
        assert!(fixed(EMPTY, &issue).contains(&format!("    {word} function casts(): array\n")));
    }
}

#[test]
fn reports_without_a_fix_where_the_method_would_clash() {
    let members = vec![ClassLikeMember::Other, ClassLikeMember::Method(b"Casts".to_vec())];
    let issue = check(EMPTY, members, empty_property(vec![Modifier::Protected]));
    assert!(matches!(issue, Some(issue) if issue.edits.is_empty()));
}

#[test]
fn reports_without_a_fix_where_the_declaration_is_not_alone() {
    let mut attributed = empty_property(vec![]);
    attributed.has_attributes = true;
    assert!(matches!(check(EMPTY, vec![], attributed), Some(issue) if issue.edits.is_empty()));
    let mut shared = empty_property(vec![]);
    shared.items.push(PropertyItem::Abstract);
    assert!(matches!(check(EMPTY, vec![], shared), Some(issue) if issue.edits.is_empty()));
}

#[test]
fn leaves_other_properties_alone() {
    let source = "<?php class User { protected $Casts = ['a']; }";
    let other = concrete(source, "$Casts", "['a']", ValueKind::Array);
    let property = declaration(source, "protected", vec![], vec![other]);
    assert!(check(source, vec![], property).is_none());
    // No value, or one that is no array.
    let property = declaration(EMPTY, "protected", vec![], vec![PropertyItem::Abstract]);
    assert!(check(EMPTY, vec![], property).is_none());
    let null = concrete(EMPTY, "$casts", "[]", ValueKind::Other);
    assert!(check(EMPTY, vec![], declaration(EMPTY, "protected", vec![], vec![null])).is_none());
    // A static `$casts` cannot become a method.
    assert!(check(EMPTY, vec![], empty_property(vec![Modifier::Static])).is_none());
    assert!(rule().check(&context(EMPTY, vec![]), &Node::Other).is_none());
}

#[test]
fn the_legacy_array_syntax_counts() {
    let value = concrete(EMPTY, "$casts", "[]", ValueKind::LegacyArray);
    let property = declaration(EMPTY, "protected $casts = [];", vec![], vec![value]);
    assert!(check(EMPTY, vec![], property).is_some());
}

#[test]
fn looks_no_further_than_four_parents() {
    let casts = || Ancestor::ClassLike(vec![ClassLikeMember::Method(b"casts".to_vec())]);
    let near = vec![Ancestor::Other, Ancestor::Other, Ancestor::Other, casts()];
    assert!(enclosing_has_casts_method(&near));
    let far = vec![Ancestor::Other, Ancestor::Other, Ancestor::Other, Ancestor::Other, casts()];
    assert!(!enclosing_has_casts_method(&far));
    // The nearest class-like decides.
    assert!(!enclosing_has_casts_method(&vec![Ancestor::ClassLike(vec![]), casts()]));
    assert!(!enclosing_has_casts_method(&vec![]));
}

#[test]
fn indents() {
    assert_eq!(line_indent(b"a\n \tb", 4), " \t");
    // The whole indent counts, wherever on the line the offset is.
    assert_eq!(line_indent(b"a\n    b", 4), "    ");
    assert_eq!(line_indent(b"    x", 2), "    ");
    assert_eq!(line_indent(b"  x y", 4), "  ");
    assert_eq!(line_indent(b"x", 1), "");
    assert_eq!(reindent("[\n  a,\n]"), "[\n      a,\n    ]");
    assert_eq!(reindent("[]"), "[]");
    assert_eq!(reindent("a\n"), "a\n    ");
}

#[test]
fn describes_itself() {
    let meta = PreferCastsMethodRule::meta();
    assert_eq!(meta.name, "Prefer Casts Method");
    assert_eq!(meta.code, "prefer-casts-method");
    assert!(meta.description.ends_with("rather than a static array.\n"));
    assert!(meta.good_example.contains("    protected function casts(): array\n"));
    assert!(meta.bad_example.contains("    protected $casts = [\n"));
    assert_eq!(meta.category, Category::BestPractices);
    assert_eq!(meta.requirements, RuleRequirements::Integration(Integration::Laravel));
    assert_eq!(PreferCastsMethodRule::targets(), vec![NodeKind::Property]);
    let config = PreferCastsMethodConfig { level: Level::Warning };
    let strict = PreferCastsMethodRule::build(&RuleSettings { config });
    assert_eq!(strict.cfg.level(), Level::Warning);
    assert_eq!(PreferCastsMethodConfig::default().level(), Level::Note);
}
