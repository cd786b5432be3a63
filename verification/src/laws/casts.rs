//! Laws on the lint rule `prefer-casts-method`.

use vstd::prelude::*;
use vstd::utf8::encode_utf8;

use crate::ascii::equal_ignoring_case;
use crate::domain::{Level};
use crate::file::line_start;
use crate::indent::blanks;
use crate::outside::lossy;
use crate::prefer_casts_method::{
    casts_edits, casts_issue, casts_item, casts_method, casts_method_around, 
    casts_replacement, checked, declares_casts, describes_rule, has_casts_method, method_text,
    node_in_source, reindented, rewritable, visibility_text, Ancestor, Category, ClassLikeMember,
    ConcreteItem, Integration, LintContext, Modifier, Node, PlainProperty, PreferCastsMethodRule,
    PropertyItem, RuleMeta, RuleRequirements, ValueKind,
};
use crate::reporting::{AnnotationKind, Safety};

verus! {

/// An item declares the casts when it is called exactly `$casts` and starts out as an
/// array, in either spelling.
pub proof fn law_casts_declaration(item: PropertyItem)
    ensures
        declares_casts(item) <==> (item matches PropertyItem::Concrete(concrete)
            && concrete.name@ == seq![0x24u8, 0x63u8, 0x61u8, 0x73u8, 0x74u8, 0x73u8] && (
        concrete.value == ValueKind::Array || concrete.value == ValueKind::LegacyArray)),
{
}

/// The declaration that counts is the first.
pub proof fn law_first_casts_declaration(items: Seq<PropertyItem>, from: int, index: int)
    requires
        0 <= from,
    ensures
        from <= index < items.len() && declares_casts(items[index]) && (forall|i: int|
            from <= i < index ==> !declares_casts(#[trigger] items[i])) ==> (
        items[index] matches PropertyItem::Concrete(concrete) && casts_item(items, from) == Some(
            concrete,
        )),
        (forall|i: int| from <= i < items.len() ==> !declares_casts(#[trigger] items[i]))
            ==> casts_item(items, from) is None,
    decreases items.len() - from,
{
    if from < items.len() {
        law_first_casts_declaration(items, from + 1, index);
    }
}

/// A class-like has the method when one of its methods is called `casts`, in any case.
pub proof fn law_casts_method(members: Seq<ClassLikeMember>)
    ensures
        has_casts_method(members) <==> exists|i: int|
            0 <= i < members.len() && (#[trigger] members[i] matches ClassLikeMember::Method(name)
                && equal_ignoring_case(name@, seq![0x63u8, 0x61u8, 0x73u8, 0x74u8, 0x73u8])),
{
    assert(casts_method() =~= seq![0x63u8, 0x61u8, 0x73u8, 0x74u8, 0x73u8]);
}

/// The class-like that counts is the nearest among the four nodes around the property.
pub proof fn law_nearest_class_like_counts(parents: Seq<Ancestor>, depth: int, nearest: int)
    requires
        0 <= depth,
    ensures
        depth <= nearest < 4 && nearest < parents.len() && parents[nearest] is ClassLike && (
        forall|i: int| depth <= i < nearest ==> !((#[trigger] parents[i]) is ClassLike)) ==> (
        casts_method_around(parents, depth) <==> has_casts_method(
            parents[nearest]->ClassLike_0@,
        )),
        (forall|i: int|
            depth <= i < 4 && i < parents.len() ==> !((#[trigger] parents[i]) is ClassLike))
            ==> !casts_method_around(parents, depth),
    decreases 4 - depth,
{
    if depth < 4 && depth < parents.len() {
        law_nearest_class_like_counts(parents, depth + 1, nearest);
    }
}

/// The method is as visible as the property is declared, and protected where that is
/// not said.
pub proof fn law_visibility(modifiers: Seq<Modifier>, from: int, index: int)
    requires
        0 <= from,
    ensures
        from <= index < modifiers.len() && (forall|i: int|
            from <= i < index ==> #[trigger] modifiers[i] != Modifier::Public && modifiers[i]
                != Modifier::Protected && modifiers[i] != Modifier::Private) ==> {
            &&& modifiers[index] == Modifier::Public ==> visibility_text(modifiers, from)
                == "public"@
            &&& modifiers[index] == Modifier::Protected ==> visibility_text(modifiers, from)
                == "protected"@
            &&& modifiers[index] == Modifier::Private ==> visibility_text(modifiers, from)
                == "private"@
        },
        (forall|i: int|
            from <= i < modifiers.len() ==> #[trigger] modifiers[i] != Modifier::Public
                && modifiers[i] != Modifier::Protected && modifiers[i] != Modifier::Private)
            ==> visibility_text(modifiers, from) == "protected"@,
    decreases modifiers.len() - from,
{
    if from < modifiers.len() {
        law_visibility(modifiers, from + 1, index);
    }
}

/// Four spaces go behind every newline, and nothing else changes.
pub proof fn law_deeper_lines(text: Seq<char>, c: char)
    ensures
        reindented(Seq::empty()) == Seq::<char>::empty(),
        c == '\n' ==> reindented(text.push(c)) == reindented(text) + seq!['\n', ' ', ' ', ' ', ' '],
        c != '\n' ==> reindented(text.push(c)) == reindented(text).push(c),
{
    reveal_strlit("\n    ");
    assert(text.push(c).drop_last() =~= text);
    assert("\n    "@ =~= seq!['\n', ' ', ' ', ' ', ' ']);
}

/// The method returns the array, in a body whose braces stand at the indent and whose
/// one statement stands one level deeper.
pub proof fn law_method_text(visibility: Seq<char>, indent: Seq<char>, array: Seq<char>)
    ensures
        method_text(visibility, indent, array) == (visibility + " function casts(): array\n"@) + (
        indent + "{\n"@) + (indent + "    return "@ + array + ";\n"@) + (indent + "}"@),
{
    assert(method_text(visibility, indent, array) =~= (visibility + " function casts(): array\n"@)
        + (indent + "{\n"@) + (indent + "    return "@ + array + ";\n"@) + (indent + "}"@));
}

/// The method that takes the property's place has its visibility, the indent of its
/// line, and the text of its array with the later lines one level deeper.
pub proof fn law_replacement(source: Seq<u8>, property: PlainProperty, concrete: ConcreteItem)
    ensures
        ({
            let from = concrete.value_span.start.offset as int;
            let to = concrete.value_span.end.offset as int;
            let at = line_start(source, property.span.start.offset as int);
            casts_replacement(source, property, concrete) == method_text(
                visibility_text(property.modifiers@, 0),
                blanks(source, at, source.len() as int),
                reindented(lossy(source.subrange(from, to))),
            )
        }),
{
}

/// The fix is offered when the property is declared alone, without attributes, and no
/// method of that name is around.
pub proof fn law_when_it_can_be_fixed(context: LintContext, property: PlainProperty)
    ensures
        rewritable(context, property) <==> property.items@.len() == 1 && !property.has_attributes
            && !casts_method_around(context.parents@, 0),
{
}

/// The fix replaces the whole declaration by the method, and is marked as one to look
/// at.
pub proof fn law_fix(context: LintContext, property: PlainProperty, concrete: ConcreteItem)
    ensures
        ({
            let edits = casts_edits(context, property, concrete);
            &&& !rewritable(context, property) ==> edits.len() == 0
            &&& rewritable(context, property) ==> {
                &&& edits.len() == 1
                &&& edits[0].0 == context.file_id
                &&& edits[0].1.len() == 1
                &&& edits[0].1[0].range.start == property.span.start.offset
                &&& edits[0].1[0].range.end == property.span.end.offset
                &&& edits[0].1[0].new_text == encode_utf8(
                    casts_replacement(context.source@, property, concrete),
                )
                &&& edits[0].1[0].safety == Safety::PotentiallyUnsafe
            }
        }),
{
}

/// The issue points at the property's name, and says what to do and why.
pub proof fn law_issue(
    level: Level,
    code: Seq<char>,
    context: LintContext,
    property: PlainProperty,
    concrete: ConcreteItem,
)
    ensures
        ({
            let issue = casts_issue(level, code, context, property, concrete);
            &&& issue.level == level
            &&& issue.code == Some(code)
            &&& issue.message
                == "Define model casts in the `casts()` method instead of the `$casts` property."@
            &&& issue.notes == seq![
                "Laravel 11 introduced the `casts()` method as the modern way to declare attribute casts."@,
            ]
            &&& issue.help == Some(
                "Move the cast definitions into a `protected function casts(): array` method that returns the array."@,
            )
            &&& issue.annotations.len() == 1
            &&& issue.annotations[0].kind == AnnotationKind::Primary
            &&& issue.annotations[0].span == concrete.name_span
            &&& issue.annotations[0].message == Some(
                "This `$casts` property should be a `casts()` method"@,
            )
            &&& issue.edits == casts_edits(context, property, concrete)
        }),
{
}

/// The rule speaks of a property declaration that is not static and declares the
/// casts, at the level it was set to and under its code; of nothing else.
pub proof fn law_what_the_rule_speaks_of(
    rule: PreferCastsMethodRule,
    context: LintContext,
    property: PlainProperty,
)
    ensures
        checked(rule, context, Node::Other) is None,
        property.modifiers@.contains(Modifier::Static) ==> checked(
            rule,
            context,
            Node::PlainProperty(property),
        ) is None,
        !property.modifiers@.contains(Modifier::Static) ==> match casts_item(property.items@, 0) {
            Some(concrete) => checked(rule, context, Node::PlainProperty(property)) == Some(
                casts_issue(rule.cfg.level, rule.meta.code@, context, property, concrete),
            ),
            None => checked(rule, context, Node::PlainProperty(property)) is None,
        },
{
}

/// A node lies in its source when its declaration starts in it and the values of its
/// items lie in it.
pub proof fn law_node_in_source(property: PlainProperty, length: nat)
    ensures
        node_in_source(Node::Other, length),
        node_in_source(Node::PlainProperty(property), length) <==> property.span.start.offset
            <= length && forall|i: int|
            0 <= i < property.items@.len() ==> (#[trigger] property.items@[i] matches
                PropertyItem::Concrete(concrete) ==> concrete.value_span.start.offset
                <= concrete.value_span.end.offset && concrete.value_span.end.offset <= length),
{
}

/// What is told of the rule.
pub proof fn law_rule_is_described(meta: RuleMeta)
    ensures
        describes_rule(meta) ==> {
            &&& meta.name@ == "Prefer Casts Method"@
            &&& meta.code@ == "prefer-casts-method"@
            &&& meta.description@
                == "Detects the `$casts` property on an Eloquent model. Laravel 11 introduced the `casts()`\nmethod as the modern way to declare attribute casts, allowing the cast values to be\nexpressed with code (such as enum or class references) rather than a static array.\n"@
            &&& meta.good_example@
                == "<?php\n\nclass User\n{\n    protected function casts(): array\n    {\n        return [\n            'is_admin' => 'boolean',\n        ];\n    }\n}\n"@
            &&& meta.bad_example@
                == "<?php\n\nclass User\n{\n    protected $casts = [\n        'is_admin' => 'boolean',\n    ];\n}\n"@
            &&& meta.category == Category::BestPractices
            &&& meta.requirements == RuleRequirements::Integration(Integration::Laravel)
        },
{
}

} // verus!
