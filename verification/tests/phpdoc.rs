use mago_server::phpdoc::{
    abbreviate, faithful_rendering, phpdoc_literal_form, reads_back_as, render_docblock_type,
    rendering_candidates, InferredType, Reread,
};

#[test]
fn rewrites_each_literal_wrapper() {
    assert_eq!(phpdoc_literal_form("string('pro')").as_deref(), Some("'pro'"));
    assert_eq!(phpdoc_literal_form("int(3)").as_deref(), Some("3"));
    assert_eq!(phpdoc_literal_form("float(0.5)").as_deref(), Some("0.5"));
    assert_eq!(phpdoc_literal_form("int(-7)").as_deref(), Some("-7"));
}

#[test]
fn rewrites_every_member_of_a_union() {
    assert_eq!(
        phpdoc_literal_form("null|string('plus')|string('pro')").as_deref(),
        Some("null|'plus'|'pro'")
    );
}

#[test]
fn rewrites_literals_nested_in_containers() {
    assert_eq!(
        phpdoc_literal_form("array{'family': string('pro'), 'tier': int(1)}").as_deref(),
        Some("array{'family': 'pro', 'tier': 1}")
    );
    assert_eq!(phpdoc_literal_form("list{int(1), int(2)}").as_deref(), Some("list{1, 2}"));
}

#[test]
fn leaves_types_without_literals_alone() {
    // `None` rather than an unchanged copy, so the caller does not test the same
    // candidate twice.
    assert_eq!(phpdoc_literal_form("array<array-key, mixed>"), None);
    assert_eq!(phpdoc_literal_form("null|string"), None);
    assert_eq!(phpdoc_literal_form("array{'ok': bool}"), None);
}

#[test]
fn does_not_mistake_a_longer_type_name_for_a_wrapper() {
    // A wrapper only starts at a token boundary; these merely end in one.
    assert_eq!(phpdoc_literal_form("non-empty-string"), None);
    assert_eq!(phpdoc_literal_form("list<lowercase-string>"), None);
}

#[test]
fn treats_quoted_runs_as_opaque() {
    // A shape key is the author's data: `int(` inside it is not syntax.
    assert_eq!(phpdoc_literal_form("array{'int(': bool}"), None);
    assert_eq!(
        phpdoc_literal_form("array{'float(x)': string('a')}").as_deref(),
        Some("array{'float(x)': 'a'}")
    );
}

#[test]
fn survives_a_parenthesis_inside_a_literal_string() {
    // The terminator is the pair `')`, so the `)` in `f(x)` does not end it.
    assert_eq!(phpdoc_literal_form("string('f(x)')").as_deref(), Some("'f(x)'"));
}

#[test]
fn gives_up_on_an_unterminated_quote_rather_than_guessing() {
    // Quotes are not escaped in the rendering, so this is genuinely ambiguous.
    assert_eq!(phpdoc_literal_form("string('unterminated"), None);
}

#[test]
fn keeps_characters_beyond_ascii() {
    assert_eq!(phpdoc_literal_form("string('é')|ünt").as_deref(), Some("'é'|ünt"));
    assert_eq!(phpdoc_literal_form("lowercase-string('a')"), None);
}

#[test]
fn abbreviates_on_a_character_boundary() {
    let short = "a".repeat(60);
    assert_eq!(abbreviate(&short), short);
    let long = "a".repeat(61);
    assert_eq!(abbreviate(&long), format!("{short}..."));
    // The sixtieth byte falls inside the last `é`.
    let accented = format!("{}é{}", "a".repeat(59), "b".repeat(10));
    assert_eq!(abbreviate(&accented), format!("{}...", "a".repeat(59)));
    assert_eq!(abbreviate(""), "");
}

fn reread(text: &str, id: &str) -> Reread {
    Reread { text: text.to_string(), id: id.to_string() }
}

fn inferred(id: &str, widened: &str) -> InferredType {
    InferredType { is_mixed: false, id: id.to_string(), widened_id: widened.to_string() }
}

#[test]
fn offers_the_most_precise_text_that_reads_back() {
    let ty = inferred("string('pro')", "string");
    // The raw rendering parses, but to plain `string`.
    let rereads = vec![
        reread("'pro'", "string('pro')"),
        reread("string('pro')", "string"),
        reread("string", "string"),
    ];
    assert_eq!(render_docblock_type(&rereads, &ty).as_deref(), Some("'pro'"));
    // Without a faithful precise text the widened type is offered.
    assert_eq!(render_docblock_type(&rereads[1..], &ty).as_deref(), Some("string"));
    // Without any faithful text nothing is.
    assert_eq!(render_docblock_type(&rereads[1..2], &ty), None);
}

#[test]
fn offers_nothing_for_a_type_that_says_nothing() {
    let mixed = InferredType {
        is_mixed: true,
        id: "mixed".to_string(),
        widened_id: "mixed".to_string(),
    };
    assert_eq!(render_docblock_type(&[reread("mixed", "mixed")], &mixed), None);
}

#[test]
fn reading_back_compares_the_type_and_not_only_the_text() {
    let rereads = vec![reread("string('pro')", "string")];
    assert!(!reads_back_as(&rereads, "string('pro')", "string('pro')"));
    assert!(reads_back_as(&rereads, "string('pro')", "string"));
    assert!(!reads_back_as(&rereads, "string", "string"));
    assert_eq!(faithful_rendering(&rereads, "string('pro')"), None);
    assert_eq!(faithful_rendering(&[reread("int", "int")], "int").as_deref(), Some("int"));
}

#[test]
fn lists_the_candidates_most_precise_first() {
    assert_eq!(rendering_candidates("int(3)"), vec!["3".to_string(), "int(3)".to_string()]);
    assert_eq!(rendering_candidates("int"), vec!["int".to_string()]);
}
