use quasi::Delimiter;
use quasi::Interpolate;
use quasi::Mapping;
use quasi::Spacing;
use quasi::Span;
use quasi::Token;
use quasi::clone_token;
use quasi::interpolate;

fn sp(id: u64) -> Span {
    Span { id }
}

fn ident(name: &str, id: u64) -> Token {
    Token::Ident { name: name.to_string(), span: sp(id) }
}

fn literal(text: &str, id: u64) -> Token {
    Token::Literal { text: text.to_string(), span: sp(id) }
}

fn punct(ch: char, id: u64) -> Token {
    Token::Punct { ch, spacing: Spacing::Alone, span: sp(id) }
}

fn group(delimiter: Delimiter, tokens: Vec<Token>, id: u64) -> Token {
    Token::Group { delimiter, span: sp(id), tokens }
}

fn brace(tokens: Vec<Token>, id: u64) -> Token {
    group(Delimiter::Brace, tokens, id)
}

#[test]
fn complete_replacements() {
    // let VAR: TRAIT = if true { CONCRETE{} } else { Alternative{} }
    let input = vec![
        ident("let", 1),
        ident("VAR", 2),
        punct(':', 3),
        ident("TRAIT", 4),
        punct('=', 5),
        ident("if", 6),
        ident("true", 7),
        brace(vec![ident("CONCRETE", 9), brace(vec![], 10)], 8),
        ident("else", 11),
        brace(vec![ident("Alternative", 13), brace(vec![], 14)], 12),
    ];

    let mut r = Mapping::new();
    r.insert("VAR".to_string(), vec![ident("var", 101)]);
    r.insert("TRAIT".to_string(), vec![ident("abstract_type", 102)]);
    r.insert("CONCRETE".to_string(), vec![ident("concrete", 103)]);

    // let var: abstract_type = if true { concrete{} } else { Alternative{} }
    let expected = vec![
        ident("let", 1),
        ident("var", 101),
        punct(':', 3),
        ident("abstract_type", 102),
        punct('=', 5),
        ident("if", 6),
        ident("true", 7),
        brace(vec![ident("concrete", 103), brace(vec![], 10)], 8),
        ident("else", 11),
        brace(vec![ident("Alternative", 13), brace(vec![], 14)], 12),
    ];

    assert_eq!(interpolate(&input, &r), expected);
}

/// Partial replacements should preserve the uninterpolated identifiers.
#[test]
fn partial_replacements() {
    // let a: TRAIT = OTHER;
    let input = vec![
        ident("let", 1),
        ident("a", 2),
        punct(':', 3),
        ident("TRAIT", 4),
        punct('=', 5),
        ident("OTHER", 6),
        punct(';', 7),
    ];

    let mut r = Mapping::new();
    r.insert("TRAIT".to_string(), vec![ident("Display", 100)]);

    // let a: Display = OTHER;
    let expected = vec![
        ident("let", 1),
        ident("a", 2),
        punct(':', 3),
        ident("Display", 100),
        punct('=', 5),
        ident("OTHER", 6),
        punct(';', 7),
    ];

    assert_eq!(interpolate(&input, &r), expected);
}

pub struct TraitSpecifier {
    pub abstract_trait: Token,
    pub concrete: Token,
}

impl TraitSpecifier {
    /// The private mapping this item expands templates against.
    fn bindings(&self) -> Mapping {
        let mut replacements = Mapping::new();

        // Replace each "TRAIT" with the abstract trait
        replacements.insert("TRAIT".to_string(), vec![clone_token(&self.abstract_trait)]);

        // Replace each "CONCRETE" with the concrete type
        replacements.insert("CONCRETE".to_string(), vec![clone_token(&self.concrete)]);

        replacements
    }
}

/// Test the interpolation of an ordered sequence of items.
#[test]
fn interpolate_on_punctuated() {
    let specifiers = vec![
        TraitSpecifier { abstract_trait: ident("IButton", 101), concrete: ident("BigButton", 102) },
        TraitSpecifier {
            abstract_trait: ident("IWindow", 103),
            concrete: ident("MinimalWindow", 104),
        },
    ];
    let traits: Vec<Mapping> = specifiers.iter().map(|s| s.bindings()).collect();

    // let _: TRAIT = CONCRETE{};
    let input = vec![
        ident("let", 1),
        ident("_", 2),
        punct(':', 3),
        ident("TRAIT", 4),
        punct('=', 5),
        ident("CONCRETE", 6),
        brace(vec![], 7),
        punct(';', 8),
    ];

    // let _: IButton = BigButton{};
    // let _: IWindow = MinimalWindow{};
    let expected = vec![
        ident("let", 1),
        ident("_", 2),
        punct(':', 3),
        ident("IButton", 101),
        punct('=', 5),
        ident("BigButton", 102),
        brace(vec![], 7),
        punct(';', 8),
        ident("let", 1),
        ident("_", 2),
        punct(':', 3),
        ident("IWindow", 103),
        punct('=', 5),
        ident("MinimalWindow", 104),
        brace(vec![], 7),
        punct(';', 8),
    ];

    assert_eq!(traits.interpolate(&input), expected);
}

#[test]
fn scenario_rename_binding() {
    // let NAME: int = 5;
    let input = vec![
        ident("let", 1),
        ident("NAME", 2),
        punct(':', 3),
        ident("int", 4),
        punct('=', 5),
        literal("5", 6),
        punct(';', 7),
    ];

    let mut r = Mapping::new();
    r.insert("NAME".to_string(), vec![ident("age", 100)]);

    // let age: int = 5;
    let expected = vec![
        ident("let", 1),
        ident("age", 100),
        punct(':', 3),
        ident("int", 4),
        punct('=', 5),
        literal("5", 6),
        punct(';', 7),
    ];

    assert_eq!(interpolate(&input, &r), expected);
}

#[test]
fn identity_on_empty_mapping() {
    let input = vec![
        ident("fn", 1),
        ident("main", 2),
        group(Delimiter::Parenthesis, vec![], 3),
        brace(vec![literal("42", 5), punct(';', 6)], 4),
    ];
    let expected = vec![
        ident("fn", 1),
        ident("main", 2),
        group(Delimiter::Parenthesis, vec![], 3),
        brace(vec![literal("42", 5), punct(';', 6)], 4),
    ];

    let empty = Mapping::new();
    assert_eq!(interpolate(&input, &empty), expected);
}

#[test]
fn literals_and_puncts_survive_any_mapping() {
    let input = vec![literal("0xFF", 1), punct('+', 2), literal("1", 3)];
    let expected = vec![literal("0xFF", 1), punct('+', 2), literal("1", 3)];

    let mut r = Mapping::new();
    r.insert("0xFF".to_string(), vec![ident("nope", 100)]);
    r.insert("+".to_string(), vec![ident("nope", 101)]);

    assert_eq!(interpolate(&input, &r), expected);
}

#[test]
fn fragment_with_many_tokens() {
    // sum = EXPR;
    let input = vec![ident("sum", 1), punct('=', 2), ident("EXPR", 3), punct(';', 4)];

    let mut r = Mapping::new();
    r.insert("EXPR".to_string(), vec![literal("1", 100), punct('+', 101), literal("2", 102)]);

    // sum = 1 + 2;
    let expected = vec![
        ident("sum", 1),
        punct('=', 2),
        literal("1", 100),
        punct('+', 101),
        literal("2", 102),
        punct(';', 4),
    ];

    assert_eq!(interpolate(&input, &r), expected);
}

#[test]
fn fragment_with_no_tokens() {
    let input = vec![ident("a", 1), ident("GONE", 2), ident("b", 3)];

    let mut r = Mapping::new();
    r.insert("GONE".to_string(), vec![]);

    let expected = vec![ident("a", 1), ident("b", 3)];

    assert_eq!(interpolate(&input, &r), expected);
}

#[test]
fn substitution_reaches_nested_groups() {
    let input = vec![group(
        Delimiter::Bracket,
        vec![group(Delimiter::Parenthesis, vec![ident("X", 3)], 2)],
        1,
    )];

    let mut r = Mapping::new();
    r.insert("X".to_string(), vec![literal("9", 100)]);

    let expected = vec![group(
        Delimiter::Bracket,
        vec![group(Delimiter::Parenthesis, vec![literal("9", 100)], 2)],
        1,
    )];

    assert_eq!(interpolate(&input, &r), expected);
}

#[test]
fn inserted_fragments_are_not_rescanned() {
    let input = vec![ident("A", 1)];

    let mut r = Mapping::new();
    r.insert("A".to_string(), vec![ident("B", 100)]);
    r.insert("B".to_string(), vec![ident("C", 101)]);

    // A becomes B; the inserted B is itself a mapping key but stays as it is.
    let expected = vec![ident("B", 100)];

    assert_eq!(interpolate(&input, &r), expected);
}

#[test]
fn later_insert_for_same_name_wins() {
    let input = vec![ident("NAME", 1)];

    let mut r = Mapping::new();
    r.insert("NAME".to_string(), vec![ident("first", 100)]);
    r.insert("NAME".to_string(), vec![ident("second", 101)]);

    let expected = vec![ident("second", 101)];

    assert_eq!(interpolate(&input, &r), expected);
}

#[test]
fn mapping_lookup_finds_latest_binding() {
    let mut r = Mapping::new();
    r.insert("K".to_string(), vec![ident("old", 100)]);
    r.insert("K".to_string(), vec![ident("new", 101)]);

    let found = r.get(&"K".to_string());
    assert_eq!(found, Some(&vec![ident("new", 101)]));
    assert_eq!(r.get(&"missing".to_string()), None);
}

#[test]
fn combinator_on_empty_sequence() {
    let items: Vec<Mapping> = vec![];
    let template = vec![ident("TRAIT", 1)];

    assert_eq!(items.interpolate(&template), vec![]);
}

#[test]
fn combinator_on_single_item() {
    let mut only = Mapping::new();
    only.insert("WHO".to_string(), vec![ident("gamma", 100)]);

    let template = vec![ident("WHO", 1)];
    let alone = only.interpolate(&template);

    let items = vec![only];
    assert_eq!(items.interpolate(&template), alone);
}

#[test]
fn combinator_concatenates_in_order() {
    let mut first = Mapping::new();
    first.insert("WHO".to_string(), vec![ident("alpha", 100)]);
    let mut second = Mapping::new();
    second.insert("WHO".to_string(), vec![ident("beta", 101)]);

    let template = vec![ident("WHO", 1), punct(';', 2)];

    let single_first = first.interpolate(&template);
    let single_second = second.interpolate(&template);

    let items = vec![first, second];
    let combined = items.interpolate(&template);

    let mut expected = quasi::clone_tokens(&single_first);
    expected.extend(quasi::clone_tokens(&single_second));
    assert_eq!(combined, expected);
    assert_eq!(
        combined,
        vec![ident("alpha", 100), punct(';', 2), ident("beta", 101), punct(';', 2)]
    );
}
