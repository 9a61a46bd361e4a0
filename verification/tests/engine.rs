//! Identity, parsing, expansion and matching behaviour on concrete values.

use little_chemistry::config::ConfigValue;
use little_chemistry::error::LoadError;
use little_chemistry::ident::{Id, ItemId};
use little_chemistry::item::Item;
use little_chemistry::recipe::Recipe;

fn text(s: &str) -> ConfigValue {
    ConfigValue::Text(s.to_string())
}

fn item_id_of(name: &str) -> ItemId {
    match Id::item(name) {
        Id::Item(id) => id,
        Id::Class(_) => panic!("item identifier expected"),
    }
}

fn plain_item(name: &str, recipes: Vec<Recipe>) -> Item {
    Item {
        name: name.to_string(),
        recipes,
        id: item_id_of(name),
        classes: vec![],
    }
}

#[test]
fn identity_is_deterministic() {
    assert_eq!(Id::item("water"), Id::item("water"));
    assert_eq!(Id::class("wet"), Id::class("wet"));
}

#[test]
fn item_and_class_identities_never_equal() {
    assert_ne!(Id::item("water"), Id::class("water"));
    assert_ne!(Id::item(""), Id::class(""));
}

#[test]
fn parse_reads_sigils() {
    assert_eq!(Id::parse("#water"), Ok(Id::item("water")));
    assert_eq!(Id::parse(".wet"), Ok(Id::class("wet")));
}

#[test]
fn parse_rejects_bad_sigils() {
    assert_eq!(Id::parse("water"), Err(LoadError::MalformedIdentifier));
    assert_eq!(Id::parse(""), Err(LoadError::MalformedIdentifier));
    assert_eq!(Id::parse("!water"), Err(LoadError::MalformedIdentifier));
    // A sigil with an empty body is malformed too.
    assert_eq!(Id::parse("#"), Err(LoadError::MalformedIdentifier));
    assert_eq!(Id::parse("."), Err(LoadError::MalformedIdentifier));
}

#[test]
fn recipe_new_pairs_identifiers() {
    assert_eq!(
        Recipe::new("#water", ".wet"),
        Ok(Recipe::Normal(Id::item("water"), Id::class("wet")))
    );
    assert_eq!(Recipe::new("water", "#fire"), Err(LoadError::MalformedIdentifier));
    assert_eq!(Recipe::new("#water", "fire"), Err(LoadError::MalformedIdentifier));
}

#[test]
fn starter_token_expands_to_single_starter() {
    let expanded = Recipe::from_value(&text("$starter")).unwrap();
    assert_eq!(expanded, vec![Recipe::Starter]);
}

#[test]
fn cross_product_expands_to_exactly_two_recipes() {
    // [["wood", "stone"], "fire"] gives (wood, fire) and (stone, fire).
    let node = ConfigValue::List(vec![
        ConfigValue::List(vec![text("#wood"), text("#stone")]),
        text("#fire"),
    ]);
    let expanded = Recipe::from_value(&node).unwrap();
    assert_eq!(expanded.len(), 2);
    assert!(expanded.contains(&Recipe::Normal(Id::item("wood"), Id::item("fire"))));
    assert!(expanded.contains(&Recipe::Normal(Id::item("stone"), Id::item("fire"))));
}

#[test]
fn singular_left_crosses_array_right() {
    let node = ConfigValue::List(vec![
        text("#wood"),
        ConfigValue::List(vec![text("#fire"), text("#water")]),
    ]);
    let expanded = Recipe::from_value(&node).unwrap();
    assert_eq!(
        expanded,
        vec![
            Recipe::Normal(Id::item("wood"), Id::item("fire")),
            Recipe::Normal(Id::item("wood"), Id::item("water")),
        ]
    );
}

#[test]
fn array_left_crosses_array_right() {
    // Two arrays alone would be a list of pairs (rule 2 takes precedence);
    // the trailing string keeps this a single pair node, and elements beyond
    // the first two are ignored.
    let node = ConfigValue::List(vec![
        ConfigValue::List(vec![text("#wood"), text("#stone")]),
        ConfigValue::List(vec![text("#fire"), text("#water")]),
        text("ignored"),
    ]);
    let expanded = Recipe::from_value(&node).unwrap();
    assert_eq!(
        expanded,
        vec![
            Recipe::Normal(Id::item("wood"), Id::item("fire")),
            Recipe::Normal(Id::item("wood"), Id::item("water")),
            Recipe::Normal(Id::item("stone"), Id::item("fire")),
            Recipe::Normal(Id::item("stone"), Id::item("water")),
        ]
    );
}

#[test]
fn list_of_pairs_concatenates() {
    let node = ConfigValue::List(vec![
        ConfigValue::List(vec![text("#a"), text("#b")]),
        ConfigValue::List(vec![text("#c"), text("#d")]),
    ]);
    let expanded = Recipe::from_value(&node).unwrap();
    assert_eq!(
        expanded,
        vec![
            Recipe::Normal(Id::item("a"), Id::item("b")),
            Recipe::Normal(Id::item("c"), Id::item("d")),
        ]
    );
}

#[test]
fn invalid_shapes_are_rejected() {
    assert_eq!(
        Recipe::from_value(&text("nonsense")),
        Err(LoadError::InvalidRecipeShape)
    );
    assert_eq!(
        Recipe::from_value(&ConfigValue::Other),
        Err(LoadError::InvalidRecipeShape)
    );
    // A pair with only one operand.
    assert_eq!(
        Recipe::from_value(&ConfigValue::List(vec![text("#a")])),
        Err(LoadError::InvalidRecipeShape)
    );
    // An operand of a non-identifier kind.
    assert_eq!(
        Recipe::from_value(&ConfigValue::List(vec![text("#a"), ConfigValue::Other])),
        Err(LoadError::InvalidRecipeShape)
    );
}

#[test]
fn malformed_identifier_inside_pair() {
    let node = ConfigValue::List(vec![text("water"), text("#earth")]);
    assert_eq!(Recipe::from_value(&node), Err(LoadError::MalformedIdentifier));
}

#[test]
fn ids_lists_item_then_classes() {
    let mut item = plain_item("mud", vec![]);
    let wet = match Id::class("wet") {
        Id::Class(c) => c,
        Id::Item(_) => panic!("class identifier expected"),
    };
    item.classes.push(wet);
    let ids = item.ids();
    assert_eq!(ids, vec![Id::item("mud"), Id::class("wet")]);
}

#[test]
fn identifier_matches_item_by_id_or_class() {
    let mut mud = plain_item("mud", vec![]);
    let wet = match Id::class("wet") {
        Id::Class(c) => c,
        Id::Item(_) => panic!("class identifier expected"),
    };
    mud.classes.push(wet);
    assert!(Id::item("mud").matches_item(&mud));
    assert!(Id::class("wet").matches_item(&mud));
    assert!(!Id::item("water").matches_item(&mud));
    assert!(!Id::class("dry").matches_item(&mud));
    // The class identifier of "mud" is not its item identifier.
    assert!(!Id::class("mud").matches_item(&mud));
}

#[test]
fn can_make_is_symmetric() {
    let a = plain_item("a", vec![]);
    let b = plain_item("b", vec![]);
    let c = plain_item("c", vec![Recipe::new("#a", "#b").unwrap()]);
    assert!(c.can_make(&a, &b));
    assert!(c.can_make(&b, &a));
    assert!(!c.can_make(&a, &a));
}

#[test]
fn class_operand_matches_any_carrier() {
    let wet = match Id::class("wet") {
        Id::Class(c) => c,
        Id::Item(_) => panic!("class identifier expected"),
    };
    let mut a = plain_item("a", vec![]);
    a.classes.push(wet);
    let mut d = plain_item("d", vec![]);
    d.classes.push(wet);
    let b = plain_item("b", vec![]);
    let c = plain_item("c", vec![Recipe::new(".wet", "#b").unwrap()]);
    assert!(c.can_make(&a, &b));
    assert!(c.can_make(&d, &b));
    assert!(c.can_make(&b, &d));
    assert!(!c.can_make(&b, &b));
}

#[test]
fn starter_recipes_match_no_pair() {
    let a = plain_item("a", vec![]);
    let b = plain_item("b", vec![]);
    let c = plain_item("c", vec![Recipe::Starter]);
    assert!(!c.can_make(&a, &b));
    assert!(!c.can_make(&c, &c));
}
