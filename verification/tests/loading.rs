//! Registry loading, the starter filter, combining, and saved-name lookup on
//! whole configurations.

use little_chemistry::config::ConfigValue;
use little_chemistry::error::LoadError;
use little_chemistry::registry::{combine, load_registry, lookup_item, starters};

fn text(s: &str) -> ConfigValue {
    ConfigValue::Text(s.to_string())
}

fn entry(name: &str, classes: Vec<ConfigValue>, recipe: ConfigValue) -> (String, ConfigValue) {
    (
        name.to_string(),
        ConfigValue::Table(vec![
            ("class".to_string(), ConfigValue::List(classes)),
            ("recipe".to_string(), recipe),
        ]),
    )
}

fn config_of(entries: Vec<(String, ConfigValue)>) -> ConfigValue {
    ConfigValue::Table(vec![("item".to_string(), ConfigValue::Table(entries))])
}

/// Water and earth are starters; mud comes from combining them.
fn mud_config() -> ConfigValue {
    config_of(vec![
        entry("water", vec![], text("$starter")),
        entry("earth", vec![], text("$starter")),
        entry(
            "mud",
            vec![],
            ConfigValue::List(vec![text("#water"), text("#earth")]),
        ),
    ])
}

#[test]
fn load_keeps_declaration_order() {
    let registry = load_registry(&mud_config()).unwrap();
    let names: Vec<&str> = registry.iter().map(|it| it.name.as_str()).collect();
    assert_eq!(names, vec!["water", "earth", "mud"]);
}

#[test]
fn end_to_end_mud() {
    let registry = load_registry(&mud_config()).unwrap();
    let initial = starters(&registry);
    let names: Vec<&str> = initial.iter().map(|it| it.name.as_str()).collect();
    assert_eq!(names, vec!["water", "earth"]);

    let made = combine(&registry, &initial[0], &initial[1]);
    assert_eq!(made.len(), 1);
    assert_eq!(made[0].name, "mud");

    let made_swapped = combine(&registry, &initial[1], &initial[0]);
    assert_eq!(made_swapped.len(), 1);
    assert_eq!(made_swapped[0].name, "mud");
}

#[test]
fn starters_are_never_combined_into() {
    let registry = load_registry(&mud_config()).unwrap();
    for left in &registry {
        for right in &registry {
            let made = combine(&registry, left, right);
            assert!(made.iter().all(|it| it.name != "water"));
            assert!(made.iter().all(|it| it.name != "earth"));
        }
    }
}

#[test]
fn combine_reports_every_match() {
    // Both an exact rule and a class rule fire on the same pair.
    let registry = load_registry(&config_of(vec![
        entry("water", vec![text("wet")], text("$starter")),
        entry("earth", vec![], text("$starter")),
        entry(
            "mud",
            vec![],
            ConfigValue::List(vec![text("#water"), text("#earth")]),
        ),
        entry(
            "swamp",
            vec![],
            ConfigValue::List(vec![text(".wet"), text("#earth")]),
        ),
    ]))
    .unwrap();
    let made = combine(&registry, &registry[0], &registry[1]);
    let names: Vec<&str> = made.iter().map(|it| it.name.as_str()).collect();
    assert_eq!(names, vec!["mud", "swamp"]);
}

#[test]
fn missing_recipe_key_fails_load() {
    let config = config_of(vec![(
        "water".to_string(),
        ConfigValue::Table(vec![("class".to_string(), ConfigValue::List(vec![]))]),
    )]);
    assert!(matches!(load_registry(&config), Err(LoadError::MissingSection)));
}

#[test]
fn missing_item_table_fails_load() {
    let config = ConfigValue::Table(vec![]);
    assert!(matches!(load_registry(&config), Err(LoadError::MissingSection)));
    let config = ConfigValue::Table(vec![("item".to_string(), text("oops"))]);
    assert!(matches!(load_registry(&config), Err(LoadError::MissingSection)));
}

#[test]
fn missing_class_array_fails_load() {
    let config = config_of(vec![(
        "water".to_string(),
        ConfigValue::Table(vec![("recipe".to_string(), text("$starter"))]),
    )]);
    assert!(matches!(load_registry(&config), Err(LoadError::MissingSection)));
    let config = config_of(vec![(
        "water".to_string(),
        ConfigValue::Table(vec![
            ("class".to_string(), text("wet")),
            ("recipe".to_string(), text("$starter")),
        ]),
    )]);
    assert!(matches!(load_registry(&config), Err(LoadError::MissingSection)));
}

#[test]
fn dotted_class_tag_fails_load() {
    let config = config_of(vec![entry("water", vec![text(".wet")], text("$starter"))]);
    assert!(matches!(load_registry(&config), Err(LoadError::InvalidClassTag)));
}

#[test]
fn malformed_recipe_identifier_fails_load() {
    let config = config_of(vec![entry(
        "mud",
        vec![],
        ConfigValue::List(vec![text("water"), text("#earth")]),
    )]);
    assert!(matches!(load_registry(&config), Err(LoadError::MalformedIdentifier)));
}

#[test]
fn misshapen_recipe_fails_load() {
    let config = config_of(vec![entry("mud", vec![], ConfigValue::Other)]);
    assert!(matches!(load_registry(&config), Err(LoadError::InvalidRecipeShape)));
}

#[test]
fn non_string_class_entries_are_skipped() {
    let registry = load_registry(&config_of(vec![entry(
        "water",
        vec![text("wet"), ConfigValue::Other],
        text("$starter"),
    )]))
    .unwrap();
    assert_eq!(registry[0].classes.len(), 1);
}

#[test]
fn lookup_resolves_saved_names() {
    let registry = load_registry(&mud_config()).unwrap();
    let item = lookup_item(&registry, "mud").unwrap();
    assert_eq!(item.name, "mud");
    assert!(matches!(
        lookup_item(&registry, "lava"),
        Err(LoadError::UnknownSavedItem)
    ));
}

#[test]
fn empty_recipe_list_makes_no_starter_and_no_match() {
    let registry = load_registry(&config_of(vec![
        entry("water", vec![], text("$starter")),
        entry("void", vec![], ConfigValue::List(vec![])),
    ]))
    .unwrap();
    assert_eq!(registry[1].recipes.len(), 0);
    let initial = starters(&registry);
    assert_eq!(initial.len(), 1);
    assert_eq!(initial[0].name, "water");
    let made = combine(&registry, &registry[0], &registry[1]);
    assert!(made.is_empty());
}
