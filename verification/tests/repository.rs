use deck_creator::extract::ExtractionError;
use deck_creator::repository::{has_name, is_card_file, Catalog, Failure, Policy, Verdict};
use deck_creator::value::{Entry, Value};

fn named(name: &str) -> Value {
    Value::Mapping(vec![Entry { key: "name".to_string(), value: Value::String(name.to_string()) }])
}

fn failure(path: &str, error: ExtractionError) -> Failure {
    Failure { path: path.to_string(), error }
}

#[test]
fn is_card_file_goes_by_the_file_name() {
    assert!(is_card_file("sheep.js", "../cards/Classes/Neutral/sheep.js"));
    assert!(!is_card_file("sheep.ts", "../cards/Classes/Neutral/sheep.ts"));
    assert!(!is_card_file("README", "../cards/README"));
}

#[test]
fn is_card_file_wants_the_extension_at_the_end_of_the_name() {
    assert!(!is_card_file("card.json", "../cards/Classes/Mage/card.json"));
    assert!(!is_card_file("card.js.bak", "../cards/Classes/Mage/card.js.bak"));
    assert!(!is_card_file("card.jsx", "../cards/card.jsx"));
    assert!(!is_card_file("js", "../cards/js"));
    assert!(!is_card_file("card.JS", "../cards/card.JS"));
    assert!(is_card_file(".js", "../cards/.js"));
    assert!(is_card_file("card.min.js", "../cards/card.min.js"));
}

#[test]
fn is_card_file_goes_by_the_name_not_the_path() {
    assert!(!is_card_file("notes.txt", "../cards/old.js/notes.txt"));
}

#[test]
fn the_default_policy_is_lenient() {
    assert_eq!(Policy::default(), Policy::Lenient);
    let mut catalog = Catalog::new();
    let verdict = catalog.record("a.js", Err(ExtractionError::NoExportFound), Policy::default());
    assert_eq!(verdict, Verdict::Continue);
}

#[test]
fn is_card_file_leaves_out_tests_and_examples() {
    assert!(!is_card_file("a.js", "../cards/Tests/a.js"));
    assert!(!is_card_file("a.js", "../cards/Examples/1/a.js"));
    assert!(is_card_file("a.js", "../cards/Testing/a.js"));
    assert!(is_card_file("a.js", "../cards/tests/a.js"));
}

#[test]
fn has_name_wants_a_string_under_name() {
    assert!(has_name(&named("Sheep")));
    assert!(has_name(&named("")));
    assert!(!has_name(&Value::Mapping(Vec::new())));
    assert!(!has_name(&Value::String("name".to_string())));
    assert!(!has_name(&Value::Mapping(vec![Entry {
        key: "name".to_string(),
        value: Value::Number("1".to_string())
    }])));
}

#[test]
fn a_new_catalog_is_empty() {
    let catalog = Catalog::new();
    assert!(catalog.cards().is_empty());
    assert!(catalog.failures().is_empty());
}

#[test]
fn record_gathers_cards_in_order() {
    let mut catalog = Catalog::new();
    assert_eq!(catalog.record("a.js", Ok(named("a")), Policy::Strict), Verdict::Continue);
    assert_eq!(catalog.record("b.js", Ok(named("b")), Policy::Lenient), Verdict::Continue);
    assert_eq!(catalog.cards(), &vec![named("a"), named("b")]);
    assert!(catalog.failures().is_empty());
}

#[test]
fn record_notes_a_failure_and_goes_on_when_lenient() {
    let mut catalog = Catalog::new();
    catalog.record("a.js", Ok(named("a")), Policy::Lenient);
    let verdict = catalog.record("b.js", Err(ExtractionError::NoExportFound), Policy::Lenient);
    assert_eq!(verdict, Verdict::Continue);
    catalog.record("c.js", Err(ExtractionError::MalformedAfterNormalization), Policy::Lenient);
    catalog.record("d.js", Ok(named("d")), Policy::Lenient);
    let (cards, failures) = catalog.finish();
    assert_eq!(cards, vec![named("a"), named("d")]);
    assert_eq!(
        failures,
        vec![
            failure("b.js", ExtractionError::NoExportFound),
            failure("c.js", ExtractionError::MalformedAfterNormalization),
        ]
    );
}

#[test]
fn record_notes_a_failure_and_stops_when_strict() {
    let mut catalog = Catalog::new();
    let verdict = catalog.record("b.js", Err(ExtractionError::NoBlankLineFound), Policy::Strict);
    assert_eq!(verdict, Verdict::Abort);
    assert_eq!(catalog.failures(), &vec![failure("b.js", ExtractionError::NoBlankLineFound)]);
    assert!(catalog.cards().is_empty());
}

#[test]
fn record_takes_a_value_without_a_name_for_a_failure() {
    let mut catalog = Catalog::new();
    assert_eq!(catalog.record("a.js", Ok(Value::Null), Policy::Lenient), Verdict::Continue);
    assert_eq!(
        catalog.record("b.js", Ok(Value::Mapping(Vec::new())), Policy::Strict),
        Verdict::Abort
    );
    assert!(catalog.cards().is_empty());
    assert_eq!(
        catalog.failures(),
        &vec![
            failure("a.js", ExtractionError::MalformedAfterNormalization),
            failure("b.js", ExtractionError::MalformedAfterNormalization),
        ]
    );
}
