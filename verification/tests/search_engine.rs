use tag_search::datasources::mock_datasource::MockDataSource;
use tag_search::numeric::{NumericFieldValue, NumericMerge};
use tag_search::scalar::Float64;
use tag_search::search_engine::{Field, FieldType, FieldValue, SearchEngine, SearchResponse};
use tag_search::search_engine_config::{Config, DataSourceConfig};
use tag_search::search_result::SearchResult;
use tag_search::string::StringFieldValue;
use tag_search::string_map::StringMap;

fn key(text: &str) -> String {
    text.to_string()
}

fn number(value: f64) -> Float64 {
    Float64::from_bits(value.to_bits())
}

fn exact(value: f64) -> NumericFieldValue {
    NumericFieldValue::Exact(number(value))
}

fn flat(min: f64, max: f64) -> NumericFieldValue {
    NumericFieldValue::Uniform { min: number(min), max: number(max) }
}

fn label(text: &str) -> StringFieldValue {
    StringFieldValue::Exact(key(text))
}

fn record(numbers: Vec<(&str, NumericFieldValue)>, labels: Vec<(&str, StringFieldValue)>) -> SearchResult {
    SearchResult {
        numeric_fields: StringMap::from_entries(
            numbers.into_iter().map(|entry| (key(entry.0), entry.1)).collect(),
        ),
        string_fields: StringMap::from_entries(
            labels.into_iter().map(|entry| (key(entry.0), entry.1)).collect(),
        ),
    }
}

fn weight() -> Field {
    Field { description: key("Weight of the item"), field_type: FieldType::Float { unit: key("kg") } }
}

fn color() -> Field {
    Field { description: key("Color of the item"), field_type: FieldType::String }
}

fn engine() -> SearchEngine {
    SearchEngine {
        search_fields: StringMap::from_entries(vec![(key("weight"), weight()), (key("color"), color())]),
    }
}

fn names(response: &SearchResponse) -> Vec<String> {
    let mut names: Vec<String> =
        response.fields.entries().iter().map(|entry| entry.0.clone()).collect();
    names.sort();
    names
}

fn is_label(value: &StringFieldValue, text: &str) -> bool {
    matches!(value, StringFieldValue::Exact(own) if own == text)
}

#[test]
fn verify_keeps_what_is_declared_with_its_kind() {
    let answer = record(
        vec![("weight", exact(0.5)), ("color", exact(1.0)), ("height", exact(2.0))],
        vec![("color", label("red")), ("weight", label("heavy")), ("shape", label("round"))],
    );
    let kept = engine().verify(&answer);
    assert_eq!(kept.numeric_fields.len(), 1);
    assert_eq!(kept.numeric_fields.get(&key("weight")), Some(&exact(0.5)));
    assert_eq!(kept.string_fields.len(), 1);
    assert!(is_label(kept.string_fields.get(&key("color")).unwrap(), "red"));
}

#[test]
fn verify_leaves_a_fitting_answer_as_it_is() {
    let answer = record(vec![("weight", flat(0.0, 1.0))], vec![("color", label("red"))]);
    let kept = engine().verify(&answer);
    assert_eq!(kept.numeric_fields.get(&key("weight")), Some(&flat(0.0, 1.0)));
    assert!(is_label(kept.string_fields.get(&key("color")).unwrap(), "red"));
    let again = engine().verify(&kept);
    assert_eq!(again.numeric_fields.len(), 1);
    assert_eq!(again.string_fields.len(), 1);
}

#[test]
fn verify_all_passes_over_the_sources_without_an_answer() {
    let answers = vec![
        None,
        Some(record(vec![("weight", exact(0.5)), ("height", exact(2.0))], vec![])),
        None,
        Some(record(vec![], vec![("color", label("red"))])),
    ];
    let kept = engine().verify_all(&answers);
    assert_eq!(kept.len(), 2);
    assert_eq!(kept[0].numeric_fields.len(), 1);
    assert_eq!(kept[0].numeric_fields.get(&key("weight")), Some(&exact(0.5)));
    assert_eq!(kept[0].string_fields.len(), 0);
    assert_eq!(kept[1].numeric_fields.len(), 0);
    assert!(is_label(kept[1].string_fields.get(&key("color")).unwrap(), "red"));
    assert!(engine().verify_all(&vec![None, None]).is_empty());
}

#[test]
fn annotate_pairs_each_declared_field_with_its_declaration() {
    let merged = record(
        vec![("weight", exact(0.5)), ("height", exact(2.0))],
        vec![("color", label("red"))],
    );
    let response = engine().annotate(merged);
    assert_eq!(names(&response), vec![key("color"), key("weight")]);
    let entry = response.fields.get(&key("weight")).unwrap();
    assert_eq!(entry.0.description, "Weight of the item");
    assert_eq!(entry.0.field_type, FieldType::Float { unit: key("kg") });
    assert!(matches!(&entry.1, FieldValue::Numeric(value) if *value == exact(0.5)));
    let entry = response.fields.get(&key("color")).unwrap();
    assert_eq!(entry.0.description, "Color of the item");
    assert_eq!(entry.0.field_type, FieldType::String);
    assert!(matches!(&entry.1, FieldValue::String(value) if is_label(value, "red")));
}

#[test]
fn annotate_takes_the_label_where_a_name_has_both_kinds() {
    let merged = record(vec![("color", exact(1.0))], vec![("color", label("red"))]);
    let response = engine().annotate(merged);
    assert_eq!(names(&response), vec![key("color")]);
    let entry = response.fields.get(&key("color")).unwrap();
    assert!(matches!(&entry.1, FieldValue::String(value) if is_label(value, "red")));
}

#[test]
fn a_query_is_answered_from_the_sources_that_answer() {
    let first = MockDataSource {
        data: StringMap::from_entries(vec![(
            key("apple"),
            record(vec![("weight", exact(0.5))], vec![]),
        )]),
    };
    let second = MockDataSource {
        data: StringMap::from_entries(vec![(
            key("apple"),
            record(vec![], vec![("color", label("red"))]),
        )]),
    };
    let answers = vec![first.search(key("apple")), second.search(key("apple")), None];
    let response = engine().search(&answers).unwrap();
    assert_eq!(names(&response), vec![key("color"), key("weight")]);
    let entry = response.fields.get(&key("weight")).unwrap();
    assert_eq!(entry.0.description, "Weight of the item");
    assert_eq!(entry.0.field_type, FieldType::Float { unit: key("kg") });
    assert!(matches!(&entry.1, FieldValue::Numeric(value) if *value == exact(0.5)));
    let entry = response.fields.get(&key("color")).unwrap();
    assert_eq!(entry.0.description, "Color of the item");
    assert_eq!(entry.0.field_type, FieldType::String);
    assert!(matches!(&entry.1, FieldValue::String(value) if is_label(value, "red")));
}

#[test]
fn a_query_that_no_source_knows_has_a_response_without_fields() {
    let first = MockDataSource {
        data: StringMap::from_entries(vec![(
            key("apple"),
            record(vec![("weight", exact(0.5))], vec![]),
        )]),
    };
    let second = MockDataSource { data: StringMap::new() };
    let answers = vec![first.search(key("pear")), second.search(key("pear"))];
    assert!(answers.iter().all(|answer| answer.is_none()));
    let response = engine().search(&answers).unwrap();
    assert_eq!(response.fields.len(), 0);
    let response = engine().search(&Vec::new()).unwrap();
    assert_eq!(response.fields.len(), 0);
}

#[test]
fn a_query_with_a_field_left_to_combine_hands_the_merge_back() {
    let answers = vec![
        Some(record(vec![("weight", flat(0.0, 1.0)), ("height", exact(1.0))], vec![])),
        Some(record(vec![("weight", flat(0.5, 2.0))], vec![("color", label("red"))])),
    ];
    let merge = engine().search(&answers).unwrap_err();
    assert_eq!(merge.numeric_fields.len(), 1);
    assert_eq!(
        merge.numeric_fields.get(&key("weight")),
        Some(&NumericMerge::Combine(vec![flat(0.0, 1.0), flat(0.5, 2.0)]))
    );
    assert_eq!(merge.string_fields.len(), 1);
}

#[test]
fn a_conflict_shows_in_the_response_as_an_error() {
    let answers = vec![
        Some(record(vec![("weight", exact(0.5))], vec![("color", label("red"))])),
        Some(record(vec![("weight", exact(0.7))], vec![("color", label("red"))])),
    ];
    let response = engine().search(&answers).unwrap();
    assert_eq!(names(&response), vec![key("color"), key("weight")]);
    assert_eq!(response.numeric_value(&key("weight")), Some(NumericFieldValue::Error));
}

#[test]
fn the_number_under_a_name_is_given_for_numbers_only() {
    let response = engine().annotate(record(
        vec![("weight", exact(0.5))],
        vec![("color", label("red"))],
    ));
    assert_eq!(response.numeric_value(&key("weight")), Some(exact(0.5)));
    assert_eq!(response.numeric_value(&key("color")), None);
    assert_eq!(response.numeric_value(&key("height")), None);
}

#[test]
fn the_labels_under_a_name_are_given_for_labels_only() {
    let shares = StringFieldValue::Distribution(StringMap::from_entries(vec![
        (key("red"), number(0.75)),
        (key("green"), number(0.25)),
    ]));
    let response =
        engine().annotate(record(vec![("weight", exact(0.5))], vec![("color", shares)]));
    let labels = response.label_values(&key("color")).unwrap();
    assert_eq!(labels.len(), 2);
    assert_eq!(labels.get(&key("red")), Some(&number(0.75)));
    assert_eq!(labels.get(&key("green")), Some(&number(0.25)));
    assert!(response.label_values(&key("weight")).is_none());
    assert!(response.label_values(&key("shape")).is_none());
    let response = engine().annotate(record(vec![], vec![("color", label("red"))]));
    let labels = response.label_values(&key("color")).unwrap();
    assert_eq!(labels.len(), 1);
    assert_eq!(labels.get(&key("red")), Some(&number(1.0)));
    let response = engine().annotate(record(vec![], vec![("color", StringFieldValue::Error)]));
    assert!(response.label_values(&key("color")).is_none());
}

#[test]
fn the_summary_of_a_field_names_its_unit_or_the_form_of_its_result() {
    assert_eq!(weight().summary(), "Weight of the item (kg)");
    assert_eq!(
        color().summary(),
        "Color of the item. Result is a distribution, mapping each key to a probability"
    );
}

#[test]
fn a_clone_of_a_declaration_is_equal_to_it() {
    let copy = weight().clone();
    assert_eq!(copy.description, "Weight of the item");
    assert_eq!(copy.field_type, FieldType::Float { unit: key("kg") });
    assert_eq!(FieldType::String.clone(), FieldType::String);
}

#[test]
fn a_configuration_gives_the_engine_its_fields_and_leaves_the_sources() {
    let config = Config {
        fields: StringMap::from_entries(vec![(key("weight"), weight()), (key("color"), color())]),
        data_sources: vec![
            DataSourceConfig::OpenFoodFacts,
            DataSourceConfig::Mock { data_path: std::path::PathBuf::from("data.json") },
            DataSourceConfig::Grpc { address: key("http://localhost:50051") },
            DataSourceConfig::Rest { base_url: key("http://localhost:8000") },
        ],
    };
    let (engine, sources) = config.to_search_engine();
    assert_eq!(engine.search_fields.len(), 2);
    assert_eq!(engine.search_fields.get(&key("weight")).unwrap().description, "Weight of the item");
    assert_eq!(engine.search_fields.get(&key("color")).unwrap().field_type, FieldType::String);
    assert_eq!(sources.len(), 4);
    assert!(matches!(sources[0], DataSourceConfig::OpenFoodFacts));
    assert!(
        matches!(&sources[1], DataSourceConfig::Mock { data_path } if data_path.to_str() == Some("data.json"))
    );
    assert!(
        matches!(&sources[2], DataSourceConfig::Grpc { address } if address == "http://localhost:50051")
    );
    assert!(
        matches!(&sources[3], DataSourceConfig::Rest { base_url } if base_url == "http://localhost:8000")
    );
}
