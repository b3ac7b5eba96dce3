use tag_search::numeric::{NumericFieldValue, NumericMerge};
use tag_search::scalar::Float64;
use tag_search::search_result::SearchResult;
use tag_search::string::{StringFieldValue, StringMerge};
use tag_search::string_map::StringMap;

fn key(text: &str) -> String {
    text.to_string()
}

fn number(value: f64) -> Float64 {
    Float64::from_bits(value.to_bits())
}

fn exact(value: f64) -> NumericFieldValue {
    NumericFieldValue::Exact(number(value))
}

fn flat(min: f64, max: f64) -> NumericFieldValue {
    NumericFieldValue::Uniform { min: number(min), max: number(max) }
}

fn label(text: &str) -> StringFieldValue {
    StringFieldValue::Exact(key(text))
}

fn record(numbers: Vec<(&str, NumericFieldValue)>, labels: Vec<(&str, StringFieldValue)>) -> SearchResult {
    SearchResult {
        numeric_fields: StringMap::from_entries(
            numbers.into_iter().map(|entry| (key(entry.0), entry.1)).collect(),
        ),
        string_fields: StringMap::from_entries(
            labels.into_iter().map(|entry| (key(entry.0), entry.1)).collect(),
        ),
    }
}

fn is_label(value: &StringFieldValue, text: &str) -> bool {
    matches!(value, StringFieldValue::Exact(own) if own == text)
}

#[test]
fn the_default_answer_has_no_fields() {
    let empty = SearchResult::default();
    assert_eq!(empty.numeric_fields.len(), 0);
    assert_eq!(empty.string_fields.len(), 0);
}

#[test]
fn answers_are_merged_field_by_field() {
    let results = vec![
        record(vec![("weight", exact(0.5))], vec![]),
        record(vec![("weight", exact(0.5))], vec![("color", label("red"))]),
    ];
    let merged = SearchResult::merge(&results).finish().unwrap();
    assert_eq!(merged.numeric_fields.len(), 1);
    assert_eq!(merged.numeric_fields.get(&key("weight")), Some(&exact(0.5)));
    assert_eq!(merged.string_fields.len(), 1);
    assert!(is_label(merged.string_fields.get(&key("color")).unwrap(), "red"));
}

#[test]
fn no_answers_merge_to_no_fields() {
    let merged = SearchResult::merge(&Vec::new()).finish().unwrap();
    assert_eq!(merged.numeric_fields.len(), 0);
    assert_eq!(merged.string_fields.len(), 0);
}

#[test]
fn the_two_kinds_of_field_are_merged_apart() {
    let results = vec![
        record(vec![("size", exact(1.0))], vec![("size", label("large"))]),
        record(vec![("size", exact(1.0))], vec![]),
    ];
    let merged = SearchResult::merge(&results).finish().unwrap();
    assert_eq!(merged.numeric_fields.get(&key("size")), Some(&exact(1.0)));
    assert!(is_label(merged.string_fields.get(&key("size")).unwrap(), "large"));
}

#[test]
fn a_conflict_is_an_error_in_its_own_field_only() {
    let results = vec![
        record(vec![("weight", exact(0.5)), ("height", exact(2.0))], vec![("color", label("red"))]),
        record(vec![("weight", exact(0.7)), ("height", exact(2.0))], vec![("color", label("blue"))]),
    ];
    let merged = SearchResult::merge(&results).finish().unwrap();
    assert_eq!(merged.numeric_fields.get(&key("weight")), Some(&NumericFieldValue::Error));
    assert_eq!(merged.numeric_fields.get(&key("height")), Some(&exact(2.0)));
    assert!(matches!(merged.string_fields.get(&key("color")), Some(StringFieldValue::Error)));
}

#[test]
fn the_values_of_a_field_are_taken_in_the_order_of_the_answers() {
    let results = vec![
        record(vec![("weight", flat(0.0, 1.0))], vec![]),
        record(vec![], vec![("color", label("red"))]),
        record(vec![("weight", flat(0.5, 2.0))], vec![]),
    ];
    let merge = SearchResult::merge(&results);
    assert_eq!(
        merge.numeric_fields.get(&key("weight")),
        Some(&NumericMerge::Combine(vec![flat(0.0, 1.0), flat(0.5, 2.0)]))
    );
    assert!(matches!(
        merge.string_fields.get(&key("color")),
        Some(StringMerge::Resolved(StringFieldValue::Exact(own))) if own == "red"
    ));
}

#[test]
fn a_merge_with_a_field_left_open_is_handed_back() {
    let results = vec![
        record(vec![("weight", flat(0.0, 1.0))], vec![("color", label("red"))]),
        record(vec![("weight", flat(0.5, 2.0))], vec![("color", label("red"))]),
    ];
    let merge = SearchResult::merge(&results).finish().unwrap_err();
    assert_eq!(merge.numeric_fields.len(), 1);
    assert_eq!(merge.string_fields.len(), 1);
    assert!(matches!(merge.numeric_fields.get(&key("weight")), Some(NumericMerge::Combine(_))));
    let labels = vec![
        record(vec![], vec![("color", label("red"))]),
        record(
            vec![],
            vec![(
                "color",
                StringFieldValue::Distribution(StringMap::from_entries(vec![(
                    key("red"),
                    number(0.5),
                )])),
            )],
        ),
    ];
    let merge = SearchResult::merge(&labels).finish().unwrap_err();
    assert!(matches!(merge.string_fields.get(&key("color")), Some(StringMerge::Fuse(_))));
}

#[test]
fn a_clone_holds_what_the_answer_holds() {
    let answer = record(vec![("weight", exact(0.5))], vec![("color", label("red"))]);
    let copy = answer.clone();
    assert_eq!(copy.numeric_fields.get(&key("weight")), Some(&exact(0.5)));
    assert!(is_label(copy.string_fields.get(&key("color")).unwrap(), "red"));
    assert_eq!(copy.numeric_fields.len(), 1);
    assert_eq!(copy.string_fields.len(), 1);
}
