use rusticsearch::json::Number;
use rusticsearch::score::{add_scores, count_times_boost, div_count, mul_boost};
use rusticsearch::value::{Document, Value};

fn s(text: &str) -> String {
    text.to_string()
}

#[test]
fn test_fixed_point_arithmetic_exact_values() {
    // 1.5 * 2.0 = 3.0
    assert_eq!(mul_boost(1500, 2000), 3000);
    // truncation: 0.001 * 0.5 = 0.0005 -> 0
    assert_eq!(mul_boost(1, 500), 0);
    assert_eq!(add_scores(1200, 300), 1500);
    assert_eq!(count_times_boost(3, 1500), 4500);
    assert_eq!(div_count(5000, 2), 2500);
    // truncating division over three clauses
    assert_eq!(div_count(1000, 3), 333);
}

#[test]
fn test_fixed_point_arithmetic_saturates() {
    assert_eq!(add_scores(u64::MAX - 1, 5), u64::MAX);
    assert_eq!(mul_boost(u64::MAX, 2000), u64::MAX);
    assert_eq!(count_times_boost(usize::MAX, u64::MAX), u64::MAX);
}

#[test]
fn test_decimal_number_coerces_to_thousandths() {
    assert_eq!(Number { mantissa: 2, scale: 0 }.to_millis(), 2000);
    assert_eq!(Number { mantissa: 20, scale: 1 }.to_millis(), 2000);
    assert_eq!(Number { mantissa: 1231234, scale: 4 }.to_millis(), 123123);
    assert_eq!(Number { mantissa: 5, scale: 1 }.to_millis(), 500);
    // deeper decimals truncate toward zero
    assert_eq!(Number { mantissa: 12345, scale: 7 }.to_millis(), 1);
    assert_eq!(Number { mantissa: 1, scale: 9 }.to_millis(), 0);
    // an enormous scale truncates all the way to zero
    assert_eq!(Number { mantissa: u64::MAX, scale: 4000000000 }.to_millis(), 0);
}

#[test]
fn test_document_fields_are_a_mapping() {
    let mut doc = Document::new(s("k"));
    assert!(doc.get_field("title").is_none());
    doc.set_field(s("title"), Value::String(s("one")));
    doc.set_field(s("body"), Value::String(s("text")));
    assert_eq!(doc.get_field("title"), Some(&Value::String(s("one"))));
    // replacement keeps one entry per name
    doc.set_field(s("title"), Value::String(s("two")));
    assert_eq!(doc.get_field("title"), Some(&Value::String(s("two"))));
    assert_eq!(doc.fields.len(), 2);
    assert_eq!(doc.get_field("body"), Some(&Value::String(s("text"))));
}
