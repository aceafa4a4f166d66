use crown_dtl::reports::{id_array_json, json_escape, string_array_json};
use crown_dtl::RedemptionId;

#[test]
fn escape_handles_special_characters() {
    assert_eq!(json_escape("a\"b\\c\nd\re\tf"), "a\\\"b\\\\c\\nd\\re\\tf");
    assert_eq!(json_escape("plain"), "plain");
    assert_eq!(json_escape(""), "");
}

#[test]
fn id_arrays_quote_each_identifier() {
    let ids = vec![RedemptionId::new(3), RedemptionId::new(12)];
    assert_eq!(id_array_json(&ids), "[\"rdm-3\",\"rdm-12\"]");
    assert_eq!(id_array_json(&[]), "[]");
}

#[test]
fn string_arrays_escape_each_value() {
    let values = vec!["a\"".to_owned(), "b".to_owned()];
    assert_eq!(string_array_json(&values), "[\"a\\\"\",\"b\"]");
}
