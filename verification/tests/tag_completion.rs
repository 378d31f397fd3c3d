use catpane::tag_completion::{
    current_tag_value_range, extract_partial_tag_value, replace_partial_tag_value,
    should_append_level_separator,
};

#[test]
fn extracts_partial_value_for_tag_level_token() {
    assert_eq!(extract_partial_tag_value("CallMan:V"), "CallMan");
    assert_eq!(extract_partial_tag_value("*:E"), "");
}

#[test]
fn preserves_level_suffix_when_autocompleting_tag_level_token() {
    let mut input = String::from("CallMan:V");
    replace_partial_tag_value(&mut input, "CallManagerService");
    assert_eq!(input, "CallManagerService:V");
}

#[test]
fn appends_level_separator_for_bare_tag_level_completion() {
    let mut input = String::from("CallMan");
    replace_partial_tag_value(&mut input, "CallManagerService");
    assert_eq!(input, "CallManagerService:");
}

#[test]
fn keeps_existing_prefixed_tag_autocomplete_behavior() {
    let mut input = String::from("tag:CallMan");
    replace_partial_tag_value(&mut input, "CallManagerService");
    assert_eq!(input, "tag:CallManagerService");
}

#[test]
fn completion_works_on_the_last_token() {
    let mut input = String::from("Foo:V Bar");
    replace_partial_tag_value(&mut input, "BarService");
    assert_eq!(input, "Foo:V BarService:");
    assert_eq!(current_tag_value_range("Foo:V Bar"), Some((6, 9)));
    assert!(should_append_level_separator("Bar"));
    assert!(!should_append_level_separator("tag:Bar"));
}
