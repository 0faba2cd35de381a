use enum_getters::snake_case_name;

fn snake(s: &str) -> String {
    snake_case_name(&s.to_string())
}

#[test]
fn camel_case_splits_at_capitals() {
    assert_eq!(snake("CamelCase"), "camel_case");
}

#[test]
fn acronym_splits_at_every_capital() {
    assert_eq!(snake("HTTPServer"), "h_t_t_p_server");
}

#[test]
fn empty_stays_empty() {
    assert_eq!(snake(""), "");
}

#[test]
fn lowercase_word_is_fixed() {
    assert_eq!(snake("already"), "already");
    assert_eq!(snake(&snake("already")), "already");
}

#[test]
fn underscore_after_letter_is_a_boundary() {
    assert_eq!(snake("already_snake"), "already__snake");
}

#[test]
fn digit_after_letter_is_a_boundary() {
    assert_eq!(snake("V2"), "v_2");
    assert_eq!(snake("2V"), "2v");
}

#[test]
fn single_capital_is_lowered() {
    assert_eq!(snake("A"), "a");
}

#[test]
fn non_ascii_letter_counts_as_alphabetic() {
    assert_eq!(snake("ÉA"), "É_a");
}
