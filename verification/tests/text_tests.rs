use torat::text::split_fields;
use torat::text::str_eq;

#[test]
fn split_plain_fields() {
    assert_eq!(split_fields("a,b,c"), vec!["a", "b", "c"]);
}

#[test]
fn split_without_comma_is_one_field() {
    assert_eq!(split_fields("abc"), vec!["abc"]);
}

#[test]
fn split_empty_string_is_one_empty_field() {
    assert_eq!(split_fields(""), vec![""]);
}

#[test]
fn split_keeps_empty_segments() {
    assert_eq!(split_fields(",a,,b,"), vec!["", "a", "", "b", ""]);
    assert_eq!(split_fields(","), vec!["", ""]);
}

#[test]
fn split_keeps_spaces_inside_fields() {
    assert_eq!(split_fields("1 Main St,Suite 2"), vec!["1 Main St", "Suite 2"]);
}

#[test]
fn str_eq_agrees_with_equality() {
    assert!(str_eq("", ""));
    assert!(str_eq("abc", "abc"));
    assert!(!str_eq("abc", "abd"));
    assert!(!str_eq("abc", "ab"));
    assert!(!str_eq("ab", "abc"));
}
