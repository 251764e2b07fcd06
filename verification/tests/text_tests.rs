use personal_site::text::{str_eq, str_le, str_lt};

#[test]
fn lexicographic_order_on_slices() {
    assert!(str_lt("a", "b"));
    assert!(!str_lt("b", "a"));
    assert!(!str_lt("a", "a"));
    assert!(str_le("a", "a"));
}

#[test]
fn proper_prefix_is_smaller() {
    assert!(str_lt("ab", "abc"));
    assert!(!str_lt("abc", "ab"));
    assert!(str_lt("", "a"));
    assert!(!str_lt("", ""));
}

#[test]
fn order_is_by_code_point() {
    assert!(str_lt("Z", "a"));
    assert!(str_lt("2024-12-31", "2024-2-1"));
}

#[test]
fn equality_of_views() {
    assert!(str_eq("abc", "abc"));
    assert!(!str_eq("abc", "abd"));
    assert!(!str_eq("abc", "ab"));
    assert!(str_eq("", ""));
}

#[test]
fn non_ascii_characters_compare_by_code_point() {
    assert!(str_eq("héllo", "héllo"));
    assert!(str_lt("e", "é"));
}
