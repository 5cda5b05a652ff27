use kitsune_engine::css::cascade::{cascade_order, replace_str, resolve_vars};

#[test]
fn cascade_order_is_a_stable_sort_by_specificity() {
    assert_eq!(cascade_order(&vec![5, 1, 5, 0]), vec![3, 1, 0, 2]);
    assert_eq!(cascade_order(&vec![]), Vec::<usize>::new());
    assert_eq!(cascade_order(&vec![7, 7, 7]), vec![0, 1, 2]);
    assert_eq!(cascade_order(&vec![3, 2, 1]), vec![2, 1, 0]);
}

#[test]
fn replace_matches_str_replace() {
    assert_eq!(replace_str("aaa", "aa", "b"), "aaa".replace("aa", "b"));
    assert_eq!(replace_str("var(--x) var(--x)", "var(--x)", "red"), "red red");
    assert_eq!(replace_str("", "x", "y"), "");
    assert_eq!(replace_str("héllo", "é", "e"), "hello");
}

#[test]
fn var_references_resolve_in_order() {
    let props = vec![("--a".to_string(), "var(--b)".to_string()), ("--b".to_string(), "blue".to_string())];
    assert_eq!(resolve_vars("var(--a)", &props), "blue");
    let reversed = vec![("--b".to_string(), "blue".to_string()), ("--a".to_string(), "var(--b)".to_string())];
    assert_eq!(resolve_vars("var(--a)", &reversed), "transparent");
    assert_eq!(resolve_vars("1px solid var(--c)", &props), "transparent");
    assert_eq!(resolve_vars("12px", &props), "12px");
}
