use pm_store::text::{contains_like, lower_str, slugify, slugify_def, str_eq, str_le};

#[test]
fn slugify_lowercases_and_hyphenates() {
    assert_eq!(slugify("Growth Plans"), "growth-plans");
    assert_eq!(slugify("already-slugged"), "already-slugged");
    assert_eq!(slugify(""), "");
}

#[test]
fn slugify_def_strips_parentheses() {
    assert_eq!(slugify_def("Lean Canvas (v2)"), "lean-canvas-v2");
    assert_eq!(slugify_def("(A) B (C)"), "a-b-c");
}

#[test]
fn lower_str_is_ascii_case_folding() {
    assert_eq!(lower_str("MiXeD 123!"), "mixed 123!");
    assert_eq!(lower_str(""), "");
}

#[test]
fn contains_like_ignores_case_and_matches_substrings() {
    assert!(contains_like("Customer Journey Map", "JOURNEY"));
    assert!(contains_like("abc", ""));
    assert!(!contains_like("abc", "abcd"));
    assert!(!contains_like("", "a"));
}

#[test]
fn str_le_is_lexicographic() {
    assert!(str_le("alpha", "beta"));
    assert!(str_le("alpha", "alpha"));
    assert!(str_le("alp", "alpha"));
    assert!(!str_le("beta", "alpha"));
    assert!(!str_le("alpha", "alp"));
}

#[test]
fn str_eq_compares_characters() {
    assert!(str_eq("same", "same"));
    assert!(!str_eq("same", "Same"));
    assert!(!str_eq("same", "sam"));
}
