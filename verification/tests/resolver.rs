use treelight::queries::{get_query, resolve, QueryStore, Resolution};

fn store(entries: &[(&str, &str)]) -> QueryStore {
    let mut s = QueryStore::new();
    for (name, text) in entries {
        s.insert(name, text);
    }
    s
}

#[test]
fn no_directive_resolves_to_raw() {
    let s = store(&[("rust", "(keyword) @keyword\n(identifier) @variable\n")]);
    let r = get_query(&s, "rust");
    assert_eq!(r, Some(String::from("(keyword) @keyword\n(identifier) @variable\n")));
}

#[test]
fn single_parent_appends_resolved_parent() {
    let s = store(&[
        ("tsx", "; inherits: base\n(tsx_rule) @tag\n"),
        ("base", "(base_rule) @keyword\n"),
    ]);
    let r = get_query(&s, "tsx").unwrap();
    assert_eq!(r, "; inherits: base\n(tsx_rule) @tag\n(base_rule) @keyword\n");
}

#[test]
fn resolution_is_idempotent() {
    let s = store(&[
        ("a", "; inherits: b,c\nA\n"),
        ("b", "B\n"),
        ("c", "C\n"),
    ]);
    let first = get_query(&s, "a");
    let second = get_query(&s, "a");
    assert_eq!(first, second);
    assert!(first.is_some());
}

#[test]
fn parents_appended_in_listed_order() {
    let s = store(&[
        ("a", ";inherits: b,c\nA\n"),
        ("b", "B\n"),
        ("c", "C\n"),
    ]);
    assert_eq!(get_query(&s, "a").unwrap(), ";inherits: b,c\nA\nB\nC\n");
}

#[test]
fn resolution_is_recursive() {
    let s = store(&[
        ("a", "; inherits: c\nA\n"),
        ("c", "; inherits: d\nC\n"),
        ("d", "D\n"),
    ]);
    assert_eq!(get_query(&s, "a").unwrap(), "; inherits: c\nA\n; inherits: d\nC\nD\n");
}

#[test]
fn missing_parent_fails_whole_resolution() {
    let s = store(&[("a", "; inherits: nosuch\nA\n")]);
    assert_eq!(get_query(&s, "a"), None);
    assert!(matches!(resolve(&s, "a"), Resolution::Broken));
}

#[test]
fn missing_language_is_distinct_from_broken_chain() {
    let s = store(&[("a", "A\n")]);
    assert_eq!(get_query(&s, "nosuch"), None);
    assert!(matches!(resolve(&s, "nosuch"), Resolution::Missing));
    assert!(matches!(resolve(&s, "a"), Resolution::Text(_)));
}

#[test]
fn cyclic_inheritance_fails_instead_of_recursing() {
    let s = store(&[
        ("a", "; inherits: b\nA\n"),
        ("b", "; inherits: a\nB\n"),
    ]);
    assert_eq!(get_query(&s, "a"), None);
    assert!(matches!(resolve(&s, "a"), Resolution::Broken));
    let t = store(&[("self", "; inherits: self\nS\n")]);
    assert_eq!(get_query(&t, "self"), None);
}

#[test]
fn text_without_line_terminator_is_never_a_directive() {
    let s = store(&[("a", "; inherits: nosuch")]);
    assert_eq!(get_query(&s, "a"), Some(String::from("; inherits: nosuch")));
}

#[test]
fn directive_spelling_variants() {
    let s = store(&[
        ("zero_semis", "inherits: b\nZ\n"),
        ("no_colon", ";; inherits b\nN\n"),
        ("tight", ";;;inherits:b\nT\n"),
        ("padded", ";  inherits  :  b  \nP\n"),
        ("b", "B\n"),
    ]);
    assert_eq!(get_query(&s, "zero_semis").unwrap(), "inherits: b\nZ\nB\n");
    assert_eq!(get_query(&s, "no_colon").unwrap(), ";; inherits b\nN\nB\n");
    assert_eq!(get_query(&s, "tight").unwrap(), ";;;inherits:b\nT\nB\n");
    assert_eq!(get_query(&s, "padded").unwrap(), ";  inherits  :  b  \nP\nB\n");
}

#[test]
fn near_misses_are_not_directives() {
    let s = store(&[
        ("wrong_word", "; inherit: b\nW\n"),
        ("trailing_junk", "; inherits: b %\nJ\n"),
        ("second_list", "; inherits: b extra\nK\n"),
        ("empty_list", "; inherits:\nE\n"),
        ("comment_only", "; just a comment\nC\n"),
        ("b", "B\n"),
    ]);
    assert_eq!(get_query(&s, "wrong_word").unwrap(), "; inherit: b\nW\n");
    assert_eq!(get_query(&s, "trailing_junk").unwrap(), "; inherits: b %\nJ\n");
    assert_eq!(get_query(&s, "second_list").unwrap(), "; inherits: b extra\nK\n");
    assert_eq!(get_query(&s, "empty_list").unwrap(), "; inherits:\nE\n");
    assert_eq!(get_query(&s, "comment_only").unwrap(), "; just a comment\nC\n");
}

#[test]
fn empty_name_segment_is_a_missing_parent() {
    let s = store(&[
        ("a", "; inherits: b,,c\nA\n"),
        ("b", "B\n"),
        ("c", "C\n"),
    ]);
    assert_eq!(get_query(&s, "a"), None);
}

#[test]
fn first_entry_wins_on_duplicate_names() {
    let s = store(&[("a", "first\n"), ("a", "second\n")]);
    assert_eq!(get_query(&s, "a").unwrap(), "first\n");
}

#[test]
fn raw_lookup_and_length() {
    let s = store(&[("a", "A\n"), ("b", "; inherits: a\nB\n")]);
    assert_eq!(s.len(), 2);
    assert_eq!(s.get_raw("a").map(|t| t.as_str()), Some("A\n"));
    assert_eq!(s.get_raw("b").map(|t| t.as_str()), Some("; inherits: a\nB\n"));
    assert!(s.get_raw("nosuch").is_none());
}
