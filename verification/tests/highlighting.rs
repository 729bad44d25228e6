use treelight::config::HighlightRegistry;
use treelight::languages::{language_for_alias, Language};
use treelight::queries::QueryStore;
use treelight::{highlight_to_html, highlight_to_html_with_str_language, HighlightError};

fn class_attr(name: &str) -> String {
    let mut out = String::from("class=\"");
    for c in name.chars() {
        out.push(if c == '.' { '-' } else { c });
    }
    out.push('"');
    out
}

fn registry(highlights: &[(&str, &str)], injections: &[(&str, &str)], locals: &[(&str, &str)]) -> HighlightRegistry {
    let mut h = QueryStore::new();
    for (n, t) in highlights {
        h.insert(n, t);
    }
    let mut i = QueryStore::new();
    for (n, t) in injections {
        i.insert(n, t);
    }
    let mut l = QueryStore::new();
    for (n, t) in locals {
        l.insert(n, t);
    }
    HighlightRegistry::new(h, i, l)
}

#[test]
fn aliases_name_their_languages() {
    assert_eq!(language_for_alias("rust"), Some(Language::Rust));
    assert_eq!(language_for_alias("js"), Some(Language::Javascript));
    assert_eq!(language_for_alias("javascript"), Some(Language::Javascript));
    assert_eq!(language_for_alias("jsx"), Some(Language::JavascriptJsx));
    assert_eq!(language_for_alias("ts"), Some(Language::Typescript));
    assert_eq!(language_for_alias("tsx"), Some(Language::TypescriptTsx));
    assert_eq!(language_for_alias("python"), Some(Language::Python));
    assert_eq!(language_for_alias("cpp"), Some(Language::Cpp));
    assert_eq!(language_for_alias("java"), Some(Language::Java));
    assert_eq!(language_for_alias("go"), Some(Language::Go));
}

#[test]
fn unknown_alias_is_absent_not_a_fault() {
    assert_eq!(language_for_alias("nosuchlang"), None);
    assert_eq!(language_for_alias("Rust"), None);
    assert_eq!(language_for_alias(""), None);
    let mut reg = registry(&[], &[], &[]);
    let r = highlight_to_html_with_str_language(&mut reg, "nosuchlang", "fn main() {}", &class_attr);
    assert!(r.is_none());
}

#[test]
fn absent_kinds_still_configure_and_render() {
    let mut reg = registry(&[], &[], &[]);
    let out = highlight_to_html(&mut reg, &Language::Rust, "fn main() {}", &class_attr).unwrap();
    assert_eq!(out, "fn main() {}");
}

#[test]
fn rendering_escapes_and_covers_the_whole_source() {
    let mut reg = registry(&[], &[], &[]);
    let code = "let a = b < c && d > 0;";
    let out = highlight_to_html(&mut reg, &Language::Rust, code, &class_attr).unwrap();
    assert_eq!(out, "let a = b &lt; c &amp;&amp; d &gt; 0;");
}

#[test]
fn highlights_query_produces_spans() {
    let mut reg = registry(
        &[("rust", "(function_item name: (identifier) @function)\n")],
        &[],
        &[],
    );
    let out = highlight_to_html(&mut reg, &Language::Rust, "fn main() {}", &class_attr).unwrap();
    assert!(out.contains("<span class=\"function\">main</span>"), "output was: {}", out);
}

#[test]
fn absent_locals_text_does_not_prevent_highlighting() {
    let mut reg = registry(
        &[("rust", "(function_item name: (identifier) @function)\n")],
        &[("rust", "((macro_invocation) @injection.content)\n")],
        &[],
    );
    let r = highlight_to_html(&mut reg, &Language::Rust, "fn main() {}", &class_attr);
    assert!(r.is_ok());
}

#[test]
fn inherited_highlights_reach_the_engine() {
    let mut reg = registry(
        &[
            ("rust", "; inherits: base\n(function_item name: (identifier) @function)\n"),
            ("base", "(integer_literal) @number\n"),
        ],
        &[],
        &[],
    );
    let out = highlight_to_html(&mut reg, &Language::Rust, "fn f() -> u8 { 7 }", &class_attr)
        .unwrap();
    assert!(out.contains("<span class=\"function\">f</span>"), "output was: {}", out);
    assert!(out.contains("<span class=\"number\">7</span>"), "output was: {}", out);
}

#[test]
fn broken_inheritance_fails_configuration() {
    let mut reg = registry(
        &[("rust", "; inherits: nosuch\n(identifier) @variable\n")],
        &[],
        &[],
    );
    let r = highlight_to_html(&mut reg, &Language::Rust, "fn main() {}", &class_attr);
    assert_eq!(r, Err(HighlightError::BrokenInheritance));
}

#[test]
fn malformed_query_is_rejected() {
    let mut reg = registry(&[("rust", "this is not a query (((\n")], &[], &[]);
    let r = highlight_to_html(&mut reg, &Language::Rust, "fn main() {}", &class_attr);
    assert_eq!(r, Err(HighlightError::QueryRejected));
}

#[test]
fn a_failed_language_leaves_the_others_usable() {
    let mut reg = registry(
        &[
            ("rust", "this is not a query (((\n"),
            ("go", "(function_declaration name: (identifier) @function)\n"),
        ],
        &[],
        &[],
    );
    let r = highlight_to_html(&mut reg, &Language::Rust, "fn main() {}", &class_attr);
    assert_eq!(r, Err(HighlightError::QueryRejected));
    let out = highlight_to_html(&mut reg, &Language::Go, "func main() {}", &class_attr).unwrap();
    assert!(out.contains("<span class=\"function\">main</span>"), "output was: {}", out);
}

#[test]
fn str_language_entry_point_renders() {
    let mut reg = registry(
        &[("python", "(call function: (identifier) @function)\n")],
        &[],
        &[],
    );
    let r = highlight_to_html_with_str_language(&mut reg, "python", "print(1)", &class_attr);
    let out = r.unwrap().unwrap();
    assert!(out.contains("<span class=\"function\">print</span>"), "output was: {}", out);
}

#[test]
fn configurations_are_cached_and_reused() {
    let mut reg = registry(
        &[("rust", "(function_item name: (identifier) @function)\n")],
        &[],
        &[],
    );
    let first = highlight_to_html(&mut reg, &Language::Rust, "fn a() {}", &class_attr).unwrap();
    let second = highlight_to_html(&mut reg, &Language::Rust, "fn a() {}", &class_attr).unwrap();
    assert_eq!(first, second);
}

#[test]
fn category_list_is_the_fixed_taxonomy() {
    let reg = registry(&[], &[], &[]);
    let names = reg.category_names();
    assert_eq!(names.len(), 70);
    assert_eq!(names[0], "annotation");
    assert_eq!(names[21], "keyword");
    assert_eq!(names[35], "punctuation.delimiter");
    assert_eq!(names[69], "variable.builtin");
}

#[test]
fn configurations_can_be_requested_directly() {
    let mut reg = registry(&[], &[], &[]);
    assert!(reg.get_config(&Language::Java).is_ok());
    assert!(reg.get_config(&Language::Java).is_ok());
}
