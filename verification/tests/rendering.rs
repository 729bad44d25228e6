use treelight::escape::escape_str;
use treelight::render::{render_events, render_with_attrs, HighlightEvent, RenderError};

fn names(list: &[&str]) -> Vec<String> {
    list.iter().map(|n| String::from(*n)).collect()
}

fn class_attr(name: &str) -> String {
    let mut out = String::from("class=\"");
    out.push_str(name);
    out.push('"');
    out
}

#[test]
fn escapes_the_special_characters() {
    assert_eq!(escape_str("<a>&</a>"), "&lt;a&gt;&amp;&lt;/a&gt;");
    assert_eq!(escape_str("\"x\" 'y'"), "&quot;x&quot; &#x27;y&#x27;");
    assert_eq!(escape_str("a/b"), "a/b");
    assert_eq!(escape_str(""), "");
    assert_eq!(escape_str("h\u{e9}llo"), "h\u{e9}llo");
}

#[test]
fn special_characters_escaped_without_spans() {
    let events = vec![HighlightEvent::Source { start: 0, end: 8 }];
    let out = render_events(&events, "<a>&</a>", &names(&[]), &class_attr).unwrap();
    assert_eq!(out, "&lt;a&gt;&amp;&lt;/a&gt;");
}

#[test]
fn span_nesting_is_preserved() {
    let events = vec![
        HighlightEvent::HighlightStart(0),
        HighlightEvent::Source { start: 0, end: 3 },
        HighlightEvent::HighlightStart(1),
        HighlightEvent::Source { start: 3, end: 5 },
        HighlightEvent::HighlightEnd,
        HighlightEvent::HighlightEnd,
    ];
    let out = render_events(&events, "abcde", &names(&["cat0", "cat1"]), &class_attr).unwrap();
    assert_eq!(out, "<span class=\"cat0\">abc<span class=\"cat1\">de</span></span>");
}

#[test]
fn span_nesting_with_precomputed_attributes() {
    let events = vec![
        HighlightEvent::HighlightStart(0),
        HighlightEvent::Source { start: 0, end: 3 },
        HighlightEvent::HighlightStart(1),
        HighlightEvent::Source { start: 3, end: 5 },
        HighlightEvent::HighlightEnd,
        HighlightEvent::HighlightEnd,
    ];
    let attrs = vec![String::from("class=\"cat0\""), String::from("class=\"cat1\"")];
    let out = render_with_attrs(&events, "abcde", &attrs).unwrap();
    assert_eq!(out, "<span class=\"cat0\">abc<span class=\"cat1\">de</span></span>");
}

#[test]
fn tiling_source_events_reproduce_the_input() {
    let events = vec![
        HighlightEvent::Source { start: 0, end: 2 },
        HighlightEvent::Source { start: 2, end: 2 },
        HighlightEvent::Source { start: 2, end: 5 },
    ];
    let out = render_events(&events, "abcde", &names(&[]), &class_attr).unwrap();
    assert_eq!(out, "abcde");
}

#[test]
fn out_of_range_slice_fails_loudly() {
    let events = vec![HighlightEvent::Source { start: 0, end: 10 }];
    let r = render_events(&events, "abc", &names(&[]), &class_attr);
    assert_eq!(r, Err(RenderError::SourceOutOfRange));
    let swapped = vec![HighlightEvent::Source { start: 2, end: 1 }];
    let r = render_events(&swapped, "abc", &names(&[]), &class_attr);
    assert_eq!(r, Err(RenderError::SourceOutOfRange));
}

#[test]
fn slice_off_a_character_boundary_fails_loudly() {
    let events = vec![HighlightEvent::Source { start: 0, end: 1 }];
    let r = render_events(&events, "\u{e9}x", &names(&[]), &class_attr);
    assert_eq!(r, Err(RenderError::SourceOutOfRange));
}

#[test]
fn unknown_category_index_fails_loudly() {
    let events = vec![HighlightEvent::HighlightStart(5)];
    let r = render_events(&events, "abc", &names(&["only"]), &class_attr);
    assert_eq!(r, Err(RenderError::UnknownCategory));
}

#[test]
fn missing_attribute_fails_loudly() {
    let events = vec![HighlightEvent::HighlightStart(0), HighlightEvent::HighlightEnd];
    let r = render_with_attrs(&events, "abc", &Vec::new());
    assert_eq!(r, Err(RenderError::MissingAttribute));
}

#[test]
fn empty_event_stream_renders_nothing() {
    let out = render_events(&Vec::new(), "abc", &names(&[]), &class_attr).unwrap();
    assert_eq!(out, "");
}

#[test]
fn multibyte_slices_on_boundaries_render() {
    let code = "a\u{e9}b";
    let events = vec![
        HighlightEvent::Source { start: 0, end: 1 },
        HighlightEvent::Source { start: 1, end: 3 },
        HighlightEvent::Source { start: 3, end: 4 },
    ];
    let out = render_events(&events, code, &names(&[]), &class_attr).unwrap();
    assert_eq!(out, "a\u{e9}b");
}
