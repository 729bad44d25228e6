//! Rendering a stream of highlight events into nested, escaped HTML.
//!
//! The event stream encodes span nesting through its start/end ordering, so
//! the renderer keeps no stack of its own: a span start appends an opening
//! tag, a span end appends a closing tag, and a source event appends the
//! escaped byte slice of the input it names.  A slice that is out of range
//! or off a character boundary, and a span start without an attribute,
//! are contract violations of the event producer and fail loudly.

use vstd::prelude::*;
use vstd::string::StringSliceAdditionalSpecFns;
use crate::escape::{escape_str, escape_text};

verus! {

broadcast use vstd::slice::axiom_spec_len, vstd::utf8::encode_utf8_valid_utf8, vstd::utf8::encode_utf8_decode_utf8, vstd::utf8::valid_utf8_split, vstd::utf8::is_char_boundary_iff_not_is_continuation_byte;

/// One step of a highlighting pass: a byte range of the source to emit
/// escaped, the start of a span classified under a category index, or the
/// end of the most recently opened span.
#[derive(Clone, Copy, Debug, PartialEq, Eq, Structural)]
pub enum HighlightEvent {
    Source { start: usize, end: usize },
    HighlightStart(usize),
    HighlightEnd,
}

/// Why rendering an event stream failed.
#[derive(Clone, Copy, Debug, PartialEq, Eq, Structural)]
pub enum RenderError {
    /// A source event named a byte range that is out of bounds or does not
    /// fall on character boundaries of the input.
    SourceOutOfRange,
    /// A span start had no attribute text left to consume.
    MissingAttribute,
    /// A span start named a category index outside the category list.
    UnknownCategory,
}

/// Whether a byte range can be sliced out of the encoded input.
pub open spec fn valid_slice(bytes: Seq<u8>, start: int, end: int) -> bool {
    0 <= start <= end <= bytes.len() && vstd::utf8::is_char_boundary(bytes, start)
        && vstd::utf8::is_char_boundary(bytes, end)
}

/// The opening tag written for a span with the given attribute text.
pub open spec fn span_open(attr: Seq<char>) -> Seq<char> {
    seq!['<', 's', 'p', 'a', 'n', ' '] + attr + seq!['>']
}

/// The closing tag written for a span.
pub open spec fn span_close() -> Seq<char> {
    seq!['<', '/', 's', 'p', 'a', 'n', '>']
}

/// What rendering produces: each event in order, a source event contributing
/// its escaped slice, each span start consuming the next attribute text.
pub open spec fn spec_render(
    events: Seq<HighlightEvent>,
    code: Seq<char>,
    attrs: Seq<Seq<char>>,
) -> Result<Seq<char>, RenderError>
    decreases events.len(),
{
    if events.len() == 0 {
        Ok(Seq::empty())
    } else {
        match events.first() {
            HighlightEvent::Source { start, end } => {
                let bytes = vstd::utf8::encode_utf8(code);
                if valid_slice(bytes, start as int, end as int) {
                    match spec_render(events.drop_first(), code, attrs) {
                        Ok(rest) => Ok(
                            escape_text(
                                vstd::utf8::decode_utf8(bytes.subrange(start as int, end as int)),
                            ) + rest,
                        ),
                        Err(e) => Err(e),
                    }
                } else {
                    Err(RenderError::SourceOutOfRange)
                }
            },
            HighlightEvent::HighlightStart(_) => {
                if attrs.len() == 0 {
                    Err(RenderError::MissingAttribute)
                } else {
                    match spec_render(events.drop_first(), code, attrs.drop_first()) {
                        Ok(rest) => Ok(span_open(attrs.first()) + rest),
                        Err(e) => Err(e),
                    }
                }
            },
            HighlightEvent::HighlightEnd => {
                match spec_render(events.drop_first(), code, attrs) {
                    Ok(rest) => Ok(span_close() + rest),
                    Err(e) => Err(e),
                }
            },
        }
    }
}

/// Renders an event stream over the input, consuming one attribute text per
/// span start, exactly as `spec_render` states.
pub fn render_with_attrs(events: &Vec<HighlightEvent>, code: &str, attrs: &Vec<String>) -> (r:
    Result<String, RenderError>)
    ensures
        match r {
            Ok(out) => spec_render(events@, code@, attrs.deep_view()) == Ok::<
                Seq<char>,
                RenderError,
            >(out@),
            Err(e) => spec_render(events@, code@, attrs.deep_view()) == Err::<
                Seq<char>,
                RenderError,
            >(e),
        },
{
    let ghost attrsv = attrs.deep_view();
    let ghost bytes = vstd::utf8::encode_utf8(code@);
    let mut out = String::new();
    let mut k: usize = 0;
    let mut i: usize = 0;
    proof {
        assert(events@.skip(0) =~= events@);
        assert(attrsv.skip(0) =~= attrsv);
        assert(out@ + Seq::<char>::empty() =~= out@);
    }
    while i < events.len()
        invariant
            i <= events@.len(),
            k <= attrsv.len(),
            attrsv == attrs.deep_view(),
            bytes == vstd::utf8::encode_utf8(code@),
            spec_render(events@, code@, attrsv) == (match spec_render(
                events@.skip(i as int),
                code@,
                attrsv.skip(k as int),
            ) {
                Ok(rest) => Ok::<Seq<char>, RenderError>(out@ + rest),
                Err(e) => Err::<Seq<char>, RenderError>(e),
            }),
        decreases events@.len() - i,
    {
        proof {
            assert(events@.skip(i as int).first() == events@[i as int]);
            assert(events@.skip(i as int).drop_first() =~= events@.skip(i + 1));
        }
        match events[i] {
            HighlightEvent::Source { start, end } => {
                let code_bytes = code.as_bytes();
                proof {
                    assert(code.spec_bytes() == bytes);
                    assert(vstd::slice::spec_slice_len(code_bytes) == code_bytes@.len());
                }
                if !(start <= end && end <= code_bytes.len() && code.is_char_boundary(start)
                    && code.is_char_boundary(end)) {
                    proof {
                        assert(!valid_slice(bytes, start as int, end as int));
                        assert(spec_render(events@.skip(i as int), code@, attrsv.skip(k as int))
                            == Err::<Seq<char>, RenderError>(RenderError::SourceOutOfRange));
                    }
                    return Err(RenderError::SourceOutOfRange);
                }
                let (_, tail) = code.split_at(start);
                proof {
                    assert(vstd::utf8::valid_utf8(bytes));
                    assert(tail.spec_bytes() =~= bytes.subrange(start as int, bytes.len() as int));
                    vstd::utf8::valid_utf8_split(bytes, start as int);
                    assert(vstd::utf8::valid_utf8(tail.spec_bytes()));
                    if end < bytes.len() {
                        vstd::utf8::is_char_boundary_iff_not_is_continuation_byte(
                            bytes,
                            end as int,
                        );
                        assert(tail.spec_bytes()[end - start] == bytes[end as int]);
                        vstd::utf8::is_char_boundary_iff_not_is_continuation_byte(
                            tail.spec_bytes(),
                            end - start,
                        );
                    } else {
                        vstd::utf8::is_char_boundary_start_end_of_seq(tail.spec_bytes());
                    }
                    assert(vstd::utf8::is_char_boundary(tail.spec_bytes(), end - start));
                }
                let (piece, _) = tail.split_at(end - start);
                proof {
                    assert(piece.spec_bytes() =~= bytes.subrange(start as int, end as int));
                    assert(vstd::utf8::decode_utf8(piece.spec_bytes()) == piece@);
                }
                let esc = escape_str(piece);
                let ghost prev = out@;
                out.append(esc.as_str());
                proof {
                    let ghost rest_result = spec_render(events@.skip(i + 1), code@, attrsv.skip(
                        k as int,
                    ));
                    match rest_result {
                        Ok(rest) => {
                            assert((prev + esc@) + rest =~= prev + (esc@ + rest));
                        },
                        Err(_) => {},
                    }
                }
            },
            HighlightEvent::HighlightStart(_) => {
                if k == attrs.len() {
                    proof {
                        assert(spec_render(events@.skip(i as int), code@, attrsv.skip(k as int))
                            == Err::<Seq<char>, RenderError>(RenderError::MissingAttribute));
                    }
                    return Err(RenderError::MissingAttribute);
                }
                let ghost prev = out@;
                out.append("<span ");
                out.append(attrs[k].as_str());
                out.append(">");
                proof {
                    reveal_strlit("<span ");
                    reveal_strlit(">");
                    assert("<span "@ =~= seq!['<', 's', 'p', 'a', 'n', ' ']);
                    assert(">"@ =~= seq!['>']);
                    assert(attrsv.skip(k as int).first() == attrsv[k as int]);
                    assert(attrsv.skip(k as int).drop_first() =~= attrsv.skip(k + 1));
                    assert(attrsv[k as int] == attrs@[k as int]@);
                    assert(out@ =~= prev + span_open(attrsv[k as int]));
                    let ghost rest_result = spec_render(events@.skip(i + 1), code@, attrsv.skip(
                        k + 1,
                    ));
                    match rest_result {
                        Ok(rest) => {
                            assert((prev + span_open(attrsv[k as int])) + rest =~= prev + (
                            span_open(attrsv[k as int]) + rest));
                        },
                        Err(_) => {},
                    }
                }
                k += 1;
            },
            HighlightEvent::HighlightEnd => {
                let ghost prev = out@;
                out.append("</span>");
                proof {
                    reveal_strlit("</span>");
                    assert("</span>"@ =~= span_close());
                    let ghost rest_result = spec_render(events@.skip(i + 1), code@, attrsv.skip(
                        k as int,
                    ));
                    match rest_result {
                        Ok(rest) => {
                            assert((prev + span_close()) + rest =~= prev + (span_close() + rest));
                        },
                        Err(_) => {},
                    }
                }
            },
        }
        i += 1;
    }
    proof {
        assert(events@.skip(events@.len() as int) =~= Seq::<HighlightEvent>::empty());
        assert(out@ + Seq::<char>::empty() =~= out@);
    }
    Ok(out)
}

// ---------------------------------------------------------------------------
// Coverage law for source events.
// ---------------------------------------------------------------------------

/// Whether the source events of a stream, in order, cover exactly the byte
/// range `[from, to)`: each source event starts where the previous one
/// ended, and the last one ends at `to`.
pub open spec fn sources_tile(events: Seq<HighlightEvent>, from: int, to: int) -> bool
    decreases events.len(),
{
    if events.len() == 0 {
        from == to
    } else {
        match events.first() {
            HighlightEvent::Source { start, end } => start == from && start <= end <= to
                && sources_tile(events.drop_first(), end as int, to),
            _ => sources_tile(events.drop_first(), from, to),
        }
    }
}

/// The concatenation of the byte ranges named by the source events, in order.
pub open spec fn sources_concat(events: Seq<HighlightEvent>, bytes: Seq<u8>) -> Seq<u8>
    decreases events.len(),
{
    if events.len() == 0 {
        Seq::empty()
    } else {
        match events.first() {
            HighlightEvent::Source { start, end } => (if start <= end <= bytes.len() {
                bytes.subrange(start as int, end as int)
            } else {
                Seq::empty()
            }) + sources_concat(events.drop_first(), bytes),
            _ => sources_concat(events.drop_first(), bytes),
        }
    }
}

proof fn lemma_sources_concat_from(events: Seq<HighlightEvent>, bytes: Seq<u8>, from: int)
    requires
        0 <= from <= bytes.len(),
        sources_tile(events, from, bytes.len() as int),
    ensures
        sources_concat(events, bytes) == bytes.subrange(from, bytes.len() as int),
    decreases events.len(),
{
    if events.len() == 0 {
        assert(bytes.subrange(from, bytes.len() as int) =~= Seq::<u8>::empty());
    } else {
        match events.first() {
            HighlightEvent::Source { start, end } => {
                lemma_sources_concat_from(events.drop_first(), bytes, end as int);
                assert(bytes.subrange(start as int, end as int) + bytes.subrange(
                    end as int,
                    bytes.len() as int,
                ) =~= bytes.subrange(from, bytes.len() as int));
            },
            _ => {
                lemma_sources_concat_from(events.drop_first(), bytes, from);
            },
        }
    }
}

/// Rendering is total-coverage and non-overlapping: when the source events
/// of a stream tile the whole byte range of the input, concatenating the
/// byte ranges they name, in order, reproduces the input exactly.
pub proof fn lemma_sources_cover(events: Seq<HighlightEvent>, bytes: Seq<u8>)
    requires
        sources_tile(events, 0, bytes.len() as int),
    ensures
        sources_concat(events, bytes) == bytes,
{
    lemma_sources_concat_from(events, bytes, 0);
    assert(bytes.subrange(0, bytes.len() as int) =~= bytes);
}

/// Whether every event of a stream is a source event naming a sliceable
/// byte range of the input.
pub open spec fn all_valid_sources(events: Seq<HighlightEvent>, bytes: Seq<u8>) -> bool {
    forall|i: int|
        0 <= i < events.len() ==> match #[trigger] events[i] {
            HighlightEvent::Source { start, end } => valid_slice(bytes, start as int, end as int),
            _ => false,
        }
}

proof fn lemma_render_sources_from(
    events: Seq<HighlightEvent>,
    code: Seq<char>,
    attrs: Seq<Seq<char>>,
    from: int,
)
    requires
        0 <= from <= vstd::utf8::encode_utf8(code).len(),
        vstd::utf8::is_char_boundary(vstd::utf8::encode_utf8(code), from),
        sources_tile(events, from, vstd::utf8::encode_utf8(code).len() as int),
        all_valid_sources(events, vstd::utf8::encode_utf8(code)),
    ensures
        spec_render(events, code, attrs) == Ok::<Seq<char>, RenderError>(
            escape_text(
                vstd::utf8::decode_utf8(
                    vstd::utf8::encode_utf8(code).subrange(
                        from,
                        vstd::utf8::encode_utf8(code).len() as int,
                    ),
                ),
            ),
        ),
    decreases events.len(),
{
    let bytes = vstd::utf8::encode_utf8(code);
    let n = bytes.len() as int;
    if events.len() == 0 {
        assert(from == n);
        assert(bytes.subrange(n, n) =~= Seq::<u8>::empty());
        assert(vstd::utf8::decode_utf8(Seq::<u8>::empty()) =~= Seq::<char>::empty());
    } else {
        match events.first() {
            HighlightEvent::Source { start, end } => {
                assert(events[0] == events.first());
                assert(valid_slice(bytes, start as int, end as int));
                assert forall|i: int| 0 <= i < events.drop_first().len() implies match #[trigger] events.drop_first()[i] {
                    HighlightEvent::Source { start: s2, end: e2 } => valid_slice(
                        bytes,
                        s2 as int,
                        e2 as int,
                    ),
                    _ => false,
                } by {
                    assert(events.drop_first()[i] == events[i + 1]);
                }
                lemma_render_sources_from(events.drop_first(), code, attrs, end as int);
                let head = vstd::utf8::decode_utf8(bytes.subrange(start as int, end as int));
                let rest = vstd::utf8::decode_utf8(bytes.subrange(end as int, n));
                let whole = vstd::utf8::decode_utf8(bytes.subrange(from, n));
                assert(whole =~= head + rest) by {
                    let region = bytes.subrange(from, n);
                    vstd::utf8::valid_utf8_split(bytes, from);
                    if (end as int) < n {
                        vstd::utf8::is_char_boundary_iff_not_is_continuation_byte(
                            bytes,
                            end as int,
                        );
                        assert(region[end - from] == bytes[end as int]);
                        vstd::utf8::is_char_boundary_iff_not_is_continuation_byte(
                            region,
                            end - from,
                        );
                    } else {
                        vstd::utf8::is_char_boundary_start_end_of_seq(region);
                    }
                    vstd::utf8::decode_utf8_split(region, end - from);
                    assert(region.subrange(0, end - from) =~= bytes.subrange(
                        start as int,
                        end as int,
                    ));
                    assert(region.subrange(end - from, region.len() as int) =~= bytes.subrange(
                        end as int,
                        n,
                    ));
                }
                crate::escape::lemma_escape_text_concat(head, rest);
                assert(escape_text(head) + escape_text(rest) == escape_text(whole));
            },
            _ => {
                assert(match events[0] {
                    HighlightEvent::Source { start, end } => valid_slice(
                        bytes,
                        start as int,
                        end as int,
                    ),
                    _ => false,
                });
                assert(false);
            },
        }
    }
}

/// Rendering is total coverage: when a stream consists of source events
/// whose byte ranges tile the whole input and slice it on character
/// boundaries, rendering emits exactly the escaped input, whatever the
/// attribute list.
pub proof fn lemma_render_total_coverage(
    events: Seq<HighlightEvent>,
    code: Seq<char>,
    attrs: Seq<Seq<char>>,
)
    requires
        sources_tile(events, 0, vstd::utf8::encode_utf8(code).len() as int),
        all_valid_sources(events, vstd::utf8::encode_utf8(code)),
    ensures
        spec_render(events, code, attrs) == Ok::<Seq<char>, RenderError>(escape_text(code)),
{
    let bytes = vstd::utf8::encode_utf8(code);
    lemma_render_sources_from(events, code, attrs, 0);
    assert(bytes.subrange(0, bytes.len() as int) =~= bytes);
}

// ---------------------------------------------------------------------------
// Rendering with a caller-supplied attribute mapper.
// ---------------------------------------------------------------------------

/// The category indexes of the span-start events, in order.
pub open spec fn starts_of(events: Seq<HighlightEvent>) -> Seq<usize>
    decreases events.len(),
{
    if events.len() == 0 {
        Seq::empty()
    } else {
        match events.first() {
            HighlightEvent::HighlightStart(c) => seq![c] + starts_of(events.drop_first()),
            _ => starts_of(events.drop_first()),
        }
    }
}

proof fn lemma_starts_of_push(events: Seq<HighlightEvent>, e: HighlightEvent)
    ensures
        starts_of(events.push(e)) == starts_of(events) + (match e {
            HighlightEvent::HighlightStart(c) => seq![c],
            _ => Seq::<usize>::empty(),
        }),
    decreases events.len(),
{
    let tailv = (match e {
        HighlightEvent::HighlightStart(c) => seq![c],
        _ => Seq::<usize>::empty(),
    });
    if events.len() == 0 {
        assert(events.push(e)[0] == e);
        assert(events.push(e).first() == e);
        assert(events.push(e).drop_first() =~= Seq::<HighlightEvent>::empty());
        assert(starts_of(Seq::<HighlightEvent>::empty()) == Seq::<usize>::empty());
        match e {
            HighlightEvent::HighlightStart(c) => {
                assert(starts_of(events.push(e)) == seq![c] + Seq::<usize>::empty());
            },
            _ => {
                assert(starts_of(events.push(e)) == Seq::<usize>::empty());
            },
        }
        assert(starts_of(events.push(e)) =~= starts_of(events) + tailv);
    } else {
        assert(events.push(e)[0] == events[0]);
        assert(events.push(e).first() == events.first());
        assert(events.push(e).drop_first() =~= events.drop_first().push(e));
        lemma_starts_of_push(events.drop_first(), e);
        match events.first() {
            HighlightEvent::HighlightStart(c) => {
                assert(starts_of(events.push(e)) == seq![c] + (starts_of(events.drop_first())
                    + tailv));
                assert(seq![c] + (starts_of(events.drop_first()) + tailv) =~= (seq![c]
                    + starts_of(events.drop_first())) + tailv);
            },
            _ => {},
        }
        assert(starts_of(events.push(e)) =~= starts_of(events) + tailv);
    }
}

/// Whether one event can be rendered against the input and a category list
/// of the given length.
pub open spec fn event_ok(e: HighlightEvent, code: Seq<char>, names_len: int) -> bool {
    match e {
        HighlightEvent::Source { start, end } => valid_slice(
            vstd::utf8::encode_utf8(code),
            start as int,
            end as int,
        ),
        HighlightEvent::HighlightStart(c) => (c as int) < names_len,
        HighlightEvent::HighlightEnd => true,
    }
}

/// Whether a whole stream can be rendered.
pub open spec fn events_ok(events: Seq<HighlightEvent>, code: Seq<char>, names_len: int) -> bool {
    forall|j: int| 0 <= j < events.len() ==> event_ok(#[trigger] events[j], code, names_len)
}

/// Whether the attribute mapper can turn the given category name into the
/// given attribute text.
pub open spec fn maps_attr<F: Fn(&str) -> String>(f: &F, name: Seq<char>, attr: Seq<char>) -> bool {
    exists|s: &str, a: String| s@ == name && a@ == attr && call_ensures(*f, (s,), a)
}

/// Renders an event stream, mapping each span start's category name through
/// the caller's attribute mapper.  Succeeds exactly when every source event
/// names a sliceable byte range and every span start a known category.
pub fn render_events<F: Fn(&str) -> String>(
    events: &Vec<HighlightEvent>,
    code: &str,
    names: &Vec<String>,
    attr_map: &F,
) -> (r: Result<String, RenderError>)
    requires
        forall|s: &str| call_requires(*attr_map, (s,)),
    ensures
        r is Ok <==> events_ok(events@, code@, names@.len() as int),
        r matches Ok(out) ==> exists|attrsv: Seq<Seq<char>>|
            {
                &&& attrsv.len() == starts_of(events@).len()
                &&& (forall|j: int|
                    0 <= j < attrsv.len() ==> maps_attr(
                        attr_map,
                        names@[#[trigger] starts_of(events@)[j] as int]@,
                        attrsv[j],
                    ))
                &&& spec_render(events@, code@, attrsv) == Ok::<Seq<char>, RenderError>(out@)
            },
        r matches Err(e) ==> (e == RenderError::SourceOutOfRange || e
            == RenderError::UnknownCategory),
{
    let ghost bytes = vstd::utf8::encode_utf8(code@);
    let mut out = String::new();
    let ghost mut attrsv: Seq<Seq<char>> = Seq::empty();
    let mut i: usize = 0;
    proof {
        assert(events@.take(0) =~= Seq::<HighlightEvent>::empty());
        assert(out@ + Seq::<char>::empty() =~= out@);
        assert forall|ext: Seq<Seq<char>>|
            #[trigger] spec_render(events@, code@, attrsv + ext) == (match spec_render(
                events@.skip(0),
                code@,
                ext,
            ) {
                Ok(rest) => Ok::<Seq<char>, RenderError>(out@ + rest),
                Err(e) => Err::<Seq<char>, RenderError>(e),
            }) by {
            assert(attrsv + ext =~= ext);
            assert(events@.skip(0) =~= events@);
            match spec_render(events@, code@, ext) {
                Ok(rest) => {
                    assert(out@ + rest =~= rest);
                },
                Err(_) => {},
            }
        }
    }
    while i < events.len()
        invariant
            i <= events@.len(),
            forall|s: &str| call_requires(*attr_map, (s,)),
            bytes == vstd::utf8::encode_utf8(code@),
            forall|j: int| 0 <= j < i ==> event_ok(#[trigger] events@[j], code@, names@.len() as int),
            attrsv.len() == starts_of(events@.take(i as int)).len(),
            forall|j: int|
                0 <= j < attrsv.len() ==> maps_attr(
                    attr_map,
                    names@[#[trigger] starts_of(events@.take(i as int))[j] as int]@,
                    attrsv[j],
                ),
            forall|ext: Seq<Seq<char>>|
                #[trigger] spec_render(events@, code@, attrsv + ext) == (match spec_render(
                    events@.skip(i as int),
                    code@,
                    ext,
                ) {
                    Ok(rest) => Ok::<Seq<char>, RenderError>(out@ + rest),
                    Err(e) => Err::<Seq<char>, RenderError>(e),
                }),
        decreases events@.len() - i,
    {
        proof {
            assert(events@.skip(i as int).first() == events@[i as int]);
            assert(events@.skip(i as int).drop_first() =~= events@.skip(i + 1));
            assert(events@.take(i + 1) =~= events@.take(i as int).push(events@[i as int]));
            lemma_starts_of_push(events@.take(i as int), events@[i as int]);
            match events@[i as int] {
                HighlightEvent::HighlightStart(_) => {},
                _ => {
                    assert(starts_of(events@.take(i + 1)) =~= starts_of(events@.take(i as int)));
                },
            }
        }
        match events[i] {
            HighlightEvent::Source { start, end } => {
                let code_bytes = code.as_bytes();
                proof {
                    assert(code.spec_bytes() == bytes);
                    assert(vstd::slice::spec_slice_len(code_bytes) == code_bytes@.len());
                }
                if !(start <= end && end <= code_bytes.len() && code.is_char_boundary(start)
                    && code.is_char_boundary(end)) {
                    proof {
                        assert(!event_ok(events@[i as int], code@, names@.len() as int));
                        assert(!events_ok(events@, code@, names@.len() as int));
                    }
                    return Err(RenderError::SourceOutOfRange);
                }
                let (_, tail) = code.split_at(start);
                proof {
                    assert(vstd::utf8::valid_utf8(bytes));
                    assert(tail.spec_bytes() =~= bytes.subrange(start as int, bytes.len() as int));
                    vstd::utf8::valid_utf8_split(bytes, start as int);
                    assert(vstd::utf8::valid_utf8(tail.spec_bytes()));
                    if end < bytes.len() {
                        vstd::utf8::is_char_boundary_iff_not_is_continuation_byte(
                            bytes,
                            end as int,
                        );
                        assert(tail.spec_bytes()[end - start] == bytes[end as int]);
                        vstd::utf8::is_char_boundary_iff_not_is_continuation_byte(
                            tail.spec_bytes(),
                            end - start,
                        );
                    } else {
                        vstd::utf8::is_char_boundary_start_end_of_seq(tail.spec_bytes());
                    }
                    assert(vstd::utf8::is_char_boundary(tail.spec_bytes(), end - start));
                }
                let (piece, _) = tail.split_at(end - start);
                proof {
                    assert(piece.spec_bytes() =~= bytes.subrange(start as int, end as int));
                    assert(vstd::utf8::decode_utf8(piece.spec_bytes()) == piece@);
                }
                let esc = escape_str(piece);
                let ghost prev = out@;
                out.append(esc.as_str());
                proof {
                    assert forall|j: int| 0 <= j < attrsv.len() implies maps_attr(
                        attr_map,
                        names@[#[trigger] starts_of(events@.take(i + 1))[j] as int]@,
                        attrsv[j],
                    ) by {
                        assert(starts_of(events@.take(i + 1))[j] == starts_of(
                            events@.take(i as int),
                        )[j]);
                        assert(maps_attr(
                            attr_map,
                            names@[starts_of(events@.take(i as int))[j] as int]@,
                            attrsv[j],
                        ));
                    }

                    let ghost sliced = escape_text(
                        vstd::utf8::decode_utf8(bytes.subrange(start as int, end as int)),
                    );
                    assert forall|ext: Seq<Seq<char>>|
                        #[trigger] spec_render(events@, code@, attrsv + ext) == (match spec_render(
                            events@.skip(i + 1),
                            code@,
                            ext,
                        ) {
                            Ok(rest) => Ok::<Seq<char>, RenderError>(out@ + rest),
                            Err(e) => Err::<Seq<char>, RenderError>(e),
                        }) by {
                        assert(spec_render(events@, code@, attrsv + ext) == (match spec_render(
                            events@.skip(i as int),
                            code@,
                            ext,
                        ) {
                            Ok(rest) => Ok::<Seq<char>, RenderError>(prev + rest),
                            Err(e) => Err::<Seq<char>, RenderError>(e),
                        }));
                        match spec_render(events@.skip(i + 1), code@, ext) {
                            Ok(rest) => {
                                assert((prev + sliced) + rest =~= prev + (sliced + rest));
                            },
                            Err(_) => {},
                        }
                    }
                }
            },
            HighlightEvent::HighlightStart(c) => {
                if c >= names.len() {
                    proof {
                        assert(!event_ok(events@[i as int], code@, names@.len() as int));
                        assert(!events_ok(events@, code@, names@.len() as int));
                    }
                    return Err(RenderError::UnknownCategory);
                }
                let name_ref = names[c].as_str();
                let attr = attr_map(name_ref);
                let ghost prev = out@;
                let ghost prev_attrs = attrsv;
                out.append("<span ");
                out.append(attr.as_str());
                out.append(">");
                proof {
                    attrsv = attrsv.push(attr@);
                    reveal_strlit("<span ");
                    reveal_strlit(">");
                    assert("<span "@ =~= seq!['<', 's', 'p', 'a', 'n', ' ']);
                    assert(">"@ =~= seq!['>']);
                    assert(out@ =~= prev + span_open(attr@));
                    assert(starts_of(events@.take(i + 1)) =~= starts_of(events@.take(i as int))
                        + seq![c]);
                    assert forall|j: int| 0 <= j < attrsv.len() implies maps_attr(
                        attr_map,
                        names@[#[trigger] starts_of(events@.take(i + 1))[j] as int]@,
                        attrsv[j],
                    ) by {
                        if j < prev_attrs.len() {
                            assert(starts_of(events@.take(i + 1))[j] == starts_of(
                                events@.take(i as int),
                            )[j]);
                            assert(attrsv[j] == prev_attrs[j]);
                            assert(maps_attr(
                                attr_map,
                                names@[starts_of(events@.take(i as int))[j] as int]@,
                                prev_attrs[j],
                            ));
                        } else {
                            assert(starts_of(events@.take(i + 1))[j] == c);
                            assert(attrsv[j] == attr@);
                            assert(name_ref@ == names@[c as int]@ && call_ensures(
                                *attr_map,
                                (name_ref,),
                                attr,
                            ));
                            assert(maps_attr(attr_map, names@[c as int]@, attr@));
                        }
                    }
                    assert forall|ext: Seq<Seq<char>>|
                        #[trigger] spec_render(events@, code@, attrsv + ext) == (match spec_render(
                            events@.skip(i + 1),
                            code@,
                            ext,
                        ) {
                            Ok(rest) => Ok::<Seq<char>, RenderError>(out@ + rest),
                            Err(e) => Err::<Seq<char>, RenderError>(e),
                        }) by {
                        let ext0 = seq![attr@] + ext;
                        assert(attrsv + ext =~= prev_attrs + ext0);
                        assert(spec_render(events@, code@, prev_attrs + ext0) == (
                        match spec_render(events@.skip(i as int), code@, ext0) {
                            Ok(rest) => Ok::<Seq<char>, RenderError>(prev + rest),
                            Err(e) => Err::<Seq<char>, RenderError>(e),
                        }));
                        assert(ext0.first() == attr@);
                        assert(ext0.drop_first() =~= ext);
                        match spec_render(events@.skip(i + 1), code@, ext) {
                            Ok(rest) => {
                                assert((prev + span_open(attr@)) + rest =~= prev + (span_open(
                                    attr@,
                                ) + rest));
                            },
                            Err(_) => {},
                        }
                    }
                }
            },
            HighlightEvent::HighlightEnd => {
                let ghost prev = out@;
                out.append("</span>");
                proof {
                    reveal_strlit("</span>");
                    assert("</span>"@ =~= span_close());
                    assert forall|j: int| 0 <= j < attrsv.len() implies maps_attr(
                        attr_map,
                        names@[#[trigger] starts_of(events@.take(i + 1))[j] as int]@,
                        attrsv[j],
                    ) by {
                        assert(starts_of(events@.take(i + 1))[j] == starts_of(
                            events@.take(i as int),
                        )[j]);
                        assert(maps_attr(
                            attr_map,
                            names@[starts_of(events@.take(i as int))[j] as int]@,
                            attrsv[j],
                        ));
                    }

                    assert forall|ext: Seq<Seq<char>>|
                        #[trigger] spec_render(events@, code@, attrsv + ext) == (match spec_render(
                            events@.skip(i + 1),
                            code@,
                            ext,
                        ) {
                            Ok(rest) => Ok::<Seq<char>, RenderError>(out@ + rest),
                            Err(e) => Err::<Seq<char>, RenderError>(e),
                        }) by {
                        assert(spec_render(events@, code@, attrsv + ext) == (match spec_render(
                            events@.skip(i as int),
                            code@,
                            ext,
                        ) {
                            Ok(rest) => Ok::<Seq<char>, RenderError>(prev + rest),
                            Err(e) => Err::<Seq<char>, RenderError>(e),
                        }));
                        match spec_render(events@.skip(i + 1), code@, ext) {
                            Ok(rest) => {
                                assert((prev + span_close()) + rest =~= prev + (span_close()
                                    + rest));
                            },
                            Err(_) => {},
                        }
                    }
                }
            },
        }
        i += 1;
    }
    proof {
        assert(events@.take(events@.len() as int) =~= events@);
        assert(events@.skip(events@.len() as int) =~= Seq::<HighlightEvent>::empty());
        assert(attrsv + Seq::<Seq<char>>::empty() =~= attrsv);
        assert(out@ + Seq::<char>::empty() =~= out@);
        assert(spec_render(events@, code@, attrsv) == Ok::<Seq<char>, RenderError>(out@));
        assert(attrsv.len() == starts_of(events@).len());
        assert forall|j: int| 0 <= j < attrsv.len() implies maps_attr(
            attr_map,
            names@[#[trigger] starts_of(events@)[j] as int]@,
            attrsv[j],
        ) by {
            let gi = events@.len() as int;
            assert(starts_of(events@)[j] == starts_of(events@.take(gi))[j]);
            assert(maps_attr(attr_map, names@[starts_of(events@.take(gi))[j] as int]@, attrsv[j]));
        }
        assert({
            &&& attrsv.len() == starts_of(events@).len()
            &&& (forall|j: int|
                0 <= j < attrsv.len() ==> maps_attr(
                    attr_map,
                    names@[#[trigger] starts_of(events@)[j] as int]@,
                    attrsv[j],
                ))
            &&& spec_render(events@, code@, attrsv) == Ok::<Seq<char>, RenderError>(out@)
        });
    }
    Ok(out)
}

} // verus!
