//! Syntax-aware HTML rendering driven by per-language highlight queries.
//!
//! The crate resolves per-language query texts (expanding `inherits`
//! directives), builds one highlight configuration per language through an
//! external grammar and matching engine, and renders the engine's event
//! stream into nested, escaped HTML `<span>` markup.

use vstd::prelude::*;

pub mod config;
mod engine;
pub mod escape;
pub mod languages;
pub mod queries;
pub mod render;
mod text;

use crate::config::{ConfigError, HighlightRegistry, spec_config_texts};
use crate::engine::run_engine;
use crate::languages::{Language, spec_language_for, language_for_alias};
use crate::render::{
    HighlightEvent, RenderError, render_events, spec_render, events_ok, starts_of, maps_attr,
};

verus! {

/// Why one highlighting call failed.  An unknown string alias is not a
/// failure: it is an absent result of the alias lookup.
#[derive(Clone, Copy, Debug, PartialEq, Eq, Structural)]
pub enum HighlightError {
    /// A stored query text names a parent whose text cannot be resolved.
    BrokenInheritance,
    /// The external engine rejected a resolved query text as malformed.
    QueryRejected,
    /// The external engine could not produce an event stream.
    Engine,
    /// The event stream violated the engine's contract.
    Render(RenderError),
}

/// Renders source text of a language into HTML.  The attribute mapper
/// supplies, for each highlight category name, the attribute text written
/// into that span's opening tag.
pub fn highlight_to_html<F: Fn(&str) -> String>(
    registry: &mut HighlightRegistry,
    lang: &Language,
    code: &str,
    attr_map: &F,
) -> (r: Result<String, HighlightError>)
    requires
        old(registry).wf(),
        forall|s: &str| call_requires(*attr_map, (s,)),
    ensures
        final(registry).wf(),
        final(registry).highlights_view() == old(registry).highlights_view(),
        final(registry).injections_view() == old(registry).injections_view(),
        final(registry).locals_view() == old(registry).locals_view(),
        final(registry).names_view() == old(registry).names_view(),
        forall|l: Language| old(registry).built(l) ==> final(registry).built(l),
        old(registry).built(*lang) ==> *final(registry) == *old(registry),
        r is Ok ==> final(registry).built(*lang),
        (r matches Err(e) && e == HighlightError::BrokenInheritance) <==> spec_config_texts(
            old(registry).highlights_view(),
            old(registry).injections_view(),
            old(registry).locals_view(),
            *lang,
        ) is None,
        r matches Ok(out) ==> exists|events: Seq<HighlightEvent>, attrsv: Seq<Seq<char>>|
            {
                &&& events_ok(events, code@, old(registry).names_view().len() as int)
                &&& attrsv.len() == starts_of(events).len()
                &&& (forall|j: int|
                    0 <= j < attrsv.len() ==> maps_attr(
                        attr_map,
                        old(registry).names_view()[#[trigger] starts_of(events)[j] as int]@,
                        attrsv[j],
                    ))
                &&& spec_render(events, code@, attrsv) == Ok::<Seq<char>, RenderError>(out@)
            },
{
    let config = match registry.get_config(lang) {
        Err(ConfigError::BrokenInheritance) => {
            return Err(HighlightError::BrokenInheritance);
        },
        Err(ConfigError::QueryRejected) => {
            return Err(HighlightError::QueryRejected);
        },
        Ok(c) => c,
    };
    let events = match run_engine(config, code) {
        Err(_) => {
            return Err(HighlightError::Engine);
        },
        Ok(ev) => ev,
    };
    let names = registry.category_names();
    match render_events(&events, code, names, attr_map) {
        Ok(html) => {
            proof {
                let attrsv = choose|attrsv: Seq<Seq<char>>|
                    {
                        &&& attrsv.len() == starts_of(events@).len()
                        &&& (forall|j: int|
                            0 <= j < attrsv.len() ==> maps_attr(
                                attr_map,
                                names@[#[trigger] starts_of(events@)[j] as int]@,
                                attrsv[j],
                            ))
                        &&& spec_render(events@, code@, attrsv) == Ok::<Seq<char>, RenderError>(
                            html@,
                        )
                    };
                assert({
                    &&& events_ok(events@, code@, old(registry).names_view().len() as int)
                    &&& attrsv.len() == starts_of(events@).len()
                    &&& (forall|j: int|
                        0 <= j < attrsv.len() ==> maps_attr(
                            attr_map,
                            old(registry).names_view()[#[trigger] starts_of(events@)[j] as int]@,
                            attrsv[j],
                        ))
                    &&& spec_render(events@, code@, attrsv) == Ok::<Seq<char>, RenderError>(html@)
                });
            }
            Ok(html)
        },
        Err(e) => Err(HighlightError::Render(e)),
    }
}

/// Renders source text named by a string alias into HTML: an unknown alias
/// yields an absent result, never a fault.
pub fn highlight_to_html_with_str_language<F: Fn(&str) -> String>(
    registry: &mut HighlightRegistry,
    lang: &str,
    code: &str,
    attr_map: &F,
) -> (r: Option<Result<String, HighlightError>>)
    requires
        old(registry).wf(),
        forall|s: &str| call_requires(*attr_map, (s,)),
    ensures
        final(registry).wf(),
        final(registry).highlights_view() == old(registry).highlights_view(),
        final(registry).injections_view() == old(registry).injections_view(),
        final(registry).locals_view() == old(registry).locals_view(),
        final(registry).names_view() == old(registry).names_view(),
        forall|l: Language| old(registry).built(l) ==> final(registry).built(l),
        r is None ==> *final(registry) == *old(registry),
        (spec_language_for(lang@) matches Some(l) && old(registry).built(l)) ==> *final(registry)
            == *old(registry),
        (r is None <==> spec_language_for(lang@) is None),
        r matches Some(inner) ==> ((inner matches Err(e) && e
            == HighlightError::BrokenInheritance) <==> spec_config_texts(
            old(registry).highlights_view(),
            old(registry).injections_view(),
            old(registry).locals_view(),
            spec_language_for(lang@).unwrap(),
        ) is None),
        r matches Some(inner) ==> (inner matches Ok(out) ==> exists|
            events: Seq<HighlightEvent>,
            attrsv: Seq<Seq<char>>,
        |
            {
                &&& events_ok(events, code@, old(registry).names_view().len() as int)
                &&& attrsv.len() == starts_of(events).len()
                &&& (forall|j: int|
                    0 <= j < attrsv.len() ==> maps_attr(
                        attr_map,
                        old(registry).names_view()[#[trigger] starts_of(events)[j] as int]@,
                        attrsv[j],
                    ))
                &&& spec_render(events, code@, attrsv) == Ok::<Seq<char>, RenderError>(out@)
            }),
{
    match language_for_alias(lang) {
        None => None,
        Some(language) => Some(highlight_to_html(registry, &language, code, attr_map)),
    }
}

} // verus!
