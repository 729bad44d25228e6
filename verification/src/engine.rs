//! Trusted boundary to the external grammar and highlighting engine.
//!
//! Everything the library assumes about the engine stands here: the opaque
//! types it hands out and the three calls the library makes into it.  The
//! engine's answers are never trusted beyond what these items state; the
//! event stream it yields is handed to the verified renderer, which is
//! proved correct for every possible stream.

use vstd::prelude::*;
use tree_sitter::Language as TSLanguage;
use crate::render::HighlightEvent;

verus! {

/// An opaque grammar handle of the external engine.
#[verifier::external_type_specification]
#[verifier::external_body]
pub struct ExTsLanguage(TSLanguage);

/// An opaque per-language highlight configuration of the external engine.
#[verifier::external_type_specification]
#[verifier::external_body]
pub struct ExHighlightConfiguration(tree_sitter_highlight::HighlightConfiguration);

/// The external engine's query rejection error.
#[verifier::external_type_specification]
#[verifier::external_body]
pub struct ExQueryError(tree_sitter::QueryError);

/// The external engine's highlighting failure error.
#[verifier::external_type_specification]
#[verifier::external_body]
pub struct ExHighlightError(tree_sitter_highlight::Error);

/// Relies on `tree_sitter_highlight::HighlightConfiguration::new`, which
/// builds a per-language configuration from a grammar handle, a language
/// name and the three query texts, and rejects malformed query text.
#[verifier::external_body]
pub(crate) fn new_configuration(
    grammar: TSLanguage,
    name: &str,
    highlights: &str,
    injections: &str,
    locals: &str,
) -> Result<tree_sitter_highlight::HighlightConfiguration, tree_sitter::QueryError> {
    tree_sitter_highlight::HighlightConfiguration::new(grammar, name, highlights, injections, locals)
}

/// Relies on `HighlightConfiguration::configure`, which records the ordered
/// category list that the indexes of later events refer to.
#[verifier::external_body]
pub(crate) fn configure_names(
    config: &mut tree_sitter_highlight::HighlightConfiguration,
    names: &Vec<String>,
) {
    config.configure(names.as_slice());
}

/// Relies on `Highlighter::highlight`, which parses the source under the
/// configuration's grammar and queries and yields highlight events.
/// Nothing is assumed of the events that come back: the renderer is
/// verified for every possible stream.
#[verifier::external_body]
pub(crate) fn run_engine(
    config: &tree_sitter_highlight::HighlightConfiguration,
    code: &str,
) -> Result<Vec<HighlightEvent>, tree_sitter_highlight::Error> {
    let mut highlighter = tree_sitter_highlight::Highlighter::new();
    let events = highlighter.highlight(config, code.as_bytes(), None, None, |_| None)?;
    let mut out = Vec::new();
    for event in events {
        out.push(match event? {
            tree_sitter_highlight::HighlightEvent::Source { start, end } =>
                HighlightEvent::Source { start, end },
            tree_sitter_highlight::HighlightEvent::HighlightStart(h) =>
                HighlightEvent::HighlightStart(h.0),
            tree_sitter_highlight::HighlightEvent::HighlightEnd => HighlightEvent::HighlightEnd,
        });
    }
    Ok(out)
}

} // verus!
