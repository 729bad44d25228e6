//! The per-language highlight configuration cache.
//!
//! The registry owns the three query stores and builds, once per language
//! and on first use, the external engine's configuration object from the
//! language's grammar and its three resolved query texts.  A kind with no
//! stored text is passed to the engine as an empty query text; a broken
//! inheritance chain makes the build fail for that language alone.

use vstd::prelude::*;
use vstd::pervasive::VecAdditionalExecFns;
use crate::languages::{Language, language_at, language_count, grammar_for};
use crate::queries::{QueryStore, QueryKind, Resolution, spec_lookup, spec_query, resolve};
use crate::engine::{new_configuration, configure_names};

verus! {

/// The highlight category name at a position of the fixed taxonomy.
pub open spec fn spec_highlight_name(i: int) -> Seq<char> {
    if i == 0 {
        "annotation"@
    } else if i == 1 {
        "attribute"@
    } else if i == 2 {
        "boolean"@
    } else if i == 3 {
        "character"@
    } else if i == 4 {
        "character.special"@
    } else if i == 5 {
        "comment"@
    } else if i == 6 {
        "conditional"@
    } else if i == 7 {
        "constant"@
    } else if i == 8 {
        "constant.builtin"@
    } else if i == 9 {
        "constant.macro"@
    } else if i == 10 {
        "constructor"@
    } else if i == 11 {
        "debug"@
    } else if i == 12 {
        "define"@
    } else if i == 13 {
        "error"@
    } else if i == 14 {
        "exception"@
    } else if i == 15 {
        "field"@
    } else if i == 16 {
        "float"@
    } else if i == 17 {
        "function"@
    } else if i == 18 {
        "function.builtin"@
    } else if i == 19 {
        "function.macro"@
    } else if i == 20 {
        "include"@
    } else if i == 21 {
        "keyword"@
    } else if i == 22 {
        "keyword.function"@
    } else if i == 23 {
        "keyword.operator"@
    } else if i == 24 {
        "keyword.return"@
    } else if i == 25 {
        "label"@
    } else if i == 26 {
        "method"@
    } else if i == 27 {
        "namespace"@
    } else if i == 28 {
        "none"@
    } else if i == 29 {
        "number"@
    } else if i == 30 {
        "operator"@
    } else if i == 31 {
        "parameter"@
    } else if i == 32 {
        "parameter.reference"@
    } else if i == 33 {
        "preproc"@
    } else if i == 34 {
        "property"@
    } else if i == 35 {
        "punctuation.delimiter"@
    } else if i == 36 {
        "punctuation.bracket"@
    } else if i == 37 {
        "punctuation.special"@
    } else if i == 38 {
        "repeat"@
    } else if i == 39 {
        "storageclass"@
    } else if i == 40 {
        "string"@
    } else if i == 41 {
        "string.regex"@
    } else if i == 42 {
        "string.escape"@
    } else if i == 43 {
        "string.special"@
    } else if i == 44 {
        "symbol"@
    } else if i == 45 {
        "tag"@
    } else if i == 46 {
        "tag.attribute"@
    } else if i == 47 {
        "tag.delimiter"@
    } else if i == 48 {
        "text"@
    } else if i == 49 {
        "text.strong"@
    } else if i == 50 {
        "text.emphasis"@
    } else if i == 51 {
        "text.underline"@
    } else if i == 52 {
        "text.strike"@
    } else if i == 53 {
        "text.title"@
    } else if i == 54 {
        "text.literal"@
    } else if i == 55 {
        "text.uri"@
    } else if i == 56 {
        "text.math"@
    } else if i == 57 {
        "text.reference"@
    } else if i == 58 {
        "text.environment"@
    } else if i == 59 {
        "text.environment.name"@
    } else if i == 60 {
        "text.note"@
    } else if i == 61 {
        "text.warning"@
    } else if i == 62 {
        "text.danger"@
    } else if i == 63 {
        "todo"@
    } else if i == 64 {
        "type"@
    } else if i == 65 {
        "type.builtin"@
    } else if i == 66 {
        "type.qualifier"@
    } else if i == 67 {
        "type.definition"@
    } else if i == 68 {
        "variable"@
    } else {
        "variable.builtin"@
    }
}

/// The highlight category name at a position of the fixed taxonomy.
pub fn highlight_name_at(i: usize) -> (r: &'static str)
    requires
        i < 70,
    ensures
        r@ == spec_highlight_name(i as int),
{
    if i == 0 {
        "annotation"
    } else if i == 1 {
        "attribute"
    } else if i == 2 {
        "boolean"
    } else if i == 3 {
        "character"
    } else if i == 4 {
        "character.special"
    } else if i == 5 {
        "comment"
    } else if i == 6 {
        "conditional"
    } else if i == 7 {
        "constant"
    } else if i == 8 {
        "constant.builtin"
    } else if i == 9 {
        "constant.macro"
    } else if i == 10 {
        "constructor"
    } else if i == 11 {
        "debug"
    } else if i == 12 {
        "define"
    } else if i == 13 {
        "error"
    } else if i == 14 {
        "exception"
    } else if i == 15 {
        "field"
    } else if i == 16 {
        "float"
    } else if i == 17 {
        "function"
    } else if i == 18 {
        "function.builtin"
    } else if i == 19 {
        "function.macro"
    } else if i == 20 {
        "include"
    } else if i == 21 {
        "keyword"
    } else if i == 22 {
        "keyword.function"
    } else if i == 23 {
        "keyword.operator"
    } else if i == 24 {
        "keyword.return"
    } else if i == 25 {
        "label"
    } else if i == 26 {
        "method"
    } else if i == 27 {
        "namespace"
    } else if i == 28 {
        "none"
    } else if i == 29 {
        "number"
    } else if i == 30 {
        "operator"
    } else if i == 31 {
        "parameter"
    } else if i == 32 {
        "parameter.reference"
    } else if i == 33 {
        "preproc"
    } else if i == 34 {
        "property"
    } else if i == 35 {
        "punctuation.delimiter"
    } else if i == 36 {
        "punctuation.bracket"
    } else if i == 37 {
        "punctuation.special"
    } else if i == 38 {
        "repeat"
    } else if i == 39 {
        "storageclass"
    } else if i == 40 {
        "string"
    } else if i == 41 {
        "string.regex"
    } else if i == 42 {
        "string.escape"
    } else if i == 43 {
        "string.special"
    } else if i == 44 {
        "symbol"
    } else if i == 45 {
        "tag"
    } else if i == 46 {
        "tag.attribute"
    } else if i == 47 {
        "tag.delimiter"
    } else if i == 48 {
        "text"
    } else if i == 49 {
        "text.strong"
    } else if i == 50 {
        "text.emphasis"
    } else if i == 51 {
        "text.underline"
    } else if i == 52 {
        "text.strike"
    } else if i == 53 {
        "text.title"
    } else if i == 54 {
        "text.literal"
    } else if i == 55 {
        "text.uri"
    } else if i == 56 {
        "text.math"
    } else if i == 57 {
        "text.reference"
    } else if i == 58 {
        "text.environment"
    } else if i == 59 {
        "text.environment.name"
    } else if i == 60 {
        "text.note"
    } else if i == 61 {
        "text.warning"
    } else if i == 62 {
        "text.danger"
    } else if i == 63 {
        "todo"
    } else if i == 64 {
        "type"
    } else if i == 65 {
        "type.builtin"
    } else if i == 66 {
        "type.qualifier"
    } else if i == 67 {
        "type.definition"
    } else if i == 68 {
        "variable"
    } else {
        "variable.builtin"
    }
}

/// The fixed, ordered, closed list of highlight category names.  Events
/// produced by the external engine reference a category by its position in
/// this list, so the same list must be registered with the engine at
/// configuration time and used when rendering the resulting events.
pub fn highlight_names() -> (r: Vec<String>)
    ensures
        r@.len() == 70,
        forall|i: int| 0 <= i < 70 ==> (#[trigger] r@[i])@ == spec_highlight_name(i),
{
    let mut v: Vec<String> = Vec::new();
    let mut i: usize = 0;
    while i < 70
        invariant
            i <= 70,
            v@.len() == i,
            forall|j: int| 0 <= j < i ==> (#[trigger] v@[j])@ == spec_highlight_name(j),
        decreases 70 - i,
    {
        v.push(String::from_str(highlight_name_at(i)));
        i += 1;
    }
    v
}

/// Why a language's configuration could not be built.
#[derive(Clone, Copy, Debug, PartialEq, Eq, Structural)]
pub enum ConfigError {
    /// A stored query text names a parent whose text cannot be resolved,
    /// or its inheritance chain is cyclic.
    BrokenInheritance,
    /// The external engine rejected the resolved query text as malformed.
    QueryRejected,
}

/// The store name under which a language's text of a kind is kept.  The
/// JSX dialect has highlight rules of its own but shares the JavaScript
/// injection and locals rules.
pub open spec fn spec_query_key(language: Language, kind: QueryKind) -> Seq<char> {
    match language {
        Language::Rust => "rust"@,
        Language::Javascript => "javascript"@,
        Language::JavascriptJsx => if kind == QueryKind::Highlights {
            "jsx"@
        } else {
            "javascript"@
        },
        Language::Typescript => "typescript"@,
        Language::TypescriptTsx => "tsx"@,
        Language::Python => "python"@,
        Language::Cpp => "cpp"@,
        Language::Java => "java"@,
        Language::Go => "go"@,
    }
}

/// The store name under which a language's text of a kind is kept.
pub fn query_key(language: &Language, kind: QueryKind) -> (r: &'static str)
    ensures
        r@ == spec_query_key(*language, kind),
{
    match language {
        Language::Rust => "rust",
        Language::Javascript => "javascript",
        Language::JavascriptJsx => if kind == QueryKind::Highlights {
            "jsx"
        } else {
            "javascript"
        },
        Language::Typescript => "typescript",
        Language::TypescriptTsx => "tsx",
        Language::Python => "python",
        Language::Cpp => "cpp",
        Language::Java => "java",
        Language::Go => "go",
    }
}

/// The effective text of one kind for one store name: an absent text is an
/// empty query, a present one must resolve.
pub open spec fn spec_kind_text(store: Seq<(Seq<char>, Seq<char>)>, key: Seq<char>) -> Option<
    Seq<char>,
> {
    if spec_lookup(store, key) is None {
        Some(Seq::empty())
    } else {
        spec_query(store, key)
    }
}

/// The three resolved query texts a language's configuration is built
/// from, or nothing when one of them cannot be resolved.
pub open spec fn spec_config_texts(
    highlights: Seq<(Seq<char>, Seq<char>)>,
    injections: Seq<(Seq<char>, Seq<char>)>,
    locals: Seq<(Seq<char>, Seq<char>)>,
    language: Language,
) -> Option<(Seq<char>, Seq<char>, Seq<char>)> {
    let th = spec_kind_text(highlights, spec_query_key(language, QueryKind::Highlights));
    let ti = spec_kind_text(injections, spec_query_key(language, QueryKind::Injections));
    let tl = spec_kind_text(locals, spec_query_key(language, QueryKind::Locals));
    if th is Some && ti is Some && tl is Some {
        Some((th.unwrap(), ti.unwrap(), tl.unwrap()))
    } else {
        None
    }
}

/// An absent kind never blocks a configuration: a store that has no text
/// under the key contributes an empty query text.
pub proof fn lemma_absent_kind_is_empty(store: Seq<(Seq<char>, Seq<char>)>, key: Seq<char>)
    requires
        spec_lookup(store, key) is None,
    ensures
        spec_kind_text(store, key) == Some(Seq::<char>::empty()),
{
}

/// A language's configuration texts exist whenever each kind's text is
/// either absent altogether or resolves; in particular, absent kinds alone
/// never prevent construction.
pub proof fn lemma_config_texts_exist(
    highlights: Seq<(Seq<char>, Seq<char>)>,
    injections: Seq<(Seq<char>, Seq<char>)>,
    locals: Seq<(Seq<char>, Seq<char>)>,
    language: Language,
)
    requires
        spec_lookup(highlights, spec_query_key(language, QueryKind::Highlights)) is None
            || spec_query(highlights, spec_query_key(language, QueryKind::Highlights)) is Some,
        spec_lookup(injections, spec_query_key(language, QueryKind::Injections)) is None
            || spec_query(injections, spec_query_key(language, QueryKind::Injections)) is Some,
        spec_lookup(locals, spec_query_key(language, QueryKind::Locals)) is None || spec_query(
            locals,
            spec_query_key(language, QueryKind::Locals),
        ) is Some,
    ensures
        spec_config_texts(highlights, injections, locals, language) is Some,
{
}

/// The registry: the three query stores, the category list, and one lazily
/// built engine configuration per language, cached for the registry's
/// lifetime.  The stores and the category list never change after
/// construction, so a built configuration stays valid.
pub struct HighlightRegistry {
    highlights: QueryStore,
    injections: QueryStore,
    locals: QueryStore,
    names: Vec<String>,
    configs: Vec<Option<tree_sitter_highlight::HighlightConfiguration>>,
}

impl HighlightRegistry {
    /// The highlights store, as name/text pairs.
    pub closed spec fn highlights_view(&self) -> Seq<(Seq<char>, Seq<char>)> {
        self.highlights@
    }

    /// The injections store, as name/text pairs.
    pub closed spec fn injections_view(&self) -> Seq<(Seq<char>, Seq<char>)> {
        self.injections@
    }

    /// The locals store, as name/text pairs.
    pub closed spec fn locals_view(&self) -> Seq<(Seq<char>, Seq<char>)> {
        self.locals@
    }

    /// The category list the registry hands to the engine and the renderer.
    pub closed spec fn names_view(&self) -> Seq<String> {
        self.names@
    }

    /// Whether a language's configuration has been built already.
    pub closed spec fn built(&self, language: Language) -> bool {
        self.configs@[language.spec_index()] is Some
    }

    /// The registry invariant: one configuration slot per language, and a
    /// built slot certifies that the language's three texts resolve.
    pub closed spec fn wf(&self) -> bool {
        &&& self.configs@.len() == language_count()
        &&& forall|i: int|
            0 <= i < language_count() ==> ((#[trigger] self.configs@[i]) is Some
                ==> spec_config_texts(
                self.highlights@,
                self.injections@,
                self.locals@,
                language_at(i),
            ) is Some)
    }

    /// A fresh registry over the given stores; no configuration is built
    /// yet.
    pub fn new(highlights: QueryStore, injections: QueryStore, locals: QueryStore) -> (r:
        HighlightRegistry)
        ensures
            r.wf(),
            r.highlights_view() == highlights@,
            r.injections_view() == injections@,
            r.locals_view() == locals@,
            r.names_view().len() == 70,
            forall|i: int|
                0 <= i < 70 ==> (#[trigger] r.names_view()[i])@ == spec_highlight_name(i),
    {
        let names = highlight_names();
        let mut configs: Vec<Option<tree_sitter_highlight::HighlightConfiguration>> = Vec::new();
        let mut i: usize = 0;
        while i < 9
            invariant
                i <= 9,
                configs@.len() == i,
                forall|j: int| 0 <= j < i ==> (#[trigger] configs@[j]) is None,
            decreases 9 - i,
        {
            configs.push(None);
            i += 1;
        }
        HighlightRegistry { highlights, injections, locals, names, configs }
    }

    /// The category list, in the order the engine was configured with.
    pub fn category_names(&self) -> (r: &Vec<String>)
        ensures
            r@ == self.names_view(),
    {
        &self.names
    }

    /// The configuration for a language: built from the grammar and the
    /// three resolved query texts on first use, served from the cache
    /// afterwards.  An absent kind becomes an empty query text; a broken
    /// inheritance chain or a query text the engine rejects fails this
    /// language alone and leaves the registry usable for every other one.
    pub fn get_config(&mut self, language: &Language) -> (r: Result<
        &tree_sitter_highlight::HighlightConfiguration,
        ConfigError,
    >)
        requires
            old(self).wf(),
        ensures
            final(self).wf(),
            final(self).highlights_view() == old(self).highlights_view(),
            final(self).injections_view() == old(self).injections_view(),
            final(self).locals_view() == old(self).locals_view(),
            final(self).names_view() == old(self).names_view(),
            old(self).built(*language) ==> r is Ok,
            old(self).built(*language) ==> *final(self) == *old(self),
            forall|l: Language| old(self).built(l) ==> final(self).built(l),
            r is Ok ==> final(self).built(*language),
            r is Ok ==> spec_config_texts(
                old(self).highlights_view(),
                old(self).injections_view(),
                old(self).locals_view(),
                *language,
            ) is Some,
            (r matches Err(e) && e == ConfigError::BrokenInheritance) <==> spec_config_texts(
                old(self).highlights_view(),
                old(self).injections_view(),
                old(self).locals_view(),
                *language,
            ) is None,
    {
        let idx = language.index();
        if self.configs[idx].is_none() {
            let th = match resolve(&self.highlights, query_key(language, QueryKind::Highlights)) {
                Resolution::Missing => String::new(),
                Resolution::Broken => {
                    return Err(ConfigError::BrokenInheritance);
                },
                Resolution::Text(t) => t,
            };
            let ti = match resolve(&self.injections, query_key(language, QueryKind::Injections)) {
                Resolution::Missing => String::new(),
                Resolution::Broken => {
                    return Err(ConfigError::BrokenInheritance);
                },
                Resolution::Text(t) => t,
            };
            let tl = match resolve(&self.locals, query_key(language, QueryKind::Locals)) {
                Resolution::Missing => String::new(),
                Resolution::Broken => {
                    return Err(ConfigError::BrokenInheritance);
                },
                Resolution::Text(t) => t,
            };
            proof {
                assert(spec_config_texts(
                    self.highlights@,
                    self.injections@,
                    self.locals@,
                    *language,
                ) is Some);
            }
            let grammar = grammar_for(language);
            let name = query_key(language, QueryKind::Highlights);
            let mut config = match new_configuration(
                grammar,
                name,
                th.as_str(),
                ti.as_str(),
                tl.as_str(),
            ) {
                Err(_) => {
                    return Err(ConfigError::QueryRejected);
                },
                Ok(c) => c,
            };
            configure_names(&mut config, &self.names);
            self.configs.set(idx, Some(config));
        }
        match &self.configs[idx] {
            Some(c) => Ok(c),
            None => vstd::pervasive::unreached(),
        }
    }
}

} // verus!
