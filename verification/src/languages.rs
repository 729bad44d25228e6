//! The supported languages, their string aliases and their grammars.

use vstd::prelude::*;
use tree_sitter::Language as TSLanguage;
use crate::text::{chars_of, chars_eq};

verus! {

/// The list of supported languages.
#[derive(Debug, Hash, PartialEq, Eq, Clone, Copy, Structural)]
pub enum Language {
    Rust,
    Javascript,
    JavascriptJsx,
    Typescript,
    TypescriptTsx,
    Python,
    Cpp,
    Java,
    Go,
}

/// How many languages the library supports.
pub open spec fn language_count() -> int {
    9
}

/// The language at a position of the configuration table.
pub open spec fn language_at(i: int) -> Language {
    if i == 0 {
        Language::Rust
    } else if i == 1 {
        Language::Javascript
    } else if i == 2 {
        Language::JavascriptJsx
    } else if i == 3 {
        Language::Typescript
    } else if i == 4 {
        Language::TypescriptTsx
    } else if i == 5 {
        Language::Python
    } else if i == 6 {
        Language::Cpp
    } else if i == 7 {
        Language::Java
    } else {
        Language::Go
    }
}

impl Language {
    /// The position of this language in the configuration table.
    pub open spec fn spec_index(self) -> int {
        match self {
            Language::Rust => 0,
            Language::Javascript => 1,
            Language::JavascriptJsx => 2,
            Language::Typescript => 3,
            Language::TypescriptTsx => 4,
            Language::Python => 5,
            Language::Cpp => 6,
            Language::Java => 7,
            Language::Go => 8,
        }
    }

    /// The position of this language in the configuration table.
    pub fn index(&self) -> (i: usize)
        ensures
            i == self.spec_index(),
            i < language_count(),
            language_at(i as int) == *self,
    {
        match self {
            Language::Rust => 0,
            Language::Javascript => 1,
            Language::JavascriptJsx => 2,
            Language::Typescript => 3,
            Language::TypescriptTsx => 4,
            Language::Python => 5,
            Language::Cpp => 6,
            Language::Java => 7,
            Language::Go => 8,
        }
    }
}

/// The language a case-sensitive string alias names, if any.
pub open spec fn spec_language_for(alias: Seq<char>) -> Option<Language> {
    if alias == "rust"@ {
        Some(Language::Rust)
    } else if alias == "js"@ {
        Some(Language::Javascript)
    } else if alias == "javascript"@ {
        Some(Language::Javascript)
    } else if alias == "jsx"@ {
        Some(Language::JavascriptJsx)
    } else if alias == "typescript"@ {
        Some(Language::Typescript)
    } else if alias == "ts"@ {
        Some(Language::Typescript)
    } else if alias == "tsx"@ {
        Some(Language::TypescriptTsx)
    } else if alias == "python"@ {
        Some(Language::Python)
    } else if alias == "cpp"@ {
        Some(Language::Cpp)
    } else if alias == "java"@ {
        Some(Language::Java)
    } else if alias == "go"@ {
        Some(Language::Go)
    } else {
        None
    }
}

/// Looks a language up by its case-sensitive string alias.
pub fn language_for_alias(alias: &str) -> (r: Option<Language>)
    ensures
        r == spec_language_for(alias@),
{
    let a = chars_of(alias);
    if chars_eq(&a, &chars_of("rust")) {
        Some(Language::Rust)
    } else if chars_eq(&a, &chars_of("js")) {
        Some(Language::Javascript)
    } else if chars_eq(&a, &chars_of("javascript")) {
        Some(Language::Javascript)
    } else if chars_eq(&a, &chars_of("jsx")) {
        Some(Language::JavascriptJsx)
    } else if chars_eq(&a, &chars_of("typescript")) {
        Some(Language::Typescript)
    } else if chars_eq(&a, &chars_of("ts")) {
        Some(Language::Typescript)
    } else if chars_eq(&a, &chars_of("tsx")) {
        Some(Language::TypescriptTsx)
    } else if chars_eq(&a, &chars_of("python")) {
        Some(Language::Python)
    } else if chars_eq(&a, &chars_of("cpp")) {
        Some(Language::Cpp)
    } else if chars_eq(&a, &chars_of("java")) {
        Some(Language::Java)
    } else if chars_eq(&a, &chars_of("go")) {
        Some(Language::Go)
    } else {
        None
    }
}

// ---------------------------------------------------------------------------
// Grammars, provided by the external engine's grammar crates.
// ---------------------------------------------------------------------------

/// Relies on `tree_sitter_cpp::LANGUAGE`: the C++ grammar as a handle.
#[verifier::external_body]
pub fn cpp() -> TSLanguage {
    TSLanguage::new(tree_sitter_cpp::LANGUAGE)
}

/// Relies on `tree_sitter_go::LANGUAGE`: the Go grammar as a handle.
#[verifier::external_body]
pub fn go() -> TSLanguage {
    TSLanguage::new(tree_sitter_go::LANGUAGE)
}

/// Relies on `tree_sitter_java::LANGUAGE`: the Java grammar as a handle.
#[verifier::external_body]
pub fn java() -> TSLanguage {
    TSLanguage::new(tree_sitter_java::LANGUAGE)
}

/// Relies on `tree_sitter_python::LANGUAGE`: the Python grammar as a handle.
#[verifier::external_body]
pub fn python() -> TSLanguage {
    TSLanguage::new(tree_sitter_python::LANGUAGE)
}

/// Relies on `tree_sitter_rust::LANGUAGE`: the Rust grammar as a handle.
#[verifier::external_body]
pub fn rust() -> TSLanguage {
    TSLanguage::new(tree_sitter_rust::LANGUAGE)
}

/// Relies on `tree_sitter_javascript::LANGUAGE`: the JavaScript grammar,
/// which also parses JSX, as a handle.
#[verifier::external_body]
pub fn javascript() -> TSLanguage {
    TSLanguage::new(tree_sitter_javascript::LANGUAGE)
}

/// Relies on `tree_sitter_typescript::LANGUAGE_TYPESCRIPT`: the TypeScript
/// grammar as a handle.
#[verifier::external_body]
pub fn typescript() -> TSLanguage {
    TSLanguage::new(tree_sitter_typescript::LANGUAGE_TYPESCRIPT)
}

/// Relies on `tree_sitter_typescript::LANGUAGE_TSX`: the TSX grammar as a
/// handle.
#[verifier::external_body]
pub fn tsx() -> TSLanguage {
    TSLanguage::new(tree_sitter_typescript::LANGUAGE_TSX)
}

/// The grammar handle for a language.  JavaScript and its JSX dialect share
/// one grammar.
pub fn grammar_for(language: &Language) -> TSLanguage {
    match language {
        Language::Rust => rust(),
        Language::Javascript => javascript(),
        Language::JavascriptJsx => javascript(),
        Language::Typescript => typescript(),
        Language::TypescriptTsx => tsx(),
        Language::Python => python(),
        Language::Cpp => cpp(),
        Language::Java => java(),
        Language::Go => go(),
    }
}

} // verus!
