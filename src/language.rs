//! The source languages that rules are written for.
use vstd::prelude::*;

verus! {

/// A source language. It selects the suppression-comment dialect and the
/// generated-file markers.
#[derive(Clone, Copy, Debug, PartialEq, Eq, Hash, Structural)]
pub enum Language {
    Python,
    Starlark,
    Dockerfile,
    Ruby,
    Terraform,
    Yaml,
    Bash,
    JavaScript,
    TypeScript,
    Go,
    Rust,
    Csharp,
    Java,
    Kotlin,
    Swift,
    Json,
    PHP,
}

} // verus!
