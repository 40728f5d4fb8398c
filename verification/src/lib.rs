//! Generate TypeScript declarations from Rust source text.
//!
//! The pipeline parses a Rust source file, extracts its structs, enums and
//! traits into a TypeScript-oriented model, and renders that model as
//! TypeScript interface, enum and union-type declarations.

pub mod enums;
pub mod extract;
pub mod frontend;
pub mod generator;
pub mod host;
pub mod laws;
pub mod text;
pub mod typescript;

use vstd::prelude::*;

verus! {

use crate::extract::{apply_decls, DeclModel};
use crate::frontend::parsed_decls;
use crate::generator::render_output;

/// A failure of the extraction pipeline. Rendering itself cannot fail: the
/// generator writes into memory.
#[derive(Debug, Clone, PartialEq, Eq)]
pub enum Error {
    /// The source text is not a syntactically valid Rust file.
    Parse(String),
    /// An enum discriminant integer literal does not fit a 64-bit signed
    /// integer; the digits are carried.
    NumberOutOfRange(String),
}

/// Runs the whole pipeline: extracts the declarations of the source text and
/// renders them under the given options. The output is a function of the
/// source text and the rendering options alone. Either a complete output is
/// produced, or the first extraction failure is handed back and no output at
/// all: a parse failure exactly when the text is not a valid Rust file, a
/// range failure exactly when an enum discriminant integer literal does not
/// fit a 64-bit signed integer.
pub fn extract_and_generate(
    source: &str,
    extract_options: extract::ExtractOptions,
    generator_options: generator::GeneratorOptions,
) -> (r: Result<String, Error>)
    ensures
        match r {
            Ok(text) => parsed_decls(source@) is Some && apply_decls(
                Seq::<DeclModel>::empty(),
                parsed_decls(source@)->Some_0,
            ) is Ok && text@ == render_output(
                apply_decls(Seq::<DeclModel>::empty(), parsed_decls(source@)->Some_0)->Ok_0,
                generator_options@,
            ),
            Err(e) => (match e {
                Error::Parse(_) => parsed_decls(source@) is None,
                Error::NumberOutOfRange(t) => parsed_decls(source@) is Some && apply_decls(
                    Seq::<DeclModel>::empty(),
                    parsed_decls(source@)->Some_0,
                ) == Result::<Seq<DeclModel>, Seq<char>>::Err(t@),
            }),
        },
{
    let types = extract::extract(source, extract_options);
    match types {
        Err(e) => Err(e),
        Ok(m) => {
            let text = generator::generate(&m, generator_options);
            Ok(text)
        },
    }
}

} // verus!
