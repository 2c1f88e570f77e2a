//! What one parsed source file looks like to the analyses, and the policy
//! for which files are parsed and how.
//!
//! Parsing itself — reading a file and turning its text into a syntax tree —
//! is the external syntax-tree source's job; the surrounding program runs it
//! and converts its output into a [`ParsedModule`].  What the library owns
//! is the decision logic around it: which file extensions are supported at
//! all, which syntax dialect each extension selects, and how a parse
//! failure is reported.

use vstd::prelude::*;

use crate::ast::Module;
use crate::source_map::SourceMap;
use crate::utils::str_eq;

verus! {

/// One parsed source file: where it came from, the line structure of its
/// text, and its syntax tree.  Owned for the duration of one file's
/// analysis and discarded afterwards.
pub struct ParsedModule {
    /// The path the file was discovered under.
    pub path: String,
    /// The file's identity and line structure.
    pub source_map: SourceMap,
    /// The file's syntax tree, as far as the analyses read it.
    pub module: Module,
}

/// Why one file could not be parsed.  Either way the file is reported and
/// skipped; a parse failure is never fatal to the run.
pub enum ParseError {
    /// The file could not be read; carries the operating system's status
    /// code when there is one.
    IO(Option<i32>),
    /// The file could not be parsed; carries the parser's diagnostic.
    Parse(String),
}

/// The syntax dialect the parser is asked to use for one file.
#[derive(Clone, Copy, PartialEq, Eq, Structural, Debug)]
pub enum SyntaxKind {
    /// ECMAScript with JSX enabled.
    Es,
    /// TypeScript with decorators enabled.
    Ts,
    /// TypeScript with JSX and decorators enabled.
    Tsx,
}

/// The dialect an extension selects: the TypeScript extensions get the
/// TypeScript dialect, `tsx` with JSX; everything else is parsed as
/// ECMAScript with JSX.
pub open spec fn syntax_of_extension(ext: Seq<char>) -> SyntaxKind {
    if ext == "ts"@ || ext == "cts"@ || ext == "mts"@ {
        SyntaxKind::Ts
    } else if ext == "tsx"@ {
        SyntaxKind::Tsx
    } else {
        SyntaxKind::Es
    }
}

/// Whether files with this extension are searched at all.  The list is a
/// fixed allow-list of the common JavaScript and TypeScript extensions, so
/// that no unsupported dialect is ever handed to the parser.
pub open spec fn extension_supported(ext: Seq<char>) -> bool {
    ||| ext == "js"@
    ||| ext == "jsx"@
    ||| ext == "cjs"@
    ||| ext == "mjs"@
    ||| ext == "ts"@
    ||| ext == "tsx"@
    ||| ext == "cts"@
    ||| ext == "mts"@
}

/// Picks the syntax dialect for a file, by its extension, as
/// `syntax_of_extension` describes.
pub fn guess_syntax(ext: &str) -> (k: SyntaxKind)
    ensures
        k == syntax_of_extension(ext@),
{
    if str_eq(ext, "ts") || str_eq(ext, "cts") || str_eq(ext, "mts") {
        SyntaxKind::Ts
    } else if str_eq(ext, "tsx") {
        SyntaxKind::Tsx
    } else {
        SyntaxKind::Es
    }
}

/// Decides whether a file is searched, by its extension, as
/// `extension_supported` describes.
pub fn is_supported_extension(ext: &str) -> (r: bool)
    ensures
        r == extension_supported(ext@),
{
    str_eq(ext, "js") || str_eq(ext, "jsx") || str_eq(ext, "cjs") || str_eq(ext, "mjs")
        || str_eq(ext, "ts") || str_eq(ext, "tsx") || str_eq(ext, "cts") || str_eq(ext, "mts")
}

} // verus!
