use vstd::prelude::*;
use crate::text::{concat2, dec_nat, push_str, u64_to_decimal};

verus! {

/// 1-based source location in input text.
#[derive(Debug, Clone, Copy, PartialEq, Eq, Structural)]
pub struct SourceLocation {
    pub line: usize,
    pub column: usize,
}

/// Shared diagnostic payload for parse/semantic errors.
#[derive(Debug)]
pub struct Diagnostic {
    pub message: String,
    pub location: Option<SourceLocation>,
}

/// Errors produced by the compiler pipeline.
#[derive(Debug)]
pub enum CompilerError {
    /// The source text does not follow the grammar.
    Parse(Diagnostic),
    /// The program breaks a semantic rule.
    Semantic(Diagnostic),
    /// The program uses a feature that the target cannot express.
    Unsupported(Diagnostic),
}

impl CompilerError {
    /// Creates a parse error with optional source location.
    pub fn parse_with_location(message: String, location: Option<SourceLocation>) -> (r: Self)
        ensures
            r matches CompilerError::Parse(d) && d.message@ == message@ && d.location == location,
    {
        CompilerError::Parse(Diagnostic { message, location })
    }

    /// Creates a parse error without source location.
    pub fn parse(message: String) -> (r: Self)
        ensures
            r matches CompilerError::Parse(d) && d.message@ == message@ && d.location is None,
    {
        Self::parse_with_location(message, None)
    }

    /// Creates a parse error with source location.
    pub fn parse_at(message: String, location: SourceLocation) -> (r: Self)
        ensures
            r matches CompilerError::Parse(d) && d.message@ == message@ && d.location == Some(location),
    {
        Self::parse_with_location(message, Some(location))
    }

    /// Creates a semantic error with optional source location.
    pub fn semantic_with_location(message: String, location: Option<SourceLocation>) -> (r: Self)
        ensures
            r matches CompilerError::Semantic(d) && d.message@ == message@ && d.location == location,
    {
        CompilerError::Semantic(Diagnostic { message, location })
    }

    /// Creates a semantic error without source location.
    pub fn semantic(message: String) -> (r: Self)
        ensures
            r matches CompilerError::Semantic(d) && d.message@ == message@ && d.location is None,
    {
        Self::semantic_with_location(message, None)
    }

    /// Creates a semantic error with source location.
    pub fn semantic_at(message: String, location: SourceLocation) -> (r: Self)
        ensures
            r matches CompilerError::Semantic(d) && d.message@ == message@ && d.location == Some(location),
    {
        Self::semantic_with_location(message, Some(location))
    }

    /// Creates an unsupported-feature error with optional source location.
    pub fn unsupported_with_location(message: String, location: Option<SourceLocation>) -> (r: Self)
        ensures
            r matches CompilerError::Unsupported(d) && d.message@ == message@ && d.location == location,
    {
        CompilerError::Unsupported(Diagnostic { message, location })
    }

    /// Creates an unsupported-feature error without source location.
    pub fn unsupported(message: String) -> (r: Self)
        ensures
            r matches CompilerError::Unsupported(d) && d.message@ == message@ && d.location is None,
    {
        Self::unsupported_with_location(message, None)
    }

    /// Creates an unsupported-feature error with source location.
    pub fn unsupported_at(message: String, location: SourceLocation) -> (r: Self)
        ensures
            r matches CompilerError::Unsupported(d) && d.message@ == message@ && d.location == Some(location),
    {
        Self::unsupported_with_location(message, Some(location))
    }
}

/// The text of a diagnostic under a category: with its position when it has one.
pub open spec fn diagnostic_text(category: Seq<char>, message: Seq<char>, location: Option<SourceLocation>) -> Seq<char> {
    match location {
        Some(l) => category + " error at line "@ + dec_nat(l.line as nat) + ", column "@ + dec_nat(l.column as nat)
            + ": "@ + message,
        None => category + " error: "@ + message,
    }
}

/// The user-facing text of an error.
pub open spec fn error_text(e: CompilerError) -> Seq<char> {
    match e {
        CompilerError::Parse(d) => diagnostic_text("parse"@, d.message@, d.location),
        CompilerError::Semantic(d) => diagnostic_text("semantic"@, d.message@, d.location),
        CompilerError::Unsupported(d) => diagnostic_text("unsupported"@, d.message@, d.location),
    }
}

/// Formats a diagnostic under a category, with its position when it has one.
pub fn format_diagnostic(category: &str, diagnostic: &Diagnostic) -> (r: String)
    ensures
        r@ == diagnostic_text(category@, diagnostic.message@, diagnostic.location),
{
    match diagnostic.location {
        Some(location) => {
            let mut out = concat2(category, " error at line ");
            push_str(&mut out, u64_to_decimal(location.line as u64).as_str());
            push_str(&mut out, ", column ");
            push_str(&mut out, u64_to_decimal(location.column as u64).as_str());
            push_str(&mut out, ": ");
            push_str(&mut out, diagnostic.message.as_str());
            out
        },
        None => {
            let mut out = concat2(category, " error: ");
            push_str(&mut out, diagnostic.message.as_str());
            out
        },
    }
}

impl CompilerError {
    /// The user-facing text of the error.
    pub fn to_display_string(&self) -> (r: String)
        ensures
            r@ == error_text(*self),
    {
        match self {
            CompilerError::Parse(d) => format_diagnostic("parse", d),
            CompilerError::Semantic(d) => format_diagnostic("semantic", d),
            CompilerError::Unsupported(d) => format_diagnostic("unsupported", d),
        }
    }
}

} // verus!
