//! The compilation pipeline: parse, check, validate for the target, emit.
use vstd::prelude::*;
use crate::ast::TranslationUnit;
use crate::codegen::{Codegen, MarieCodegen, TargetValidation};
use crate::error::CompilerError;
use crate::parser::{parse_failure, CParser};
use crate::grammar::g_translation_unit;
use crate::lexer::{spec_tokens_ok, Token};
use crate::semantic::{analyze_diag, reports, spec_analyze, SemanticAnalyzer, SemanticInfo};

verus! {

/// Whether `ast` is what the source text parses to: the text has a token stream, and every
/// token stream of the text spells `ast`.
pub open spec fn parses(source: Seq<char>, ast: TranslationUnit) -> bool {
    &&& exists|ts: Seq<Token>| spec_tokens_ok(source, ts)
    &&& forall|ts: Seq<Token>| spec_tokens_ok(source, ts) ==> g_translation_unit(ts) == Some(ast@)
}

/// A compiler pipeline with a pluggable backend.
pub struct Compiler<C: Codegen> {
    parser: CParser,
    semantic: SemanticAnalyzer,
    codegen: C,
}

/// The compiler with the MARIE backend.
pub type DefaultCompiler = Compiler<MarieCodegen>;

/// Frontend outputs produced before code generation.
#[derive(Debug)]
pub struct FrontendArtifacts {
    pub ast: TranslationUnit,
    pub semantic_info: SemanticInfo,
}

impl<C: Codegen> Compiler<C> {
    /// The backend of this pipeline.
    pub closed spec fn backend(&self) -> C {
        self.codegen
    }
}

impl<C: Codegen + TargetValidation> Compiler<C> {
    /// Creates a compiler pipeline instance with an explicit backend.
    pub fn new_with_codegen(codegen: C) -> (r: Self)
        ensures
            r.backend() == codegen,
    {
        Compiler { parser: CParser::new(), semantic: SemanticAnalyzer::new(), codegen }
    }

    /// Compiles preprocessed C source text into target backend output: parse, semantic
    /// analysis, target validation, emission; the first stage that fails gives the error.
    pub fn compile_source(&self, source: &str) -> (r: Result<String, CompilerError>)
        ensures
            match r {
                Ok(out) => exists|ast: TranslationUnit| parses(source@, ast) && spec_analyze(ast) is Some
                    && self.backend().validates(ast, Ok(()))
                    && self.backend().emits(ast, Ok(out@)),
                Err(e) => parse_failure(source@, e) || exists|ast: TranslationUnit| parses(source@, ast)
                    && (spec_analyze(ast) is None ==> reports(e, analyze_diag(ast)))
                    && (spec_analyze(ast) is Some ==> (self.backend().validates(ast, Err(e))
                        || (self.backend().validates(ast, Ok(())) && self.backend().emits(ast, Err(e))))),
            },
    {
        let ast = self.parser.parse_translation_unit(source)?;
        assert(parses(source@, ast));
        self.semantic.analyze(&ast)?;
        self.codegen.validate(&ast)?;
        self.codegen.emit(&ast)
    }

    /// Parses and runs semantic analysis, returning the intermediate artifacts.
    pub fn frontend(&self, source: &str) -> (r: Result<FrontendArtifacts, CompilerError>)
        ensures
            match r {
                Ok(a) => parses(source@, a.ast) && spec_analyze(a.ast) == Some(a.semantic_info@),
                Err(e) => parse_failure(source@, e) || exists|ast: TranslationUnit| parses(source@, ast)
                    && spec_analyze(ast) is None && reports(e, analyze_diag(ast)),
            },
    {
        let ast = self.parser.parse_translation_unit(source)?;
        assert(parses(source@, ast));
        let semantic_info = self.semantic.analyze(&ast)?;
        Ok(FrontendArtifacts { ast, semantic_info })
    }
}

impl<C: Codegen> Compiler<C> {
    /// Creates a compiler pipeline instance without target validation (for backends that do
    /// not implement it).
    pub fn new_with_codegen_no_validation(codegen: C) -> (r: Self)
        ensures
            r.backend() == codegen,
    {
        Compiler { parser: CParser::new(), semantic: SemanticAnalyzer::new(), codegen }
    }

    /// Compiles without target validation: parse, semantic analysis, emission.
    pub fn compile_source_no_validation(&self, source: &str) -> (r: Result<String, CompilerError>)
        ensures
            match r {
                Ok(out) => exists|ast: TranslationUnit| parses(source@, ast) && spec_analyze(ast) is Some
                    && self.backend().emits(ast, Ok(out@)),
                Err(e) => parse_failure(source@, e) || exists|ast: TranslationUnit| parses(source@, ast)
                    && (spec_analyze(ast) is None ==> reports(e, analyze_diag(ast)))
                    && (spec_analyze(ast) is Some ==> self.backend().emits(ast, Err(e))),
            },
    {
        let ast = self.parser.parse_translation_unit(source)?;
        assert(parses(source@, ast));
        self.semantic.analyze(&ast)?;
        self.codegen.emit(&ast)
    }
}

impl Compiler<MarieCodegen> {
    /// Creates a new compiler pipeline instance using the MARIE backend.
    pub fn new() -> (r: Self)
        ensures
            r.backend() == MarieCodegen,
    {
        Self::new_with_codegen(MarieCodegen)
    }
}

impl Default for Compiler<MarieCodegen> {
    /// Creates a default compiler pipeline instance.
    fn default() -> (r: Self)
        ensures
            r.backend() == MarieCodegen,
    {
        Self::new()
    }
}

} // verus!
