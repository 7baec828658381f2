use marie_c_compiler::compiler::{Compiler, DefaultCompiler};
use marie_c_compiler::ast::{BinaryOp, TranslationUnit};
use marie_c_compiler::codegen::{Codegen, MarieCodegen, TargetValidation};
use marie_c_compiler::error::CompilerError;


#[derive(Debug)]
struct TestCodegen;

impl Codegen for TestCodegen {
    fn emit(&self, _ast: &TranslationUnit) -> Result<String, CompilerError> {
        Ok("TEST_BACKEND_OUTPUT".to_string())
    }
}

impl TargetValidation for TestCodegen {
    fn validate(&self, _ast: &TranslationUnit) -> Result<(), CompilerError> {
        Ok(())
    }

    fn unsupported_binary_ops(&self) -> Vec<BinaryOp> {
        Vec::new()
    }
}

/// Verifies the compiler pipeline produces placeholder Marie output.
#[test]
fn compile_source_returns_marie_output() {
    let compiler = DefaultCompiler::new();
    let output = compiler
        .compile_source("int main(void) { return 0; }")
        .expect("source should compile in placeholder pipeline");

    assert!(output.contains("Halt"));
}

/// Verifies frontend stage returns AST and semantic metadata.
#[test]
fn frontend_returns_semantic_artifacts() {
    let compiler = DefaultCompiler::new();
    let artifacts = compiler
        .frontend("int main(void) { return 0; }")
        .expect("frontend should succeed");

    assert_eq!(artifacts.ast.top_level_items.len(), 1);
    assert!(artifacts
        .semantic_info
        .function_signatures
        .contains_key("main"));
}

/// Verifies compiler can use an injected non-Marie backend.
#[test]
fn compile_source_uses_injected_codegen_backend() {
    let compiler = Compiler::new_with_codegen(TestCodegen);
    let output = compiler
        .compile_source("int main(void) { return 0; }")
        .expect("source should compile with test backend");

    assert_eq!(output, "TEST_BACKEND_OUTPUT");
}

/// Verifies default backend alias remains Marie codegen.
#[test]
fn default_compiler_alias_uses_marie_backend_type() {
    let _compiler: Compiler<MarieCodegen> = DefaultCompiler::new();
}
