//! MARIE code generation: the emitter, its model, and the target's feature validation.

pub mod emitter;
pub mod machine;
pub mod model;
pub mod properties;
pub mod validation;

use vstd::prelude::*;
use crate::ast::{BinaryOp, StorageClass, TranslationUnit};
use crate::codegen::emitter::MarieEmitter;
use crate::codegen::model::{emit_program, fault_error};
use crate::codegen::validation::{validate_ast, validation_result, validation_error};
use crate::error::CompilerError;

verus! {

/// A result of emission with the text taken by its characters.
pub open spec fn emission_view(r: Result<String, CompilerError>) -> Result<Seq<char>, CompilerError> {
    match r {
        Ok(s) => Ok(s@),
        Err(e) => Err(e),
    }
}

/// Backend interface for emitting target assembly from an AST.
pub trait Codegen {
    /// What emitting `ast` gives on this backend: the output text, or the error (a backend
    /// that states nothing of its output admits any result).
    open spec fn emits(&self, ast: TranslationUnit, r: Result<Seq<char>, CompilerError>) -> bool {
        true
    }

    /// Emits target output text from a semantically valid AST.
    fn emit(&self, ast: &TranslationUnit) -> (r: Result<String, CompilerError>)
        ensures
            self.emits(*ast, emission_view(r));
}

/// Target-specific validation of the features a program uses.
pub trait TargetValidation {
    /// What validating `ast` gives on this target (a target that states nothing of its
    /// validation admits any result).
    open spec fn validates(&self, ast: TranslationUnit, r: Result<(), CompilerError>) -> bool {
        true
    }

    /// Validates that the AST uses only features this target supports (each target says
    /// what it refuses; one that refuses nothing returns `Ok(())`).
    fn validate(&self, ast: &TranslationUnit) -> (r: Result<(), CompilerError>)
        ensures
            self.validates(*ast, r);

    /// Binary operators this target does not support.
    fn unsupported_binary_ops(&self) -> (r: Vec<BinaryOp>)
        default_ensures
            r@ == Seq::<BinaryOp>::empty(),
    {
        Vec::new()
    }

    /// Storage classes this target does not support.
    fn unsupported_storage_classes(&self) -> (r: Vec<StorageClass>)
        default_ensures
            r@ == seq![StorageClass::Static],
    {
        let r = vec![StorageClass::Static];
        assert(r@ =~= seq![StorageClass::Static]);
        r
    }
}

/// The MARIE backend.
#[derive(Debug, Default, Clone, Copy)]
pub struct MarieCodegen;

/// Operators that MARIE code generation cannot express.
pub open spec fn marie_unsupported_ops() -> Seq<BinaryOp> {
    seq![BinaryOp::ShiftLeft, BinaryOp::ShiftRight, BinaryOp::BitwiseAnd, BinaryOp::BitwiseOr, BinaryOp::BitwiseXor]
}

impl Codegen for MarieCodegen {
    /// The MARIE program of the unit, or the error of the first step that fails.
    open spec fn emits(&self, ast: TranslationUnit, r: Result<Seq<char>, CompilerError>) -> bool {
        match emit_program(ast) {
            Ok(text) => r == Ok::<Seq<char>, CompilerError>(text),
            Err(f) => r matches Err(e) && fault_error(e, f),
        }
    }

    /// Emits MARIE assembly text for the AST.
    fn emit(&self, ast: &TranslationUnit) -> (r: Result<String, CompilerError>)
        ensures
            match emit_program(*ast) {
                Ok(text) => r matches Ok(out) && out@ == text,
                Err(f) => r matches Err(e) && fault_error(e, f),
            },
    {
        let mut emitter = MarieEmitter::new();
        emitter.emit_translation_unit(ast)?;
        Ok(emitter.finish())
    }
}

impl TargetValidation for MarieCodegen {
    /// Validation against the operators and storage classes that MARIE code cannot express.
    open spec fn validates(&self, ast: TranslationUnit, r: Result<(), CompilerError>) -> bool {
        match validation_result(ast, marie_unsupported_ops(), seq![StorageClass::Static]) {
            None => r is Ok,
            Some(f) => r matches Err(e) && validation_error(e, f),
        }
    }

    fn unsupported_binary_ops(&self) -> (r: Vec<BinaryOp>)
        ensures
            r@ == marie_unsupported_ops(),
    {
        let r = vec![BinaryOp::ShiftLeft, BinaryOp::ShiftRight, BinaryOp::BitwiseAnd, BinaryOp::BitwiseOr, BinaryOp::BitwiseXor];
        assert(r@ =~= marie_unsupported_ops());
        r
    }

    fn unsupported_storage_classes(&self) -> (r: Vec<StorageClass>)
        ensures
            r@ == seq![StorageClass::Static],
    {
        let r = vec![StorageClass::Static];
        assert(r@ =~= seq![StorageClass::Static]);
        r
    }

    fn validate(&self, ast: &TranslationUnit) -> (r: Result<(), CompilerError>)
        ensures
            match validation_result(*ast, marie_unsupported_ops(), seq![StorageClass::Static]) {
                None => r is Ok,
                Some(f) => r matches Err(e) && validation_error(e, f),
            },
    {
        let ops = self.unsupported_binary_ops();
        let storage = self.unsupported_storage_classes();
        validate_ast(ast, &ops, &storage)
    }
}

} // verus!
