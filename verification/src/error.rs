//! Typed error values for the compiler.
//!
//! Every condition that the lowering can reject is reported through these
//! enums; nothing is silently recovered and nothing panics.

use vstd::prelude::*;

verus! {

/// A name could not be resolved, or was bound twice.
#[derive(Debug, Clone, PartialEq)]
pub enum ResolutionError {
    /// A variable was read but no enclosing scope binds its name.
    UnboundVariable(String),
    /// A call site names a function that was never declared.
    UnboundFunction(String),
    /// A declaration rebinds a name already bound in the same scope.
    Redeclaration(String),
}

/// A statement or expression has a shape that cannot be lowered where it
/// stands.
#[derive(Debug, Clone, Copy, PartialEq, Eq, Structural)]
pub enum ShapeError {
    /// The root of a condition is not a comparison or logical operator.
    ConditionNotComparison,
    /// A `return` statement is not the last statement of its body.
    ReturnNotFinal,
    /// A `return` statement appears in a function declared `void`.
    ReturnInVoidFunction,
    /// A call site passes a number of arguments different from the
    /// declared parameter count.
    WrongArgumentCount,
    /// The construct is not supported in the context it appears in.
    Unsupported,
}

/// Any error the code generator reports for one target.
#[derive(Debug, Clone, PartialEq)]
pub enum CompileError {
    Resolution(ResolutionError),
    Shape(ShapeError),
}

/// The model of a `ResolutionError`: the carried name as a view.
#[verifier::ext_equal]
pub ghost enum ResolutionErrorModel {
    UnboundVariable(Seq<char>),
    UnboundFunction(Seq<char>),
    Redeclaration(Seq<char>),
}

/// The model of a `CompileError`.
#[verifier::ext_equal]
pub ghost enum CompileErrorModel {
    Resolution(ResolutionErrorModel),
    Shape(ShapeError),
}

impl View for ResolutionError {
    type V = ResolutionErrorModel;

    open spec fn view(&self) -> ResolutionErrorModel {
        match self {
            ResolutionError::UnboundVariable(n) => ResolutionErrorModel::UnboundVariable(n@),
            ResolutionError::UnboundFunction(n) => ResolutionErrorModel::UnboundFunction(n@),
            ResolutionError::Redeclaration(n) => ResolutionErrorModel::Redeclaration(n@),
        }
    }
}

impl View for CompileError {
    type V = CompileErrorModel;

    open spec fn view(&self) -> CompileErrorModel {
        match self {
            CompileError::Resolution(e) => CompileErrorModel::Resolution(e@),
            CompileError::Shape(e) => CompileErrorModel::Shape(*e),
        }
    }
}

impl CompileError {
    /// A short description of the error, for reporting.
    pub fn message(&self) -> (r: String)
        ensures
            r@.len() > 0,
    {
        let r = match self {
            CompileError::Resolution(ResolutionError::UnboundVariable(_)) => String::from_str(
                "unbound variable",
            ),
            CompileError::Resolution(ResolutionError::UnboundFunction(_)) => String::from_str(
                "call to undeclared function",
            ),
            CompileError::Resolution(ResolutionError::Redeclaration(_)) => String::from_str(
                "redeclaration in the same scope",
            ),
            CompileError::Shape(ShapeError::ConditionNotComparison) => String::from_str(
                "condition root is not a comparison or logical operator",
            ),
            CompileError::Shape(ShapeError::ReturnNotFinal) => String::from_str(
                "return must be the final statement of its body",
            ),
            CompileError::Shape(ShapeError::ReturnInVoidFunction) => String::from_str(
                "return in a function declared void",
            ),
            CompileError::Shape(ShapeError::WrongArgumentCount) => String::from_str(
                "wrong argument count at call site",
            ),
            CompileError::Shape(ShapeError::Unsupported) => String::from_str(
                "construct not supported in this context",
            ),
        };
        proof {
            reveal_strlit("unbound variable");
            reveal_strlit("call to undeclared function");
            reveal_strlit("redeclaration in the same scope");
            reveal_strlit("condition root is not a comparison or logical operator");
            reveal_strlit("return must be the final statement of its body");
            reveal_strlit("return in a function declared void");
            reveal_strlit("wrong argument count at call site");
            reveal_strlit("construct not supported in this context");
        }
        r
    }
}

} // verus!
