//! The failures of the analysis.
use vstd::prelude::*;

use crate::ast::ExprKind;
use crate::value::{SetKind, ValueKind};

verus! {

/// Why the analysis of a definition failed. Each failure ends the analysis.
#[derive(Clone, Debug, PartialEq, Eq)]
pub enum EvalError {
    /// A name is bound by no enclosing scope or namespace.
    UnboundName(String),
    /// A namespace of the given kind has no member of that name.
    UnboundAttribute(String, SetKind),
    /// A value of the given kind was used where a set is required.
    NotASet(ValueKind),
    /// A value of the given kind was applied to an argument.
    NotApplicable(ValueKind),
    /// The definition's parameter names an input outside the well-known set.
    UnknownModuleInput(String),
    /// The definition is not a function that destructures its parameter.
    NotACallPackageModule,
    /// The definition's body evaluates to a value of the given kind, not a set.
    ModuleDoesNotReturnSet(ValueKind),
    /// An attribute path runs through a value that is not an attribute set.
    AttributeConflict(String),
    /// Two entries assign the same attribute path.
    DuplicateAttribute(String),
    /// A construct of the given kind is recognised and not modelled.
    UnsupportedConstruct(ExprKind),
    /// An attribute path that is computed, or dotted where one name is needed.
    UnsupportedAttrPath,
    /// A binding refers to itself or to a sibling that is bound after it.
    UnsupportedRecursiveBinding(String),
    /// The expression is nested deeper than the analysis follows.
    RecursionLimitExceeded,
}

} // verus!
