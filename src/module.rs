//! The entry point: a package definition's outer function to the attribute
//! set it produces.
use vstd::prelude::*;

use crate::ast::{Expr, Param};
use crate::error::EvalError;
use crate::eval::{eval, eval_object};
use crate::namespace::{call_package_input, call_package_input_of};
use crate::scope::{bind, Scope, ScopeModel};
use crate::value::{set_result_model, value_kind, AbstractSet, AbstractValue, SetModel, ValueModel};

verus! {

/// How deeply nested an expression the analysis follows.
pub const MAX_DEPTH: u32 = 1000;

/// The environment with no bindings and no namespaces.
pub open spec fn empty_scope() -> ScopeModel {
    ScopeModel { bindings: Map::empty(), scopes: Seq::empty() }
}

/// The environment that the parameter pattern `{ fields, ... } @ bind`
/// establishes, after its first `n` fields: the catch-all name is bound to
/// the whole parameter and each field to the well-known input it names.
pub open spec fn entry_scope(bind_name: Option<String>, fields: Seq<String>, n: nat) -> Result<
    ScopeModel,
    EvalError,
>
    decreases n,
{
    if n == 0 {
        match bind_name {
            Some(b) => Ok(bind(empty_scope(), b@, ValueModel::AttrSet(SetModel::CallPackageArguments))),
            None => Ok(empty_scope()),
        }
    } else {
        match entry_scope(bind_name, fields, (n - 1) as nat) {
            Err(err) => Err(err),
            Ok(env) => match call_package_input(fields[n - 1]@) {
                Some(s) => Ok(bind(env, fields[n - 1]@, ValueModel::AttrSet(s))),
                None => Err(EvalError::UnknownModuleInput(fields[n - 1])),
            },
        }
    }
}

/// The analysis of a package definition: it must be a function that
/// destructures its parameter, and its body must evaluate to a set.
pub open spec fn analyze(e: Expr) -> Result<SetModel, EvalError> {
    match e {
        Expr::Lambda(Param::Pattern { bind, fields }, body) => match entry_scope(bind, fields@, fields@.len()) {
            Err(err) => Err(err),
            Ok(env) => match eval(env, *body, MAX_DEPTH as nat) {
                Err(err) => Err(err),
                Ok(v) => match v {
                    ValueModel::AttrSet(s) => Ok(s),
                    _ => Err(EvalError::ModuleDoesNotReturnSet(value_kind(v))),
                },
            },
        },
        _ => Err(EvalError::NotACallPackageModule),
    }
}

/// The environment that a definition's parameter pattern establishes.
pub fn initial_scope(bind_name: &Option<String>, fields: &Vec<String>) -> (r: Result<Scope, EvalError>)
    ensures
        match entry_scope(*bind_name, fields@, fields@.len()) {
            Ok(m) => r matches Ok(s) && s@ == m,
            Err(e) => r matches Err(x) && x == e,
        },
{
    initial_scope_prefix(bind_name, fields, fields.len())
}

fn initial_scope_prefix(bind_name: &Option<String>, fields: &Vec<String>, n: usize) -> (r: Result<
    Scope,
    EvalError,
>)
    requires
        n <= fields.len(),
    ensures
        match entry_scope(*bind_name, fields@, n as nat) {
            Ok(m) => r matches Ok(s) && s@ == m,
            Err(e) => r matches Err(x) && x == e,
        },
    decreases n,
{
    if n == 0 {
        let empty = Scope::new();
        assert(empty@ == empty_scope());
        return match bind_name {
            Some(b) => Ok(empty.with_binding(b.as_str(), AbstractValue::AttrSet(AbstractSet::CallPackageArguments))),
            None => Ok(empty),
        };
    }
    let prev = match initial_scope_prefix(bind_name, fields, n - 1) {
        Ok(s) => s,
        Err(e) => return Err(e),
    };
    match call_package_input_of(fields[n - 1].as_str()) {
        Some(s) => Ok(prev.with_binding(fields[n - 1].as_str(), AbstractValue::AttrSet(s))),
        None => Err(EvalError::UnknownModuleInput(fields[n - 1].clone())),
    }
}

/// Analyses a package definition: the attribute set its body produces, with
/// each value traced to the well-known input it comes from.
pub fn analyze_module(expr: &Expr) -> (r: Result<AbstractSet, EvalError>)
    ensures
        set_result_model(r) == analyze(*expr),
{
    match expr {
        Expr::Lambda(Param::Pattern { bind, fields }, body) => {
            let scope = match initial_scope(bind, fields) {
                Ok(s) => s,
                Err(e) => return Err(e),
            };
            match eval_object(&scope, body, MAX_DEPTH) {
                Ok(AbstractValue::AttrSet(s)) => Ok(s),
                Ok(v) => Err(EvalError::ModuleDoesNotReturnSet(v.kind())),
                Err(e) => Err(e),
            }
        },
        _ => Err(EvalError::NotACallPackageModule),
    }
}

} // verus!
