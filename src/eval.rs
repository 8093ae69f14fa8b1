//! The abstract evaluator: an expression and an environment to an abstract
//! value, or the failure that ends the analysis.
use vstd::prelude::*;

use crate::ast::{Entry, Expr, ExprKind};
use crate::attrs::{
    attr_path_names, insert_attr_path, insert_path, let_binding_names, let_names, path_names,
    paths_model, set_entry_paths, set_paths,
};
use crate::error::EvalError;
use crate::namespace::set_lookup;
use crate::scope::{
    bind, bind_all, enter_with, lemma_binding_outranks_scopes, lemma_nested_with_keeps_outer,
    mark_pending, scope_lookup, scope_pending, Scope, ScopeModel,
};
use crate::value::{
    apply_model, as_set, entries_model, names_model, set_kind, unique_names, value_model, value_result_model,
    AbstractSet, AbstractValue, SetModel, ValueModel,
};

verus! {

/// The failure for a member `n` that the set `s` lacks: asking the
/// definition's parameter for a name outside the well-known inputs is an
/// unknown input; any other missing member is unbound.
pub open spec fn missing_member(s: SetModel, n: String) -> EvalError {
    if s is CallPackageArguments {
        EvalError::UnknownModuleInput(n)
    } else {
        EvalError::UnboundAttribute(n, set_kind(s))
    }
}

/// Selects the first `n` names of `ns` from `v`, one member at a time.
pub open spec fn select_path(v: ValueModel, ns: Seq<String>, n: nat) -> Result<ValueModel, EvalError>
    decreases n,
{
    if n == 0 {
        Ok(v)
    } else {
        match select_path(v, ns, (n - 1) as nat) {
            Err(e) => Err(e),
            Ok(cur) => match as_set(cur) {
                Err(e) => Err(e),
                Ok(s) => match set_lookup(s, ns[n - 1]@) {
                    Some(x) => Ok(x),
                    None => Err(missing_member(s, ns[n - 1])),
                },
            },
        }
    }
}

/// The first names of the paths `ps`.
pub open spec fn first_names(ps: Seq<Seq<String>>) -> Seq<Seq<char>> {
    ps.map_values(|p: Seq<String>| p[0]@)
}

/// Evaluates `e` in `env`, following at most `depth` nested expressions.
pub open spec fn eval(env: ScopeModel, e: Expr, depth: nat) -> Result<ValueModel, EvalError>
    decreases depth, 0nat,
{
    if depth == 0 {
        Err(EvalError::RecursionLimitExceeded)
    } else {
        let d = (depth - 1) as nat;
        match e {
            Expr::Ident(n) => if scope_pending(env, n@) {
                Err(EvalError::UnsupportedRecursiveBinding(n))
            } else {
                match scope_lookup(env, n@) {
                    Some(v) => Ok(v),
                    None => Err(EvalError::UnboundName(n)),
                }
            },
            Expr::With(ns, body) => match eval(env, *ns, d) {
                Err(err) => Err(err),
                Ok(v) => match as_set(v) {
                    Err(err) => Err(err),
                    Ok(s) => eval(enter_with(env, s), *body, d),
                },
            },
            Expr::LetIn(es, body) => match let_names(es@, es@.len()) {
                Err(err) => Err(err),
                Ok(ns) => match eval_let(env, es@, ns, es@.len(), d) {
                    Err(err) => Err(err),
                    Ok(inner) => eval(inner, *body, d),
                },
            },
            Expr::AttrSet(rec, es) => match set_paths(es@, es@.len()) {
                Err(err) => Err(err),
                Ok(ps) => match build_set(env, rec, es@, ps, es@.len(), d) {
                    Err(err) => Err(err),
                    Ok(m) => Ok(ValueModel::AttrSet(SetModel::Dynamic(m))),
                },
            },
            Expr::Select(base, p, default) => if default is Some {
                Err(EvalError::UnsupportedConstruct(ExprKind::Select))
            } else {
                match path_names(p@) {
                    None => Err(EvalError::UnsupportedAttrPath),
                    Some(ns) => match eval(env, *base, d) {
                        Err(err) => Err(err),
                        Ok(v) => select_path(v, ns, ns.len()),
                    },
                }
            },
            Expr::Apply(f, x) => match eval(env, *f, d) {
                Err(err) => Err(err),
                Ok(fv) => match eval(env, *x, d) {
                    Err(err) => Err(err),
                    Ok(xv) => apply_model(fv, xv),
                },
            },
            Expr::Paren(inner) => eval(env, *inner, d),
            Expr::Lambda(..) => Err(EvalError::UnsupportedConstruct(ExprKind::Lambda)),
            Expr::Other(k) => Err(EvalError::UnsupportedConstruct(k)),
        }
    }
}

/// The environment after the first `n` bindings of a `let` whose names are
/// `ns`. Each value is evaluated with the earlier bindings made and its own
/// and every later name marked as still being computed.
pub open spec fn eval_let(env: ScopeModel, es: Seq<Entry>, ns: Seq<String>, n: nat, depth: nat) -> Result<
    ScopeModel,
    EvalError,
>
    decreases depth, n,
{
    if n == 0 {
        Ok(env)
    } else {
        match eval_let(env, es, ns, (n - 1) as nat, depth) {
            Err(err) => Err(err),
            Ok(prev) => match es[n - 1] {
                Entry::Assign(_, ve) => match eval(
                    mark_pending(prev, names_model(ns.subrange(n - 1, ns.len() as int))),
                    ve,
                    depth,
                ) {
                    Err(err) => Err(err),
                    Ok(v) => Ok(bind(prev, ns[n - 1]@, v)),
                },
                Entry::Inherit => Err(EvalError::UnsupportedConstruct(ExprKind::Inherit)),
            },
        }
    }
}

/// The set built from the first `n` entries of a set literal whose paths are
/// `ps`. In a recursive literal each value sees the attributes built so far,
/// with the first names of its own and every later entry marked as still
/// being computed; otherwise it sees `env` alone.
pub open spec fn build_set(
    env: ScopeModel,
    rec: bool,
    es: Seq<Entry>,
    ps: Seq<Seq<String>>,
    n: nat,
    depth: nat,
) -> Result<Map<Seq<char>, ValueModel>, EvalError>
    decreases depth, n,
{
    if n == 0 {
        Ok(Map::empty())
    } else {
        match build_set(env, rec, es, ps, (n - 1) as nat, depth) {
            Err(err) => Err(err),
            Ok(m) => {
                let inner = if rec {
                    mark_pending(bind_all(env, m), first_names(ps.subrange(n - 1, ps.len() as int)))
                } else {
                    env
                };
                match es[n - 1] {
                    Entry::Assign(_, ve) => match eval(inner, ve, depth) {
                        Err(err) => Err(err),
                        Ok(v) => insert_path(m, ps[n - 1], v),
                    },
                    Entry::Inherit => Err(EvalError::UnsupportedConstruct(ExprKind::Inherit)),
                }
            },
        }
    }
}

fn select_prefix(v: AbstractValue, ns: &Vec<String>, n: usize) -> (r: Result<AbstractValue, EvalError>)
    requires
        n <= ns.len(),
    ensures
        value_result_model(r) == select_path(value_model(&v), ns@, n as nat),
    decreases n,
{
    if n == 0 {
        return Ok(v);
    }
    let cur = match select_prefix(v, ns, n - 1) {
        Ok(cur) => cur,
        Err(e) => return Err(e),
    };
    let s = match cur.try_into_set() {
        Ok(s) => s,
        Err(e) => return Err(e),
    };
    match s.lookup(ns[n - 1].as_str()) {
        Some(x) => Ok(x),
        None => match s {
            AbstractSet::CallPackageArguments => Err(EvalError::UnknownModuleInput(ns[n - 1].clone())),
            _ => Err(EvalError::UnboundAttribute(ns[n - 1].clone(), s.kind())),
        },
    }
}

/// Copies `ns[from..]`.
fn names_from(ns: &Vec<String>, from: usize) -> (r: Vec<String>)
    requires
        from <= ns.len(),
    ensures
        r@ == ns@.subrange(from as int, ns@.len() as int),
{
    let mut out: Vec<String> = Vec::new();
    let mut i: usize = from;
    while i < ns.len()
        invariant
            from <= i <= ns.len(),
            out@ == ns@.subrange(from as int, i as int),
        decreases ns.len() - i,
    {
        out.push(ns[i].clone());
        i = i + 1;
        assert(out@ =~= ns@.subrange(from as int, i as int));
    }
    out
}

/// The first names of `ps[from..]`.
fn first_names_from(ps: &Vec<Vec<String>>, from: usize) -> (r: Vec<String>)
    requires
        from <= ps.len(),
        forall|j: int| 0 <= j < ps.len() ==> (#[trigger] ps@[j])@.len() >= 1,
    ensures
        names_model(r@) == first_names(paths_model(ps@).subrange(from as int, ps@.len() as int)),
{
    let mut out: Vec<String> = Vec::new();
    let mut i: usize = from;
    while i < ps.len()
        invariant
            from <= i <= ps.len(),
            forall|j: int| 0 <= j < ps.len() ==> (#[trigger] ps@[j])@.len() >= 1,
            out@.len() == i - from,
            forall|j: int| 0 <= j < out@.len() ==> (#[trigger] out@[j])@ == ps@[from + j]@[0]@,
        decreases ps.len() - i,
    {
        out.push(ps[i][0].clone());
        i = i + 1;
    }
    let ghost fs = first_names(paths_model(ps@).subrange(from as int, ps@.len() as int));
    assert forall|j: int| 0 <= j < out@.len() implies names_model(out@)[j] == fs[j] by {
        assert(paths_model(ps@)[from + j] == ps@[from + j]@);
    }
    assert(names_model(out@) =~= fs);
    out
}

fn eval_let_prefix(scope: &Scope, es: &Vec<Entry>, ns: &Vec<String>, n: usize, depth: u32) -> (r: Result<
    Scope,
    EvalError,
>)
    requires
        n <= es.len(),
        ns.len() == es.len(),
    ensures
        match eval_let(scope@, es@, ns@, n as nat, depth as nat) {
            Ok(m) => r matches Ok(s) && s@ == m,
            Err(e) => r matches Err(x) && x == e,
        },
    decreases depth, n,
{
    if n == 0 {
        return Ok(scope.copy());
    }
    let prev = match eval_let_prefix(scope, es, ns, n - 1, depth) {
        Ok(p) => p,
        Err(e) => return Err(e),
    };
    match &es[n - 1] {
        Entry::Assign(_, ve) => {
            let pending = names_from(ns, n - 1);
            let inner = prev.with_pending(&pending);
            match eval_object(&inner, ve, depth) {
                Ok(v) => Ok(prev.with_binding(ns[n - 1].as_str(), v)),
                Err(e) => Err(e),
            }
        },
        Entry::Inherit => Err(EvalError::UnsupportedConstruct(ExprKind::Inherit)),
    }
}

fn build_set_prefix(
    scope: &Scope,
    rec: bool,
    es: &Vec<Entry>,
    ps: &Vec<Vec<String>>,
    n: usize,
    depth: u32,
) -> (r: Result<Vec<(String, AbstractValue)>, EvalError>)
    requires
        n <= es.len(),
        ps.len() == es.len(),
        forall|j: int| 0 <= j < ps.len() ==> (#[trigger] ps@[j])@.len() >= 1,
    ensures
        r matches Ok(v) ==> unique_names(v@),
        match build_set(scope@, rec, es@, paths_model(ps@), n as nat, depth as nat) {
            Ok(m) => r matches Ok(v) && entries_model(v@) == m,
            Err(e) => r matches Err(x) && x == e,
        },
    decreases depth, n,
{
    if n == 0 {
        let v: Vec<(String, AbstractValue)> = Vec::new();
        assert(entries_model(v@) =~= Map::empty());
        assert(unique_names(v@));
        return Ok(v);
    }
    let mut built = match build_set_prefix(scope, rec, es, ps, n - 1, depth) {
        Ok(b) => b,
        Err(e) => return Err(e),
    };
    match &es[n - 1] {
        Entry::Assign(_, ve) => {
            let res = if rec {
                let pending = first_names_from(ps, n - 1);
                let inner = scope.with_bindings(&built).with_pending(&pending);
                eval_object(&inner, ve, depth)
            } else {
                eval_object(scope, ve, depth)
            };
            let v = match res {
                Ok(v) => v,
                Err(e) => return Err(e),
            };
            assert(paths_model(ps@)[n - 1] == ps@[n - 1]@);
            assert(ps@[n - 1]@.subrange(0, ps@[n - 1]@.len() as int) =~= ps@[n - 1]@);
            match insert_attr_path(&mut built, &ps[n - 1], 0, v) {
                Ok(()) => {},
                Err(e) => return Err(e),
            }
            Ok(built)
        },
        Entry::Inherit => Err(EvalError::UnsupportedConstruct(ExprKind::Inherit)),
    }
}

/// Evaluates `expr` in `scope`, following at most `depth` nested expressions.
pub fn eval_object(scope: &Scope, expr: &Expr, depth: u32) -> (r: Result<AbstractValue, EvalError>)
    ensures
        value_result_model(r) == eval(scope@, *expr, depth as nat),
    decreases depth, 0nat,
{
    if depth == 0 {
        return Err(EvalError::RecursionLimitExceeded);
    }
    let d = depth - 1;
    match expr {
        Expr::Ident(n) => {
            if scope.is_pending(n.as_str()) {
                return Err(EvalError::UnsupportedRecursiveBinding(n.clone()));
            }
            match scope.lookup(n.as_str()) {
                Some(v) => Ok(v),
                None => Err(EvalError::UnboundName(n.clone())),
            }
        },
        Expr::With(ns, body) => {
            let v = match eval_object(scope, ns, d) {
                Ok(v) => v,
                Err(e) => return Err(e),
            };
            let s = match v.try_into_set() {
                Ok(s) => s,
                Err(e) => return Err(e),
            };
            let inner = scope.with_dynamic_scope(s);
            eval_object(&inner, body, d)
        },
        Expr::LetIn(es, body) => {
            let ns = match let_binding_names(es) {
                Ok(ns) => ns,
                Err(e) => return Err(e),
            };
            proof {
                lemma_let_names_len(es@, es@.len());
            }
            let inner = match eval_let_prefix(scope, es, &ns, es.len(), d) {
                Ok(s) => s,
                Err(e) => return Err(e),
            };
            eval_object(&inner, body, d)
        },
        Expr::AttrSet(rec, es) => {
            let ps = match set_entry_paths(es, es.len()) {
                Ok(ps) => ps,
                Err(e) => return Err(e),
            };
            proof {
                lemma_set_paths_shape(es@, es@.len());
                assert forall|j: int| 0 <= j < ps@.len() implies (#[trigger] ps@[j])@.len() >= 1 by {
                    assert(paths_model(ps@)[j] == ps@[j]@);
                }
            }
            match build_set_prefix(scope, *rec, es, &ps, es.len(), d) {
                Ok(m) => Ok(AbstractValue::AttrSet(AbstractSet::Dynamic(m))),
                Err(e) => Err(e),
            }
        },
        Expr::Select(base, p, default) => {
            if default.is_some() {
                return Err(EvalError::UnsupportedConstruct(ExprKind::Select));
            }
            let ns = match attr_path_names(p) {
                Some(ns) => ns,
                None => return Err(EvalError::UnsupportedAttrPath),
            };
            let v = match eval_object(scope, base, d) {
                Ok(v) => v,
                Err(e) => return Err(e),
            };
            select_prefix(v, &ns, ns.len())
        },
        Expr::Apply(f, x) => {
            let fv = match eval_object(scope, f, d) {
                Ok(v) => v,
                Err(e) => return Err(e),
            };
            let xv = match eval_object(scope, x, d) {
                Ok(v) => v,
                Err(e) => return Err(e),
            };
            fv.apply(xv)
        },
        Expr::Paren(inner) => eval_object(scope, inner, d),
        Expr::Lambda(..) => Err(EvalError::UnsupportedConstruct(ExprKind::Lambda)),
        Expr::Other(k) => Err(EvalError::UnsupportedConstruct(*k)),
    }
}

/// A name that was just bound evaluates to its value, whatever namespaces
/// are in scope.
pub proof fn lemma_bound_name_evaluates(env: ScopeModel, n: String, v: ValueModel, depth: nat)
    requires
        depth >= 1,
    ensures
        eval(bind(env, n@, v), Expr::Ident(n), depth) == Ok::<ValueModel, EvalError>(v),
{
    lemma_binding_outranks_scopes(env, n@, v);
}

/// Inside `with a; with b; ...`, a name that `a` has and `b` lacks, and that no
/// explicit binding holds, evaluates to `a`'s member.
pub proof fn lemma_outer_with_name_evaluates(
    env: ScopeModel,
    a: SetModel,
    b: SetModel,
    n: String,
    depth: nat,
)
    requires
        depth >= 1,
        !env.bindings.contains_key(n@),
        set_lookup(a, n@) is Some,
        set_lookup(b, n@) is None,
    ensures
        eval(enter_with(enter_with(env, a), b), Expr::Ident(n), depth) == Ok::<ValueModel, EvalError>(
            set_lookup(a, n@)->Some_0,
        ),
{
    lemma_nested_with_keeps_outer(env, a, b, n@);
}

proof fn lemma_let_names_len(es: Seq<Entry>, n: nat)
    ensures
        let_names(es, n) matches Ok(ns) ==> ns.len() == n,
    decreases n,
{
    if n > 0 {
        lemma_let_names_len(es, (n - 1) as nat);
    }
}

proof fn lemma_set_paths_shape(es: Seq<Entry>, n: nat)
    ensures
        set_paths(es, n) matches Ok(ps) ==> ps.len() == n && forall|j: int|
            0 <= j < ps.len() ==> (#[trigger] ps[j]).len() >= 1,
    decreases n,
{
    if n > 0 {
        lemma_set_paths_shape(es, (n - 1) as nat);
    }
}

} // verus!
