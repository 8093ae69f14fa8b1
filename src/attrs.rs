//! Attribute paths and the merging of dotted paths into built sets.
use vstd::prelude::*;

use crate::ast::{AttrName, Entry, ExprKind};
use crate::error::EvalError;
use crate::namespace::find_entry;
use crate::value::{copy_entries, entries_model, unique_names, value_model, AbstractSet, AbstractValue, SetModel, ValueModel};

verus! {

/// The names of an attribute path, if every segment is a plain identifier.
pub open spec fn path_names(p: Seq<AttrName>) -> Option<Seq<String>> {
    if forall|j: int| 0 <= j < p.len() ==> (#[trigger] p[j]) is Ident {
        Some(Seq::new(p.len(), |j: int| p[j]->Ident_0))
    } else {
        None
    }
}

/// The names that the first `n` entries of a `let` bind: each entry must bind
/// one plain identifier.
pub open spec fn let_names(es: Seq<Entry>, n: nat) -> Result<Seq<String>, EvalError>
    decreases n,
{
    if n == 0 {
        Ok(Seq::empty())
    } else {
        match let_names(es, (n - 1) as nat) {
            Err(e) => Err(e),
            Ok(ns) => match es[n - 1] {
                Entry::Inherit => Err(EvalError::UnsupportedConstruct(ExprKind::Inherit)),
                Entry::Assign(p, _) => match path_names(p@) {
                    Some(q) => if q.len() == 1 {
                        Ok(ns.push(q[0]))
                    } else {
                        Err(EvalError::UnsupportedAttrPath)
                    },
                    None => Err(EvalError::UnsupportedAttrPath),
                },
            },
        }
    }
}

/// The attribute paths of the first `n` entries of a set literal: each must be
/// a non-empty path of plain identifiers.
pub open spec fn set_paths(es: Seq<Entry>, n: nat) -> Result<Seq<Seq<String>>, EvalError>
    decreases n,
{
    if n == 0 {
        Ok(Seq::empty())
    } else {
        match set_paths(es, (n - 1) as nat) {
            Err(e) => Err(e),
            Ok(ps) => match es[n - 1] {
                Entry::Inherit => Err(EvalError::UnsupportedConstruct(ExprKind::Inherit)),
                Entry::Assign(p, _) => match path_names(p@) {
                    Some(q) => if q.len() >= 1 {
                        Ok(ps.push(q))
                    } else {
                        Err(EvalError::UnsupportedAttrPath)
                    },
                    None => Err(EvalError::UnsupportedAttrPath),
                },
            },
        }
    }
}

/// Assigns `v` at `path` in the built set `m`. The segments before the last
/// name nested built sets, made where absent; a segment that holds anything
/// but a built set is a conflict; a path that is already assigned is a
/// duplicate.
pub open spec fn insert_path(m: Map<Seq<char>, ValueModel>, path: Seq<String>, v: ValueModel) -> Result<
    Map<Seq<char>, ValueModel>,
    EvalError,
>
    decreases path.len(),
{
    if path.len() <= 1 {
        if m.contains_key(path[0]@) {
            Err(EvalError::DuplicateAttribute(path[0]))
        } else {
            Ok(m.insert(path[0]@, v))
        }
    } else if m.contains_key(path[0]@) {
        match m[path[0]@] {
            ValueModel::AttrSet(SetModel::Dynamic(inner)) => match insert_path(inner, path.drop_first(), v) {
                Ok(i2) => Ok(m.insert(path[0]@, ValueModel::AttrSet(SetModel::Dynamic(i2)))),
                Err(e) => Err(e),
            },
            _ => Err(EvalError::AttributeConflict(path[0])),
        }
    } else {
        match insert_path(Map::empty(), path.drop_first(), v) {
            Ok(i2) => Ok(m.insert(path[0]@, ValueModel::AttrSet(SetModel::Dynamic(i2)))),
            Err(e) => Err(e),
        }
    }
}

/// Assigning dotted paths that share their first name `a` builds what
/// assigning `a` once to the nested set built from the rest of each path
/// builds: `{ a.p = v1; a.q = v2; }` is `{ a = { p = v1; q = v2; }; }`.
pub proof fn lemma_dotted_paths_nest(
    m: Map<Seq<char>, ValueModel>,
    a: String,
    p: Seq<String>,
    q: Seq<String>,
    v1: ValueModel,
    v2: ValueModel,
)
    requires
        !m.contains_key(a@),
        p.len() >= 1,
        q.len() >= 1,
    ensures
        (match insert_path(m, seq![a] + p, v1) {
            Ok(m1) => insert_path(m1, seq![a] + q, v2),
            Err(e) => Err(e),
        }) == (match insert_path(Map::empty(), p, v1) {
            Ok(n1) => match insert_path(n1, q, v2) {
                Ok(n2) => insert_path(m, seq![a], ValueModel::AttrSet(SetModel::Dynamic(n2))),
                Err(e) => Err(e),
            },
            Err(e) => Err(e),
        }),
{
    let ap = seq![a] + p;
    let aq = seq![a] + q;
    assert(ap[0] == a);
    assert(aq[0] == a);
    assert(ap.drop_first() =~= p);
    assert(aq.drop_first() =~= q);
    assert(seq![a][0] == a);
    match insert_path(Map::empty(), p, v1) {
        Ok(n1) => {
            let m1 = m.insert(a@, ValueModel::AttrSet(SetModel::Dynamic(n1)));
            assert(insert_path(m, ap, v1) == Ok::<Map<Seq<char>, ValueModel>, EvalError>(m1));
            match insert_path(n1, q, v2) {
                Ok(n2) => {
                    assert(m1.insert(a@, ValueModel::AttrSet(SetModel::Dynamic(n2))) =~= m.insert(
                        a@,
                        ValueModel::AttrSet(SetModel::Dynamic(n2)),
                    ));
                },
                Err(e) => {},
            }
        },
        Err(e) => {},
    }
}

/// Assigning a path that an earlier assignment made always fails as a
/// duplicate, whichever of the two values comes first.
pub proof fn lemma_duplicate_path_fails(
    m: Map<Seq<char>, ValueModel>,
    path: Seq<String>,
    v1: ValueModel,
    v2: ValueModel,
)
    requires
        path.len() >= 1,
    ensures
        insert_path(m, path, v1) matches Ok(m1) ==> insert_path(m1, path, v2) == Err::<
            Map<Seq<char>, ValueModel>,
            EvalError,
        >(EvalError::DuplicateAttribute(path.last())),
        insert_path(m, path, v2) matches Ok(m2) ==> insert_path(m2, path, v1) == Err::<
            Map<Seq<char>, ValueModel>,
            EvalError,
        >(EvalError::DuplicateAttribute(path.last())),
{
    lemma_assigned_path_is_duplicate(m, path, v1, v2);
    lemma_assigned_path_is_duplicate(m, path, v2, v1);
}

proof fn lemma_assigned_path_is_duplicate(
    m: Map<Seq<char>, ValueModel>,
    path: Seq<String>,
    v1: ValueModel,
    v2: ValueModel,
)
    requires
        path.len() >= 1,
    ensures
        insert_path(m, path, v1) matches Ok(m1) ==> insert_path(m1, path, v2) == Err::<
            Map<Seq<char>, ValueModel>,
            EvalError,
        >(EvalError::DuplicateAttribute(path.last())),
    decreases path.len(),
{
    if path.len() > 1 {
        let rest = path.drop_first();
        assert(rest.last() == path.last());
        if m.contains_key(path[0]@) {
            if let ValueModel::AttrSet(SetModel::Dynamic(inner)) = m[path[0]@] {
                lemma_assigned_path_is_duplicate(inner, rest, v1, v2);
            }
        } else {
            lemma_assigned_path_is_duplicate(Map::empty(), rest, v1, v2);
        }
    }
}

/// The names of `p`, if every segment is a plain identifier.
pub fn attr_path_names(p: &Vec<AttrName>) -> (r: Option<Vec<String>>)
    ensures
        match path_names(p@) {
            Some(q) => r matches Some(v) && v@ == q,
            None => r is None,
        },
{
    let mut out: Vec<String> = Vec::new();
    let mut i: usize = 0;
    while i < p.len()
        invariant
            i <= p.len(),
            out@.len() == i,
            forall|j: int| 0 <= j < i ==> (#[trigger] p@[j]) is Ident && out@[j] == p@[j]->Ident_0,
        decreases p.len() - i,
    {
        match &p[i] {
            AttrName::Ident(n) => out.push(n.clone()),
            AttrName::Computed => return None,
        }
        i = i + 1;
    }
    assert(out@ =~= Seq::new(p@.len(), |j: int| p@[j]->Ident_0));
    Some(out)
}

/// The names that a `let` binds, in order.
pub fn let_binding_names(es: &Vec<Entry>) -> (r: Result<Vec<String>, EvalError>)
    ensures
        match let_names(es@, es@.len()) {
            Ok(ns) => r matches Ok(v) && v@ == ns,
            Err(e) => r == Err::<Vec<String>, EvalError>(e),
        },
{
    let_names_prefix(es, es.len())
}

fn let_names_prefix(es: &Vec<Entry>, n: usize) -> (r: Result<Vec<String>, EvalError>)
    requires
        n <= es.len(),
    ensures
        match let_names(es@, n as nat) {
            Ok(ns) => r matches Ok(v) && v@ == ns,
            Err(e) => r == Err::<Vec<String>, EvalError>(e),
        },
    decreases n,
{
    if n == 0 {
        return Ok(Vec::new());
    }
    let mut ns = match let_names_prefix(es, n - 1) {
        Ok(ns) => ns,
        Err(e) => return Err(e),
    };
    match &es[n - 1] {
        Entry::Inherit => Err(EvalError::UnsupportedConstruct(ExprKind::Inherit)),
        Entry::Assign(p, _) => match attr_path_names(p) {
            Some(q) => if q.len() == 1 {
                ns.push(q[0].clone());
                Ok(ns)
            } else {
                Err(EvalError::UnsupportedAttrPath)
            },
            None => Err(EvalError::UnsupportedAttrPath),
        },
    }
}

/// The models of a list of attribute paths.
pub open spec fn paths_model(ps: Seq<Vec<String>>) -> Seq<Seq<String>> {
    ps.map_values(|p: Vec<String>| p@)
}

/// The attribute paths of a set literal's entries, in order.
pub fn set_entry_paths(es: &Vec<Entry>, n: usize) -> (r: Result<Vec<Vec<String>>, EvalError>)
    requires
        n <= es.len(),
    ensures
        match set_paths(es@, n as nat) {
            Ok(ps) => r matches Ok(v) && paths_model(v@) == ps,
            Err(e) => r == Err::<Vec<Vec<String>>, EvalError>(e),
        },
    decreases n,
{
    if n == 0 {
        let r: Vec<Vec<String>> = Vec::new();
        assert(paths_model(r@) =~= Seq::empty());
        return Ok(r);
    }
    let mut ps = match set_entry_paths(es, n - 1) {
        Ok(ps) => ps,
        Err(e) => return Err(e),
    };
    match &es[n - 1] {
        Entry::Inherit => Err(EvalError::UnsupportedConstruct(ExprKind::Inherit)),
        Entry::Assign(p, _) => match attr_path_names(p) {
            Some(q) => if q.len() >= 1 {
                let ghost before = ps@;
                let ghost qv = q@;
                ps.push(q);
                assert(paths_model(ps@) =~= paths_model(before).push(qv));
                Ok(ps)
            } else {
                Err(EvalError::UnsupportedAttrPath)
            },
            None => Err(EvalError::UnsupportedAttrPath),
        },
    }
}

proof fn lemma_replace_last(es: Seq<(String, AbstractValue)>, i: int, x: (String, AbstractValue))
    requires
        0 <= i < es.len(),
        es[i].0@ == x.0@,
        forall|j: int| i < j < es.len() ==> (#[trigger] es[j]).0@ != x.0@,
    ensures
        entries_model(es.update(i, x)) == entries_model(es).insert(x.0@, value_model(&x.1)),
    decreases es.len(),
{
    let u = es.update(i, x);
    let pre = es.subrange(0, es.len() - 1);
    let upre = u.subrange(0, u.len() - 1);
    if i == es.len() - 1 {
        assert(upre =~= pre);
        assert(entries_model(u) =~= entries_model(es).insert(x.0@, value_model(&x.1)));
    } else {
        assert(upre =~= pre.update(i, x));
        assert forall|j: int| i < j < pre.len() implies (#[trigger] pre[j]).0@ != x.0@ by {
            assert(pre[j] == es[j]);
        }
        lemma_replace_last(pre, i, x);
        assert(u[u.len() - 1] == es[es.len() - 1]);
        assert(es[es.len() - 1].0@ != x.0@);
        assert(entries_model(u) =~= entries_model(es).insert(x.0@, value_model(&x.1)));
    }
}

/// Assigns `v` at the path `path[start..]` in the built set `es`.
pub fn insert_attr_path(
    es: &mut Vec<(String, AbstractValue)>,
    path: &Vec<String>,
    start: usize,
    v: AbstractValue,
) -> (r: Result<(), EvalError>)
    requires
        start < path.len(),
    ensures
        unique_names(old(es)@) && r is Ok ==> unique_names(final(es)@),
        match insert_path(entries_model(old(es)@), path@.subrange(start as int, path@.len() as int), value_model(&v)) {
            Ok(m) => r is Ok && entries_model(final(es)@) == m,
            Err(e) => r == Err::<(), EvalError>(e),
        },
    decreases path.len() - start,
{
    let ghost p = path@.subrange(start as int, path@.len() as int);
    let ghost vm = value_model(&v);
    assert(p[0] == path@[start as int]);
    assert(p.drop_first() =~= path@.subrange(start + 1, path@.len() as int));
    let k = &path[start];
    match find_entry(es, k.as_str()) {
        None => {
            if start + 1 == path.len() {
                let ghost before = es@;
                es.push((k.clone(), v));
                assert(es@.subrange(0, es@.len() - 1) =~= before);
                Ok(())
            } else {
                let mut inner: Vec<(String, AbstractValue)> = Vec::new();
                assert(entries_model(inner@) =~= Map::empty());
                match insert_attr_path(&mut inner, path, start + 1, v) {
                    Ok(()) => {},
                    Err(e) => return Err(e),
                }
                let ghost before = es@;
                es.push((k.clone(), AbstractValue::AttrSet(AbstractSet::Dynamic(inner))));
                assert(es@.subrange(0, es@.len() - 1) =~= before);
                let ghost last = es@[es@.len() - 1];
                assert(value_model(&last.1) == ValueModel::AttrSet(
                    SetModel::Dynamic(entries_model(last.1->AttrSet_0->Dynamic_0@)),
                ));
                Ok(())
            }
        },
        Some(i) => {
            if start + 1 == path.len() {
                return Err(EvalError::DuplicateAttribute(k.clone()));
            }
            let mut inner = match &es[i].1 {
                AbstractValue::AttrSet(AbstractSet::Dynamic(inner_ref)) => copy_entries(inner_ref),
                _ => return Err(EvalError::AttributeConflict(k.clone())),
            };
            match insert_attr_path(&mut inner, path, start + 1, v) {
                Ok(()) => {},
                Err(e) => return Err(e),
            }
            let x = (k.clone(), AbstractValue::AttrSet(AbstractSet::Dynamic(inner)));
            proof {
                lemma_replace_last(es@, i as int, x);
            }
            es.set(i, x);
            Ok(())
        },
    }
}

} // verus!
