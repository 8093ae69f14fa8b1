//! The binding environment: explicit bindings and the namespaces of enclosing
//! `with` expressions.
use vstd::prelude::*;

use crate::namespace::{option_model, same_name, set_lookup};
use crate::value::{entries_model, names_model, set_model, value_model, AbstractSet, AbstractValue, SetModel, ValueModel};

verus! {

/// An explicit binding: a value, or a name whose value is still being
/// computed (`None`).
pub type Slot = (String, Option<AbstractValue>);

/// The environment of one evaluation point. Deriving a child never changes
/// the parent: every derivation returns a new `Scope`.
pub struct Scope {
    /// Explicit bindings, in the order they were made; a later one of a name wins.
    pub items: Vec<Slot>,
    /// The namespaces of enclosing `with` expressions, outermost first.
    pub with_namespaces: Vec<AbstractSet>,
}

/// The model of a [`Scope`]. A binding to `None` marks a name whose value is
/// still being computed.
pub struct ScopeModel {
    pub bindings: Map<Seq<char>, Option<ValueModel>>,
    pub scopes: Seq<SetModel>,
}

/// The model of a binding's value; `None` while it is being computed.
pub open spec fn slot_value_model(o: Option<AbstractValue>) -> Option<ValueModel> {
    option_model(o)
}

/// The map that a list of bindings denotes; a later binding of a name wins.
pub open spec fn slots_model(es: Seq<Slot>) -> Map<Seq<char>, Option<ValueModel>>
    decreases es.len(),
{
    if es.len() == 0 {
        Map::empty()
    } else {
        slots_model(es.subrange(0, es.len() - 1)).insert(
            es[es.len() - 1].0@,
            slot_value_model(es[es.len() - 1].1),
        )
    }
}

/// The models of a list of namespaces.
pub open spec fn scopes_model(ss: Seq<AbstractSet>) -> Seq<SetModel> {
    ss.map_values(|s: AbstractSet| set_model(&s))
}

impl View for Scope {
    type V = ScopeModel;

    open spec fn view(&self) -> ScopeModel {
        ScopeModel { bindings: slots_model(self.items@), scopes: scopes_model(self.with_namespaces@) }
    }
}

/// Looks `k` up in the namespaces `ss`, innermost (last) first; the first
/// namespace that has the member gives it.
pub open spec fn scopes_lookup(ss: Seq<SetModel>, k: Seq<char>) -> Option<ValueModel>
    decreases ss.len(),
{
    if ss.len() == 0 {
        None
    } else {
        match set_lookup(ss.last(), k) {
            Some(v) => Some(v),
            None => scopes_lookup(ss.drop_last(), k),
        }
    }
}

/// Looks `k` up in an environment: an explicit binding outranks every
/// namespace; a name still being computed resolves to nothing.
pub open spec fn scope_lookup(e: ScopeModel, k: Seq<char>) -> Option<ValueModel> {
    if e.bindings.contains_key(k) {
        e.bindings[k]
    } else {
        scopes_lookup(e.scopes, k)
    }
}

/// Whether `k` names a binding whose value is still being computed.
pub open spec fn scope_pending(e: ScopeModel, k: Seq<char>) -> bool {
    e.bindings.contains_key(k) && e.bindings[k] is None
}

/// Binds `k` to `v`.
pub open spec fn bind(e: ScopeModel, k: Seq<char>, v: ValueModel) -> ScopeModel {
    ScopeModel { bindings: e.bindings.insert(k, Some(v)), ..e }
}

/// Binds every name of `m` to its value.
pub open spec fn bind_all(e: ScopeModel, m: Map<Seq<char>, ValueModel>) -> ScopeModel {
    ScopeModel { bindings: e.bindings.union_prefer_right(m.map_values(|v: ValueModel| Some(v))), ..e }
}

/// Marks the names `ns` as still being computed.
pub open spec fn mark_pending(e: ScopeModel, ns: Seq<Seq<char>>) -> ScopeModel {
    ScopeModel {
        bindings: e.bindings.union_prefer_right(
            Map::new(|k: Seq<char>| ns.contains(k), |k: Seq<char>| None::<ValueModel>),
        ),
        ..e
    }
}

/// Adds `s` as the innermost namespace.
pub open spec fn enter_with(e: ScopeModel, s: SetModel) -> ScopeModel {
    ScopeModel { scopes: e.scopes.push(s), ..e }
}

proof fn lemma_no_slot(es: Seq<Slot>, k: Seq<char>)
    requires
        forall|j: int| 0 <= j < es.len() ==> (#[trigger] es[j]).0@ != k,
    ensures
        !slots_model(es).contains_key(k),
    decreases es.len(),
{
    if es.len() > 0 {
        let pre = es.subrange(0, es.len() - 1);
        assert forall|j: int| 0 <= j < pre.len() implies (#[trigger] pre[j]).0@ != k by {
            assert(pre[j] == es[j]);
        }
        lemma_no_slot(pre, k);
        assert(es[es.len() - 1].0@ != k);
    }
}

proof fn lemma_last_slot(es: Seq<Slot>, k: Seq<char>, i: int)
    requires
        0 <= i < es.len(),
        es[i].0@ == k,
        forall|j: int| i < j < es.len() ==> (#[trigger] es[j]).0@ != k,
    ensures
        slots_model(es).contains_key(k),
        slots_model(es)[k] == slot_value_model(es[i].1),
    decreases es.len(),
{
    if i < es.len() - 1 {
        let pre = es.subrange(0, es.len() - 1);
        assert forall|j: int| i < j < pre.len() implies (#[trigger] pre[j]).0@ != k by {
            assert(pre[j] == es[j]);
        }
        assert(pre[i] == es[i]);
        lemma_last_slot(pre, k, i);
        assert(es[es.len() - 1].0@ != k);
    }
}

/// The position of the slot that binds `k`, if any.
fn find_slot(es: &Vec<Slot>, k: &str) -> (r: Option<usize>)
    ensures
        r is None ==> !slots_model(es@).contains_key(k@),
        r matches Some(i) ==> i < es@.len() && slots_model(es@).contains_key(k@)
            && slots_model(es@)[k@] == slot_value_model(es@[i as int].1),
{
    let mut i: usize = es.len();
    while i > 0
        invariant
            i <= es@.len(),
            forall|j: int| i <= j < es@.len() ==> (#[trigger] es@[j]).0@ != k@,
        decreases i,
    {
        i = i - 1;
        if same_name(es[i].0.as_str(), k) {
            proof {
                lemma_last_slot(es@, k@, i as int);
            }
            return Some(i);
        }
    }
    proof {
        lemma_no_slot(es@, k@);
    }
    None
}

fn copy_slots(es: &Vec<Slot>) -> (r: Vec<Slot>)
    ensures
        slots_model(r@) == slots_model(es@),
{
    let mut out: Vec<Slot> = Vec::new();
    let mut i: usize = 0;
    while i < es.len()
        invariant
            i <= es.len(),
            out@.len() == i,
            slots_model(out@) == slots_model(es@.subrange(0, i as int)),
        decreases es.len() - i,
    {
        let ghost before = out@;
        let v = match &es[i].1 {
            Some(v) => Some(v.copy()),
            None => None,
        };
        out.push((es[i].0.clone(), v));
        assert(out@.subrange(0, out@.len() - 1) =~= before);
        assert(es@.subrange(0, i + 1).subrange(0, i as int) =~= es@.subrange(0, i as int));
        i = i + 1;
    }
    assert(es@.subrange(0, es@.len() as int) =~= es@);
    out
}

fn copy_sets(ss: &Vec<AbstractSet>) -> (r: Vec<AbstractSet>)
    ensures
        scopes_model(r@) == scopes_model(ss@),
{
    let mut out: Vec<AbstractSet> = Vec::new();
    let mut i: usize = 0;
    while i < ss.len()
        invariant
            i <= ss.len(),
            out@.len() == i,
            scopes_model(out@) =~= scopes_model(ss@.subrange(0, i as int)),
        decreases ss.len() - i,
    {
        let c = ss[i].copy();
        let ghost before = out@;
        out.push(c);
        assert forall|j: int| 0 <= j < i + 1 implies set_model(&out@[j]) == set_model(&ss@[j]) by {
            if j < i {
                assert(out@[j] == before[j]);
                assert(scopes_model(before)[j] == scopes_model(ss@.subrange(0, i as int))[j]);
            }
        }
        i = i + 1;
        assert(scopes_model(out@) =~= scopes_model(ss@.subrange(0, i as int)));
    }
    assert(ss@.subrange(0, ss@.len() as int) =~= ss@);
    out
}

impl Scope {
    /// The environment with no bindings and no namespaces.
    pub fn new() -> (r: Scope)
        ensures
            r@.bindings == Map::<Seq<char>, Option<ValueModel>>::empty(),
            r@.scopes == Seq::<SetModel>::empty(),
    {
        let r = Scope { items: Vec::new(), with_namespaces: Vec::new() };
        assert(r@.scopes =~= Seq::<SetModel>::empty());
        r
    }

    /// A copy with the same model.
    pub fn copy(&self) -> (r: Scope)
        ensures
            r@ == self@,
    {
        Scope { items: copy_slots(&self.items), with_namespaces: copy_sets(&self.with_namespaces) }
    }

    /// Resolves `k`: an explicit binding first, then the namespaces of the
    /// enclosing `with` expressions from innermost to outermost.
    pub fn lookup(&self, k: &str) -> (r: Option<AbstractValue>)
        ensures
            option_model(r) == scope_lookup(self@, k@),
    {
        let slot = find_slot(&self.items, k);
        if let Some(i) = slot {
            return match &self.items[i].1 {
                Some(v) => Some(v.copy()),
                None => None,
            };
        }
        assert(!self@.bindings.contains_key(k@));
        let ghost ss = self@.scopes;
        let mut i: usize = self.with_namespaces.len();
        assert(ss.subrange(0, i as int) =~= ss);
        while i > 0
            invariant
                i <= self.with_namespaces@.len(),
                ss == scopes_model(self.with_namespaces@),
                ss == self@.scopes,
                !self@.bindings.contains_key(k@),
                scopes_lookup(ss, k@) == scopes_lookup(ss.subrange(0, i as int), k@),
            decreases i,
        {
            let ghost pre = ss.subrange(0, i as int);
            assert(pre.drop_last() =~= ss.subrange(0, i - 1));
            i = i - 1;
            assert(pre.last() == set_model(&self.with_namespaces@[i as int]));
            let found = self.with_namespaces[i].lookup(k);
            if let Some(v) = found {
                assert(set_lookup(pre.last(), k@) == Some(value_model(&v)));
                return Some(v);
            }
        }
        None
    }

    /// Whether `k` is bound to a value that is still being computed.
    pub fn is_pending(&self, k: &str) -> (r: bool)
        ensures
            r == scope_pending(self@, k@),
    {
        match find_slot(&self.items, k) {
            Some(i) => self.items[i].1.is_none(),
            None => false,
        }
    }

    /// This environment with `k` bound to `v`.
    pub fn with_binding(&self, k: &str, v: AbstractValue) -> (r: Scope)
        ensures
            r@ == bind(self@, k@, value_model(&v)),
    {
        let mut items = copy_slots(&self.items);
        let ghost before = items@;
        items.push((k.to_owned(), Some(v)));
        assert(items@.subrange(0, items@.len() - 1) =~= before);
        let r = Scope { items, with_namespaces: copy_sets(&self.with_namespaces) };
        assert(r@.bindings =~= bind(self@, k@, value_model(&v)).bindings);
        r
    }

    /// This environment with every attribute of `es` bound.
    pub fn with_bindings(&self, es: &Vec<(String, AbstractValue)>) -> (r: Scope)
        ensures
            r@ == bind_all(self@, entries_model(es@)),
    {
        let mut items = copy_slots(&self.items);
        let mut i: usize = 0;
        while i < es.len()
            invariant
                i <= es.len(),
                slots_model(items@) == bind_all(self@, entries_model(es@.subrange(0, i as int))).bindings,
            decreases es.len() - i,
        {
            let ghost before = items@;
            items.push((es[i].0.clone(), Some(es[i].1.copy())));
            assert(items@.subrange(0, items@.len() - 1) =~= before);
            assert(es@.subrange(0, i + 1).subrange(0, i as int) =~= es@.subrange(0, i as int));
            i = i + 1;
            assert(slots_model(items@) =~= bind_all(self@, entries_model(es@.subrange(0, i as int))).bindings);
        }
        assert(es@.subrange(0, es@.len() as int) =~= es@);
        Scope { items, with_namespaces: copy_sets(&self.with_namespaces) }
    }

    /// This environment with the names `ns` marked as still being computed.
    pub fn with_pending(&self, ns: &Vec<String>) -> (r: Scope)
        ensures
            r@ == mark_pending(self@, names_model(ns@)),
    {
        let ghost all = names_model(ns@);
        let mut items = copy_slots(&self.items);
        let mut i: usize = 0;
        while i < ns.len()
            invariant
                i <= ns.len(),
                all == names_model(ns@),
                slots_model(items@) == mark_pending(self@, all.subrange(0, i as int)).bindings,
            decreases ns.len() - i,
        {
            let ghost before = items@;
            items.push((ns[i].clone(), None));
            assert(items@.subrange(0, items@.len() - 1) =~= before);
            i = i + 1;
            let ghost cur = all.subrange(0, i as int);
            let ghost prev = all.subrange(0, i - 1);
            assert forall|k: Seq<char>| cur.contains(k) <==> (prev.contains(k) || k == ns@[i - 1]@) by {
                if cur.contains(k) {
                    let j = choose|j: int| 0 <= j < cur.len() && cur[j] == k;
                    if j < i - 1 {
                        assert(prev[j] == k);
                    }
                }
                if prev.contains(k) {
                    let j = choose|j: int| 0 <= j < prev.len() && prev[j] == k;
                    assert(cur[j] == k);
                }
                if k == ns@[i - 1]@ {
                    assert(cur[i - 1] == k);
                }
            }
            assert(slots_model(items@) =~= mark_pending(self@, all.subrange(0, i as int)).bindings);
        }
        assert(all.subrange(0, ns@.len() as int) =~= all);
        Scope { items, with_namespaces: copy_sets(&self.with_namespaces) }
    }

    /// This environment inside `with s;`: the explicit bindings stay and
    /// outrank every namespace; `s` becomes the innermost namespace.
    pub fn with_dynamic_scope(&self, s: AbstractSet) -> (r: Scope)
        ensures
            r@ == enter_with(self@, set_model(&s)),
    {
        let mut ns = copy_sets(&self.with_namespaces);
        let ghost m = set_model(&s);
        ns.push(s);
        let r = Scope { items: copy_slots(&self.items), with_namespaces: ns };
        assert(r@.scopes =~= self@.scopes.push(m));
        r
    }
}

/// After binding `n` to `v`, looking `n` up gives `v`, whatever namespaces
/// are in scope.
pub proof fn lemma_binding_outranks_scopes(e: ScopeModel, n: Seq<char>, v: ValueModel)
    ensures
        scope_lookup(bind(e, n, v), n) == Some(v),
        !scope_pending(bind(e, n, v), n),
{
}

/// Inside `with a; with b; ...`, a name that `a` has and `b` lacks, and that no
/// explicit binding holds, resolves to `a`'s member: entering `b` keeps `a`.
pub proof fn lemma_nested_with_keeps_outer(e: ScopeModel, a: SetModel, b: SetModel, k: Seq<char>)
    requires
        !e.bindings.contains_key(k),
        set_lookup(a, k) is Some,
        set_lookup(b, k) is None,
    ensures
        scope_lookup(enter_with(enter_with(e, a), b), k) == set_lookup(a, k),
{
    let ss = enter_with(enter_with(e, a), b).scopes;
    assert(ss.drop_last() =~= e.scopes.push(a));
    assert(ss.last() == b);
    assert(ss.drop_last().last() == a);
    reveal_with_fuel(scopes_lookup, 2);
}

} // verus!
