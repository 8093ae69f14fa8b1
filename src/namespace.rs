//! The well-known namespaces and member lookup on every kind of set.
use vstd::prelude::*;

use crate::value::{
    copy_names, entries_model, names_model, set_model, value_model, AbstractSet, AbstractValue,
    SetModel, ValueModel,
};

verus! {

/// The namespace that a definition's parameter provides under `k`, if any:
/// exactly `lib`, `pkgs` and `config`.
pub open spec fn call_package_input(k: Seq<char>) -> Option<SetModel> {
    if k == "lib"@ {
        Some(SetModel::Library)
    } else if k == "pkgs"@ {
        Some(SetModel::PackageSet)
    } else if k == "config"@ {
        Some(SetModel::ConfigRoot)
    } else {
        None
    }
}

/// The member `k` of the package set: the format namespace under `formats`,
/// an opaque package under any other name.
pub open spec fn nixpkg_model(k: Seq<char>) -> ValueModel {
    if k == "formats"@ {
        ValueModel::AttrSet(SetModel::FormatFactorySet)
    } else {
        ValueModel::ExternalReference(k)
    }
}

/// The member `k` of a set, or `None` where the set has no such member.
/// The standard library namespace models no members.
pub open spec fn set_lookup(s: SetModel, k: Seq<char>) -> Option<ValueModel> {
    match s {
        SetModel::Dynamic(m) => if m.contains_key(k) {
            Some(m[k])
        } else {
            None
        },
        SetModel::CallPackageArguments => match call_package_input(k) {
            Some(n) => Some(ValueModel::AttrSet(n)),
            None => None,
        },
        SetModel::Library => None,
        SetModel::PackageSet => Some(nixpkg_model(k)),
        SetModel::ConfigRoot => Some(ValueModel::AttrSet(SetModel::ConfigPath(seq![k]))),
        SetModel::ConfigPath(p) => Some(ValueModel::AttrSet(SetModel::ConfigPath(p.push(k)))),
        SetModel::FormatFactorySet => Some(ValueModel::FormatFactory(k)),
    }
}

/// The model of a value that may be absent.
pub open spec fn option_model(o: Option<AbstractValue>) -> Option<ValueModel> {
    match o {
        Some(v) => Some(value_model(&v)),
        None => None,
    }
}

/// The model of a set that may be absent.
pub open spec fn option_set_model(o: Option<AbstractSet>) -> Option<SetModel> {
    match o {
        Some(s) => Some(set_model(&s)),
        None => None,
    }
}

/// Whether two names are equal.
pub fn same_name(a: &str, b: &str) -> (r: bool)
    ensures
        r == (a@ == b@),
{
    a.to_owned() == b.to_owned()
}

/// The namespace that a definition's parameter provides under `name`.
pub fn call_package_input_of(name: &str) -> (r: Option<AbstractSet>)
    ensures
        option_set_model(r) == call_package_input(name@),
{
    if same_name(name, "lib") {
        Some(AbstractSet::Library)
    } else if same_name(name, "pkgs") {
        Some(AbstractSet::PackageSet)
    } else if same_name(name, "config") {
        Some(AbstractSet::ConfigRoot)
    } else {
        None
    }
}

/// The member `name` of the package set.
pub fn lookup_nixpkg(name: &str) -> (r: AbstractValue)
    ensures
        value_model(&r) == nixpkg_model(name@),
{
    if same_name(name, "formats") {
        return AbstractValue::AttrSet(AbstractSet::FormatFactorySet);
    }
    AbstractValue::ExternalReference(name.to_owned())
}

proof fn lemma_no_entry(es: Seq<(String, AbstractValue)>, k: Seq<char>)
    requires
        forall|j: int| 0 <= j < es.len() ==> (#[trigger] es[j]).0@ != k,
    ensures
        !entries_model(es).contains_key(k),
    decreases es.len(),
{
    if es.len() > 0 {
        let pre = es.subrange(0, es.len() - 1);
        assert forall|j: int| 0 <= j < pre.len() implies (#[trigger] pre[j]).0@ != k by {
            assert(pre[j] == es[j]);
        }
        lemma_no_entry(pre, k);
        assert(es[es.len() - 1].0@ != k);
    }
}

proof fn lemma_last_entry(es: Seq<(String, AbstractValue)>, k: Seq<char>, i: int)
    requires
        0 <= i < es.len(),
        es[i].0@ == k,
        forall|j: int| i < j < es.len() ==> (#[trigger] es[j]).0@ != k,
    ensures
        entries_model(es).contains_key(k),
        entries_model(es)[k] == value_model(&es[i].1),
    decreases es.len(),
{
    if i < es.len() - 1 {
        let pre = es.subrange(0, es.len() - 1);
        assert forall|j: int| i < j < pre.len() implies (#[trigger] pre[j]).0@ != k by {
            assert(pre[j] == es[j]);
        }
        assert(pre[i] == es[i]);
        lemma_last_entry(pre, k, i);
        assert(es[es.len() - 1].0@ != k);
    }
}

/// The position of the entry that gives the value of `k`, if any.
pub fn find_entry(es: &Vec<(String, AbstractValue)>, k: &str) -> (r: Option<usize>)
    ensures
        r is None ==> !entries_model(es@).contains_key(k@) && forall|j: int|
            0 <= j < es@.len() ==> (#[trigger] es@[j]).0@ != k@,
        r matches Some(i) ==> {
            &&& i < es@.len()
            &&& es@[i as int].0@ == k@
            &&& forall|j: int| i < j < es@.len() ==> (#[trigger] es@[j]).0@ != k@
            &&& entries_model(es@).contains_key(k@)
            &&& entries_model(es@)[k@] == value_model(&es@[i as int].1)
        },
{
    let mut i: usize = es.len();
    while i > 0
        invariant
            i <= es@.len(),
            forall|j: int| i <= j < es@.len() ==> (#[trigger] es@[j]).0@ != k@,
        decreases i,
    {
        i = i - 1;
        if same_name(es[i].0.as_str(), k) {
            proof {
                lemma_last_entry(es@, k@, i as int);
            }
            return Some(i);
        }
    }
    proof {
        lemma_no_entry(es@, k@);
    }
    None
}

impl AbstractSet {
    /// The member `k` of this set, or `None` where it has none.
    pub fn lookup(&self, k: &str) -> (r: Option<AbstractValue>)
        ensures
            option_model(r) == set_lookup(set_model(self), k@),
    {
        match self {
            AbstractSet::Dynamic(es) => match find_entry(es, k) {
                Some(i) => Some(es[i].1.copy()),
                None => None,
            },
            AbstractSet::CallPackageArguments => match call_package_input_of(k) {
                Some(n) => Some(AbstractValue::AttrSet(n)),
                None => None,
            },
            AbstractSet::Library => None,
            AbstractSet::PackageSet => Some(lookup_nixpkg(k)),
            AbstractSet::ConfigRoot => {
                let mut p: Vec<String> = Vec::new();
                p.push(k.to_owned());
                proof {
                    assert(names_model(p@) =~= seq![k@]);
                }
                Some(AbstractValue::AttrSet(AbstractSet::ConfigPath(p)))
            },
            AbstractSet::ConfigPath(path) => {
                let mut p = copy_names(path);
                p.push(k.to_owned());
                proof {
                    assert(names_model(p@) =~= names_model(path@).push(k@));
                }
                Some(AbstractValue::AttrSet(AbstractSet::ConfigPath(p)))
            },
            AbstractSet::FormatFactorySet => Some(AbstractValue::FormatFactory(k.to_owned())),
        }
    }
}

/// Member lookup fails only where a set may lack a member: a built set, the
/// standard library, or the definition's parameter asked for a name outside
/// the well-known inputs. Every other namespace has every member.
pub proof fn lemma_lookup_total(s: SetModel, k: Seq<char>)
    ensures
        set_lookup(s, k) is None ==> (s is Dynamic || s is Library || (s is CallPackageArguments
            && call_package_input(k) is None)),
{
}

} // verus!
