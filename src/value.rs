//! The abstract value domain: what is known about a value during analysis.
use vstd::prelude::*;

use crate::error::EvalError;

verus! {

/// What is known about a value.
#[derive(Debug, PartialEq, Eq)]
pub enum AbstractValue {
    /// A value that behaves as an attribute set.
    AttrSet(AbstractSet),
    /// An opaque package or value reached through the package set.
    ExternalReference(String),
    /// A format generator of the package set's format namespace, by format name.
    FormatFactory(String),
    /// The format description that a format generator made, by format name.
    GeneratedFormat(String),
}

/// What is known about a set-shaped value.
#[derive(Debug, PartialEq, Eq)]
pub enum AbstractSet {
    /// A set built from explicit attributes: names with their values.
    Dynamic(Vec<(String, AbstractValue)>),
    /// The parameter of the definition, holding the well-known inputs.
    CallPackageArguments,
    /// The standard library namespace.
    Library,
    /// The package namespace.
    PackageSet,
    /// The configuration-option namespace.
    ConfigRoot,
    /// An access chain into the configuration options.
    ConfigPath(Vec<String>),
    /// The package set's namespace of format generators.
    FormatFactorySet,
}

/// The variant of an [`AbstractSet`], for diagnostics.
#[derive(Clone, Copy, Debug, PartialEq, Eq, Structural)]
pub enum SetKind {
    Dynamic,
    CallPackageArguments,
    Library,
    PackageSet,
    ConfigRoot,
    ConfigPath,
    FormatFactorySet,
}

/// The variant of an [`AbstractValue`], for diagnostics.
#[derive(Clone, Copy, Debug, PartialEq, Eq, Structural)]
pub enum ValueKind {
    AttrSet(SetKind),
    ExternalReference,
    FormatFactory,
    GeneratedFormat,
}

/// The mathematical model of an [`AbstractValue`].
pub enum ValueModel {
    AttrSet(SetModel),
    ExternalReference(Seq<char>),
    FormatFactory(Seq<char>),
    GeneratedFormat(Seq<char>),
}

/// The mathematical model of an [`AbstractSet`]: a built set is a finite map.
pub enum SetModel {
    Dynamic(Map<Seq<char>, ValueModel>),
    CallPackageArguments,
    Library,
    PackageSet,
    ConfigRoot,
    ConfigPath(Seq<Seq<char>>),
    FormatFactorySet,
}

/// The model of a value.
pub open spec fn value_model(v: &AbstractValue) -> ValueModel
    decreases v,
{
    match v {
        AbstractValue::AttrSet(s) => ValueModel::AttrSet(set_model(s)),
        AbstractValue::ExternalReference(n) => ValueModel::ExternalReference(n@),
        AbstractValue::FormatFactory(n) => ValueModel::FormatFactory(n@),
        AbstractValue::GeneratedFormat(n) => ValueModel::GeneratedFormat(n@),
    }
}

/// The model of a list of names.
pub open spec fn names_model(p: Seq<String>) -> Seq<Seq<char>> {
    p.map_values(|n: String| n@)
}

/// The model of a set.
pub open spec fn set_model(s: &AbstractSet) -> SetModel
    decreases s,
{
    match s {
        AbstractSet::Dynamic(es) => SetModel::Dynamic(entries_model(es@)),
        AbstractSet::CallPackageArguments => SetModel::CallPackageArguments,
        AbstractSet::Library => SetModel::Library,
        AbstractSet::PackageSet => SetModel::PackageSet,
        AbstractSet::ConfigRoot => SetModel::ConfigRoot,
        AbstractSet::ConfigPath(p) => SetModel::ConfigPath(names_model(p@)),
        AbstractSet::FormatFactorySet => SetModel::FormatFactorySet,
    }
}

/// No two attributes of the list share a name.
pub open spec fn unique_names(es: Seq<(String, AbstractValue)>) -> bool {
    forall|i: int, j: int| 0 <= i < j < es.len() ==> (#[trigger] es[i]).0@ != (#[trigger] es[j]).0@
}

/// The map that a list of attributes denotes; a later entry of a name wins.
pub open spec fn entries_model(es: Seq<(String, AbstractValue)>) -> Map<Seq<char>, ValueModel>
    decreases es,
{
    if es.len() == 0 {
        Map::empty()
    } else {
        entries_model(es.subrange(0, es.len() - 1)).insert(
            es[es.len() - 1].0@,
            value_model(&es[es.len() - 1].1),
        )
    }
}

/// The variant of a set.
pub open spec fn set_kind(s: SetModel) -> SetKind {
    match s {
        SetModel::Dynamic(_) => SetKind::Dynamic,
        SetModel::CallPackageArguments => SetKind::CallPackageArguments,
        SetModel::Library => SetKind::Library,
        SetModel::PackageSet => SetKind::PackageSet,
        SetModel::ConfigRoot => SetKind::ConfigRoot,
        SetModel::ConfigPath(_) => SetKind::ConfigPath,
        SetModel::FormatFactorySet => SetKind::FormatFactorySet,
    }
}

/// The variant of a value.
pub open spec fn value_kind(v: ValueModel) -> ValueKind {
    match v {
        ValueModel::AttrSet(s) => ValueKind::AttrSet(set_kind(s)),
        ValueModel::ExternalReference(_) => ValueKind::ExternalReference,
        ValueModel::FormatFactory(_) => ValueKind::FormatFactory,
        ValueModel::GeneratedFormat(_) => ValueKind::GeneratedFormat,
    }
}

/// A value used as a set: the set it is, or `NotASet`.
pub open spec fn as_set(v: ValueModel) -> Result<SetModel, EvalError> {
    match v {
        ValueModel::AttrSet(s) => Ok(s),
        _ => Err(EvalError::NotASet(value_kind(v))),
    }
}

/// What applying `f` to `arg` gives: only a format generator applied to a set
/// gives a value, the format description of its format.
pub open spec fn apply_model(f: ValueModel, arg: ValueModel) -> Result<ValueModel, EvalError> {
    match f {
        ValueModel::FormatFactory(k) => match arg {
            ValueModel::AttrSet(_) => Ok(ValueModel::GeneratedFormat(k)),
            _ => Err(EvalError::NotASet(value_kind(arg))),
        },
        _ => Err(EvalError::NotApplicable(value_kind(f))),
    }
}

/// The model of a set or of a failure.
pub open spec fn set_result_model(r: Result<AbstractSet, EvalError>) -> Result<SetModel, EvalError> {
    match r {
        Ok(s) => Ok(set_model(&s)),
        Err(e) => Err(e),
    }
}

/// The model of a value or of a failure.
pub open spec fn value_result_model(r: Result<AbstractValue, EvalError>) -> Result<
    ValueModel,
    EvalError,
> {
    match r {
        Ok(v) => Ok(value_model(&v)),
        Err(e) => Err(e),
    }
}

/// Copies a list of names.
pub fn copy_names(p: &Vec<String>) -> (r: Vec<String>)
    ensures
        r@ == p@,
{
    let mut out: Vec<String> = Vec::new();
    let mut i: usize = 0;
    while i < p.len()
        invariant
            i <= p.len(),
            out@ == p@.subrange(0, i as int),
        decreases p.len() - i,
    {
        out.push(p[i].clone());
        i = i + 1;
        assert(out@ =~= p@.subrange(0, i as int));
    }
    assert(out@ =~= p@);
    out
}

impl AbstractValue {
    /// The variant of this value.
    pub fn kind(&self) -> (r: ValueKind)
        ensures
            r == value_kind(value_model(self)),
    {
        match self {
            AbstractValue::AttrSet(s) => ValueKind::AttrSet(s.kind()),
            AbstractValue::ExternalReference(_) => ValueKind::ExternalReference,
            AbstractValue::FormatFactory(_) => ValueKind::FormatFactory,
            AbstractValue::GeneratedFormat(_) => ValueKind::GeneratedFormat,
        }
    }

    /// A copy with the same model.
    pub fn copy(&self) -> (r: AbstractValue)
        ensures
            value_model(&r) == value_model(self),
        decreases self,
    {
        match self {
            AbstractValue::AttrSet(s) => AbstractValue::AttrSet(s.copy()),
            AbstractValue::ExternalReference(n) => AbstractValue::ExternalReference(n.clone()),
            AbstractValue::FormatFactory(n) => AbstractValue::FormatFactory(n.clone()),
            AbstractValue::GeneratedFormat(n) => AbstractValue::GeneratedFormat(n.clone()),
        }
    }

    /// The set this value is, or `NotASet` naming its kind.
    pub fn try_into_set(self) -> (r: Result<AbstractSet, EvalError>)
        ensures
            set_result_model(r) == as_set(value_model(&self)),
    {
        match self {
            AbstractValue::AttrSet(s) => Ok(s),
            _ => Err(EvalError::NotASet(self.kind())),
        }
    }

    /// Applies this value to `arg`.
    pub fn apply(self, arg: AbstractValue) -> (r: Result<AbstractValue, EvalError>)
        ensures
            value_result_model(r) == apply_model(value_model(&self), value_model(&arg)),
    {
        match self {
            AbstractValue::FormatFactory(k) => match arg {
                AbstractValue::AttrSet(_) => Ok(AbstractValue::GeneratedFormat(k)),
                _ => Err(EvalError::NotASet(arg.kind())),
            },
            _ => Err(EvalError::NotApplicable(self.kind())),
        }
    }
}

impl AbstractSet {
    /// The variant of this set.
    pub fn kind(&self) -> (r: SetKind)
        ensures
            r == set_kind(set_model(self)),
    {
        match self {
            AbstractSet::Dynamic(_) => SetKind::Dynamic,
            AbstractSet::CallPackageArguments => SetKind::CallPackageArguments,
            AbstractSet::Library => SetKind::Library,
            AbstractSet::PackageSet => SetKind::PackageSet,
            AbstractSet::ConfigRoot => SetKind::ConfigRoot,
            AbstractSet::ConfigPath(_) => SetKind::ConfigPath,
            AbstractSet::FormatFactorySet => SetKind::FormatFactorySet,
        }
    }

    /// A copy with the same model.
    pub fn copy(&self) -> (r: AbstractSet)
        ensures
            set_model(&r) == set_model(self),
        decreases self,
    {
        match self {
            AbstractSet::Dynamic(es) => AbstractSet::Dynamic(copy_entries(es)),
            AbstractSet::CallPackageArguments => AbstractSet::CallPackageArguments,
            AbstractSet::Library => AbstractSet::Library,
            AbstractSet::PackageSet => AbstractSet::PackageSet,
            AbstractSet::ConfigRoot => AbstractSet::ConfigRoot,
            AbstractSet::ConfigPath(p) => AbstractSet::ConfigPath(copy_names(p)),
            AbstractSet::FormatFactorySet => AbstractSet::FormatFactorySet,
        }
    }
}

/// Copies a list of attributes, keeping its model.
pub fn copy_entries(es: &Vec<(String, AbstractValue)>) -> (r: Vec<(String, AbstractValue)>)
    ensures
        entries_model(r@) == entries_model(es@),
    decreases es,
{
    let mut out: Vec<(String, AbstractValue)> = Vec::new();
    let mut i: usize = 0;
    while i < es.len()
        invariant
            i <= es.len(),
            out@.len() == i,
            entries_model(out@) == entries_model(es@.subrange(0, i as int)),
        decreases es.len() - i,
    {
        let ghost before = out@;
        assert(decreases_to!(es => es[i as int]));
        let v = es[i].1.copy();
        out.push((es[i].0.clone(), v));
        assert(out@.subrange(0, out@.len() - 1) =~= before);
        assert(es@.subrange(0, i + 1).subrange(0, i as int) =~= es@.subrange(0, i as int));
        i = i + 1;
    }
    assert(es@.subrange(0, es@.len() as int) =~= es@);
    out
}

} // verus!
