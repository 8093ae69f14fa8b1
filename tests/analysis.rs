use nix_provenance::ast::{token_type, AttrName, Entry, Expr, ExprKind, Param};
use nix_provenance::error::EvalError;
use nix_provenance::eval::eval_object;
use nix_provenance::module::{analyze_module, initial_scope, MAX_DEPTH};
use nix_provenance::namespace::lookup_nixpkg;
use nix_provenance::scope::Scope;
use nix_provenance::value::{AbstractSet, AbstractValue, SetKind, ValueKind};

fn ident(n: &str) -> Expr {
    Expr::Ident(n.to_string())
}

fn path(names: &[&str]) -> Vec<AttrName> {
    names.iter().map(|n| AttrName::Ident(n.to_string())).collect()
}

fn select(base: Expr, names: &[&str]) -> Expr {
    Expr::Select(Box::new(base), path(names), None)
}

fn assign(names: &[&str], value: Expr) -> Entry {
    Entry::Assign(path(names), value)
}

fn attrs(entries: Vec<Entry>) -> Expr {
    Expr::AttrSet(false, entries)
}

fn with(ns: Expr, body: Expr) -> Expr {
    Expr::With(Box::new(ns), Box::new(body))
}

fn let_in(entries: Vec<Entry>, body: Expr) -> Expr {
    Expr::LetIn(entries, Box::new(body))
}

fn module(fields: &[&str], body: Expr) -> Expr {
    Expr::Lambda(
        Param::Pattern { bind: None, fields: fields.iter().map(|f| f.to_string()).collect() },
        Box::new(body),
    )
}

fn pkg(n: &str) -> AbstractValue {
    AbstractValue::ExternalReference(n.to_string())
}

fn config_path(names: &[&str]) -> AbstractValue {
    AbstractValue::AttrSet(AbstractSet::ConfigPath(names.iter().map(|n| n.to_string()).collect()))
}

fn dynamic(entries: Vec<(&str, AbstractValue)>) -> AbstractSet {
    AbstractSet::Dynamic(entries.into_iter().map(|(k, v)| (k.to_string(), v)).collect())
}

fn eval_in(fields: &[&str], body: &Expr) -> Result<AbstractValue, EvalError> {
    let fields: Vec<String> = fields.iter().map(|f| f.to_string()).collect();
    let scope = initial_scope(&None, &fields).unwrap();
    eval_object(&scope, body, MAX_DEPTH)
}

#[test]
fn module_with_all_inputs() {
    let body = attrs(vec![
        assign(&["foo"], select(ident("pkgs"), &["zlib"])),
        assign(&["bar"], select(ident("config"), &["services", "nginx", "enable"])),
    ]);
    let r = analyze_module(&module(&["lib", "pkgs", "config"], body)).unwrap();
    assert_eq!(r.lookup("foo"), Some(pkg("zlib")));
    assert_eq!(r.lookup("bar"), Some(config_path(&["services", "nginx", "enable"])));
    assert_eq!(r.lookup("baz"), None);
}

#[test]
fn module_with_namespace() {
    let body = with(ident("pkgs"), attrs(vec![assign(&["foo"], ident("zlib"))]));
    let r = analyze_module(&module(&["pkgs"], body)).unwrap();
    assert_eq!(r, dynamic(vec![("foo", pkg("zlib"))]));
}

#[test]
fn format_factory_application() {
    let body = Expr::Apply(
        Box::new(select(ident("pkgs"), &["formats", "json"])),
        Box::new(attrs(vec![])),
    );
    assert_eq!(eval_in(&["pkgs"], &body), Ok(AbstractValue::GeneratedFormat("json".to_string())));
    assert_eq!(
        analyze_module(&module(&["pkgs"], body)),
        Err(EvalError::ModuleDoesNotReturnSet(ValueKind::GeneratedFormat))
    );
}

#[test]
fn unknown_module_input() {
    let r = analyze_module(&module(&["frobnicator"], attrs(vec![])));
    assert_eq!(r, Err(EvalError::UnknownModuleInput("frobnicator".to_string())));
}

#[test]
fn not_a_function() {
    assert_eq!(analyze_module(&attrs(vec![])), Err(EvalError::NotACallPackageModule));
    let plain = Expr::Lambda(Param::Ident("args".to_string()), Box::new(attrs(vec![])));
    assert_eq!(analyze_module(&plain), Err(EvalError::NotACallPackageModule));
}

#[test]
fn catch_all_binding() {
    let m = Expr::Lambda(
        Param::Pattern { bind: Some("args".to_string()), fields: vec![] },
        Box::new(attrs(vec![assign(&["p"], select(ident("args"), &["pkgs", "hello"]))])),
    );
    assert_eq!(analyze_module(&m), Ok(dynamic(vec![("p", pkg("hello"))])));
    let bad = Expr::Lambda(
        Param::Pattern { bind: Some("args".to_string()), fields: vec![] },
        Box::new(select(ident("args"), &["stdenv"])),
    );
    assert_eq!(analyze_module(&bad), Err(EvalError::UnknownModuleInput("stdenv".to_string())));
}

#[test]
fn binding_outranks_namespaces() {
    let s = Scope::new()
        .with_dynamic_scope(AbstractSet::PackageSet)
        .with_binding("zlib", pkg("mine"))
        .with_dynamic_scope(AbstractSet::FormatFactorySet);
    assert_eq!(s.lookup("zlib"), Some(pkg("mine")));
    assert_eq!(s.lookup("yaml"), Some(AbstractValue::FormatFactory("yaml".to_string())));
}

#[test]
fn nested_with_keeps_outer_namespace() {
    let s = Scope::new()
        .with_dynamic_scope(AbstractSet::PackageSet)
        .with_dynamic_scope(dynamic(vec![("x", pkg("y"))]));
    assert_eq!(s.lookup("zlib"), Some(pkg("zlib")));
    assert_eq!(s.lookup("x"), Some(pkg("y")));
    assert_eq!(Scope::new().with_dynamic_scope(AbstractSet::Library).lookup("x"), None);
}

#[test]
fn three_level_nesting_precedence() {
    let body = let_in(
        vec![assign(&["zlib"], select(ident("pkgs"), &["mine"]))],
        with(
            ident("pkgs"),
            with(attrs(vec![assign(&["zlib"], select(ident("pkgs"), &["inner"]))]), ident("zlib")),
        ),
    );
    assert_eq!(eval_in(&["pkgs"], &body), Ok(pkg("mine")));
    let inner_wins = with(
        ident("pkgs"),
        with(attrs(vec![assign(&["zlib"], select(ident("pkgs"), &["inner"]))]), ident("zlib")),
    );
    assert_eq!(eval_in(&["pkgs"], &inner_wins), Ok(pkg("inner")));
}

#[test]
fn dotted_paths_nest() {
    let dotted = attrs(vec![
        assign(&["a", "b"], select(ident("pkgs"), &["one"])),
        assign(&["a", "c"], select(ident("pkgs"), &["two"])),
    ]);
    let nested = attrs(vec![assign(
        &["a"],
        attrs(vec![
            assign(&["b"], select(ident("pkgs"), &["one"])),
            assign(&["c"], select(ident("pkgs"), &["two"])),
        ]),
    )]);
    let expected = AbstractValue::AttrSet(dynamic(vec![(
        "a",
        AbstractValue::AttrSet(dynamic(vec![("b", pkg("one")), ("c", pkg("two"))])),
    )]));
    assert_eq!(eval_in(&["pkgs"], &dotted), Ok(expected));
    assert_eq!(eval_in(&["pkgs"], &dotted), eval_in(&["pkgs"], &nested));
}

#[test]
fn duplicate_attribute_either_order() {
    let one = attrs(vec![
        assign(&["a", "b"], select(ident("pkgs"), &["one"])),
        assign(&["a", "b"], select(ident("pkgs"), &["two"])),
    ]);
    let two = attrs(vec![
        assign(&["a", "b"], select(ident("pkgs"), &["two"])),
        assign(&["a", "b"], select(ident("pkgs"), &["one"])),
    ]);
    let err = Err(EvalError::DuplicateAttribute("b".to_string()));
    assert_eq!(eval_in(&["pkgs"], &one), err);
    assert_eq!(eval_in(&["pkgs"], &two), err);
}

#[test]
fn attribute_conflict() {
    let e = attrs(vec![
        assign(&["a"], select(ident("pkgs"), &["one"])),
        assign(&["a", "b"], select(ident("pkgs"), &["two"])),
    ]);
    assert_eq!(eval_in(&["pkgs"], &e), Err(EvalError::AttributeConflict("a".to_string())));
}

#[test]
fn unbound_name_and_attribute() {
    assert_eq!(eval_in(&["pkgs"], &ident("zlib")), Err(EvalError::UnboundName("zlib".to_string())));
    assert_eq!(
        eval_in(&["lib"], &select(ident("lib"), &["mkIf"])),
        Err(EvalError::UnboundAttribute("mkIf".to_string(), SetKind::Library))
    );
}

#[test]
fn not_a_set_and_not_applicable() {
    assert_eq!(
        eval_in(&["pkgs"], &select(ident("pkgs"), &["zlib", "out"])),
        Err(EvalError::NotASet(ValueKind::ExternalReference))
    );
    assert_eq!(
        eval_in(&["pkgs"], &with(select(ident("pkgs"), &["zlib"]), attrs(vec![]))),
        Err(EvalError::NotASet(ValueKind::ExternalReference))
    );
    let call = Expr::Apply(Box::new(select(ident("pkgs"), &["zlib"])), Box::new(attrs(vec![])));
    assert_eq!(eval_in(&["pkgs"], &call), Err(EvalError::NotApplicable(ValueKind::ExternalReference)));
}

#[test]
fn unsupported_constructs() {
    assert_eq!(
        eval_in(&[], &Expr::Other(ExprKind::Literal)),
        Err(EvalError::UnsupportedConstruct(ExprKind::Literal))
    );
    let lambda = Expr::Lambda(Param::Ident("x".to_string()), Box::new(ident("x")));
    assert_eq!(eval_in(&[], &lambda), Err(EvalError::UnsupportedConstruct(ExprKind::Lambda)));
    assert_eq!(
        eval_in(&[], &let_in(vec![Entry::Inherit], attrs(vec![]))),
        Err(EvalError::UnsupportedConstruct(ExprKind::Inherit))
    );
    let fallback = Expr::Select(Box::new(ident("pkgs")), path(&["zlib"]), Some(Box::new(attrs(vec![]))));
    assert_eq!(eval_in(&["pkgs"], &fallback), Err(EvalError::UnsupportedConstruct(ExprKind::Select)));
}

#[test]
fn unsupported_attr_paths() {
    let dotted_let = let_in(vec![assign(&["a", "b"], attrs(vec![]))], attrs(vec![]));
    assert_eq!(eval_in(&[], &dotted_let), Err(EvalError::UnsupportedAttrPath));
    let computed = Expr::Select(Box::new(ident("pkgs")), vec![AttrName::Computed], None);
    assert_eq!(eval_in(&["pkgs"], &computed), Err(EvalError::UnsupportedAttrPath));
}

#[test]
fn let_bindings_in_order() {
    let e = let_in(
        vec![
            assign(&["p"], ident("pkgs")),
            assign(&["z"], select(ident("p"), &["zlib"])),
        ],
        attrs(vec![assign(&["out"], ident("z"))]),
    );
    assert_eq!(eval_in(&["pkgs"], &e), Ok(AbstractValue::AttrSet(dynamic(vec![("out", pkg("zlib"))]))));
}

#[test]
fn recursive_bindings_rejected() {
    let own = let_in(vec![assign(&["x"], ident("x"))], ident("x"));
    assert_eq!(eval_in(&[], &own), Err(EvalError::UnsupportedRecursiveBinding("x".to_string())));
    let forward = let_in(
        vec![assign(&["a"], ident("b")), assign(&["b"], ident("pkgs"))],
        ident("a"),
    );
    assert_eq!(eval_in(&["pkgs"], &forward), Err(EvalError::UnsupportedRecursiveBinding("b".to_string())));
}

#[test]
fn recursive_set_sees_earlier_attributes() {
    let e = Expr::AttrSet(
        true,
        vec![
            assign(&["a"], select(ident("pkgs"), &["zlib"])),
            assign(&["b"], ident("a")),
        ],
    );
    assert_eq!(
        eval_in(&["pkgs"], &e),
        Ok(AbstractValue::AttrSet(dynamic(vec![("a", pkg("zlib")), ("b", pkg("zlib"))])))
    );
    let plain = attrs(vec![
        assign(&["a"], select(ident("pkgs"), &["zlib"])),
        assign(&["b"], ident("a")),
    ]);
    assert_eq!(eval_in(&["pkgs"], &plain), Err(EvalError::UnboundName("a".to_string())));
    let forward = Expr::AttrSet(true, vec![assign(&["b"], ident("a")), assign(&["a"], ident("pkgs"))]);
    assert_eq!(eval_in(&["pkgs"], &forward), Err(EvalError::UnsupportedRecursiveBinding("a".to_string())));
}

#[test]
fn recursion_limit() {
    let scope = Scope::new();
    assert_eq!(eval_object(&scope, &ident("x"), 0), Err(EvalError::RecursionLimitExceeded));
    let mut e = ident("pkgs");
    for _ in 0..1100 {
        e = Expr::Paren(Box::new(e));
    }
    assert_eq!(eval_in(&["pkgs"], &e), Err(EvalError::RecursionLimitExceeded));
}

#[test]
fn paren_is_transparent() {
    let e = Expr::Paren(Box::new(select(ident("pkgs"), &["zlib"])));
    assert_eq!(eval_in(&["pkgs"], &e), Ok(pkg("zlib")));
}

#[test]
fn package_set_members() {
    assert_eq!(lookup_nixpkg("zlib"), pkg("zlib"));
    assert_eq!(lookup_nixpkg("formats"), AbstractValue::AttrSet(AbstractSet::FormatFactorySet));
}

#[test]
fn member_lookup_per_namespace() {
    assert_eq!(AbstractSet::ConfigRoot.lookup("a"), Some(config_path(&["a"])));
    assert_eq!(
        AbstractSet::ConfigPath(vec!["a".to_string()]).lookup("b"),
        Some(config_path(&["a", "b"]))
    );
    assert_eq!(
        AbstractSet::CallPackageArguments.lookup("lib"),
        Some(AbstractValue::AttrSet(AbstractSet::Library))
    );
    assert_eq!(AbstractSet::CallPackageArguments.lookup("stdenv"), None);
    assert_eq!(AbstractSet::Library.lookup("mkIf"), None);
    assert_eq!(dynamic(vec![("k", pkg("v"))]).lookup("k"), Some(pkg("v")));
    assert_eq!(dynamic(vec![("k", pkg("v"))]).lookup("j"), None);
}

#[test]
fn expression_kinds() {
    assert_eq!(token_type(&ident("x")), ExprKind::Ident);
    assert_eq!(token_type(&attrs(vec![])), ExprKind::AttrSet);
    assert_eq!(token_type(&Expr::Other(ExprKind::List)), ExprKind::List);
}
