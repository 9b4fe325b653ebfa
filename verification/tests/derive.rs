use wok_core::attr::{
    AttrExpr, AttrMeta, AttrPath, Attribute, ExprKind, Ident, MetaList, NameValue, PathSegment,
    Span,
};
use wok_core::bind_derive::{
    BindShape, DeriveData, DeriveInput, Field, Fields, InvalidAttrReason,
    do_as_surreal_bind_derive, do_surreal_bind_derive, from_surreal_db_derive, named_attrs,
};
use wok_core::param_derive::{ParamFields, Usage, do_param_derive, usage_paths};

fn span(lo: usize) -> Span {
    Span { lo, hi: lo + 1 }
}

fn ident(name: &str) -> Ident {
    Ident { name: name.to_string(), span: span(0) }
}

fn path(name: &str) -> AttrPath {
    AttrPath {
        leading_colon: false,
        segments: vec![PathSegment { ident: ident(name), has_arguments: false }],
    }
}

fn list(scope: &str, args: Option<Vec<NameValue>>) -> Attribute {
    Attribute { span: span(5), meta: AttrMeta::List(MetaList { path: path(scope), args }) }
}

fn pair(key: &str, kind: ExprKind) -> NameValue {
    NameValue { path: path(key), value: AttrExpr { span: span(8), kind } }
}

fn field(name: Option<&str>, attrs: Vec<Attribute>) -> Field {
    Field { ident: name.map(ident), attrs }
}

fn foo(attrs: Vec<Attribute>, fields: Fields) -> DeriveInput {
    DeriveInput {
        span: span(1),
        ident: Ident { name: "Foo".to_string(), span: span(2) },
        attrs,
        lifetimes: vec![],
        data: DeriveData::Struct(fields),
    }
}

#[test]
fn as_surreal_bind_generates_unnamed() {
    // pub struct Foo(u32);
    let plan = do_as_surreal_bind_derive(foo(vec![], Fields::Unnamed(vec![field(None, vec![])])))
        .unwrap();
    assert_eq!(plan.mapping_name.name, "SurrealFooRef");
    assert_eq!(plan.mapping_name.span, span(2));
    assert!(matches!(plan.shape, BindShape::Unnamed(1)));
}

#[test]
fn as_surreal_bind_generates_named() {
    // pub struct Foo { bar: u32 }
    let plan = do_as_surreal_bind_derive(foo(
        vec![],
        Fields::Named(vec![field(Some("bar"), vec![])]),
    ))
    .unwrap();
    assert_eq!(plan.mapping_name.name, "SurrealFooRef");
    match plan.shape {
        BindShape::Named(fields) => assert_eq!(fields, vec![Vec::<usize>::new()]),
        other => panic!("unexpected shape {:?}", other),
    }
}

#[test]
fn as_surreal_bind_replicates_serde_flatten_attrs() {
    // pub struct Foo { #[serde(flatten)] inner: FooInner }
    let plan = do_as_surreal_bind_derive(foo(
        vec![],
        Fields::Named(vec![field(Some("inner"), vec![list("serde", None)])]),
    ))
    .unwrap();
    match plan.shape {
        BindShape::Named(fields) => assert_eq!(fields, vec![vec![0]]),
        other => panic!("unexpected shape {:?}", other),
    }
}

#[test]
fn as_surreal_bind_takes_the_asked_name_and_keeps_only_serde_attributes() {
    let asked = list(
        "surreal_bind",
        Some(vec![pair("ser", ExprKind::Lit(wok_core::attr::AttrLit::Str("Mapped".to_string())))]),
    );
    let plan = do_as_surreal_bind_derive(foo(
        vec![asked],
        Fields::Named(vec![
            field(Some("a"), vec![list("doc", None), list("serde", None)]),
            field(Some("b"), vec![]),
        ]),
    ))
    .unwrap();
    assert_eq!(plan.mapping_name.name, "Mapped");
    match plan.shape {
        BindShape::Named(fields) => assert_eq!(fields, vec![vec![1], vec![]]),
        other => panic!("unexpected shape {:?}", other),
    }
}

#[test]
fn as_surreal_bind_refuses_enums_and_unit_structs() {
    let mut input = foo(vec![], Fields::Unit);
    input.data = DeriveData::Enum;
    let err = do_as_surreal_bind_derive(input).unwrap_err();
    assert_eq!(err.message, "AsSurrealBind can only be derived on structs");
    assert_eq!(err.span, Some(span(1)));

    let err = do_as_surreal_bind_derive(foo(vec![], Fields::Unit)).unwrap_err();
    assert_eq!(err.message, "Unit structs are not supported");
}

#[test]
fn from_surreal_bind_generates_unnamed() {
    let plan = from_surreal_db_derive(foo(vec![], Fields::Unnamed(vec![field(None, vec![])])))
        .unwrap();
    assert_eq!(plan.mapping_name.name, "SurrealFoo");
    assert!(matches!(plan.shape, BindShape::Unnamed(1)));
}

#[test]
fn from_surreal_bind_generates_named() {
    let plan = from_surreal_db_derive(foo(vec![], Fields::Named(vec![field(Some("bar"), vec![])])))
        .unwrap();
    assert_eq!(plan.mapping_name.name, "SurrealFoo");
    match plan.shape {
        BindShape::Named(fields) => assert_eq!(fields, vec![Vec::<usize>::new()]),
        other => panic!("unexpected shape {:?}", other),
    }
}

#[test]
fn from_surreal_bind_replicates_serde_flatten_attrs() {
    let plan = from_surreal_db_derive(foo(
        vec![],
        Fields::Named(vec![field(Some("inner"), vec![list("serde", None)])]),
    ))
    .unwrap();
    match plan.shape {
        BindShape::Named(fields) => assert_eq!(fields, vec![vec![0]]),
        other => panic!("unexpected shape {:?}", other),
    }
}

#[test]
fn from_surreal_bind_reads_der_and_reports_other_keys() {
    let named = list("surreal_bind", Some(vec![pair("der", ExprKind::Path(path("Other")))]));
    let plan = from_surreal_db_derive(foo(vec![named], Fields::Unnamed(vec![field(None, vec![])])))
        .unwrap();
    assert_eq!(plan.mapping_name.name, "Other");

    let wrong = list("surreal_bind", Some(vec![pair("name", ExprKind::Path(path("Other")))]));
    let err = from_surreal_db_derive(foo(vec![wrong], Fields::Unnamed(vec![]))).unwrap_err();
    assert_eq!(err.message, "Expected #[surreal_bind(der = ...)]");

    let plain = Attribute { span: span(5), meta: AttrMeta::Path(path("surreal_bind")) };
    let err = from_surreal_db_derive(foo(vec![plain], Fields::Unnamed(vec![]))).unwrap_err();
    assert_eq!(err.message, "Expected #[surreal_bind(...)]");

    let mut input = foo(vec![], Fields::Unit);
    input.data = DeriveData::Union;
    let err = from_surreal_db_derive(input).unwrap_err();
    assert_eq!(err.message, "FromSurrealBind can only be derived on structs");
}

#[test]
fn lib_generates_unnamed() {
    let plan = do_surreal_bind_derive(foo(vec![], Fields::Unnamed(vec![field(None, vec![])])))
        .unwrap();
    assert_eq!(plan.mapping_name.name, "SurrealFoo");
    assert!(matches!(plan.shape, BindShape::Unnamed(1)));
}

#[test]
fn lib_generates_named() {
    let plan = do_surreal_bind_derive(foo(vec![], Fields::Named(vec![field(Some("bar"), vec![])])))
        .unwrap();
    match plan.shape {
        BindShape::Named(fields) => assert_eq!(fields, vec![Vec::<usize>::new()]),
        other => panic!("unexpected shape {:?}", other),
    }
}

#[test]
fn lib_replicates_serde_flatten_attrs() {
    let plan = do_surreal_bind_derive(foo(
        vec![],
        Fields::Named(vec![field(Some("inner"), vec![list("serde", None)])]),
    ))
    .unwrap();
    match plan.shape {
        BindShape::Named(fields) => assert_eq!(fields, vec![vec![0]]),
        other => panic!("unexpected shape {:?}", other),
    }
    let err = do_surreal_bind_derive(foo(vec![], Fields::Unit)).unwrap_err();
    assert_eq!(err.message, "Unit structs are not supported");
}

#[test]
fn named_attrs_reads_the_first_pair_of_the_first_attribute() {
    assert!(matches!(named_attrs(vec![]), Ok(None)));
    let attrs = vec![
        list("x", Some(vec![pair("a", ExprKind::Other), pair("b", ExprKind::Other)])),
        list("y", Some(vec![pair("c", ExprKind::Other)])),
    ];
    let kv = named_attrs(attrs).ok().unwrap().unwrap();
    assert!(kv.path.is_ident("a"));
    assert!(matches!(named_attrs(vec![list("x", None)]), Err(InvalidAttrReason::Other(_))));
}

fn param_input(attrs: Vec<Attribute>, lifetimes: &[&str], fields: Fields) -> DeriveInput {
    DeriveInput {
        span: span(1),
        ident: ident("Foo"),
        attrs,
        lifetimes: lifetimes.iter().map(|l| ident(l)).collect(),
        data: DeriveData::Struct(fields),
    }
}

#[test]
fn empty() {
    // struct Foo;
    let plan = do_param_derive(param_input(vec![], &[], Fields::Unit));
    assert!(plan.is_ok(), "{:?}", plan.unwrap_err());
    assert_eq!(plan.unwrap().fields, ParamFields::Unit);
}

#[test]
fn single() {
    // struct Foo<'w>(Bar<'w>);
    let plan = do_param_derive(param_input(vec![], &["w"], Fields::Unnamed(vec![field(None, vec![])])))
        .unwrap();
    assert_eq!(plan.usage, Usage::Crate);
    assert_eq!(plan.alternate_lifetime, "'p");
    assert_eq!(plan.fields, ParamFields::Unnamed(1));
}

#[test]
fn single_for_core() {
    // #[param(usage = core)] struct Foo<'w>(Bar<'w>);
    let attr = list("param", Some(vec![pair("usage", ExprKind::Path(path("core")))]));
    let plan = do_param_derive(param_input(
        vec![attr],
        &["w"],
        Fields::Unnamed(vec![field(None, vec![])]),
    ))
    .unwrap();
    assert_eq!(plan.usage, Usage::Core);
    assert_eq!(plan.alternate_lifetime, "'p");
}

#[test]
fn single_for_lib() {
    // #[param(usage = lib)] struct Foo<'w>(Bar<'w>);
    let attr = list("param", Some(vec![pair("usage", ExprKind::Path(path("lib")))]));
    let plan = do_param_derive(param_input(
        vec![attr],
        &["w"],
        Fields::Unnamed(vec![field(None, vec![])]),
    ))
    .unwrap();
    assert_eq!(plan.usage, Usage::Lib);
}

#[test]
fn param_lifetime_and_usage_errors() {
    let plan = do_param_derive(param_input(vec![], &["p"], Fields::Named(vec![]))).unwrap();
    assert_eq!(plan.alternate_lifetime, "'w");
    assert_eq!(plan.fields, ParamFields::Named(0));

    let attr = list("param", Some(vec![pair("usage", ExprKind::Path(path("other")))]));
    let err = do_param_derive(param_input(vec![attr], &[], Fields::Unit)).unwrap_err();
    assert_eq!(err.message, "useages supported are `core`, `lib` and `crate`");

    let attr = list("param", Some(vec![pair("path", ExprKind::Path(path("core")))]));
    let err = do_param_derive(param_input(vec![attr], &[], Fields::Unit)).unwrap_err();
    assert_eq!(err.message, "Expected #[param(path = ...)]");

    let attr = Attribute { span: span(5), meta: AttrMeta::Path(path("param")) };
    let err = do_param_derive(param_input(vec![attr], &[], Fields::Unit)).unwrap_err();
    assert_eq!(err.message, "Expected #[param(...)]");

    let mut input = param_input(vec![], &[], Fields::Unit);
    input.data = DeriveData::Enum;
    let err = do_param_derive(input).unwrap_err();
    assert_eq!(err.message, "Param can only be derived on structs");
}

#[test]
fn usage_names_the_lock_and_world_paths() {
    assert_eq!(
        usage_paths(Usage::Core),
        ("crate::world::SystemLock", "crate::prelude::WorldState")
    );
    assert_eq!(
        usage_paths(Usage::Lib),
        ("lump_core::world::SystemLock", "lump_core::prelude::WorldState")
    );
    assert_eq!(usage_paths(Usage::Crate), ("lump::world::SystemLock", "lump::prelude::WorldState"));
}
