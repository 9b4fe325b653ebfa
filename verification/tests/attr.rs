use wok_core::attr::{
    AttrExpr, AttrLit, AttrMeta, AttrPath, Attribute, AttributesParser, BoolParser, ExprKind,
    ExprParser, Ident, KeyIdent, MetaList, NameValue, OptionalAttr, ParseScopedAttrError,
    PathSegment, ScopedAttr, Span,
    StringParser, parse_attrs,
};
use wok_core::bind_derive::{DeriveData, DeriveInput, Field, Fields};

fn span(lo: usize) -> Span {
    Span { lo, hi: lo + 1 }
}

fn ident(name: &str) -> Ident {
    Ident { name: name.to_string(), span: span(0) }
}

fn path(name: &str) -> AttrPath {
    AttrPath {
        leading_colon: false,
        segments: vec![PathSegment { ident: ident(name), has_arguments: false }],
    }
}

fn pair(key: &str, kind: ExprKind) -> NameValue {
    NameValue { path: path(key), value: AttrExpr { span: span(7), kind } }
}

fn scoped(at: usize, scope: &str, pairs: Vec<NameValue>) -> Attribute {
    Attribute {
        span: span(at),
        meta: AttrMeta::List(MetaList { path: path(scope), args: Some(pairs) }),
    }
}

fn boolean(b: bool) -> ExprKind {
    ExprKind::Lit(AttrLit::Bool(b))
}

#[test]
fn skip_others() {
    // #[serde(myprop = false)] struct A {}
    let input = DeriveInput {
        span: span(0),
        ident: ident("A"),
        attrs: vec![scoped(1, "serde", vec![pair("myprop", boolean(false))])],
        lifetimes: vec![],
        data: DeriveData::Struct(Fields::Named(vec![])),
    };

    let result = AttributesParser::new("test")
        .parse(input.attrs, OptionalAttr((KeyIdent("myprop"), BoolParser)))
        .unwrap();

    assert_eq!(result, None);
}

#[test]
fn skip_field_others() {
    // struct A { #[serde(myprop = false)] a: i32 }
    let input = DeriveInput {
        span: span(0),
        ident: ident("A"),
        attrs: vec![],
        lifetimes: vec![],
        data: DeriveData::Struct(Fields::Named(vec![Field {
            ident: Some(ident("a")),
            attrs: vec![scoped(1, "serde", vec![pair("myprop", boolean(false))])],
        }])),
    };

    let fields = match input.data {
        DeriveData::Struct(Fields::Named(named)) => named,
        _ => unreachable!(),
    };

    let field_a = fields.into_iter().next().unwrap();

    let result = AttributesParser::new("test")
        .parse(field_a.attrs, OptionalAttr((KeyIdent("myprop"), BoolParser)))
        .unwrap();

    assert_eq!(result, None);
}

#[test]
fn reads_optional_value_in_scope() {
    let attrs = vec![scoped(1, "test", vec![pair("myprop", boolean(true))])];
    let result = parse_attrs("test", attrs, OptionalAttr((KeyIdent("myprop"), BoolParser)));
    assert_eq!(result.unwrap(), Some(true));
}

#[test]
fn required_key_missing_is_reported() {
    let attrs = vec![scoped(3, "test", vec![pair("other", boolean(true))])];
    let err = parse_attrs("test", attrs, (KeyIdent("myprop"), BoolParser)).unwrap_err();
    assert_eq!(err.message, "Expected at least one single myprop = ...");
    assert_eq!(err.span, Some(span(3)));
}

#[test]
fn required_without_attributes_points_at_call_site() {
    let err = parse_attrs("test", vec![], (KeyIdent("myprop"), BoolParser)).unwrap_err();
    assert_eq!(err.message, "Expected at least one #[test()] attribute");
    assert_eq!(err.span, None);
}

#[test]
fn required_key_followed_by_more_pairs_is_reported() {
    let attrs = vec![scoped(
        2,
        "test",
        vec![pair("myprop", boolean(true)), pair("other", boolean(false))],
    )];
    let err = parse_attrs("test", attrs, (KeyIdent("myprop"), BoolParser)).unwrap_err();
    assert_eq!(err.message, "Expected at most one single myprop = bool");
}

#[test]
fn span_covers_first_to_last_attribute() {
    let attrs = vec![
        scoped(2, "other", vec![pair("x", boolean(true))]),
        scoped(9, "test", vec![pair("y", boolean(true))]),
    ];
    let err = parse_attrs("test", attrs, (KeyIdent("myprop"), BoolParser)).unwrap_err();
    assert_eq!(err.span, Some(Span { lo: 2, hi: 10 }));
}

#[test]
fn wrong_literal_kind_is_reported_at_the_value() {
    let attrs = vec![scoped(1, "test", vec![pair("name", boolean(true))])];
    let err = parse_attrs("test", attrs, OptionalAttr((KeyIdent("name"), StringParser))).unwrap_err();
    assert_eq!(err.message, "Expected a string literal");
    assert_eq!(err.span, Some(span(7)));
}

#[test]
fn not_a_list_attribute_is_refused() {
    let attrs = vec![Attribute { span: span(4), meta: AttrMeta::Path(path("test")) }];
    let err = parse_attrs("test", attrs, OptionalAttr((KeyIdent("x"), BoolParser))).unwrap_err();
    assert_eq!(err.message, "Expected #[test(...)]");
}

#[test]
fn unparsable_and_empty_lists_are_refused() {
    let bad = vec![Attribute {
        span: span(4),
        meta: AttrMeta::List(MetaList { path: path("test"), args: None }),
    }];
    let err = parse_attrs("test", bad, OptionalAttr((KeyIdent("x"), BoolParser))).unwrap_err();
    assert_eq!(err.message, "Invalid attribute syntax");

    let empty = vec![scoped(4, "test", vec![])];
    let err = parse_attrs("test", empty, OptionalAttr((KeyIdent("x"), BoolParser))).unwrap_err();
    assert_eq!(err.message, "Expected at least one key-value pair in #[test(...)]");
}

#[test]
fn several_optional_keys_take_the_last_value() {
    let attrs = vec![
        scoped(1, "test", vec![pair("a", boolean(true)), pair("b", boolean(false))]),
        scoped(2, "test", vec![pair("a", boolean(false))]),
    ];
    let (a, b) = parse_attrs(
        "test",
        attrs,
        (
            OptionalAttr((KeyIdent("a"), BoolParser)),
            OptionalAttr((KeyIdent("b"), BoolParser)),
        ),
    )
    .unwrap();
    assert_eq!(a, Some(false));
    assert_eq!(b, Some(false));
}

#[test]
fn expression_is_taken_as_it_is() {
    let attrs = vec![scoped(1, "test", vec![pair("e", ExprKind::Other)])];
    let e = parse_attrs("test", attrs, (KeyIdent("e"), ExprParser)).unwrap();
    assert!(matches!(e.kind, ExprKind::Other));
}

#[test]
fn scoped_attribute_splits_scope_and_tokens() {
    let attr = scoped(1, "serde", vec![pair("x", boolean(true))]);
    let parsed = ScopedAttr::parse(&attr).ok().unwrap();
    assert_eq!(parsed.scope.name, "serde");
    assert_eq!(parsed.tokens.as_ref().unwrap().len(), 1);

    let plain = Attribute { span: span(1), meta: AttrMeta::Path(path("serde")) };
    assert!(matches!(ScopedAttr::parse(&plain), Err(ParseScopedAttrError::NotScoped)));

    let no_scope = Attribute {
        span: span(1),
        meta: AttrMeta::List(MetaList {
            path: AttrPath { leading_colon: false, segments: vec![] },
            args: None,
        }),
    };
    assert!(matches!(
        ScopedAttr::parse(&no_scope),
        Err(ParseScopedAttrError::ScopeIdentInvalid)
    ));
}

#[test]
fn paths_are_identifiers_only_when_plain() {
    assert!(path("serde").is_ident("serde"));
    assert!(!path("serde").is_ident("serd"));
    let mut p = path("serde");
    p.leading_colon = true;
    assert!(!p.is_ident("serde"));
    let q = AttrPath {
        leading_colon: false,
        segments: vec![PathSegment { ident: ident("serde"), has_arguments: true }],
    };
    assert!(!q.is_ident("serde"));
}
