use vstd::prelude::*;
use vstd::string::*;

use crate::attr::{
    result_view, spec_parse_attrs, AttrExpr, AttrMeta, AttrPath, AttributesParser, Attribute,
    CompileError, ErrorView, ExprKind, Ident, KeyIdent, NameValue, OptionalAttr, Span,
    StringParser,
};
use crate::text::push_str;

verus! {

/// A field of a derive input; `ident` is absent in tuple structs.
#[derive(Debug)]
pub struct Field {
    pub ident: Option<Ident>,
    pub attrs: Vec<Attribute>,
}

/// The fields of a struct.
#[derive(Debug)]
pub enum Fields {
    Named(Vec<Field>),
    Unnamed(Vec<Field>),
    Unit,
}

/// What a derive input declares.
#[derive(Debug)]
pub enum DeriveData {
    Struct(Fields),
    Enum,
    Union,
}

/// The item a derive macro is applied to, as far as the derives read it;
/// `lifetimes` names its lifetime parameters in order, without the quote.
#[derive(Debug)]
pub struct DeriveInput {
    pub span: Span,
    pub ident: Ident,
    pub attrs: Vec<Attribute>,
    pub lifetimes: Vec<Ident>,
    pub data: DeriveData,
}

/// How the fields of the mapping struct are laid out: for a struct with named
/// fields, for each field the positions of its `#[serde(...)]` attributes,
/// which the mapping struct carries over; for a tuple struct, the number of
/// fields.
#[derive(Debug)]
pub enum BindShape {
    Named(Vec<Vec<usize>>),
    Unnamed(usize),
}

/// What a derive generates: the name of the mapping struct and its layout.
#[derive(Debug)]
pub struct BindPlan {
    pub mapping_name: Ident,
    pub shape: BindShape,
}

/// `attr` is `#[serde(...)]`.
pub open spec fn is_serde_attr(attr: Attribute) -> bool {
    match attr.meta {
        AttrMeta::List(l) => l.path.spec_is_ident("serde"@),
        _ => false,
    }
}

/// The positions of the `#[serde(...)]` attributes among `attrs`, in order.
pub open spec fn serde_positions(attrs: Seq<Attribute>) -> Seq<usize>
    decreases attrs.len(),
{
    if attrs.len() == 0 {
        Seq::empty()
    } else if is_serde_attr(attrs.last()) {
        serde_positions(attrs.drop_last()).push((attrs.len() - 1) as usize)
    } else {
        serde_positions(attrs.drop_last())
    }
}

/// `shape` lays out the mapping struct of a struct with `fields`.
pub open spec fn shape_of(shape: BindShape, fields: Fields) -> bool {
    match fields {
        Fields::Named(fs) => shape matches BindShape::Named(v) && v@.len() == fs@.len() && forall|i: int|
            0 <= i < fs@.len() ==> (#[trigger] v@[i])@ == serde_positions(fs@[i].attrs@),
        Fields::Unnamed(fs) => shape == BindShape::Unnamed(fs@.len() as usize),
        Fields::Unit => false,
    }
}

fn serde_attr_positions(attrs: &Vec<Attribute>) -> (r: Vec<usize>)
    ensures
        r@ == serde_positions(attrs@),
{
    let mut r: Vec<usize> = Vec::new();
    let mut i: usize = 0;
    while i < attrs.len()
        invariant
            i <= attrs@.len(),
            r@ == serde_positions(attrs@.subrange(0, i as int)),
        decreases attrs.len() - i,
    {
        let keep = match &attrs[i].meta {
            AttrMeta::List(l) => l.path.is_ident("serde"),
            _ => false,
        };
        if keep {
            r.push(i);
        }
        assert(attrs@.subrange(0, i + 1).drop_last() =~= attrs@.subrange(0, i as int));
        i = i + 1;
    }
    assert(attrs@.subrange(0, attrs@.len() as int) =~= attrs@);
    r
}

/// The layout of the mapping struct; unit structs have none.
fn bind_shape(fields: &Fields, span: Span) -> (r: Result<BindShape, CompileError>)
    ensures
        match fields {
            Fields::Unit => r matches Err(e) && e@ == (Some(span), "Unit structs are not supported"@),
            _ => r matches Ok(shape) && shape_of(shape, *fields),
        },
{
    match fields {
        Fields::Unit => Err(
            CompileError { span: Some(span), message: String::from_str("Unit structs are not supported") },
        ),
        Fields::Named(fs) => {
            let mut v: Vec<Vec<usize>> = Vec::new();
            let mut i: usize = 0;
            while i < fs.len()
                invariant
                    i <= fs@.len(),
                    v@.len() == i,
                    forall|j: int| 0 <= j < i ==> (#[trigger] v@[j])@ == serde_positions(fs@[j].attrs@),
                decreases fs.len() - i,
            {
                v.push(serde_attr_positions(&fs[i].attrs));
                i = i + 1;
            }
            Ok(BindShape::Named(v))
        },
        Fields::Unnamed(fs) => Ok(BindShape::Unnamed(fs.len())),
    }
}

/// The name `prefix` + `ident` + `suffix`, placed where `ident` stands.
fn affixed(prefix: &str, ident: &Ident, suffix: &str) -> (r: Ident)
    ensures
        r.name@ == prefix@ + ident.name@ + suffix@,
        r.span == ident.span,
{
    let mut name = String::from_str(prefix);
    push_str(&mut name, ident.name.as_str());
    push_str(&mut name, suffix);
    Ident { name, span: ident.span }
}

/// The name that `#[surreal_bind(ser = "...")]` asks for, or
/// `Surreal{Name}Ref`.
pub open spec fn as_bind_name(ident: Ident, asked: Option<String>) -> Seq<char> {
    match asked {
        Some(n) => n@,
        None => "Surreal"@ + ident.name@ + "Ref"@,
    }
}

/// Plans the `AsSurrealBind` derive: a struct that borrows each field as its
/// bind, named by `#[surreal_bind(ser = "...")]` or `Surreal{Name}Ref`.
pub fn do_as_surreal_bind_derive(ast: DeriveInput) -> (r: Result<BindPlan, CompileError>)
    ensures
        match ast.data {
            DeriveData::Struct(fields) => match spec_parse_attrs(
                "surreal_bind"@,
                ast.attrs@,
                OptionalAttr((KeyIdent("ser"), StringParser)),
            ) {
                Err(e) => r matches Err(x) && x@ == e,
                Ok(asked) => if fields is Unit {
                    r matches Err(x) && x@ == (Some(ast.span), "Unit structs are not supported"@)
                } else {
                    r matches Ok(p) && p.mapping_name.name@ == as_bind_name(ast.ident, asked)
                        && p.mapping_name.span == ast.ident.span && shape_of(p.shape, fields)
                },
            },
            _ => r matches Err(x) && x@ == (
                Some(ast.span),
                "AsSurrealBind can only be derived on structs"@,
            ),
        },
{
    let span = ast.span;
    let fields = match ast.data {
        DeriveData::Struct(fields) => fields,
        _ => {
            return Err(
                CompileError {
                    span: Some(span),
                    message: String::from_str("AsSurrealBind can only be derived on structs"),
                },
            );
        },
    };
    let asked = match AttributesParser::new("surreal_bind").parse(
        ast.attrs,
        OptionalAttr((KeyIdent("ser"), StringParser)),
    ) {
        Ok(asked) => asked,
        Err(e) => {
            return Err(e);
        },
    };
    let mapping_name = match asked {
        Some(name) => Ident { name, span: ast.ident.span },
        None => affixed("Surreal", &ast.ident, "Ref"),
    };
    match bind_shape(&fields, span) {
        Ok(shape) => Ok(BindPlan { mapping_name, shape }),
        Err(e) => Err(e),
    }
}

/// Why the leading attribute of a derive input gives no `name = value` pair.
#[derive(Debug)]
pub enum InvalidAttrReason {
    NotScoped,
    Other(CompileError),
}

/// The first `name = value` pair of the first attribute of `attrs`: `Ok(None)`
/// when there is no attribute or its list is empty.
pub open spec fn spec_named_attrs(attrs: Seq<Attribute>) -> Result<Option<NameValue>, Option<ErrorView>> {
    if attrs.len() == 0 {
        Ok(None)
    } else {
        match attrs[0].meta {
            AttrMeta::List(l) => match l.args {
                None => Err(Some((Some(attrs[0].span), "Invalid attribute syntax"@))),
                Some(kvs) => if kvs@.len() == 0 {
                    Ok(None)
                } else {
                    Ok(Some(kvs@[0]))
                },
            },
            _ => Err(None),
        }
    }
}

/// Reads the first pair of the first attribute of `attrs`; the error is
/// `NotScoped` when that attribute is not of the form `#[scope(...)]`.
pub fn named_attrs(attrs: Vec<Attribute>) -> (r: Result<Option<NameValue>, InvalidAttrReason>)
    ensures
        match spec_named_attrs(attrs@) {
            Ok(kv) => r == Ok::<Option<NameValue>, InvalidAttrReason>(kv),
            Err(None) => r matches Err(InvalidAttrReason::NotScoped),
            Err(Some(e)) => r matches Err(InvalidAttrReason::Other(x)) && x@ == e,
        },
{
    let mut attrs = attrs;
    if attrs.len() == 0 {
        return Ok(None);
    }
    let attr = attrs.remove(0);
    match attr.meta {
        AttrMeta::List(list) => match list.args {
            None => Err(
                InvalidAttrReason::Other(
                    CompileError {
                        span: Some(attr.span),
                        message: String::from_str("Invalid attribute syntax"),
                    },
                ),
            ),
            Some(kvs) => {
                let mut kvs = kvs;
                if kvs.len() == 0 {
                    Ok(None)
                } else {
                    Ok(Some(kvs.remove(0)))
                }
            },
        },
        _ => Err(InvalidAttrReason::NotScoped),
    }
}

/// The identifier that `kv` names when it reads `key = Ident`.
pub open spec fn named_ident(kv: NameValue, key: Seq<char>) -> Option<Ident> {
    if kv.path.spec_is_ident(key) {
        match kv.value.kind {
            ExprKind::Path(p) => p.spec_get_ident(),
            _ => None,
        }
    } else {
        None
    }
}

/// The name (and its place) of the mapping struct chosen by
/// `#[surreal_bind(key = Name)]` in front of `attrs`, or `Surreal{Name}`;
/// `span` is where errors point.
pub open spec fn spec_mapping_name(ident: Ident, attrs: Seq<Attribute>, key: Seq<char>, span: Span) -> Result<
    (Seq<char>, Span),
    ErrorView,
> {
    match spec_named_attrs(attrs) {
        Ok(Some(kv)) => match named_ident(kv, key) {
            Some(id) => Ok((id.name@, id.span)),
            None => Err((Some(span), "Expected #[surreal_bind("@ + key + " = ...)]"@)),
        },
        Ok(None) => Ok(("Surreal"@ + ident.name@, ident.span)),
        Err(None) => Err((Some(span), "Expected #[surreal_bind(...)]"@)),
        Err(Some(e)) => Err(e),
    }
}

/// `ident` with `prefix` in front of its name.
fn prefixed(prefix: &str, ident: &Ident) -> (r: Ident)
    ensures
        r.name@ == prefix@ + ident.name@,
        r.span == ident.span,
{
    let mut name = String::from_str(prefix);
    push_str(&mut name, ident.name.as_str());
    Ident { name, span: ident.span }
}

fn mapping_name(ident: &Ident, attrs: Vec<Attribute>, key: &str, span: Span) -> (r: Result<
    Ident,
    CompileError,
>)
    ensures
        match spec_mapping_name(*ident, attrs@, key@, span) {
            Ok((name, at)) => r matches Ok(x) && x.name@ == name && x.span == at,
            Err(e) => r matches Err(x) && x@ == e,
        },
{
    match named_attrs(attrs) {
        Ok(Some(kv)) => {
            if kv.path.is_ident(key) {
                match kv.value.kind {
                    ExprKind::Path(p) => match p.get_ident() {
                        Some(id) => {
                            return Ok(Ident { name: id.name.clone(), span: id.span });
                        },
                        None => {},
                    },
                    _ => {},
                }
            }
            let mut message = String::from_str("Expected #[surreal_bind(");
            push_str(&mut message, key);
            push_str(&mut message, " = ...)]");
            Err(CompileError { span: Some(span), message })
        },
        Ok(None) => Ok(prefixed("Surreal", ident)),
        Err(InvalidAttrReason::NotScoped) => Err(
            CompileError {
                span: Some(span),
                message: String::from_str("Expected #[surreal_bind(...)]"),
            },
        ),
        Err(InvalidAttrReason::Other(e)) => Err(e),
    }
}

/// What a derive that names its mapping struct by `key` plans for `ast`;
/// `what` names the derive in its error for non-structs.
pub open spec fn spec_keyed_plan(ast: DeriveInput, key: Seq<char>, what: Seq<char>, r: Result<
    BindPlan,
    CompileError,
>) -> bool {
    match ast.data {
        DeriveData::Struct(fields) => match spec_mapping_name(ast.ident, ast.attrs@, key, ast.span) {
            Err(e) => r matches Err(x) && x@ == e,
            Ok((name, at)) => if fields is Unit {
                r matches Err(x) && x@ == (Some(ast.span), "Unit structs are not supported"@)
            } else {
                r matches Ok(p) && p.mapping_name.name@ == name && p.mapping_name.span == at
                    && shape_of(p.shape, fields)
            },
        },
        _ => r matches Err(x) && x@ == (Some(ast.span), what + " can only be derived on structs"@),
    }
}

fn keyed_plan(ast: DeriveInput, key: &str, not_struct: &str) -> (r: Result<BindPlan, CompileError>)
    ensures
        ast.data is Struct ==> spec_keyed_plan(ast, key@, Seq::empty(), r),
        !(ast.data is Struct) ==> (r matches Err(x) && x@ == (Some(ast.span), not_struct@)),
{
    let span = ast.span;
    let fields = match ast.data {
        DeriveData::Struct(fields) => fields,
        _ => {
            return Err(CompileError { span: Some(span), message: String::from_str(not_struct) });
        },
    };
    let mapping_name = match mapping_name(&ast.ident, ast.attrs, key, span) {
        Ok(name) => name,
        Err(e) => {
            return Err(e);
        },
    };
    match bind_shape(&fields, span) {
        Ok(shape) => Ok(BindPlan { mapping_name, shape }),
        Err(e) => Err(e),
    }
}

/// Plans the `FromSurrealBind` derive: a struct deserialized from the
/// database, named by `#[surreal_bind(der = Name)]` or `Surreal{Name}`.
pub fn from_surreal_db_derive(ast: DeriveInput) -> (r: Result<BindPlan, CompileError>)
    ensures
        spec_keyed_plan(ast, "der"@, "FromSurrealBind"@, r),
{
    proof {
        reveal_strlit("FromSurrealBind can only be derived on structs");
        reveal_strlit("FromSurrealBind");
        reveal_strlit(" can only be derived on structs");
        assert("FromSurrealBind"@ + " can only be derived on structs"@ =~= "FromSurrealBind can only be derived on structs"@);
    }
    keyed_plan(ast, "der", "FromSurrealBind can only be derived on structs")
}

/// Plans the older `AsSurrealBind` derive: a struct that borrows each field as
/// its bind, named by `#[surreal_bind(name = Name)]` or `Surreal{Name}`.
pub fn do_surreal_bind_derive(ast: DeriveInput) -> (r: Result<BindPlan, CompileError>)
    ensures
        spec_keyed_plan(ast, "name"@, "AsSurrealBind"@, r),
{
    proof {
        reveal_strlit("AsSurrealBind can only be derived on structs");
        reveal_strlit("AsSurrealBind");
        reveal_strlit(" can only be derived on structs");
        assert("AsSurrealBind"@ + " can only be derived on structs"@ =~= "AsSurrealBind can only be derived on structs"@);
    }
    keyed_plan(ast, "name", "AsSurrealBind can only be derived on structs")
}

} // verus!
