use vstd::prelude::*;
use vstd::string::*;

use crate::text::{push_str, str_eq};

verus! {

/// A range of source positions.
#[derive(Clone, Copy, Debug, PartialEq, Eq, Structural)]
pub struct Span {
    pub lo: usize,
    pub hi: usize,
}

impl Span {
    /// The span from the start of `self` to the end of `other`.
    pub fn join(self, other: Span) -> (r: Span)
        ensures
            r == (Span { lo: self.lo, hi: other.hi }),
    {
        Span { lo: self.lo, hi: other.hi }
    }
}

/// An error to report while expanding a macro, at `span`; `None` stands for
/// the place where the macro was called.
#[derive(Debug)]
pub struct CompileError {
    pub span: Option<Span>,
    pub message: String,
}

/// Where and what an error reports.
pub type ErrorView = (Option<Span>, Seq<char>);

impl View for CompileError {
    type V = ErrorView;

    open spec fn view(&self) -> ErrorView {
        (self.span, self.message@)
    }
}

/// A result with its error taken by its view.
pub open spec fn result_view<T>(r: Result<T, CompileError>) -> Result<T, ErrorView> {
    match r {
        Ok(v) => Ok(v),
        Err(e) => Err(e@),
    }
}

/// An identifier and where it stands.
#[derive(Debug)]
pub struct Ident {
    pub name: String,
    pub span: Span,
}

/// One segment of a path; `has_arguments` tells whether generic arguments
/// follow it.
#[derive(Debug)]
pub struct PathSegment {
    pub ident: Ident,
    pub has_arguments: bool,
}

/// A path such as `serde` or `a::b`.
#[derive(Debug)]
pub struct AttrPath {
    pub leading_colon: bool,
    pub segments: Vec<PathSegment>,
}

impl AttrPath {
    /// The identifier that makes up the whole path, if it is one.
    pub open spec fn spec_get_ident(&self) -> Option<Ident> {
        if !self.leading_colon && self.segments@.len() == 1 && !self.segments@[0].has_arguments {
            Some(self.segments@[0].ident)
        } else {
            None
        }
    }

    /// The path is the single identifier `name`.
    pub open spec fn spec_is_ident(&self, name: Seq<char>) -> bool {
        match self.spec_get_ident() {
            Some(id) => id.name@ == name,
            None => false,
        }
    }

    pub fn get_ident(&self) -> (r: Option<&Ident>)
        ensures
            match self.spec_get_ident() {
                Some(id) => r matches Some(x) && *x == id,
                None => r is None,
            },
    {
        if self.leading_colon || self.segments.len() != 1 {
            return None;
        }
        let seg = &self.segments[0];
        if seg.has_arguments {
            None
        } else {
            Some(&seg.ident)
        }
    }

    pub fn is_ident(&self, name: &str) -> (r: bool)
        ensures
            r == self.spec_is_ident(name@),
    {
        match self.get_ident() {
            Some(id) => str_eq(id.name.as_str(), name),
            None => false,
        }
    }
}

/// A literal.
#[derive(Debug)]
pub enum AttrLit {
    Bool(bool),
    Str(String),
    Other,
}

/// The kinds of expression the attribute parsers tell apart.
#[derive(Debug)]
pub enum ExprKind {
    Path(AttrPath),
    Lit(AttrLit),
    Other,
}

/// An expression and where it stands.
#[derive(Debug)]
pub struct AttrExpr {
    pub span: Span,
    pub kind: ExprKind,
}

/// `path = value`.
#[derive(Debug)]
pub struct NameValue {
    pub path: AttrPath,
    pub value: AttrExpr,
}

/// `path(...)`; `args` holds the arguments when they form a comma-separated
/// list of `name = value` pairs, and is `None` otherwise.
#[derive(Debug)]
pub struct MetaList {
    pub path: AttrPath,
    pub args: Option<Vec<NameValue>>,
}

/// What an attribute holds.
#[derive(Debug)]
pub enum AttrMeta {
    Path(AttrPath),
    List(MetaList),
    NameValue(NameValue),
}

/// An outer attribute `#[...]`.
#[derive(Debug)]
pub struct Attribute {
    pub span: Span,
    pub meta: AttrMeta,
}

/// Why an attribute is not of the form `#[scope(...)]`.
#[derive(Clone, Copy, Debug, PartialEq, Eq, Structural)]
pub enum ParseScopedAttrError {
    NotScoped,
    ScopeIdentInvalid,
}

/// The scope identifier of an attribute `#[scope(...)]`.
pub open spec fn spec_scope(attr: Attribute) -> Result<Ident, ParseScopedAttrError> {
    match attr.meta {
        AttrMeta::List(l) => if l.path.segments@.len() > 0 {
            Ok(l.path.segments@[0].ident)
        } else {
            Err(ParseScopedAttrError::ScopeIdentInvalid)
        },
        _ => Err(ParseScopedAttrError::NotScoped),
    }
}

/// The argument list of a list attribute.
pub open spec fn spec_args(attr: Attribute) -> Option<Vec<NameValue>> {
    match attr.meta {
        AttrMeta::List(l) => l.args,
        _ => None,
    }
}

/// An attribute `#[scope(...)]` split into its parts.
pub struct ScopedAttr<'a> {
    pub scope: &'a Ident,
    pub attr: &'a Attribute,
    pub tokens: &'a Option<Vec<NameValue>>,
}

impl<'a> ScopedAttr<'a> {
    pub fn parse(attr: &'a Attribute) -> (r: Result<ScopedAttr<'a>, ParseScopedAttrError>)
        ensures
            match spec_scope(*attr) {
                Ok(scope) => r matches Ok(s) && *s.scope == scope && *s.attr == *attr && *s.tokens
                    == spec_args(*attr),
                Err(e) => r == Err::<ScopedAttr<'a>, ParseScopedAttrError>(e),
            },
    {
        let list = match &attr.meta {
            AttrMeta::List(list) => list,
            _ => return Err(ParseScopedAttrError::NotScoped),
        };
        if list.path.segments.len() == 0 {
            return Err(ParseScopedAttrError::ScopeIdentInvalid);
        }
        Ok(ScopedAttr { scope: &list.path.segments[0].ident, attr, tokens: &list.args })
    }
}

pub open spec fn msg_expected_scoped(ns: Seq<char>) -> Seq<char> {
    "Expected #["@ + ns + "(...)]"@
}

pub open spec fn msg_invalid_syntax() -> Seq<char> {
    "Invalid attribute syntax"@
}

pub open spec fn msg_no_pairs(ns: Seq<char>) -> Seq<char> {
    "Expected at least one key-value pair in #["@ + ns + "(...)]"@
}

/// The `name = value` pairs of `attr` when its scope is `ns`; `Ok(None)` when
/// the attribute belongs to another scope.
pub open spec fn spec_key_value(attr: Attribute, ns: Seq<char>) -> Result<
    Option<Seq<NameValue>>,
    ErrorView,
> {
    match spec_scope(attr) {
        Err(_) => Err((Some(attr.span), msg_expected_scoped(ns))),
        Ok(scope) => if scope.name@ != ns {
            Ok(None)
        } else {
            match spec_args(attr) {
                None => Err((Some(attr.span), msg_invalid_syntax())),
                Some(kvs) => if kvs@.len() == 0 {
                    Err((Some(attr.span), msg_no_pairs(ns)))
                } else {
                    Ok(Some(kvs@))
                },
            }
        },
    }
}

fn enclosed(before: &str, middle: &str, after: &str) -> (s: String)
    ensures
        s@ == before@ + middle@ + after@,
{
    let mut s = String::from_str(before);
    push_str(&mut s, middle);
    push_str(&mut s, after);
    s
}

fn key_value(attr: Attribute, namespace: &str) -> (r: Result<Option<Vec<NameValue>>, CompileError>)
    ensures
        match spec_key_value(attr, namespace@) {
            Ok(None) => r matches Ok(None),
            Ok(Some(kvs)) => r matches Ok(Some(v)) && v@ == kvs,
            Err(e) => r matches Err(x) && x@ == e,
        },
{
    let span = attr.span;
    let in_scope = match ScopedAttr::parse(&attr) {
        Ok(scoped) => str_eq(scoped.scope.name.as_str(), namespace),
        Err(_) => {
            return Err(
                CompileError { span: Some(span), message: enclosed("Expected #[", namespace, "(...)]") },
            );
        },
    };
    if !in_scope {
        return Ok(None);
    }
    match attr.meta {
        AttrMeta::List(list) => match list.args {
            None => Err(
                CompileError { span: Some(span), message: String::from_str("Invalid attribute syntax") },
            ),
            Some(kvs) => if kvs.len() == 0 {
                Err(
                    CompileError {
                        span: Some(span),
                        message: enclosed(
                            "Expected at least one key-value pair in #[",
                            namespace,
                            "(...)]",
                        ),
                    },
                )
            } else {
                Ok(Some(kvs))
            },
        },
        _ => Ok(None),
    }
}

/// The display name of a value kind, as used in messages.
pub trait ReprValue {
    spec fn spec_repr() -> Seq<char>;

    fn repr() -> (r: &'static str)
        ensures
            r@ == Self::spec_repr(),
    ;
}

/// A type read from an identifier's text, with a message on failure.
pub trait FromStrMessage: Sized {
    /// What reading `s` gives.
    spec fn spec_from_str(s: Seq<char>) -> Result<Self, Seq<char>>;

    fn from_str_message(s: &str) -> (r: Result<Self, String>)
        ensures
            match r {
                Ok(v) => Self::spec_from_str(s@) == Ok::<Self, Seq<char>>(v),
                Err(m) => Self::spec_from_str(s@) == Err::<Self, Seq<char>>(m@),
            },
    ;
}

/// A type read from an identifier.
pub trait IdentValueParse<Marker>: Sized {
    spec fn spec_repr() -> Seq<char>;

    /// What reading `ident` gives.
    spec fn spec_parse_ident(ident: Ident) -> Result<Self, ErrorView>;

    fn repr() -> (r: &'static str)
        ensures
            r@ == Self::spec_repr(),
    ;

    fn parse(ident: Ident) -> (r: Result<Self, CompileError>)
        ensures
            result_view(r) == Self::spec_parse_ident(ident),
    ;
}

/// Marks reading an identifier through its text.
pub struct IdentFromStr;

impl<S: FromStrMessage + ReprValue> IdentValueParse<IdentFromStr> for S {
    open spec fn spec_repr() -> Seq<char> {
        <S as ReprValue>::spec_repr()
    }

    open spec fn spec_parse_ident(ident: Ident) -> Result<S, ErrorView> {
        match S::spec_from_str(ident.name@) {
            Ok(v) => Ok(v),
            Err(m) => Err((Some(ident.span), m)),
        }
    }

    fn repr() -> (r: &'static str) {
        <S as ReprValue>::repr()
    }

    fn parse(ident: Ident) -> (r: Result<S, CompileError>) {
        match S::from_str_message(ident.name.as_str()) {
            Ok(v) => Ok(v),
            Err(m) => Err(CompileError { span: Some(ident.span), message: m }),
        }
    }
}

/// Reads the value of a `name = value` pair.
pub trait ValueParser<Marker> {
    type Out;

    spec fn spec_repr() -> Seq<char>;

    /// What `parse` gives for `expr`.
    spec fn spec_parse(&self, expr: AttrExpr) -> Result<Self::Out, ErrorView>;

    fn repr() -> (r: &'static str)
        ensures
            r@ == Self::spec_repr(),
    ;

    fn parse(&self, expr: AttrExpr) -> (r: Result<Self::Out, CompileError>)
        ensures
            result_view(r) == self.spec_parse(expr),
    ;
}

/// Reads a value from the identifier that makes up the expression.
pub struct IdentValueParser<T>(core::marker::PhantomData<T>);

impl<T> IdentValueParser<T> {
    pub fn new() -> (r: Self) {
        IdentValueParser(core::marker::PhantomData)
    }
}

impl<M, I: IdentValueParse<M>> ValueParser<M> for IdentValueParser<I> {
    type Out = I;

    open spec fn spec_repr() -> Seq<char> {
        I::spec_repr()
    }

    open spec fn spec_parse(&self, expr: AttrExpr) -> Result<I, ErrorView> {
        match expr.kind {
            ExprKind::Path(p) => if p.segments@.len() > 0 {
                I::spec_parse_ident(p.segments@[0].ident)
            } else {
                Err((Some(expr.span), "Expected an identifier"@))
            },
            _ => Err((Some(expr.span), "Expected an identifier"@)),
        }
    }

    fn repr() -> (r: &'static str) {
        I::repr()
    }

    fn parse(&self, expr: AttrExpr) -> (r: Result<I, CompileError>) {
        let span = expr.span;
        match expr.kind {
            ExprKind::Path(p) => {
                let mut segments = p.segments;
                if segments.len() == 0 {
                    Err(
                        CompileError {
                            span: Some(span),
                            message: String::from_str("Expected an identifier"),
                        },
                    )
                } else {
                    let first = segments.remove(0);
                    I::parse(first.ident)
                }
            },
            _ => Err(
                CompileError { span: Some(span), message: String::from_str("Expected an identifier") },
            ),
        }
    }
}

/// Reads a boolean literal.
pub struct BoolParser;

impl ValueParser<bool> for BoolParser {
    type Out = bool;

    open spec fn spec_repr() -> Seq<char> {
        "bool"@
    }

    open spec fn spec_parse(&self, expr: AttrExpr) -> Result<bool, ErrorView> {
        match expr.kind {
            ExprKind::Lit(AttrLit::Bool(b)) => Ok(b),
            _ => Err((Some(expr.span), "Expected a boolean literal"@)),
        }
    }

    fn repr() -> (r: &'static str) {
        "bool"
    }

    fn parse(&self, expr: AttrExpr) -> (r: Result<bool, CompileError>) {
        match expr.kind {
            ExprKind::Lit(AttrLit::Bool(b)) => Ok(b),
            _ => Err(
                CompileError {
                    span: Some(expr.span),
                    message: String::from_str("Expected a boolean literal"),
                },
            ),
        }
    }
}

/// Takes the expression as it is.
pub struct ExprParser;

impl ValueParser<AttrExpr> for ExprParser {
    type Out = AttrExpr;

    open spec fn spec_repr() -> Seq<char> {
        "expr"@
    }

    open spec fn spec_parse(&self, expr: AttrExpr) -> Result<AttrExpr, ErrorView> {
        Ok(expr)
    }

    fn repr() -> (r: &'static str) {
        "expr"
    }

    fn parse(&self, expr: AttrExpr) -> (r: Result<AttrExpr, CompileError>) {
        Ok(expr)
    }
}

/// Reads a string literal.
pub struct StringParser;

impl ValueParser<String> for StringParser {
    type Out = String;

    open spec fn spec_repr() -> Seq<char> {
        "string"@
    }

    open spec fn spec_parse(&self, expr: AttrExpr) -> Result<String, ErrorView> {
        match expr.kind {
            ExprKind::Lit(AttrLit::Str(s)) => Ok(s),
            _ => Err((Some(expr.span), "Expected a string literal"@)),
        }
    }

    fn repr() -> (r: &'static str) {
        "string"
    }

    fn parse(&self, expr: AttrExpr) -> (r: Result<String, CompileError>) {
        match expr.kind {
            ExprKind::Lit(AttrLit::Str(s)) => Ok(s),
            _ => Err(
                CompileError {
                    span: Some(expr.span),
                    message: String::from_str("Expected a string literal"),
                },
            ),
        }
    }
}

/// Recognises the key of a `key = value` pair.
pub trait PathMatch {
    spec fn spec_path_match(&self, path: AttrPath) -> bool;

    fn path_match(&self, path: &AttrPath) -> (r: bool)
        ensures
            r == self.spec_path_match(*path),
    ;
}

/// The display form of a key, as used in messages.
pub trait ReprValueRef {
    spec fn spec_repr_ref(&self) -> Seq<char>;

    fn repr(&self) -> (r: &str)
        ensures
            r@ == self.spec_repr_ref(),
    ;
}

/// A key made of a single identifier.
pub struct KeyIdent<'s>(pub &'s str);

impl ReprValueRef for KeyIdent<'_> {
    open spec fn spec_repr_ref(&self) -> Seq<char> {
        self.0@
    }

    fn repr(&self) -> (r: &str) {
        self.0
    }
}

impl PathMatch for KeyIdent<'_> {
    open spec fn spec_path_match(&self, path: AttrPath) -> bool {
        path.spec_is_ident(self.0@)
    }

    fn path_match(&self, path: &AttrPath) -> (r: bool) {
        path.is_ident(self.0)
    }
}

/// A key and its value parser whose pair may be left out.
pub struct OptionalAttr<V>(pub V);

/// `i` is the first pair whose key `k` recognises.
pub open spec fn is_first_match<K: PathMatch>(k: K, kvs: Seq<NameValue>, i: int) -> bool {
    &&& 0 <= i < kvs.len()
    &&& k.spec_path_match(kvs[i].path)
    &&& forall|j: int| 0 <= j < i ==> !k.spec_path_match(#[trigger] kvs[j].path)
}

/// The first pair whose key `k` recognises.
pub open spec fn first_match<K: PathMatch>(k: K, kvs: Seq<NameValue>) -> Option<int> {
    if exists|i: int| is_first_match(k, kvs, i) {
        Some(choose|i: int| is_first_match(k, kvs, i))
    } else {
        None
    }
}

proof fn lemma_first_match_unique<K: PathMatch>(k: K, kvs: Seq<NameValue>, i: int)
    requires
        is_first_match(k, kvs, i),
    ensures
        first_match(k, kvs) == Some(i),
{
    let c = choose|x: int| is_first_match(k, kvs, x);
    assert(is_first_match(k, kvs, c));
    if c < i {
        assert(!k.spec_path_match(kvs[c].path));
    } else if i < c {
        assert(!k.spec_path_match(kvs[i].path));
    }
}

fn find_first<K: PathMatch>(key: &K, kvs: &Vec<NameValue>) -> (r: Option<usize>)
    ensures
        match first_match(*key, kvs@) {
            Some(i) => r == Some(i as usize),
            None => r is None,
        },
        r matches Some(i) ==> i < kvs@.len(),
{
    let mut i: usize = 0;
    while i < kvs.len()
        invariant
            i <= kvs@.len(),
            forall|j: int| 0 <= j < i ==> !key.spec_path_match(#[trigger] kvs@[j].path),
        decreases kvs.len() - i,
    {
        if key.path_match(&kvs[i].path) {
            proof {
                lemma_first_match_unique(*key, kvs@, i as int);
            }
            return Some(i);
        }
        i = i + 1;
    }
    assert(!exists|x: int| is_first_match(*key, kvs@, x));
    None
}

/// Matches the `name = value` pairs of a scope against the keys a parser
/// expects.
pub trait AttrsMatch<Marker>: Sized {
    type Out;

    /// What matching `kvs` gives; `span` covers the attributes they came from,
    /// and is `None` when there were none.
    spec fn spec_attrs_match(self, span: Option<Span>, kvs: Seq<NameValue>, ns: Seq<char>) -> Result<
        Self::Out,
        ErrorView,
    >;

    fn attrs_match(self, span: Option<Span>, key_values: Vec<NameValue>, namespace: &str) -> (r:
        Result<Self::Out, CompileError>)
        ensures
            result_view(r) == self.spec_attrs_match(span, key_values@, namespace@),
    ;
}

pub open spec fn msg_no_attribute(ns: Seq<char>) -> Seq<char> {
    "Expected at least one #["@ + ns + "()] attribute"@
}

pub open spec fn msg_missing_key(k: Seq<char>) -> Seq<char> {
    "Expected at least one single "@ + k + " = ..."@
}

pub open spec fn msg_repeated_key(k: Seq<char>, v: Seq<char>) -> Seq<char> {
    "Expected at most one single "@ + k + " = "@ + v
}

fn repeated_key_message(k: &str, v: &str) -> (s: String)
    ensures
        s@ == msg_repeated_key(k@, v@),
{
    let mut s = enclosed("Expected at most one single ", k, " = ");
    push_str(&mut s, v);
    s
}

/// Marks a key that must occur exactly once.
pub struct RequiredParsing;

impl<M1, K1: PathMatch + ReprValueRef, V1: ValueParser<M1>> AttrsMatch<(M1, RequiredParsing)> for (
    K1,
    V1,
) {
    type Out = V1::Out;

    open spec fn spec_attrs_match(self, span: Option<Span>, kvs: Seq<NameValue>, ns: Seq<char>) -> Result<
        V1::Out,
        ErrorView,
    > {
        match span {
            None => Err((None, msg_no_attribute(ns))),
            Some(sp) => match first_match(self.0, kvs) {
                None => Err((Some(sp), msg_missing_key(self.0.spec_repr_ref()))),
                Some(i) => if i + 1 < kvs.len() {
                    Err((Some(sp), msg_repeated_key(self.0.spec_repr_ref(), V1::spec_repr())))
                } else {
                    self.1.spec_parse(kvs[i].value)
                },
            },
        }
    }

    fn attrs_match(self, span: Option<Span>, key_values: Vec<NameValue>, namespace: &str) -> (r:
        Result<V1::Out, CompileError>) {
        let (key, parser) = self;
        let sp = match span {
            None => {
                return Err(
                    CompileError {
                        span: None,
                        message: enclosed("Expected at least one #[", namespace, "()] attribute"),
                    },
                );
            },
            Some(sp) => sp,
        };
        match find_first(&key, &key_values) {
            None => Err(
                CompileError {
                    span: Some(sp),
                    message: enclosed("Expected at least one single ", key.repr(), " = ..."),
                },
            ),
            Some(i) => if i < key_values.len() - 1 {
                Err(CompileError { span: Some(sp), message: repeated_key_message(key.repr(), V1::repr()) })
            } else {
                let mut kvs = key_values;
                let kv = kvs.remove(i);
                parser.parse(kv.value)
            },
        }
    }
}

/// Marks keys that may be left out.
pub struct OptionalParsing;

impl<M1, K1: PathMatch + ReprValueRef, V1: ValueParser<M1>> AttrsMatch<(M1, OptionalParsing)> for OptionalAttr<
    (K1, V1),
> {
    type Out = Option<V1::Out>;

    open spec fn spec_attrs_match(self, span: Option<Span>, kvs: Seq<NameValue>, ns: Seq<char>) -> Result<
        Option<V1::Out>,
        ErrorView,
    > {
        match span {
            None => Ok(None),
            Some(sp) => match first_match(self.0.0, kvs) {
                None => Ok(None),
                Some(i) => if i + 1 < kvs.len() {
                    Err((Some(sp), msg_repeated_key(self.0.0.spec_repr_ref(), V1::spec_repr())))
                } else {
                    match self.0.1.spec_parse(kvs[i].value) {
                        Ok(v) => Ok(Some(v)),
                        Err(e) => Err(e),
                    }
                },
            },
        }
    }

    fn attrs_match(self, span: Option<Span>, key_values: Vec<NameValue>, namespace: &str) -> (r:
        Result<Option<V1::Out>, CompileError>) {
        let (key, parser) = self.0;
        let sp = match span {
            None => {
                return Ok(None);
            },
            Some(sp) => sp,
        };
        match find_first(&key, &key_values) {
            None => Ok(None),
            Some(i) => if i < key_values.len() - 1 {
                Err(CompileError { span: Some(sp), message: repeated_key_message(key.repr(), V1::repr()) })
            } else {
                let mut kvs = key_values;
                let kv = kvs.remove(i);
                match parser.parse(kv.value) {
                    Ok(v) => Ok(Some(v)),
                    Err(e) => Err(e),
                }
            },
        }
    }
}

/// The values that the two keys take over `kvs`, starting from `acc`.
pub open spec fn fold_opt2<M1, M2, K1: PathMatch, V1: ValueParser<M1>, K2: PathMatch, V2: ValueParser<M2>>(
    a: (K1, V1),
    b: (K2, V2),
    acc: (Option<V1::Out>, Option<V2::Out>),
    kvs: Seq<NameValue>,
) -> Result<(Option<V1::Out>, Option<V2::Out>), ErrorView>
    decreases kvs.len(),
{
    if kvs.len() == 0 {
        Ok(acc)
    } else {
        let kv = kvs[0];
        if a.0.spec_path_match(kv.path) {
            match a.1.spec_parse(kv.value) {
                Ok(x) => fold_opt2(a, b, (Some(x), acc.1), kvs.drop_first()),
                Err(e) => Err(e),
            }
        } else if b.0.spec_path_match(kv.path) {
            match b.1.spec_parse(kv.value) {
                Ok(x) => fold_opt2(a, b, (acc.0, Some(x)), kvs.drop_first()),
                Err(e) => Err(e),
            }
        } else {
            fold_opt2(a, b, acc, kvs.drop_first())
        }
    }
}

/// Which of two keys takes a pair with path `path`: the first key that
/// recognises it (counted from 0), or -1 when none does.
pub open spec fn owner2<K1: PathMatch, K2: PathMatch>(k1: K1, k2: K2, path: AttrPath) -> int {
    if k1.spec_path_match(path) {
        0
    } else if k2.spec_path_match(path) {
        1
    } else {
        -1
    }
}

/// Pair `i` is the last of `kvs` that key `j` of two takes.
pub open spec fn last_owned2<K1: PathMatch, K2: PathMatch>(k1: K1, k2: K2, j: int, kvs: Seq<NameValue>, i: int) -> bool {
    &&& 0 <= i < kvs.len()
    &&& owner2(k1, k2, kvs[i].path) == j
    &&& forall|l: int| i < l < kvs.len() ==> owner2(k1, k2, #[trigger] kvs[l].path) != j
}

/// No pair of `kvs` is taken by key `j` of two.
pub open spec fn unowned2<K1: PathMatch, K2: PathMatch>(k1: K1, k2: K2, j: int, kvs: Seq<NameValue>) -> bool {
    forall|l: int| 0 <= l < kvs.len() ==> owner2(k1, k2, #[trigger] kvs[l].path) != j
}

proof fn lemma_fold2_last<M1, M2, K1: PathMatch, V1: ValueParser<M1>, K2: PathMatch, V2: ValueParser<M2>>(a: (K1, V1), b: (K2, V2), acc: (Option<V1::Out>, Option<V2::Out>), kvs: Seq<NameValue>)
    requires
        fold_opt2(a, b, acc, kvs) is Ok,
    ensures
        ({
            let r = fold_opt2(a, b, acc, kvs)->Ok_0;
            &&& forall|i: int| #[trigger] last_owned2(a.0, b.0, 0, kvs, i) ==> r.0 is Some && a.1.spec_parse(kvs[i].value) == Ok::<V1::Out, ErrorView>(r.0->Some_0)
            &&& forall|i: int| #[trigger] last_owned2(a.0, b.0, 1, kvs, i) ==> r.1 is Some && b.1.spec_parse(kvs[i].value) == Ok::<V2::Out, ErrorView>(r.1->Some_0)
            &&& unowned2(a.0, b.0, 0, kvs) ==> r.0 == acc.0
            &&& unowned2(a.0, b.0, 1, kvs) ==> r.1 == acc.1
        }),
    decreases kvs.len(),
{
    if kvs.len() > 0 {
        let kv = kvs[0];
        let tail = kvs.drop_first();
        let o = owner2(a.0, b.0, kv.path);
        let acc2 = if o == 0 {
            (Some(a.1.spec_parse(kv.value)->Ok_0), acc.1)
        } else if o == 1 {
            (acc.0, Some(b.1.spec_parse(kv.value)->Ok_0))
        } else {
            acc
        };
        assert(fold_opt2(a, b, acc, kvs) == fold_opt2(a, b, acc2, tail));
        lemma_fold2_last(a, b, acc2, tail);
        assert forall|l: int| 0 <= l < tail.len() implies #[trigger] tail[l] == kvs[l + 1] by {}
        assert forall|j: int, i: int| #[trigger] last_owned2(a.0, b.0, j, kvs, i) && i > 0
            implies last_owned2(a.0, b.0, j, tail, i - 1) by {
            assert(tail[i - 1] == kvs[i]);
            assert forall|l: int| i - 1 < l < tail.len() implies owner2(a.0, b.0, #[trigger] tail[l].path) != j by {
                assert(tail[l] == kvs[l + 1]);
            }
        }
        assert forall|j: int| #[trigger] unowned2(a.0, b.0, j, kvs) implies unowned2(a.0, b.0, j, tail) by {
            assert forall|l: int| 0 <= l < tail.len() implies owner2(a.0, b.0, #[trigger] tail[l].path) != j by {
                assert(tail[l] == kvs[l + 1]);
            }
        }
        assert forall|j: int| #[trigger] last_owned2(a.0, b.0, j, kvs, 0) implies unowned2(a.0, b.0, j, tail) by {
            assert forall|l: int| 0 <= l < tail.len() implies owner2(a.0, b.0, #[trigger] tail[l].path) != j by {
                assert(tail[l] == kvs[l + 1]);
            }
        }
    }
}

/// With two optional keys, each key gets the value of the last pair it
/// takes (a pair goes to the first key that recognises its path), and stays
/// unset only when it takes no pair.
pub proof fn law_optional2_last_pair_wins<M1, M2, K1, V1, K2, V2>(a: (K1, V1), b: (K2, V2), sp: Span, kvs: Seq<NameValue>, ns: Seq<char>) where K1: PathMatch + ReprValueRef, V1: ValueParser<M1>, K2: PathMatch + ReprValueRef, V2: ValueParser<M2>
    requires
        (OptionalAttr(a), OptionalAttr(b)).spec_attrs_match(Some(sp), kvs, ns) is Ok,
    ensures
        ({
            let r = (OptionalAttr(a), OptionalAttr(b)).spec_attrs_match(Some(sp), kvs, ns)->Ok_0;
            &&& forall|i: int| #[trigger] last_owned2(a.0, b.0, 0, kvs, i) ==> r.0 is Some && a.1.spec_parse(kvs[i].value) == Ok::<V1::Out, ErrorView>(r.0->Some_0)
            &&& forall|i: int| #[trigger] last_owned2(a.0, b.0, 1, kvs, i) ==> r.1 is Some && b.1.spec_parse(kvs[i].value) == Ok::<V2::Out, ErrorView>(r.1->Some_0)
            &&& (r.0 is None <==> unowned2(a.0, b.0, 0, kvs))
            &&& (r.1 is None <==> unowned2(a.0, b.0, 1, kvs))
        }),
{
    lemma_fold2_last(a, b, (None, None), kvs);
    lemma_some_owned_has_last2(a.0, b.0, 0, kvs);
    lemma_some_owned_has_last2(a.0, b.0, 1, kvs);
}

/// When key `j` takes some pair, one of them is the last it takes.
proof fn lemma_some_owned_has_last2<K1: PathMatch, K2: PathMatch>(k1: K1, k2: K2, j: int, kvs: Seq<NameValue>)
    ensures
        !unowned2(k1, k2, j, kvs) ==> exists|i: int| last_owned2(k1, k2, j, kvs, i),
    decreases kvs.len(),
{
    if !unowned2(k1, k2, j, kvs) && kvs.len() > 0 {
        let n = kvs.len() - 1;
        if owner2(k1, k2, kvs[n].path) == j {
            assert(last_owned2(k1, k2, j, kvs, n));
        } else {
            let init = kvs.drop_last();
            assert forall|l: int| 0 <= l < init.len() implies #[trigger] init[l] == kvs[l] by {}
            if unowned2(k1, k2, j, init) {
                let w = choose|l: int| 0 <= l < kvs.len() && owner2(k1, k2, #[trigger] kvs[l].path) == j;
                if w < n {
                    assert(init[w] == kvs[w]);
                }
            }
            lemma_some_owned_has_last2(k1, k2, j, init);
            let i = choose|i: int| last_owned2(k1, k2, j, init, i);
            assert(init[i] == kvs[i]);
            assert forall|l: int| i < l < kvs.len() implies owner2(k1, k2, #[trigger] kvs[l].path) != j by {
                if l < n {
                    assert(init[l] == kvs[l]);
                }
            }
            assert(last_owned2(k1, k2, j, kvs, i));
        }
    }
}

impl<M1, M2, K1, V1, K2, V2> AttrsMatch<((M1, M2), OptionalParsing)> for (
    OptionalAttr<(K1, V1)>,
    OptionalAttr<(K2, V2)>,
) where K1: PathMatch + ReprValueRef, V1: ValueParser<M1>, K2: PathMatch + ReprValueRef, V2: ValueParser<M2> {
    type Out = (Option<V1::Out>, Option<V2::Out>);

    open spec fn spec_attrs_match(self, span: Option<Span>, kvs: Seq<NameValue>, ns: Seq<char>) -> Result<
        (Option<V1::Out>, Option<V2::Out>),
        ErrorView,
    > {
        match span {
            None => Ok((None, None)),
            Some(_) => fold_opt2(self.0.0, self.1.0, (None, None), kvs),
        }
    }

    fn attrs_match(self, span: Option<Span>, key_values: Vec<NameValue>, namespace: &str) -> (r:
        Result<(Option<V1::Out>, Option<V2::Out>), CompileError>) {
        let ghost whole = self;
        let ghost all = key_values@;
        let (a, b) = self;
        let (k1, p1) = a.0;
        let (k2, p2) = b.0;
        let mut v1: Option<V1::Out> = None;
        let mut v2: Option<V2::Out> = None;
        if span.is_none() {
            return Ok((v1, v2));
        }
        let mut kvs = key_values;
        while kvs.len() > 0
            invariant
                span is Some,
                whole == self,
                all == key_values@,
                whole.0.0 == (k1, p1),
                whole.1.0 == (k2, p2),
                whole.spec_attrs_match(span, all, namespace@) == fold_opt2(
                    (k1, p1),
                    (k2, p2),
                    (v1, v2),
                    kvs@,
                ),
            decreases kvs.len(),
        {
            let ghost before = kvs@;
            let kv = kvs.remove(0);
            assert(kvs@ =~= before.drop_first());
            if k1.path_match(&kv.path) {
                match p1.parse(kv.value) {
                    Ok(x) => {
                        v1 = Some(x);
                    },
                    Err(e) => {
                        return Err(e);
                    },
                }
            } else if k2.path_match(&kv.path) {
                match p2.parse(kv.value) {
                    Ok(x) => {
                        v2 = Some(x);
                    },
                    Err(e) => {
                        return Err(e);
                    },
                }
            }
        }
        Ok((v1, v2))
    }
}

/// The values that the 3 keys take over `kvs`, starting from `acc`.
pub open spec fn fold_opt3<M1, M2, M3, K1: PathMatch, V1: ValueParser<M1>, K2: PathMatch, V2: ValueParser<M2>, K3: PathMatch, V3: ValueParser<M3>>(
    a: (K1, V1),
    b: (K2, V2),
    c: (K3, V3),
    acc: (Option<V1::Out>, Option<V2::Out>, Option<V3::Out>),
    kvs: Seq<NameValue>,
) -> Result<(Option<V1::Out>, Option<V2::Out>, Option<V3::Out>), ErrorView>
    decreases kvs.len(),
{
    if kvs.len() == 0 {
        Ok(acc)
    } else {
        let kv = kvs[0];
        if a.0.spec_path_match(kv.path) {
            match a.1.spec_parse(kv.value) {
                Ok(x) => fold_opt3(a, b, c, (Some(x), acc.1, acc.2), kvs.drop_first()),
                Err(e) => Err(e),
            }
        } else if b.0.spec_path_match(kv.path) {
            match b.1.spec_parse(kv.value) {
                Ok(x) => fold_opt3(a, b, c, (acc.0, Some(x), acc.2), kvs.drop_first()),
                Err(e) => Err(e),
            }
        } else if c.0.spec_path_match(kv.path) {
            match c.1.spec_parse(kv.value) {
                Ok(x) => fold_opt3(a, b, c, (acc.0, acc.1, Some(x)), kvs.drop_first()),
                Err(e) => Err(e),
            }
        } else {
            fold_opt3(a, b, c, acc, kvs.drop_first())
        }
    }
}

/// Which of three keys takes a pair with path `path`: the first key that
/// recognises it (counted from 0), or -1 when none does.
pub open spec fn owner3<K1: PathMatch, K2: PathMatch, K3: PathMatch>(k1: K1, k2: K2, k3: K3, path: AttrPath) -> int {
    if k1.spec_path_match(path) {
        0
    } else if k2.spec_path_match(path) {
        1
    } else if k3.spec_path_match(path) {
        2
    } else {
        -1
    }
}

/// Pair `i` is the last of `kvs` that key `j` of three takes.
pub open spec fn last_owned3<K1: PathMatch, K2: PathMatch, K3: PathMatch>(k1: K1, k2: K2, k3: K3, j: int, kvs: Seq<NameValue>, i: int) -> bool {
    &&& 0 <= i < kvs.len()
    &&& owner3(k1, k2, k3, kvs[i].path) == j
    &&& forall|l: int| i < l < kvs.len() ==> owner3(k1, k2, k3, #[trigger] kvs[l].path) != j
}

/// No pair of `kvs` is taken by key `j` of three.
pub open spec fn unowned3<K1: PathMatch, K2: PathMatch, K3: PathMatch>(k1: K1, k2: K2, k3: K3, j: int, kvs: Seq<NameValue>) -> bool {
    forall|l: int| 0 <= l < kvs.len() ==> owner3(k1, k2, k3, #[trigger] kvs[l].path) != j
}

proof fn lemma_fold3_last<M1, M2, M3, K1: PathMatch, V1: ValueParser<M1>, K2: PathMatch, V2: ValueParser<M2>, K3: PathMatch, V3: ValueParser<M3>>(a: (K1, V1), b: (K2, V2), c: (K3, V3), acc: (Option<V1::Out>, Option<V2::Out>, Option<V3::Out>), kvs: Seq<NameValue>)
    requires
        fold_opt3(a, b, c, acc, kvs) is Ok,
    ensures
        ({
            let r = fold_opt3(a, b, c, acc, kvs)->Ok_0;
            &&& forall|i: int| #[trigger] last_owned3(a.0, b.0, c.0, 0, kvs, i) ==> r.0 is Some && a.1.spec_parse(kvs[i].value) == Ok::<V1::Out, ErrorView>(r.0->Some_0)
            &&& forall|i: int| #[trigger] last_owned3(a.0, b.0, c.0, 1, kvs, i) ==> r.1 is Some && b.1.spec_parse(kvs[i].value) == Ok::<V2::Out, ErrorView>(r.1->Some_0)
            &&& forall|i: int| #[trigger] last_owned3(a.0, b.0, c.0, 2, kvs, i) ==> r.2 is Some && c.1.spec_parse(kvs[i].value) == Ok::<V3::Out, ErrorView>(r.2->Some_0)
            &&& unowned3(a.0, b.0, c.0, 0, kvs) ==> r.0 == acc.0
            &&& unowned3(a.0, b.0, c.0, 1, kvs) ==> r.1 == acc.1
            &&& unowned3(a.0, b.0, c.0, 2, kvs) ==> r.2 == acc.2
        }),
    decreases kvs.len(),
{
    if kvs.len() > 0 {
        let kv = kvs[0];
        let tail = kvs.drop_first();
        let o = owner3(a.0, b.0, c.0, kv.path);
        let acc2 = if o == 0 {
            (Some(a.1.spec_parse(kv.value)->Ok_0), acc.1, acc.2)
        } else if o == 1 {
            (acc.0, Some(b.1.spec_parse(kv.value)->Ok_0), acc.2)
        } else if o == 2 {
            (acc.0, acc.1, Some(c.1.spec_parse(kv.value)->Ok_0))
        } else {
            acc
        };
        assert(fold_opt3(a, b, c, acc, kvs) == fold_opt3(a, b, c, acc2, tail));
        lemma_fold3_last(a, b, c, acc2, tail);
        assert forall|l: int| 0 <= l < tail.len() implies #[trigger] tail[l] == kvs[l + 1] by {}
        assert forall|j: int, i: int| #[trigger] last_owned3(a.0, b.0, c.0, j, kvs, i) && i > 0
            implies last_owned3(a.0, b.0, c.0, j, tail, i - 1) by {
            assert(tail[i - 1] == kvs[i]);
            assert forall|l: int| i - 1 < l < tail.len() implies owner3(a.0, b.0, c.0, #[trigger] tail[l].path) != j by {
                assert(tail[l] == kvs[l + 1]);
            }
        }
        assert forall|j: int| #[trigger] unowned3(a.0, b.0, c.0, j, kvs) implies unowned3(a.0, b.0, c.0, j, tail) by {
            assert forall|l: int| 0 <= l < tail.len() implies owner3(a.0, b.0, c.0, #[trigger] tail[l].path) != j by {
                assert(tail[l] == kvs[l + 1]);
            }
        }
        assert forall|j: int| #[trigger] last_owned3(a.0, b.0, c.0, j, kvs, 0) implies unowned3(a.0, b.0, c.0, j, tail) by {
            assert forall|l: int| 0 <= l < tail.len() implies owner3(a.0, b.0, c.0, #[trigger] tail[l].path) != j by {
                assert(tail[l] == kvs[l + 1]);
            }
        }
    }
}

/// With three optional keys, each key gets the value of the last pair it
/// takes (a pair goes to the first key that recognises its path), and stays
/// unset only when it takes no pair.
pub proof fn law_optional3_last_pair_wins<M1, M2, M3, K1, V1, K2, V2, K3, V3>(a: (K1, V1), b: (K2, V2), c: (K3, V3), sp: Span, kvs: Seq<NameValue>, ns: Seq<char>) where K1: PathMatch + ReprValueRef, V1: ValueParser<M1>, K2: PathMatch + ReprValueRef, V2: ValueParser<M2>, K3: PathMatch + ReprValueRef, V3: ValueParser<M3>
    requires
        (OptionalAttr(a), OptionalAttr(b), OptionalAttr(c)).spec_attrs_match(Some(sp), kvs, ns) is Ok,
    ensures
        ({
            let r = (OptionalAttr(a), OptionalAttr(b), OptionalAttr(c)).spec_attrs_match(Some(sp), kvs, ns)->Ok_0;
            &&& forall|i: int| #[trigger] last_owned3(a.0, b.0, c.0, 0, kvs, i) ==> r.0 is Some && a.1.spec_parse(kvs[i].value) == Ok::<V1::Out, ErrorView>(r.0->Some_0)
            &&& forall|i: int| #[trigger] last_owned3(a.0, b.0, c.0, 1, kvs, i) ==> r.1 is Some && b.1.spec_parse(kvs[i].value) == Ok::<V2::Out, ErrorView>(r.1->Some_0)
            &&& forall|i: int| #[trigger] last_owned3(a.0, b.0, c.0, 2, kvs, i) ==> r.2 is Some && c.1.spec_parse(kvs[i].value) == Ok::<V3::Out, ErrorView>(r.2->Some_0)
            &&& (r.0 is None <==> unowned3(a.0, b.0, c.0, 0, kvs))
            &&& (r.1 is None <==> unowned3(a.0, b.0, c.0, 1, kvs))
            &&& (r.2 is None <==> unowned3(a.0, b.0, c.0, 2, kvs))
        }),
{
    lemma_fold3_last(a, b, c, (None, None, None), kvs);
    lemma_some_owned_has_last3(a.0, b.0, c.0, 0, kvs);
    lemma_some_owned_has_last3(a.0, b.0, c.0, 1, kvs);
    lemma_some_owned_has_last3(a.0, b.0, c.0, 2, kvs);
}

/// When key `j` takes some pair, one of them is the last it takes.
proof fn lemma_some_owned_has_last3<K1: PathMatch, K2: PathMatch, K3: PathMatch>(k1: K1, k2: K2, k3: K3, j: int, kvs: Seq<NameValue>)
    ensures
        !unowned3(k1, k2, k3, j, kvs) ==> exists|i: int| last_owned3(k1, k2, k3, j, kvs, i),
    decreases kvs.len(),
{
    if !unowned3(k1, k2, k3, j, kvs) && kvs.len() > 0 {
        let n = kvs.len() - 1;
        if owner3(k1, k2, k3, kvs[n].path) == j {
            assert(last_owned3(k1, k2, k3, j, kvs, n));
        } else {
            let init = kvs.drop_last();
            assert forall|l: int| 0 <= l < init.len() implies #[trigger] init[l] == kvs[l] by {}
            if unowned3(k1, k2, k3, j, init) {
                let w = choose|l: int| 0 <= l < kvs.len() && owner3(k1, k2, k3, #[trigger] kvs[l].path) == j;
                if w < n {
                    assert(init[w] == kvs[w]);
                }
            }
            lemma_some_owned_has_last3(k1, k2, k3, j, init);
            let i = choose|i: int| last_owned3(k1, k2, k3, j, init, i);
            assert(init[i] == kvs[i]);
            assert forall|l: int| i < l < kvs.len() implies owner3(k1, k2, k3, #[trigger] kvs[l].path) != j by {
                if l < n {
                    assert(init[l] == kvs[l]);
                }
            }
            assert(last_owned3(k1, k2, k3, j, kvs, i));
        }
    }
}

impl<M1, M2, M3, K1, V1, K2, V2, K3, V3> AttrsMatch<((M1, M2, M3), OptionalParsing)> for (
    OptionalAttr<(K1, V1)>,
    OptionalAttr<(K2, V2)>,
    OptionalAttr<(K3, V3)>,
) where K1: PathMatch + ReprValueRef, V1: ValueParser<M1>, K2: PathMatch + ReprValueRef, V2: ValueParser<M2>, K3: PathMatch + ReprValueRef, V3: ValueParser<M3> {
    type Out = (Option<V1::Out>, Option<V2::Out>, Option<V3::Out>);

    open spec fn spec_attrs_match(self, span: Option<Span>, kvs: Seq<NameValue>, ns: Seq<char>) -> Result<
        (Option<V1::Out>, Option<V2::Out>, Option<V3::Out>),
        ErrorView,
    > {
        match span {
            None => Ok((None, None, None)),
            Some(_) => fold_opt3(self.0.0, self.1.0, self.2.0, (None, None, None), kvs),
        }
    }

    fn attrs_match(self, span: Option<Span>, key_values: Vec<NameValue>, namespace: &str) -> (r:
        Result<(Option<V1::Out>, Option<V2::Out>, Option<V3::Out>), CompileError>) {
        let ghost whole = self;
        let ghost all = key_values@;
        let (a, b, c) = self;
        let (k1, p1) = a.0;
        let (k2, p2) = b.0;
        let (k3, p3) = c.0;
        let mut v1: Option<V1::Out> = None;
        let mut v2: Option<V2::Out> = None;
        let mut v3: Option<V3::Out> = None;
        if span.is_none() {
            return Ok((v1, v2, v3));
        }
        let mut kvs = key_values;
        while kvs.len() > 0
            invariant
                span is Some,
                whole == self,
                all == key_values@,
                whole.0.0 == (k1, p1),
                whole.1.0 == (k2, p2),
                whole.2.0 == (k3, p3),
                whole.spec_attrs_match(span, all, namespace@) == fold_opt3(
                    (k1, p1), (k2, p2), (k3, p3),
                    (v1, v2, v3),
                    kvs@,
                ),
            decreases kvs.len(),
        {
            let ghost before = kvs@;
            let kv = kvs.remove(0);
            assert(kvs@ =~= before.drop_first());
            if k1.path_match(&kv.path) {
                match p1.parse(kv.value) {
                    Ok(x) => {
                        v1 = Some(x);
                    },
                    Err(e) => {
                        return Err(e);
                    },
                }
            } else if k2.path_match(&kv.path) {
                match p2.parse(kv.value) {
                    Ok(x) => {
                        v2 = Some(x);
                    },
                    Err(e) => {
                        return Err(e);
                    },
                }
            } else if k3.path_match(&kv.path) {
                match p3.parse(kv.value) {
                    Ok(x) => {
                        v3 = Some(x);
                    },
                    Err(e) => {
                        return Err(e);
                    },
                }
            }
        }
        Ok((v1, v2, v3))
    }
}

/// The values that the 4 keys take over `kvs`, starting from `acc`.
pub open spec fn fold_opt4<M1, M2, M3, M4, K1: PathMatch, V1: ValueParser<M1>, K2: PathMatch, V2: ValueParser<M2>, K3: PathMatch, V3: ValueParser<M3>, K4: PathMatch, V4: ValueParser<M4>>(
    a: (K1, V1),
    b: (K2, V2),
    c: (K3, V3),
    d: (K4, V4),
    acc: (Option<V1::Out>, Option<V2::Out>, Option<V3::Out>, Option<V4::Out>),
    kvs: Seq<NameValue>,
) -> Result<(Option<V1::Out>, Option<V2::Out>, Option<V3::Out>, Option<V4::Out>), ErrorView>
    decreases kvs.len(),
{
    if kvs.len() == 0 {
        Ok(acc)
    } else {
        let kv = kvs[0];
        if a.0.spec_path_match(kv.path) {
            match a.1.spec_parse(kv.value) {
                Ok(x) => fold_opt4(a, b, c, d, (Some(x), acc.1, acc.2, acc.3), kvs.drop_first()),
                Err(e) => Err(e),
            }
        } else if b.0.spec_path_match(kv.path) {
            match b.1.spec_parse(kv.value) {
                Ok(x) => fold_opt4(a, b, c, d, (acc.0, Some(x), acc.2, acc.3), kvs.drop_first()),
                Err(e) => Err(e),
            }
        } else if c.0.spec_path_match(kv.path) {
            match c.1.spec_parse(kv.value) {
                Ok(x) => fold_opt4(a, b, c, d, (acc.0, acc.1, Some(x), acc.3), kvs.drop_first()),
                Err(e) => Err(e),
            }
        } else if d.0.spec_path_match(kv.path) {
            match d.1.spec_parse(kv.value) {
                Ok(x) => fold_opt4(a, b, c, d, (acc.0, acc.1, acc.2, Some(x)), kvs.drop_first()),
                Err(e) => Err(e),
            }
        } else {
            fold_opt4(a, b, c, d, acc, kvs.drop_first())
        }
    }
}

/// Which of four keys takes a pair with path `path`: the first key that
/// recognises it (counted from 0), or -1 when none does.
pub open spec fn owner4<K1: PathMatch, K2: PathMatch, K3: PathMatch, K4: PathMatch>(k1: K1, k2: K2, k3: K3, k4: K4, path: AttrPath) -> int {
    if k1.spec_path_match(path) {
        0
    } else if k2.spec_path_match(path) {
        1
    } else if k3.spec_path_match(path) {
        2
    } else if k4.spec_path_match(path) {
        3
    } else {
        -1
    }
}

/// Pair `i` is the last of `kvs` that key `j` of four takes.
pub open spec fn last_owned4<K1: PathMatch, K2: PathMatch, K3: PathMatch, K4: PathMatch>(k1: K1, k2: K2, k3: K3, k4: K4, j: int, kvs: Seq<NameValue>, i: int) -> bool {
    &&& 0 <= i < kvs.len()
    &&& owner4(k1, k2, k3, k4, kvs[i].path) == j
    &&& forall|l: int| i < l < kvs.len() ==> owner4(k1, k2, k3, k4, #[trigger] kvs[l].path) != j
}

/// No pair of `kvs` is taken by key `j` of four.
pub open spec fn unowned4<K1: PathMatch, K2: PathMatch, K3: PathMatch, K4: PathMatch>(k1: K1, k2: K2, k3: K3, k4: K4, j: int, kvs: Seq<NameValue>) -> bool {
    forall|l: int| 0 <= l < kvs.len() ==> owner4(k1, k2, k3, k4, #[trigger] kvs[l].path) != j
}

proof fn lemma_fold4_last<M1, M2, M3, M4, K1: PathMatch, V1: ValueParser<M1>, K2: PathMatch, V2: ValueParser<M2>, K3: PathMatch, V3: ValueParser<M3>, K4: PathMatch, V4: ValueParser<M4>>(a: (K1, V1), b: (K2, V2), c: (K3, V3), d: (K4, V4), acc: (Option<V1::Out>, Option<V2::Out>, Option<V3::Out>, Option<V4::Out>), kvs: Seq<NameValue>)
    requires
        fold_opt4(a, b, c, d, acc, kvs) is Ok,
    ensures
        ({
            let r = fold_opt4(a, b, c, d, acc, kvs)->Ok_0;
            &&& forall|i: int| #[trigger] last_owned4(a.0, b.0, c.0, d.0, 0, kvs, i) ==> r.0 is Some && a.1.spec_parse(kvs[i].value) == Ok::<V1::Out, ErrorView>(r.0->Some_0)
            &&& forall|i: int| #[trigger] last_owned4(a.0, b.0, c.0, d.0, 1, kvs, i) ==> r.1 is Some && b.1.spec_parse(kvs[i].value) == Ok::<V2::Out, ErrorView>(r.1->Some_0)
            &&& forall|i: int| #[trigger] last_owned4(a.0, b.0, c.0, d.0, 2, kvs, i) ==> r.2 is Some && c.1.spec_parse(kvs[i].value) == Ok::<V3::Out, ErrorView>(r.2->Some_0)
            &&& forall|i: int| #[trigger] last_owned4(a.0, b.0, c.0, d.0, 3, kvs, i) ==> r.3 is Some && d.1.spec_parse(kvs[i].value) == Ok::<V4::Out, ErrorView>(r.3->Some_0)
            &&& unowned4(a.0, b.0, c.0, d.0, 0, kvs) ==> r.0 == acc.0
            &&& unowned4(a.0, b.0, c.0, d.0, 1, kvs) ==> r.1 == acc.1
            &&& unowned4(a.0, b.0, c.0, d.0, 2, kvs) ==> r.2 == acc.2
            &&& unowned4(a.0, b.0, c.0, d.0, 3, kvs) ==> r.3 == acc.3
        }),
    decreases kvs.len(),
{
    if kvs.len() > 0 {
        let kv = kvs[0];
        let tail = kvs.drop_first();
        let o = owner4(a.0, b.0, c.0, d.0, kv.path);
        let acc2 = if o == 0 {
            (Some(a.1.spec_parse(kv.value)->Ok_0), acc.1, acc.2, acc.3)
        } else if o == 1 {
            (acc.0, Some(b.1.spec_parse(kv.value)->Ok_0), acc.2, acc.3)
        } else if o == 2 {
            (acc.0, acc.1, Some(c.1.spec_parse(kv.value)->Ok_0), acc.3)
        } else if o == 3 {
            (acc.0, acc.1, acc.2, Some(d.1.spec_parse(kv.value)->Ok_0))
        } else {
            acc
        };
        assert(fold_opt4(a, b, c, d, acc, kvs) == fold_opt4(a, b, c, d, acc2, tail));
        lemma_fold4_last(a, b, c, d, acc2, tail);
        assert forall|l: int| 0 <= l < tail.len() implies #[trigger] tail[l] == kvs[l + 1] by {}
        assert forall|j: int, i: int| #[trigger] last_owned4(a.0, b.0, c.0, d.0, j, kvs, i) && i > 0
            implies last_owned4(a.0, b.0, c.0, d.0, j, tail, i - 1) by {
            assert(tail[i - 1] == kvs[i]);
            assert forall|l: int| i - 1 < l < tail.len() implies owner4(a.0, b.0, c.0, d.0, #[trigger] tail[l].path) != j by {
                assert(tail[l] == kvs[l + 1]);
            }
        }
        assert forall|j: int| #[trigger] unowned4(a.0, b.0, c.0, d.0, j, kvs) implies unowned4(a.0, b.0, c.0, d.0, j, tail) by {
            assert forall|l: int| 0 <= l < tail.len() implies owner4(a.0, b.0, c.0, d.0, #[trigger] tail[l].path) != j by {
                assert(tail[l] == kvs[l + 1]);
            }
        }
        assert forall|j: int| #[trigger] last_owned4(a.0, b.0, c.0, d.0, j, kvs, 0) implies unowned4(a.0, b.0, c.0, d.0, j, tail) by {
            assert forall|l: int| 0 <= l < tail.len() implies owner4(a.0, b.0, c.0, d.0, #[trigger] tail[l].path) != j by {
                assert(tail[l] == kvs[l + 1]);
            }
        }
    }
}

/// With four optional keys, each key gets the value of the last pair it
/// takes (a pair goes to the first key that recognises its path), and stays
/// unset only when it takes no pair.
pub proof fn law_optional4_last_pair_wins<M1, M2, M3, M4, K1, V1, K2, V2, K3, V3, K4, V4>(a: (K1, V1), b: (K2, V2), c: (K3, V3), d: (K4, V4), sp: Span, kvs: Seq<NameValue>, ns: Seq<char>) where K1: PathMatch + ReprValueRef, V1: ValueParser<M1>, K2: PathMatch + ReprValueRef, V2: ValueParser<M2>, K3: PathMatch + ReprValueRef, V3: ValueParser<M3>, K4: PathMatch + ReprValueRef, V4: ValueParser<M4>
    requires
        (OptionalAttr(a), OptionalAttr(b), OptionalAttr(c), OptionalAttr(d)).spec_attrs_match(Some(sp), kvs, ns) is Ok,
    ensures
        ({
            let r = (OptionalAttr(a), OptionalAttr(b), OptionalAttr(c), OptionalAttr(d)).spec_attrs_match(Some(sp), kvs, ns)->Ok_0;
            &&& forall|i: int| #[trigger] last_owned4(a.0, b.0, c.0, d.0, 0, kvs, i) ==> r.0 is Some && a.1.spec_parse(kvs[i].value) == Ok::<V1::Out, ErrorView>(r.0->Some_0)
            &&& forall|i: int| #[trigger] last_owned4(a.0, b.0, c.0, d.0, 1, kvs, i) ==> r.1 is Some && b.1.spec_parse(kvs[i].value) == Ok::<V2::Out, ErrorView>(r.1->Some_0)
            &&& forall|i: int| #[trigger] last_owned4(a.0, b.0, c.0, d.0, 2, kvs, i) ==> r.2 is Some && c.1.spec_parse(kvs[i].value) == Ok::<V3::Out, ErrorView>(r.2->Some_0)
            &&& forall|i: int| #[trigger] last_owned4(a.0, b.0, c.0, d.0, 3, kvs, i) ==> r.3 is Some && d.1.spec_parse(kvs[i].value) == Ok::<V4::Out, ErrorView>(r.3->Some_0)
            &&& (r.0 is None <==> unowned4(a.0, b.0, c.0, d.0, 0, kvs))
            &&& (r.1 is None <==> unowned4(a.0, b.0, c.0, d.0, 1, kvs))
            &&& (r.2 is None <==> unowned4(a.0, b.0, c.0, d.0, 2, kvs))
            &&& (r.3 is None <==> unowned4(a.0, b.0, c.0, d.0, 3, kvs))
        }),
{
    lemma_fold4_last(a, b, c, d, (None, None, None, None), kvs);
    lemma_some_owned_has_last4(a.0, b.0, c.0, d.0, 0, kvs);
    lemma_some_owned_has_last4(a.0, b.0, c.0, d.0, 1, kvs);
    lemma_some_owned_has_last4(a.0, b.0, c.0, d.0, 2, kvs);
    lemma_some_owned_has_last4(a.0, b.0, c.0, d.0, 3, kvs);
}

/// When key `j` takes some pair, one of them is the last it takes.
proof fn lemma_some_owned_has_last4<K1: PathMatch, K2: PathMatch, K3: PathMatch, K4: PathMatch>(k1: K1, k2: K2, k3: K3, k4: K4, j: int, kvs: Seq<NameValue>)
    ensures
        !unowned4(k1, k2, k3, k4, j, kvs) ==> exists|i: int| last_owned4(k1, k2, k3, k4, j, kvs, i),
    decreases kvs.len(),
{
    if !unowned4(k1, k2, k3, k4, j, kvs) && kvs.len() > 0 {
        let n = kvs.len() - 1;
        if owner4(k1, k2, k3, k4, kvs[n].path) == j {
            assert(last_owned4(k1, k2, k3, k4, j, kvs, n));
        } else {
            let init = kvs.drop_last();
            assert forall|l: int| 0 <= l < init.len() implies #[trigger] init[l] == kvs[l] by {}
            if unowned4(k1, k2, k3, k4, j, init) {
                let w = choose|l: int| 0 <= l < kvs.len() && owner4(k1, k2, k3, k4, #[trigger] kvs[l].path) == j;
                if w < n {
                    assert(init[w] == kvs[w]);
                }
            }
            lemma_some_owned_has_last4(k1, k2, k3, k4, j, init);
            let i = choose|i: int| last_owned4(k1, k2, k3, k4, j, init, i);
            assert(init[i] == kvs[i]);
            assert forall|l: int| i < l < kvs.len() implies owner4(k1, k2, k3, k4, #[trigger] kvs[l].path) != j by {
                if l < n {
                    assert(init[l] == kvs[l]);
                }
            }
            assert(last_owned4(k1, k2, k3, k4, j, kvs, i));
        }
    }
}

impl<M1, M2, M3, M4, K1, V1, K2, V2, K3, V3, K4, V4> AttrsMatch<((M1, M2, M3, M4), OptionalParsing)> for (
    OptionalAttr<(K1, V1)>,
    OptionalAttr<(K2, V2)>,
    OptionalAttr<(K3, V3)>,
    OptionalAttr<(K4, V4)>,
) where K1: PathMatch + ReprValueRef, V1: ValueParser<M1>, K2: PathMatch + ReprValueRef, V2: ValueParser<M2>, K3: PathMatch + ReprValueRef, V3: ValueParser<M3>, K4: PathMatch + ReprValueRef, V4: ValueParser<M4> {
    type Out = (Option<V1::Out>, Option<V2::Out>, Option<V3::Out>, Option<V4::Out>);

    open spec fn spec_attrs_match(self, span: Option<Span>, kvs: Seq<NameValue>, ns: Seq<char>) -> Result<
        (Option<V1::Out>, Option<V2::Out>, Option<V3::Out>, Option<V4::Out>),
        ErrorView,
    > {
        match span {
            None => Ok((None, None, None, None)),
            Some(_) => fold_opt4(self.0.0, self.1.0, self.2.0, self.3.0, (None, None, None, None), kvs),
        }
    }

    fn attrs_match(self, span: Option<Span>, key_values: Vec<NameValue>, namespace: &str) -> (r:
        Result<(Option<V1::Out>, Option<V2::Out>, Option<V3::Out>, Option<V4::Out>), CompileError>) {
        let ghost whole = self;
        let ghost all = key_values@;
        let (a, b, c, d) = self;
        let (k1, p1) = a.0;
        let (k2, p2) = b.0;
        let (k3, p3) = c.0;
        let (k4, p4) = d.0;
        let mut v1: Option<V1::Out> = None;
        let mut v2: Option<V2::Out> = None;
        let mut v3: Option<V3::Out> = None;
        let mut v4: Option<V4::Out> = None;
        if span.is_none() {
            return Ok((v1, v2, v3, v4));
        }
        let mut kvs = key_values;
        while kvs.len() > 0
            invariant
                span is Some,
                whole == self,
                all == key_values@,
                whole.0.0 == (k1, p1),
                whole.1.0 == (k2, p2),
                whole.2.0 == (k3, p3),
                whole.3.0 == (k4, p4),
                whole.spec_attrs_match(span, all, namespace@) == fold_opt4(
                    (k1, p1), (k2, p2), (k3, p3), (k4, p4),
                    (v1, v2, v3, v4),
                    kvs@,
                ),
            decreases kvs.len(),
        {
            let ghost before = kvs@;
            let kv = kvs.remove(0);
            assert(kvs@ =~= before.drop_first());
            if k1.path_match(&kv.path) {
                match p1.parse(kv.value) {
                    Ok(x) => {
                        v1 = Some(x);
                    },
                    Err(e) => {
                        return Err(e);
                    },
                }
            } else if k2.path_match(&kv.path) {
                match p2.parse(kv.value) {
                    Ok(x) => {
                        v2 = Some(x);
                    },
                    Err(e) => {
                        return Err(e);
                    },
                }
            } else if k3.path_match(&kv.path) {
                match p3.parse(kv.value) {
                    Ok(x) => {
                        v3 = Some(x);
                    },
                    Err(e) => {
                        return Err(e);
                    },
                }
            } else if k4.path_match(&kv.path) {
                match p4.parse(kv.value) {
                    Ok(x) => {
                        v4 = Some(x);
                    },
                    Err(e) => {
                        return Err(e);
                    },
                }
            }
        }
        Ok((v1, v2, v3, v4))
    }
}

/// The span that covers `attrs`: none when there are none, from the start of
/// the first to the end of the last otherwise.
pub open spec fn spec_attrs_span(attrs: Seq<Attribute>) -> Option<Span> {
    if attrs.len() == 0 {
        None
    } else if attrs.len() == 1 {
        Some(attrs[0].span)
    } else {
        Some(Span { lo: attrs[0].span.lo, hi: attrs.last().span.hi })
    }
}

/// The pairs of all attributes of scope `ns` in `attrs`, in order, after
/// `acc`; the first malformed attribute of that scope stops the collection.
pub open spec fn collect_pairs(acc: Seq<NameValue>, attrs: Seq<Attribute>, ns: Seq<char>) -> Result<
    Seq<NameValue>,
    ErrorView,
>
    decreases attrs.len(),
{
    if attrs.len() == 0 {
        Ok(acc)
    } else {
        match spec_key_value(attrs[0], ns) {
            Err(e) => Err(e),
            Ok(None) => collect_pairs(acc, attrs.drop_first(), ns),
            Ok(Some(kvs)) => collect_pairs(acc + kvs, attrs.drop_first(), ns),
        }
    }
}

/// Attributes of other scopes are skipped: adding a `#[other(...)]` attribute
/// anywhere among `attrs` does not change the pairs collected for scope `ns`.
pub proof fn law_other_scopes_ignored(
    acc: Seq<NameValue>,
    attrs: Seq<Attribute>,
    i: int,
    other: Attribute,
    ns: Seq<char>,
)
    requires
        0 <= i <= attrs.len(),
        spec_scope(other) matches Ok(scope) && scope.name@ != ns,
    ensures
        collect_pairs(acc, attrs.insert(i, other), ns) == collect_pairs(acc, attrs, ns),
    decreases attrs.len(),
{
    let with = attrs.insert(i, other);
    if i == 0 {
        assert(with[0] == other);
        assert(with.drop_first() =~= attrs);
    } else {
        assert(with[0] == attrs[0]);
        assert(with.drop_first() =~= attrs.drop_first().insert(i - 1, other));
        law_other_scopes_ignored(acc, attrs.drop_first(), i - 1, other, ns);
        match spec_key_value(attrs[0], ns) {
            Ok(Some(kvs)) => {
                law_other_scopes_ignored(acc + kvs, attrs.drop_first(), i - 1, other, ns);
            },
            _ => {},
        }
    }
}

/// What parsing the attributes `attrs` of scope `ns` with `parser` gives.
pub open spec fn spec_parse_attrs<Marker, P: AttrsMatch<Marker>>(
    ns: Seq<char>,
    attrs: Seq<Attribute>,
    parser: P,
) -> Result<P::Out, ErrorView> {
    match collect_pairs(Seq::empty(), attrs, ns) {
        Err(e) => Err(e),
        Ok(kvs) => parser.spec_attrs_match(spec_attrs_span(attrs), kvs, ns),
    }
}

/// Collects the `name = value` pairs of the attributes of scope `namespace`
/// and matches them against `parser`.
pub fn parse_attrs<Marker, P: AttrsMatch<Marker>>(namespace: &str, attrs: Vec<Attribute>, parser: P) -> (r:
    Result<P::Out, CompileError>)
    ensures
        result_view(r) == spec_parse_attrs(namespace@, attrs@, parser),
{
    let n = attrs.len();
    let span = if n == 0 {
        None
    } else if n == 1 {
        Some(attrs[0].span)
    } else {
        Some(attrs[0].span.join(attrs[n - 1].span))
    };
    let ghost all = attrs@;
    let mut rest = attrs;
    let mut entries: Vec<NameValue> = Vec::new();
    while rest.len() > 0
        invariant
            all == attrs@,
            span == spec_attrs_span(all),
            collect_pairs(Seq::empty(), all, namespace@) == collect_pairs(entries@, rest@, namespace@),
        decreases rest.len(),
    {
        let ghost before = rest@;
        let attr = rest.remove(0);
        assert(rest@ =~= before.drop_first());
        match key_value(attr, namespace) {
            Err(e) => {
                return Err(e);
            },
            Ok(None) => {},
            Ok(Some(mut kvs)) => {
                entries.append(&mut kvs);
            },
        }
    }
    parser.attrs_match(span, entries, namespace)
}

/// Parses the attributes of one scope.
pub struct AttributesParser {
    pub scope: &'static str,
}

impl AttributesParser {
    pub fn new(scope: &'static str) -> (r: Self)
        ensures
            r.scope == scope,
    {
        AttributesParser { scope }
    }

    pub fn parse<Marker, P: AttrsMatch<Marker>>(&self, attrs: Vec<Attribute>, parser: P) -> (r: Result<
        P::Out,
        CompileError,
    >)
        ensures
            result_view(r) == spec_parse_attrs(self.scope@, attrs@, parser),
    {
        parse_attrs(self.scope, attrs, parser)
    }
}

} // verus!
