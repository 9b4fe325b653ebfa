use vstd::prelude::*;
use vstd::string::*;

use crate::attr::{AttrMeta, AttrPath, Attribute, CompileError, ErrorView, ExprKind, MetaList, NameValue};
use crate::bind_derive::{DeriveData, DeriveInput, Fields};
use crate::text::str_eq;

verus! {

/// Where the code a `Param` derive generates finds the library: inside its
/// core crate, through the core crate, or through the main crate.
#[derive(Clone, Copy, Debug, PartialEq, Eq, Structural)]
pub enum Usage {
    Core,
    Lib,
    Crate,
}

/// The paths of the lock type and of the world state type that the generated
/// code names, for each usage.
pub open spec fn spec_usage_paths(u: Usage) -> (Seq<char>, Seq<char>) {
    match u {
        Usage::Core => ("crate::world::SystemLock"@, "crate::prelude::WorldState"@),
        Usage::Lib => ("lump_core::world::SystemLock"@, "lump_core::prelude::WorldState"@),
        Usage::Crate => ("lump::world::SystemLock"@, "lump::prelude::WorldState"@),
    }
}

/// The paths of the lock type and of the world state type for `usage`.
pub fn usage_paths(usage: Usage) -> (r: (&'static str, &'static str))
    ensures
        (r.0@, r.1@) == spec_usage_paths(usage),
{
    match usage {
        Usage::Core => {
            proof {
                reveal_strlit("crate::world::SystemLock");
                reveal_strlit("crate::prelude::WorldState");
            }
            ("crate::world::SystemLock", "crate::prelude::WorldState")
        },
        Usage::Lib => {
            proof {
                reveal_strlit("lump_core::world::SystemLock");
                reveal_strlit("lump_core::prelude::WorldState");
            }
            ("lump_core::world::SystemLock", "lump_core::prelude::WorldState")
        },
        Usage::Crate => {
            proof {
                reveal_strlit("lump::world::SystemLock");
                reveal_strlit("lump::prelude::WorldState");
            }
            ("lump::world::SystemLock", "lump::prelude::WorldState")
        },
    }
}

/// The fields of the struct a `Param` derive is applied to.
#[derive(Clone, Copy, Debug, PartialEq, Eq, Structural)]
pub enum ParamFields {
    Unit,
    Named(usize),
    Unnamed(usize),
}

/// What a `Param` derive generates: which paths it uses, the lifetime that
/// its borrowed form is written with, and the fields it goes through.
#[derive(Debug)]
pub struct ParamPlan {
    pub usage: Usage,
    pub alternate_lifetime: String,
    pub fields: ParamFields,
}

/// The usage that `#[param(usage = ...)]` in front of `attrs` selects.
pub open spec fn spec_usage(attrs: Seq<Attribute>) -> Result<Usage, ErrorView> {
    if attrs.len() == 0 {
        Ok(Usage::Crate)
    } else {
        let a = attrs[0];
        match a.meta {
            AttrMeta::List(l) => match l.args {
                None => Err((Some(a.span), "Invalid attribute syntax"@)),
                Some(kvs) => if kvs@.len() == 0 {
                    Ok(Usage::Crate)
                } else {
                    let kv = kvs@[0];
                    match kv.value.kind {
                        ExprKind::Path(p) => if kv.path.spec_is_ident("usage"@) {
                            if p.spec_is_ident("core"@) {
                                Ok(Usage::Core)
                            } else if p.spec_is_ident("lib"@) {
                                Ok(Usage::Lib)
                            } else if p.spec_is_ident("crate"@) {
                                Ok(Usage::Crate)
                            } else {
                                Err((Some(a.span), "useages supported are `core`, `lib` and `crate`"@))
                            }
                        } else {
                            Err((Some(a.span), "Expected #[param(path = ...)]"@))
                        },
                        _ => Err((Some(a.span), "Expected #[param(path = ...)]"@)),
                    }
                },
            },
            _ => Err((Some(a.span), "Expected #[param(...)]"@)),
        }
    }
}

fn usage(attrs: &Vec<Attribute>) -> (r: Result<Usage, CompileError>)
    ensures
        match spec_usage(attrs@) {
            Ok(u) => r == Ok::<Usage, CompileError>(u),
            Err(e) => r matches Err(x) && x@ == e,
        },
{
    if attrs.len() == 0 {
        return Ok(Usage::Crate);
    }
    let a = &attrs[0];
    let kvs = match &a.meta {
        AttrMeta::List(l) => match &l.args {
            None => {
                return Err(
                    CompileError {
                        span: Some(a.span),
                        message: String::from_str("Invalid attribute syntax"),
                    },
                );
            },
            Some(kvs) => kvs,
        },
        _ => {
            return Err(
                CompileError { span: Some(a.span), message: String::from_str("Expected #[param(...)]") },
            );
        },
    };
    if kvs.len() == 0 {
        return Ok(Usage::Crate);
    }
    let kv = &kvs[0];
    match &kv.value.kind {
        ExprKind::Path(p) => {
            if kv.path.is_ident("usage") {
                if p.is_ident("core") {
                    return Ok(Usage::Core);
                } else if p.is_ident("lib") {
                    return Ok(Usage::Lib);
                } else if p.is_ident("crate") {
                    return Ok(Usage::Crate);
                } else {
                    return Err(
                        CompileError {
                            span: Some(a.span),
                            message: String::from_str(
                                "useages supported are `core`, `lib` and `crate`",
                            ),
                        },
                    );
                }
            }
        },
        _ => {},
    }
    Err(CompileError { span: Some(a.span), message: String::from_str("Expected #[param(path = ...)]") })
}

/// The lifetime of the borrowed form: `'w` when the struct's first lifetime is
/// `'p`, `'p` otherwise.
pub open spec fn spec_alternate_lifetime(lifetimes: Seq<crate::attr::Ident>) -> Seq<char> {
    if lifetimes.len() > 0 && lifetimes[0].name@ == "p"@ {
        "'w"@
    } else {
        "'p"@
    }
}

/// The fields a `Param` derive goes through.
pub open spec fn spec_param_fields(fields: Fields) -> ParamFields {
    match fields {
        Fields::Unit => ParamFields::Unit,
        Fields::Named(fs) => ParamFields::Named(fs@.len() as usize),
        Fields::Unnamed(fs) => ParamFields::Unnamed(fs@.len() as usize),
    }
}

/// Plans the `Param` derive: a struct whose fields are all parameters is a
/// parameter that registers, fetches and borrows each field in turn.
pub fn do_param_derive(ast: DeriveInput) -> (r: Result<ParamPlan, CompileError>)
    ensures
        match ast.data {
            DeriveData::Struct(fields) => match spec_usage(ast.attrs@) {
                Err(e) => r matches Err(x) && x@ == e,
                Ok(u) => r matches Ok(p) && p.usage == u && p.alternate_lifetime@
                    == spec_alternate_lifetime(ast.lifetimes@) && p.fields == spec_param_fields(fields),
            },
            _ => r matches Err(x) && x@ == (Some(ast.span), "Param can only be derived on structs"@),
        },
{
    let fields = match &ast.data {
        DeriveData::Struct(fields) => fields,
        _ => {
            return Err(
                CompileError {
                    span: Some(ast.span),
                    message: String::from_str("Param can only be derived on structs"),
                },
            );
        },
    };
    let usage = match usage(&ast.attrs) {
        Ok(u) => u,
        Err(e) => {
            return Err(e);
        },
    };
    let first_is_p = ast.lifetimes.len() > 0 && str_eq(ast.lifetimes[0].name.as_str(), "p");
    let alternate_lifetime = if first_is_p {
        String::from_str("'w")
    } else {
        String::from_str("'p")
    };
    let fields = match fields {
        Fields::Unit => ParamFields::Unit,
        Fields::Named(fs) => ParamFields::Named(fs.len()),
        Fields::Unnamed(fs) => ParamFields::Unnamed(fs.len()),
    };
    Ok(ParamPlan { usage, alternate_lifetime, fields })
}

/// The usage a `Param` derive selects is the one that its `usage = ...`
/// argument names: `core`, `lib` and `crate` each select their own usage, and
/// any other name is refused.
pub proof fn law_usage_follows_its_identifier(
    attrs: Seq<Attribute>,
    l: MetaList,
    kvs: Vec<NameValue>,
    p: AttrPath,
)
    requires
        attrs.len() > 0,
        attrs[0].meta == AttrMeta::List(l),
        l.args == Some(kvs),
        kvs@.len() > 0,
        kvs@[0].path.spec_is_ident("usage"@),
        kvs@[0].value.kind == ExprKind::Path(p),
    ensures
        p.spec_is_ident("core"@) ==> spec_usage(attrs) == Ok::<Usage, ErrorView>(Usage::Core),
        p.spec_is_ident("lib"@) ==> spec_usage(attrs) == Ok::<Usage, ErrorView>(Usage::Lib),
        p.spec_is_ident("crate"@) ==> spec_usage(attrs) == Ok::<Usage, ErrorView>(Usage::Crate),
        !p.spec_is_ident("core"@) && !p.spec_is_ident("lib"@) && !p.spec_is_ident("crate"@)
            ==> spec_usage(attrs) is Err,
{
    reveal_strlit("core");
    reveal_strlit("lib");
    reveal_strlit("crate");
    assert("lib"@.len() != "core"@.len());
    assert("crate"@.len() != "core"@.len());
    assert("crate"@.len() != "lib"@.len());
}

/// The three usages name three different crates: the generated code reaches
/// the lock and the world state through `crate::` inside the core crate,
/// `lump_core::` through the core crate, and `lump::` through the main crate.
pub proof fn law_usages_name_their_own_paths()
    ensures
        spec_usage_paths(Usage::Core).0 != spec_usage_paths(Usage::Lib).0,
        spec_usage_paths(Usage::Core).0 != spec_usage_paths(Usage::Crate).0,
        spec_usage_paths(Usage::Lib).0 != spec_usage_paths(Usage::Crate).0,
        spec_usage_paths(Usage::Core).0.take(7) == "crate::"@,
        spec_usage_paths(Usage::Lib).0.take(11) == "lump_core::"@,
        spec_usage_paths(Usage::Crate).0.take(6) == "lump::"@,
{
    reveal_strlit("crate::world::SystemLock");
    reveal_strlit("lump_core::world::SystemLock");
    reveal_strlit("lump::world::SystemLock");
    reveal_strlit("crate::");
    reveal_strlit("lump_core::");
    reveal_strlit("lump::");
    assert(spec_usage_paths(Usage::Core).0.take(7) =~= "crate::"@);
    assert(spec_usage_paths(Usage::Lib).0.take(11) =~= "lump_core::"@);
    assert(spec_usage_paths(Usage::Crate).0.take(6) =~= "lump::"@);
    assert(spec_usage_paths(Usage::Core).0[0] != spec_usage_paths(Usage::Lib).0[0]);
    assert(spec_usage_paths(Usage::Core).0[0] != spec_usage_paths(Usage::Crate).0[0]);
    assert(spec_usage_paths(Usage::Lib).0.len() != spec_usage_paths(Usage::Crate).0.len());
}

} // verus!
