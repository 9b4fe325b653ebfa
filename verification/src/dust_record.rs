use vstd::prelude::*;
use vstd::string::*;

use crate::attr::FromStrMessage;
use crate::record::{KeyValue, Record};
use crate::text::push_str;

verus! {

/// An identifier as SurrealDB stores it.
#[derive(Debug)]
pub enum SurrealId {
    String(String),
    Number(i64),
    Other,
}

/// Why a stored identifier could not be read: the text did not parse, or the
/// identifier is of another kind than expected.
#[derive(Debug)]
pub enum IdKindErr<E> {
    Inner(E),
    WrongType { expected: &'static str, actual: &'static str },
}

impl IdKindErr<String> {
    /// The text of the error.
    pub open spec fn spec_message(&self) -> Seq<char> {
        match self {
            IdKindErr::Inner(m) => m@,
            IdKindErr::WrongType { expected, actual } => "Expected "@ + expected@ + " but got "@
                + actual@,
        }
    }

    pub fn message(&self) -> (r: String)
        ensures
            r@ == self.spec_message(),
    {
        match self {
            IdKindErr::Inner(m) => m.clone(),
            IdKindErr::WrongType { expected, actual } => {
                let mut s = String::from_str("Expected ");
                push_str(&mut s, expected);
                push_str(&mut s, " but got ");
                push_str(&mut s, actual);
                s
            },
        }
    }
}

/// Unwraps an identifier into the record it stands for.
pub trait TakeInto<I> {
    fn take_into(self) -> I;
}

/// An identifier written as a string, read into `I`.
pub struct IdStringKind<I>(pub I);

impl<I> TakeInto<I> for IdStringKind<I> {
    fn take_into(self) -> (r: I)
        ensures
            r == self.0,
    {
        self.0
    }
}

/// What reading a stored identifier as a string identifier gives.
pub open spec fn spec_id_string<I: FromStrMessage>(value: SurrealId) -> Result<I, (bool, Seq<char>)> {
    match value {
        SurrealId::String(s) => match I::spec_from_str(s@) {
            Ok(v) => Ok(v),
            Err(m) => Err((true, m)),
        },
        SurrealId::Number(_) => Err((false, "Number"@)),
        SurrealId::Other => Err((false, "Unknown"@)),
    }
}

/// `r` is what reading `value` gives: the parsed identifier, the parse's
/// message, or which kind was found where a string was expected.
pub open spec fn id_read_as<I: FromStrMessage>(value: SurrealId, r: Result<I, IdKindErr<String>>) -> bool {
    match spec_id_string::<I>(value) {
        Ok(v) => r == Ok::<I, IdKindErr<String>>(v),
        Err((true, m)) => r matches Err(IdKindErr::Inner(x)) && x@ == m,
        Err((false, actual)) => r matches Err(IdKindErr::WrongType { expected: e, actual: a })
            && e@ == "String"@ && a@ == actual,
    }
}

impl<I: FromStrMessage> IdStringKind<I> {
    pub fn try_from(value: SurrealId) -> (r: Result<IdStringKind<I>, IdKindErr<String>>)
        ensures
            id_read_as::<I>(
                value,
                match r {
                    Ok(k) => Ok(k.0),
                    Err(e) => Err(e),
                },
            ),
    {
        let text = match value {
            SurrealId::String(s) => s,
            SurrealId::Number(_) => {
                return Err(IdKindErr::WrongType { expected: "String", actual: "Number" });
            },
            SurrealId::Other => {
                return Err(IdKindErr::WrongType { expected: "String", actual: "Unknown" });
            },
        };
        match I::from_str_message(text.as_str()) {
            Ok(v) => Ok(IdStringKind(v)),
            Err(m) => Err(IdKindErr::Inner(m)),
        }
    }
}

/// The way a record's identifier is stored.
pub trait IdKind<I> {
    type IdWrapper: TakeInto<I>;
}

/// Identifiers stored as strings.
pub struct IdString;

impl<I: FromStrMessage> IdKind<I> for IdString {
    type IdWrapper = IdStringKind<I>;
}

/// A record kept in SurrealDB, with the way its identifier is stored.
pub trait SurrealRecord: Record {
    type IdKind: IdKind<Self>;
}

/// A stored row: its identifier read as `I`, with its data.
pub fn key_value_from_row<I: FromStrMessage, D>(id: SurrealId, data: D) -> (r: Result<
    KeyValue<I, D>,
    IdKindErr<String>,
>)
    ensures
        id_read_as::<I>(
            id,
            match r {
                Ok(kv) => Ok(kv.id),
                Err(e) => Err(e),
            },
        ),
        r matches Ok(kv) ==> kv.data == data,
{
    match IdStringKind::<I>::try_from(id) {
        Ok(k) => Ok(KeyValue { id: k.take_into(), data }),
        Err(e) => Err(e),
    }
}

} // verus!
