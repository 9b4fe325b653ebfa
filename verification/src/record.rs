use vstd::prelude::*;

verus! {

/// A record stored in a table of the database; its value is its identifier.
pub trait Record: Copy {
    /// The table that holds records of this type.
    const TABLE: &'static str;
}

/// A record whose identifier can be made up on the spot.
pub trait RecordGenerate: Record {
    fn generate() -> Self;
}

/// The error of a delete that did not happen.
#[derive(Clone, Copy, Debug, PartialEq, Eq, Structural)]
pub enum DbDeleteError {
    Failed,
}

/// A record's identifier together with its data.
pub struct KeyValue<R, B> {
    pub id: R,
    pub data: B,
}

/// How the identifier of a new record is chosen.
pub trait IdStrategy<I, D> {
    type Wrap;

    /// `wrapped` is `body` prepared for storage under a new identifier.
    spec fn spec_wraps(body: D, wrapped: Self::Wrap) -> bool;

    fn wrap(body: D) -> (r: Self::Wrap)
        ensures
            Self::spec_wraps(body, r),
    ;
}

/// New records get a generated identifier.
pub struct GenerateId;

impl GenerateId {
    /// `body` under a freshly generated identifier.
    pub fn generated<R: RecordGenerate, D>(body: D) -> (r: KeyValue<R, D>)
        ensures
            r.data == body,
    {
        KeyValue { id: R::generate(), data: body }
    }
}

impl<R: RecordGenerate, D> IdStrategy<R, D> for GenerateId {
    type Wrap = KeyValue<R, D>;

    /// The body is kept as the data, under an identifier that
    /// `RecordGenerate::generate` made up.
    open spec fn spec_wraps(body: D, wrapped: KeyValue<R, D>) -> bool {
        wrapped.data == body
    }

    fn wrap(body: D) -> KeyValue<R, D> {
        GenerateId::generated(body)
    }
}

/// A reference to a record: its table and its identifier.
pub struct ThingRef<'r, R> {
    pub tb: &'r str,
    pub id: IdRef<'r, R>,
}

/// How an identifier is written in a reference.
pub enum IdRef<'r, R> {
    String(&'r R),
}

/// A record reference as the database hands it back.
pub struct ThingOwned<R> {
    pub id: IdOwned<R>,
}

/// An identifier as the database hands it back.
pub enum IdOwned<R> {
    String(R),
}

/// How a record's identifier is written and read back.
pub trait IdFlavor<R: Record> {
    fn create(id: &R) -> (r: IdRef<'_, R>)
        ensures
            r matches IdRef::String(x) && *x == *id,
    ;

    fn from_owned(id: IdOwned<R>) -> (r: R)
        ensures
            id matches IdOwned::String(x) && r == x,
    ;
}

/// Identifiers written as strings.
pub struct StringFlavor;

impl<R: Record> IdFlavor<R> for StringFlavor {
    fn create(id: &R) -> (r: IdRef<'_, R>) {
        IdRef::String(id)
    }

    fn from_owned(id: IdOwned<R>) -> (r: R) {
        match id {
            IdOwned::String(id) => id,
        }
    }
}

/// A record kept in SurrealDB.
pub trait SurrealRecord: Record + Sized {
    type Flavor: IdFlavor<Self>;

    /// The reference to this record.
    fn thing_ref(&self) -> (r: ThingRef<'_, Self>)
        ensures
            r.tb@ == Self::TABLE@,
            r.id matches IdRef::String(x) && *x == *self,
    {
        ThingRef { tb: Self::TABLE, id: Self::Flavor::create(self) }
    }

    /// The record a reference handed back by the database names.
    fn from_owned(thing: ThingOwned<Self>) -> (r: Self)
        ensures
            thing.id matches IdOwned::String(x) && r == x,
    {
        Self::Flavor::from_owned(thing.id)
    }
}

} // verus!
