use vstd::prelude::*;
use vstd::string::*;

verus! {

/// Assets read from the TOML file at a path.
#[derive(Clone, Debug)]
pub struct TomlFile(pub String);

impl TomlFile {
    /// The path, as the origin is shown in messages.
    pub fn text(&self) -> (s: String)
        ensures
            s@ == self.0@,
    {
        self.0.clone()
    }
}

/// Assets read from the process environment.
#[derive(Clone, Debug)]
pub struct Env;

impl Env {
    /// How the origin is shown in messages.
    pub fn text(&self) -> (s: String)
        ensures
            s@ == "ENV"@,
    {
        String::from_str("ENV")
    }
}

/// Marks that the `.env` file was loaded into the environment.
pub struct EnvLoaded;

/// Loads the `.env` file at startup.
pub struct EnvPlugin;

/// Reads the collection `A` from `origin` at startup and validates it.
pub struct AssetsPlugin<O, A> {
    pub origin: O,
    pub marker: core::marker::PhantomData<A>,
}

/// Reads the collection `A` from `origin` at startup as it is.
pub struct AssetsReadPlugin<O, A> {
    pub origin: O,
    pub marker: core::marker::PhantomData<A>,
}

/// Where a collection of assets comes from.
pub struct AssetsOrigin<O>(pub O);

impl<O> AssetsOrigin<O> {
    /// The plugin that reads and validates `A` from this origin.
    pub fn load<A>(self) -> (p: AssetsPlugin<O, A>)
        ensures
            p.origin == self.0,
    {
        AssetsPlugin { origin: self.0, marker: core::marker::PhantomData }
    }

    /// The plugin that reads `A` from this origin.
    pub fn read<A>(self) -> (p: AssetsReadPlugin<O, A>)
        ensures
            p.origin == self.0,
    {
        AssetsReadPlugin { origin: self.0, marker: core::marker::PhantomData }
    }
}

} // verus!
