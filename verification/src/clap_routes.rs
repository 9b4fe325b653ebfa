use vstd::prelude::*;

use crate::gateway::SystemEntryRef;
use crate::meta::SystemId;

verus! {

/// The names of a route, as character sequences.
pub open spec fn names_view(v: Seq<String>) -> Seq<Seq<char>> {
    v.map_values(|s: String| s@)
}

/// The handler registered last under `key`.
pub open spec fn lookup<H>(entries: Seq<(Vec<String>, (SystemId, H))>, key: Seq<Seq<char>>) -> Option<
    (SystemId, H),
>
    decreases entries.len(),
{
    if entries.len() == 0 {
        None
    } else if names_view(entries.last().0@) == key {
        Some(entries.last().1)
    } else {
        lookup(entries.drop_last(), key)
    }
}

/// Whether two routes name the same subcommands.
pub fn names_eq(a: &Vec<String>, b: &Vec<String>) -> (r: bool)
    ensures
        r == (names_view(a@) == names_view(b@)),
{
    if a.len() != b.len() {
        proof {
            assert(names_view(a@).len() != names_view(b@).len());
        }
        return false;
    }
    let mut i: usize = 0;
    while i < a.len()
        invariant
            a@.len() == b@.len(),
            i <= a@.len(),
            forall|j: int| 0 <= j < i ==> a@[j]@ == b@[j]@,
        decreases a.len() - i,
    {
        if a[i] != b[i] {
            proof {
                assert(names_view(a@)[i as int] != names_view(b@)[i as int]);
            }
            return false;
        }
        i = i + 1;
    }
    proof {
        assert(names_view(a@) =~= names_view(b@));
    }
    true
}

/// The handlers of command routes; a route is the chain of subcommand names
/// that leads to its handler.
pub struct Router<H> {
    routes: Vec<(Vec<String>, (SystemId, H))>,
}

impl<H> View for Router<H> {
    type V = Map<Seq<Seq<char>>, (SystemId, H)>;

    closed spec fn view(&self) -> Map<Seq<Seq<char>>, (SystemId, H)> {
        Map::new(
            |k: Seq<Seq<char>>| lookup(self.routes@, k) is Some,
            |k: Seq<Seq<char>>| lookup(self.routes@, k)->Some_0,
        )
    }
}

impl<H> Router<H> {
    pub fn new() -> (r: Router<H>)
        ensures
            r@ == Map::<Seq<Seq<char>>, (SystemId, H)>::empty(),
    {
        let r = Router { routes: Vec::new() };
        assert(r@ =~= Map::<Seq<Seq<char>>, (SystemId, H)>::empty());
        r
    }

    /// Registers the handler of `route`, replacing any earlier one.
    pub fn add(&mut self, route: Vec<String>, system_id: SystemId, handler: H)
        ensures
            final(self)@ == old(self)@.insert(names_view(route@), (system_id, handler)),
    {
        let ghost key = names_view(route@);
        self.routes.push((route, (system_id, handler)));
        proof {
            assert(self.routes@.drop_last() =~= old(self).routes@);
            assert(self@ =~= old(self)@.insert(key, (system_id, handler)));
        }
    }

    /// The handler of `route`.
    pub fn get(&self, route: &Vec<String>) -> (r: Option<&(SystemId, H)>)
        ensures
            match r {
                Some(e) => self@.contains_key(names_view(route@)) && *e == self@[names_view(route@)],
                None => !self@.contains_key(names_view(route@)),
            },
    {
        let mut i: usize = self.routes.len();
        assert(self.routes@.subrange(0, i as int) =~= self.routes@);
        while i > 0
            invariant
                i <= self.routes@.len(),
                lookup(self.routes@, names_view(route@)) == lookup(
                    self.routes@.subrange(0, i as int),
                    names_view(route@),
                ),
            decreases i,
        {
            proof {
                assert(self.routes@.subrange(0, i as int).drop_last() =~= self.routes@.subrange(
                    0,
                    i - 1,
                ));
            }
            if names_eq(&self.routes[i - 1].0, route) {
                return Some(&self.routes[i - 1].1);
            }
            i = i - 1;
        }
        None
    }
}

impl<H> Default for Router<H> {
    fn default() -> (r: Router<H>)
        ensures
            r@ == Map::<Seq<Seq<char>>, (SystemId, H)>::empty(),
    {
        Router::new()
    }
}

/// The handler that runs when the command is given without a subcommand
/// route.
pub struct MainHandler<H>(pub SystemId, pub H);

/// Picks the handler for a command line: the main handler when there is one;
/// otherwise the route named by `chain`, the subcommand names from the
/// outermost in. The number that comes with the handler is how many
/// subcommands deep its arguments lie.
pub fn select_route<'a, H>(
    main: Option<&'a MainHandler<H>>,
    chain: &Vec<String>,
    router: &'a Router<H>,
) -> (r: Option<(SystemEntryRef<'a, H>, usize)>)
    ensures
        match main {
            Some(m) => r matches Some((e, depth)) && e.id == m.0 && *e.system == m.1 && depth == 0,
            None => if chain@.len() > 0 && router@.contains_key(names_view(chain@)) {
                r matches Some((e, depth)) && e.id == router@[names_view(chain@)].0 && *e.system
                    == router@[names_view(chain@)].1 && depth == chain@.len()
            } else {
                r is None
            },
        },
{
    if let Some(MainHandler(id, main)) = main {
        return Some((SystemEntryRef::new(*id, main), 0));
    }
    if chain.len() == 0 {
        return None;
    }
    match router.get(chain) {
        Some(entry) => Some((SystemEntryRef::new(entry.0, &entry.1), chain.len())),
        None => None,
    }
}

/// The route of a subcommand `name` under `route`.
pub fn sub_route(route: &Vec<String>, name: &str) -> (r: Vec<String>)
    ensures
        names_view(r@) == names_view(route@).push(name@),
{
    let mut r: Vec<String> = Vec::new();
    let mut i: usize = 0;
    while i < route.len()
        invariant
            i <= route@.len(),
            names_view(r@) == names_view(route@.subrange(0, i as int)),
        decreases route.len() - i,
    {
        let name = route[i].clone();
        assert(name@ == route@[i as int]@);
        let ghost before = r@;
        r.push(name);
        proof {
            assert(names_view(before) =~= names_view(route@.subrange(0, i as int)));
            assert forall|j: int| 0 <= j < i + 1 implies names_view(r@)[j] == names_view(
                route@.subrange(0, i + 1),
            )[j] by {
                if j < i {
                    assert(names_view(before)[j] == names_view(route@.subrange(0, i as int))[j]);
                }
            }
            assert(names_view(r@) =~= names_view(route@.subrange(0, i + 1)));
        }
        i = i + 1;
    }
    r.push(name.to_owned());
    proof {
        assert(route@.subrange(0, route@.len() as int) =~= route@);
        assert(names_view(r@) =~= names_view(route@).push(name@));
    }
    r
}

/// A route reads back the handler last added under it; adding it leaves the
/// other routes as they were.
pub proof fn law_route_after_add<H>(before: Map<Seq<Seq<char>>, (SystemId, H)>, route: Seq<Seq<char>>, id: SystemId, handler: H)
    ensures
        before.insert(route, (id, handler))[route] == (id, handler),
        forall|other: Seq<Seq<char>>|
            other != route ==> #[trigger] before.insert(route, (id, handler)).contains_key(other)
                == before.contains_key(other),
{
}

/// The schedule of the handler that runs without a subcommand.
pub struct Main;

/// A subcommand route by name.
pub struct Route(pub &'static str);

/// Marks a route configured with a single handler.
pub struct SingleRoute;

/// Marks a route configured with nested subcommands.
pub struct MultiRoute;

/// Marks a set of subcommands holding at least one route.
pub struct OneOrMore;

/// Marks a set of subcommands that may be empty.
pub struct ZeroOrMore;

/// The subcommands of a route, built one by one.
pub struct SubRoutes<Routes>(pub Routes);

impl SubRoutes<()> {
    pub fn empty() -> (r: SubRoutes<()>) {
        SubRoutes(())
    }
}

/// A route handled by one system.
pub struct OneRoute<S> {
    pub system: S,
}

impl<S> OneRoute<S> {
    pub fn new(system: S) -> (r: OneRoute<S>)
        ensures
            r.system == system,
    {
        OneRoute { system }
    }
}

} // verus!
