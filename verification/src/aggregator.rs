//! The services of a node, each under its name.

use crate::names::{as_map, has_name, named, ordered, with_all, NameMap};
use crate::scope::{ApiAccess, ApiBuilder, ApiScope, ExtendApiBackend};
use vstd::prelude::*;

verus! {

/// What all services offer. The services are walked in the order of their
/// names, and a name stands for one service.
#[derive(Debug, Clone)]
pub struct ApiAggregator<F> {
    endpoints: NameMap<ApiBuilder<F>>,
}

impl<F> Default for ApiAggregator<F> {
    fn default() -> (aggregator: Self)
        ensures
            aggregator.entries().len() == 0,
    {
        ApiAggregator::new()
    }
}

/// The scopes of a list of services for one level of access, each with the
/// name of its service.
pub open spec fn scopes_of<F>(entries: Seq<(Seq<char>, ApiBuilder<F>)>, access: ApiAccess) -> Seq<
    (Seq<char>, ApiScope<F>),
> {
    entries.map_values(|entry: (Seq<char>, ApiBuilder<F>)| (entry.0, entry.1.scope(access)))
}

/// Whether a list holds the scopes of the services of a map for one level of
/// access: one item for each service, with its name and its scope, in the
/// order of the names.
pub open spec fn lists_scopes<F>(
    items: Seq<(Seq<char>, ApiScope<F>)>,
    services: Map<Seq<char>, ApiBuilder<F>>,
    access: ApiAccess,
) -> bool {
    &&& ordered(items)
    &&& forall|i: int|
        0 <= i < items.len() ==> services.dom().contains(#[trigger] items[i].0) && items[i].1
            == services[items[i].0].scope(access)
    &&& forall|name: Seq<char>| services.dom().contains(name) ==> has_name(items, name)
}

impl<F> ApiAggregator<F> {
    /// The services with their names, in the order of the names.
    pub closed spec fn entries(self) -> Seq<(Seq<char>, ApiBuilder<F>)> {
        self.endpoints.entries()
    }

    /// The service under each name.
    pub open spec fn services(self) -> Map<Seq<char>, ApiBuilder<F>> {
        as_map(self.entries())
    }

    /// The scopes for one level of access, in the order in which they are
    /// wired.
    pub open spec fn scopes(self, access: ApiAccess) -> Seq<(Seq<char>, ApiScope<F>)> {
        scopes_of(self.entries(), access)
    }

    /// No services.
    pub fn new() -> (aggregator: Self)
        ensures
            aggregator.entries().len() == 0,
    {
        ApiAggregator { endpoints: NameMap::new() }
    }

    /// The number of services.
    pub fn len(&self) -> (n: usize)
        ensures
            n == self.entries().len(),
            ordered(self.entries()),
    {
        self.endpoints.len()
    }

    /// The name of the service at a place, in the order of the names.
    pub fn name_at(&self, i: usize) -> (name: &str)
        requires
            i < self.entries().len(),
        ensures
            name@ == self.entries()[i as int].0,
    {
        self.endpoints.name_at(i)
    }

    /// The service at a place, in the order of the names.
    pub fn service_at(&self, i: usize) -> (api: &ApiBuilder<F>)
        requires
            i < self.entries().len(),
        ensures
            *api == self.entries()[i as int].1,
    {
        self.endpoints.value_at(i)
    }

    /// The service under a name, if there is one.
    pub fn get(&self, name: &str) -> (api: Option<&ApiBuilder<F>>)
        ensures
            match api {
                Some(a) => self.services().dom().contains(name@) && *a == self.services()[name@],
                None => !self.services().dom().contains(name@),
            },
    {
        self.endpoints.get(name)
    }

    /// Puts a service under a name, in the place of the one that was there.
    pub fn insert(&mut self, name: &str, api: ApiBuilder<F>)
        ensures
            ordered(final(self).entries()),
            final(self).services() == old(self).services().insert(name@, api),
    {
        self.endpoints.insert(String::from_str(name), api);
    }

    /// Puts each service of a list under its name, one after the other.
    pub fn extend(&mut self, endpoints: Vec<(String, ApiBuilder<F>)>)
        ensures
            ordered(final(self).entries()),
            final(self).services() == with_all(old(self).services(), named(endpoints@)),
    {
        let ghost all = named(endpoints@);
        let ghost start = self.services();
        let n = self.endpoints.len();
        assert(all.take(0) == Seq::<(Seq<char>, ApiBuilder<F>)>::empty());
        for entry in it: endpoints
            invariant
                all == named(it.seq()),
                start == old(self).services(),
                ordered(self.entries()),
                self.services() == with_all(start, all.take(it.index() as int)),
        {
            let ghost done = all.take(it.index() as int);
            let ghost now = all.take(it.index() + 1);
            proof {
                assert(now.drop_last() == done);
                assert(now.last() == (entry.0@, entry.1));
            }
            let (name, api) = entry;
            self.endpoints.insert(name, api);
        }
        assert(all.take(all.len() as int) == all);
    }

    /// Wires the scopes of all services for one level of access into a
    /// transport, each under the name of its service, in the order of the
    /// names.
    pub fn extend_backend<B: ExtendApiBackend<F>>(&self, access: ApiAccess, backend: B) -> (extended:
        B)
        ensures
            ordered(self.scopes(access)),
            backend.extends_to(self.scopes(access), extended),
    {
        let n = self.endpoints.len();
        let mut items: Vec<(&str, &ApiScope<F>)> = Vec::new();
        let mut i: usize = 0;
        while i < n
            invariant
                i <= n,
                n == self.entries().len(),
                crate::scope::items_view(items@) == self.scopes(access).take(i as int),
            decreases n - i,
        {
            let ghost before = crate::scope::items_view(items@);
            let name = self.endpoints.name_at(i);
            let scope = self.endpoints.value_at(i).scope_of(access);
            items.push((name, scope));
            assert(crate::scope::items_view(items@) == before.push((name@, *scope)));
            assert(self.scopes(access).take(i + 1) == self.scopes(access).take(i as int).push(
                (name@, *scope),
            ));
            i = i + 1;
        }
        assert(self.scopes(access).take(n as int) == self.scopes(access));
        backend.extend(items)
    }
}

} // verus!
