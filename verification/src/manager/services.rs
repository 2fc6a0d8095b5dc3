//! The services of a generation: those of the setup, and over them those of
//! the last update.

use crate::aggregator::lists_scopes;
use crate::backend::{flattened, routes_view, RouteTable, RouteView};
use crate::manager::ApiManager;
use crate::names::{
    as_map, has_name, lemma_ordered_names_differ, named, ordered, place_of, with_all, NameMap,
};
use crate::scope::{items_view, ApiAccess, ApiBuilder, ApiScope, ExtendApiBackend};
use crate::text::text_lt;
use vstd::prelude::*;

verus! {

/// Where a service of a generation comes from.
#[derive(Debug, Clone, Copy, PartialEq, Eq, Structural)]
enum Origin {
    /// From the setup: the service at this place of its aggregator.
    Setup(usize),
    /// From the last update: the service at this place of its list.
    Update(usize),
}

/// The name and the service that an origin points to.
spec fn origin_entry<F>(
    origin: Origin,
    setup: Seq<(Seq<char>, ApiBuilder<F>)>,
    update: Seq<(Seq<char>, ApiBuilder<F>)>,
) -> (Seq<char>, ApiBuilder<F>) {
    match origin {
        Origin::Setup(i) => setup[i as int],
        Origin::Update(j) => update[j as int],
    }
}

/// Whether an origin points into the setup, or into the first `seen`
/// services of the update.
spec fn origin_within<F>(
    origin: Origin,
    setup: Seq<(Seq<char>, ApiBuilder<F>)>,
    seen: int,
) -> bool {
    match origin {
        Origin::Setup(i) => i < setup.len(),
        Origin::Update(j) => j < seen,
    }
}

/// Whether an index of origins stands for a map of services: it has the
/// names of the map, and under each name the origin of the service that the
/// map has there.
spec fn indexes<F>(
    index: Seq<(Seq<char>, Origin)>,
    services: Map<Seq<char>, ApiBuilder<F>>,
    setup: Seq<(Seq<char>, ApiBuilder<F>)>,
    update: Seq<(Seq<char>, ApiBuilder<F>)>,
    seen: int,
) -> bool {
    &&& forall|name: Seq<char>| has_name(index, name) <==> services.dom().contains(name)
    &&& forall|k: int|
        0 <= k < index.len() ==> {
            &&& origin_within((#[trigger] index[k]).1, setup, seen)
            &&& origin_entry(index[k].1, setup, update).0 == index[k].0
            &&& origin_entry(index[k].1, setup, update).1 == services[index[k].0]
        }
}

impl<F> ApiManager<F> {
    /// The services of the generation: those of the setup, and over them
    /// those of the last update, each under its name.
    pub open spec fn services(self) -> Map<Seq<char>, ApiBuilder<F>> {
        with_all(self.config().api_aggregator.services(), named(self.endpoints()@))
    }

    /// The origins of the services of the generation, under their names.
    fn index(&self) -> (index: NameMap<Origin>)
        ensures
            ordered(index.entries()),
            indexes(
                index.entries(),
                self.services(),
                self.config.api_aggregator.entries(),
                named(self.endpoints@),
                self.endpoints@.len() as int,
            ),
    {
        let ghost setup = self.config.api_aggregator.entries();
        let ghost update = named(self.endpoints@);
        let ghost base = self.config.api_aggregator.services();
        let mut index: NameMap<Origin> = NameMap::new();
        let n = self.config.api_aggregator.len();
        let mut i: usize = 0;
        while i < n
            invariant
                i <= n,
                n == setup.len(),
                setup == self.config.api_aggregator.entries(),
                ordered(setup),
                ordered(index.entries()),
                forall|name: Seq<char>|
                    has_name(index.entries(), name) <==> has_name(setup.take(i as int), name),
                forall|k: int|
                    0 <= k < index.entries().len() ==> {
                        &&& (#[trigger] index.entries()[k]).1 matches Origin::Setup(at)
                        &&& at < i
                        &&& setup[at as int].0 == index.entries()[k].0
                    },
            decreases n - i,
        {
            let ghost before = index.entries();
            let name = self.config.api_aggregator.name_at(i);
            index.insert(String::from_str(name), Origin::Setup(i));
            proof {
                let after = index.entries();
                assert(as_map(after) == as_map(before).insert(name@, Origin::Setup(i)));
                assert forall|other: Seq<char>| has_name(after, other) <==> has_name(
                    setup.take(i + 1),
                    other,
                ) by {
                    assert(has_name(after, other) == as_map(after).dom().contains(other));
                    assert(has_name(before, other) == as_map(before).dom().contains(other));
                    if has_name(setup.take(i + 1), other) {
                        let k = place_of(setup.take(i + 1), other);
                        if k < i {
                            assert(setup.take(i as int)[k].0 == other);
                        }
                    }
                    if has_name(setup.take(i as int), other) {
                        let k = place_of(setup.take(i as int), other);
                        assert(setup.take(i + 1)[k].0 == other);
                    }
                    if other == name@ {
                        assert(setup.take(i + 1)[i as int].0 == other);
                    }
                }
                assert forall|k: int| 0 <= k < after.len() implies {
                    &&& (#[trigger] after[k]).1 matches Origin::Setup(at)
                    &&& at < i + 1
                    &&& setup[at as int].0 == after[k].0
                } by {
                    let other = after[k].0;
                    assert(has_name(after, other));
                    assert(as_map(after).dom().contains(other));
                    lemma_ordered_names_differ(after, place_of(after, other), k);
                    assert(as_map(after)[other] == after[k].1);
                    if other != name@ {
                        assert(has_name(before, other));
                        let b = place_of(before, other);
                        assert(as_map(before)[other] == before[b].1);
                    }
                }
            }
            i = i + 1;
        }
        proof {
            assert(setup.take(n as int) == setup);
            assert(update.take(0) == Seq::<(Seq<char>, ApiBuilder<F>)>::empty());
            assert forall|k: int| 0 <= k < index.entries().len() implies {
                &&& origin_within((#[trigger] index.entries()[k]).1, setup, 0)
                &&& origin_entry(index.entries()[k].1, setup, update).0 == index.entries()[k].0
                &&& origin_entry(index.entries()[k].1, setup, update).1 == base[index.entries()[k].0]
            } by {
                let at = index.entries()[k].1->Setup_0 as int;
                let name = index.entries()[k].0;
                assert(has_name(setup, name));
                lemma_ordered_names_differ(setup, place_of(setup, name), at);
            }
        }
        let m = self.endpoints.len();
        let mut j: usize = 0;
        while j < m
            invariant
                j <= m,
                m == self.endpoints@.len(),
                setup == self.config.api_aggregator.entries(),
                update == named(self.endpoints@),
                base == as_map(setup),
                ordered(index.entries()),
                indexes(index.entries(), with_all(base, update.take(j as int)), setup, update, j as int),
            decreases m - j,
        {
            let ghost before = index.entries();
            let ghost was = with_all(base, update.take(j as int));
            let ghost now = with_all(base, update.take(j + 1));
            let name = self.endpoints[j].0.clone();
            let ghost key = name@;
            index.insert(name, Origin::Update(j));
            proof {
                let after = index.entries();
                assert(update.take(j + 1).drop_last() == update.take(j as int));
                assert(update.take(j + 1).last() == update[j as int]);
                assert(update[j as int].0 == key);
                assert(now == was.insert(key, update[j as int].1));
                assert(as_map(after) == as_map(before).insert(key, Origin::Update(j)));
                assert forall|other: Seq<char>| has_name(after, other) <==> now.dom().contains(
                    other,
                ) by {
                    assert(has_name(after, other) == as_map(after).dom().contains(other));
                    assert(has_name(before, other) == as_map(before).dom().contains(other));
                }
                assert forall|k: int| 0 <= k < after.len() implies {
                    &&& origin_within((#[trigger] after[k]).1, setup, j + 1)
                    &&& origin_entry(after[k].1, setup, update).0 == after[k].0
                    &&& origin_entry(after[k].1, setup, update).1 == now[after[k].0]
                } by {
                    let other = after[k].0;
                    assert(has_name(after, other));
                    assert(as_map(after).dom().contains(other));
                    lemma_ordered_names_differ(after, place_of(after, other), k);
                    assert(as_map(after)[other] == after[k].1);
                    if other != key {
                        assert(has_name(before, other));
                        let b = place_of(before, other);
                        assert(as_map(before)[other] == before[b].1);
                    }
                }
            }
            j = j + 1;
        }
        assert(update.take(m as int) == update);
        index
    }

    /// The scopes of the services of the generation for one level of
    /// access, each with the name of its service, in the order of the names.
    pub fn scopes(&self, access: ApiAccess) -> (items: Vec<(&str, &ApiScope<F>)>)
        ensures
            lists_scopes(items_view(items@), self.services(), access),
    {
        let ghost setup = self.config.api_aggregator.entries();
        let ghost update = named(self.endpoints@);
        let index = self.index();
        let n = index.len();
        let mut items: Vec<(&str, &ApiScope<F>)> = Vec::new();
        let mut k: usize = 0;
        while k < n
            invariant
                k <= n,
                n == index.entries().len(),
                setup == self.config.api_aggregator.entries(),
                update == named(self.endpoints@),
                indexes(
                    index.entries(),
                    self.services(),
                    setup,
                    update,
                    self.endpoints@.len() as int,
                ),
                items@.len() == k,
                forall|i: int|
                    0 <= i < k ==> {
                        &&& (#[trigger] items_view(items@)[i]).0 == index.entries()[i].0
                        &&& items_view(items@)[i].1 == self.services()[index.entries()[i].0].scope(
                            access,
                        )
                    },
            decreases n - k,
        {
            let ghost before = items_view(items@);
            let item = match *index.value_at(k) {
                Origin::Setup(i) => {
                    (
                        self.config.api_aggregator.name_at(i),
                        self.config.api_aggregator.service_at(i).scope_of(access),
                    )
                },
                Origin::Update(j) => {
                    assert(update[j as int] == (self.endpoints@[j as int].0@, self.endpoints@[j as int].1));
                    (self.endpoints[j].0.as_str(), self.endpoints[j].1.scope_of(access))
                },
            };
            items.push(item);
            assert(items_view(items@) == before.push((item.0@, *item.1)));
            k = k + 1;
        }
        proof {
            let listed = items_view(items@);
            assert forall|i: int, j: int| 0 <= i < j < listed.len() implies text_lt(
                listed[i].0,
                listed[j].0,
            ) by {
                assert(listed[i].0 == index.entries()[i].0);
                assert(listed[j].0 == index.entries()[j].0);
            }
            assert forall|i: int| 0 <= i < listed.len() implies self.services().dom().contains(
                #[trigger] listed[i].0,
            ) && listed[i].1 == self.services()[listed[i].0].scope(access) by {
                assert(has_name(index.entries(), index.entries()[i].0));
            }
            assert forall|name: Seq<char>| self.services().dom().contains(name) implies has_name(
                listed,
                name,
            ) by {
                assert(has_name(index.entries(), name));
                let at = place_of(index.entries(), name);
                assert(listed[at].0 == name);
            }
        }
        items
    }

    /// Wires the scopes of the services of the generation for one level of
    /// access into a transport, each under the name of its service, in the
    /// order of the names.
    pub fn extend_backend<B: ExtendApiBackend<F>>(&self, access: ApiAccess, backend: B) -> (extended:
        B)
        ensures
            exists|items: Seq<(Seq<char>, ApiScope<F>)>|
                lists_scopes(items, self.services(), access) && backend.extends_to(items, extended),
    {
        let items = self.scopes(access);
        let ghost listed = items_view(items@);
        let extended = backend.extend(items);
        assert(lists_scopes(listed, self.services(), access) && backend.extends_to(listed, extended));
        extended
    }

    /// How the listener of a level of access is set up for the generation:
    /// its configuration, whether it leaves signals alone, and the table of
    /// its routes under the prefix `api`. Nothing for a level that is not
    /// configured.
    pub fn start_server(&self, access: ApiAccess) -> (setup: Option<ServerSetup>)
        ensures
            match self.config().servers.config(access) {
                Some(server) => {
                    &&& setup matches Some(s)
                    &&& s.access == access
                    &&& s.listen_address@ == server.listen_address@
                    &&& s.json_payload_size == server.json_payload_size
                    &&& s.disable_signals == self.config().disable_signals
                    &&& s.routes.prefix@ == "api"@
                    &&& exists|items: Seq<(Seq<char>, ApiScope<F>)>|
                        lists_scopes(items, self.services(), access) && routes_view(s.routes.routes@)
                            == flattened(items)
                },
                None => setup is None,
            },
    {
        match self.config.servers.get(access) {
            Some(server) => {
                let table = RouteTable::scope("api");
                let routes = self.extend_backend(access, table);
                proof {
                    let items = choose|items: Seq<(Seq<char>, ApiScope<F>)>|
                        lists_scopes(items, self.services(), access) && table.extends_to(
                            items,
                            routes,
                        );
                    assert(routes_view(table.routes@) == Seq::<RouteView>::empty());
                    assert(routes_view(routes.routes@) == flattened(items));
                }
                Some(
                    ServerSetup {
                        access,
                        listen_address: server.listen_address.clone(),
                        json_payload_size: server.json_payload_size,
                        disable_signals: self.config.disable_signals,
                        routes,
                    },
                )
            },
            None => None,
        }
    }
}

/// How one listener is set up for a generation.
#[derive(Debug, Clone, PartialEq, Eq)]
pub struct ServerSetup {
    pub access: ApiAccess,
    pub listen_address: String,
    pub json_payload_size: Option<usize>,
    pub disable_signals: bool,
    pub routes: RouteTable,
}

} // verus!
