//! The endpoints of one service, under its two levels of access.

use crate::backend;
use crate::backend::RequestHandler;
use crate::withs::{NamedWith, With};
use vstd::prelude::*;
use vstd::std_specs::convert::{FromSpec, IntoSpec};

verus! {

/// Whether an endpoint only reads, or changes something.
#[derive(Debug, PartialEq, Eq, Clone, Copy, Structural)]
pub enum EndpointMutability {
    Mutable,
    Immutable,
}

/// The two levels of access to the services of a node.
#[derive(Debug, Clone, Copy, PartialEq, Eq, Hash, Structural)]
pub enum ApiAccess {
    /// For anybody.
    Public,
    /// For those who run the node.
    Private,
}

impl ApiAccess {
    /// The level in words.
    pub open spec fn name(self) -> Seq<char> {
        match self {
            ApiAccess::Public => "public"@,
            ApiAccess::Private => "private"@,
        }
    }

    /// The level in words: `public` or `private`.
    pub fn to_string(&self) -> (text: String)
        ensures
            text@ == self.name(),
    {
        match self {
            ApiAccess::Public => String::from_str("public"),
            ApiAccess::Private => String::from_str("private"),
        }
    }
}

/// What collects the handlers of a scope and hands them to a transport.
pub trait ApiBackend: Sized {
    /// A handler in the form that the transport takes.
    type Handler;

    /// What the handlers are wired into.
    type Backend;

    /// Whether `after` is `before` with one more handler, `handler`. A
    /// backend that says nothing of it claims nothing.
    open spec fn takes(before: Self, handler: Self::Handler, after: Self) -> bool {
        true
    }

    /// Whether `wired` is `output` with the routes of the handlers of this
    /// backend. A backend that says nothing of it claims nothing.
    open spec fn wires(&self, output: Self::Backend, wired: Self::Backend) -> bool {
        true
    }

    /// Adds an endpoint that reads: the backend takes the handler made from
    /// the name and from what `endpoint` converts to.
    fn endpoint<F, E>(&mut self, name: &str, endpoint: E) -> (backend: &mut Self) where
        E: Into<With<F>>,
        Self::Handler: From<NamedWith<F>>,

        ensures
            exists|named: NamedWith<F>, handler: Self::Handler|
                {
                    &&& named.name@ == name@
                    &&& named.mutability == EndpointMutability::Immutable
                    &&& E::obeys_into_spec() ==> named.inner == endpoint.into_spec()
                    &&& #[trigger] call_ensures(Self::Handler::from, (named,), handler)
                    &&& Self::takes(*old(self), handler, *backend)
                },
            *final(self) == *final(backend),
    {
        let named_with = NamedWith::immutable(name, endpoint);
        self.raw_handler(Self::Handler::from(named_with))
    }

    /// Adds an endpoint that writes: the backend takes the handler made
    /// from the name and from what `endpoint` converts to.
    fn endpoint_mut<F, E>(&mut self, name: &str, endpoint: E) -> (backend: &mut Self) where
        E: Into<With<F>>,
        Self::Handler: From<NamedWith<F>>,

        ensures
            exists|named: NamedWith<F>, handler: Self::Handler|
                {
                    &&& named.name@ == name@
                    &&& named.mutability == EndpointMutability::Mutable
                    &&& E::obeys_into_spec() ==> named.inner == endpoint.into_spec()
                    &&& #[trigger] call_ensures(Self::Handler::from, (named,), handler)
                    &&& Self::takes(*old(self), handler, *backend)
                },
            *final(self) == *final(backend),
    {
        let named_with = NamedWith::mutable(name, endpoint);
        self.raw_handler(Self::Handler::from(named_with))
    }

    /// Adds a handler.
    fn raw_handler(&mut self, handler: Self::Handler) -> (backend: &mut Self)
        ensures
            Self::takes(*old(self), handler, *backend),
            *final(self) == *final(backend),
    ;

    /// Gives every handler its route in `output`.
    fn wire(&self, output: Self::Backend) -> (wired: Self::Backend)
        ensures
            self.wires(output, wired),
    ;
}

/// The endpoints of one service under one level of access, in the order in
/// which they were registered.
#[derive(Debug, Clone)]
pub struct ApiScope<F> {
    pub(crate) backend: backend::ApiBuilder<F>,
}

impl<F> Default for ApiScope<F> {
    fn default() -> (scope: Self)
        ensures
            scope.handlers().len() == 0,
    {
        ApiScope::new()
    }
}

impl<F> ApiScope<F> {
    /// The handlers of the scope, in the order of their registration.
    pub closed spec fn handlers(self) -> Seq<RequestHandler<F>> {
        self.backend.handlers()
    }

    /// A scope without endpoints.
    pub fn new() -> (scope: Self)
        ensures
            scope.handlers().len() == 0,
    {
        ApiScope { backend: backend::ApiBuilder::new() }
    }

    /// Registers an endpoint that reads. Its handler comes last, under the
    /// given name and the method `GET`.
    pub fn endpoint<E: Into<With<F>>>(&mut self, name: &str, endpoint: E) -> (scope: &mut Self)
        ensures
            scope.handlers().len() == old(self).handlers().len() + 1,
            scope.handlers().drop_last() == old(self).handlers(),
            scope.handlers().last().name@ == name@,
            scope.handlers().last().method == backend::HttpMethod::Get,
            E::obeys_into_spec() ==> scope.handlers().last().inner == endpoint.into_spec(),
            *final(self) == *final(scope),
    {
        let named = NamedWith::immutable(name, endpoint);
        self.backend.raw_handler(RequestHandler::from(named));
        self
    }

    /// Registers an endpoint that writes. Its handler comes last, under the
    /// given name and the method `POST`.
    pub fn endpoint_mut<E: Into<With<F>>>(&mut self, name: &str, endpoint: E) -> (scope: &mut Self)
        ensures
            scope.handlers().len() == old(self).handlers().len() + 1,
            scope.handlers().drop_last() == old(self).handlers(),
            scope.handlers().last().name@ == name@,
            scope.handlers().last().method == backend::HttpMethod::Post,
            E::obeys_into_spec() ==> scope.handlers().last().inner == endpoint.into_spec(),
            *final(self) == *final(scope),
    {
        let named = NamedWith::mutable(name, endpoint);
        self.backend.raw_handler(RequestHandler::from(named));
        self
    }

    /// The builder that holds the handlers of the scope.
    pub fn web_backend(&mut self) -> (builder: &mut backend::ApiBuilder<F>)
        ensures
            builder.handlers() == old(self).handlers(),
            final(self).handlers() == final(builder).handlers(),
    {
        &mut self.backend
    }

    /// The builder that holds the handlers of the scope.
    pub fn builder(&self) -> (builder: &backend::ApiBuilder<F>)
        ensures
            builder.handlers() == self.handlers(),
    {
        &self.backend
    }

    /// The number of endpoints.
    pub fn len(&self) -> (n: usize)
        ensures
            n == self.handlers().len(),
    {
        self.backend.len()
    }

    /// The handler of the endpoint at a place.
    pub fn handler(&self, i: usize) -> (handler: &RequestHandler<F>)
        requires
            i < self.handlers().len(),
        ensures
            *handler == self.handlers()[i as int],
    {
        self.backend.handler(i)
    }
}

/// What one service offers: its endpoints for anybody, and those for the
/// people who run the node.
#[derive(Debug, Clone)]
pub struct ApiBuilder<F> {
    pub public_scope: ApiScope<F>,
    pub private_scope: ApiScope<F>,
}

impl<F> Default for ApiBuilder<F> {
    fn default() -> (builder: Self)
        ensures
            builder.public_scope.handlers().len() == 0,
            builder.private_scope.handlers().len() == 0,
    {
        ApiBuilder::new()
    }
}

impl<F> ApiBuilder<F> {
    /// The scope of a level of access.
    pub open spec fn scope(self, access: ApiAccess) -> ApiScope<F> {
        match access {
            ApiAccess::Public => self.public_scope,
            ApiAccess::Private => self.private_scope,
        }
    }

    /// A service without endpoints.
    pub fn new() -> (builder: Self)
        ensures
            builder.public_scope.handlers().len() == 0,
            builder.private_scope.handlers().len() == 0,
    {
        ApiBuilder { public_scope: ApiScope::new(), private_scope: ApiScope::new() }
    }

    pub fn public_scope(&mut self) -> (scope: &mut ApiScope<F>)
        ensures
            *scope == old(self).public_scope,
            final(self).public_scope == *final(scope),
            final(self).private_scope == old(self).private_scope,
    {
        &mut self.public_scope
    }

    pub fn private_scope(&mut self) -> (scope: &mut ApiScope<F>)
        ensures
            *scope == old(self).private_scope,
            final(self).private_scope == *final(scope),
            final(self).public_scope == old(self).public_scope,
    {
        &mut self.private_scope
    }

    /// The scope of a level of access.
    pub fn scope_of(&self, access: ApiAccess) -> (scope: &ApiScope<F>)
        ensures
            *scope == self.scope(access),
    {
        match access {
            ApiAccess::Public => &self.public_scope,
            ApiAccess::Private => &self.private_scope,
        }
    }
}

/// The names and scopes that a transport is extended by.
pub open spec fn items_view<F>(items: Seq<(&str, &ApiScope<F>)>) -> Seq<(Seq<char>, ApiScope<F>)> {
    items.map_values(|item: (&str, &ApiScope<F>)| (item.0@, *item.1))
}

/// A transport that can take the scopes of services, each under its name.
pub trait ExtendApiBackend<F>: Sized {
    /// Whether `extended` is this backend with the scopes of `items` wired
    /// in, in their order. A backend that says nothing of it claims nothing.
    open spec fn extends_to(self, items: Seq<(Seq<char>, ApiScope<F>)>, extended: Self) -> bool {
        true
    }

    /// Wires in the scopes, each under its name, in their order.
    fn extend(self, items: Vec<(&str, &ApiScope<F>)>) -> (extended: Self)
        ensures
            self.extends_to(items_view(items@), extended),
    ;
}

} // verus!
