//! A handler together with what is known of its endpoint: whether the
//! endpoint is still current, its name, and whether it reads or writes.

use crate::scope::EndpointMutability;
use vstd::prelude::*;
use vstd::std_specs::convert::{FromSpecImpl, IntoSpec};

verus! {

/// A date and a time of day, counted in seconds from 1970-01-01 00:00:00.
#[derive(Debug, Clone, Copy, PartialEq, Eq, Structural)]
pub struct DateTime {
    pub seconds: i64,
}

/// Whether an endpoint is current.
#[derive(Debug, Clone, PartialEq, Eq)]
pub enum Actuality {
    /// It is.
    Actual,
    /// It still works, and will be taken away.
    Deprecated {
        /// When it will be taken away, if that is decided.
        discontinued_on: Option<DateTime>,
        /// What to use in its place, or why it leaves.
        description: Option<String>,
    },
}

/// A handler and the actuality of its endpoint.
#[derive(Debug, Clone)]
pub struct With<F> {
    pub handler: F,
    pub actuality: Actuality,
}

/// A handler of a deprecated endpoint.
#[derive(Debug, Clone)]
pub struct Deprecated<F> {
    pub handler: F,
    pub discontinued_on: Option<DateTime>,
    pub description: Option<String>,
}

impl<F> Deprecated<F> {
    /// A deprecated handler, with no date set and nothing said about it.
    pub fn new(handler: F) -> (deprecated: Self)
        ensures
            deprecated.handler == handler,
            deprecated.discontinued_on is None,
            deprecated.description is None,
    {
        Deprecated { handler, discontinued_on: None, description: None }
    }

    /// Sets the date on which the endpoint leaves.
    pub fn with_date(self, discontinued_on: DateTime) -> (deprecated: Self)
        ensures
            deprecated.handler == self.handler,
            deprecated.discontinued_on == Some(discontinued_on),
            deprecated.description == self.description,
    {
        Deprecated {
            handler: self.handler,
            discontinued_on: Some(discontinued_on),
            description: self.description,
        }
    }

    /// Sets what is said about the deprecation.
    pub fn with_description(self, description: &str) -> (deprecated: Self)
        ensures
            deprecated.handler == self.handler,
            deprecated.discontinued_on == self.discontinued_on,
            deprecated.description matches Some(d) && d@ == description@,
    {
        Deprecated {
            handler: self.handler,
            discontinued_on: self.discontinued_on,
            description: Some(String::from_str(description)),
        }
    }

    /// Puts another handler in the place of this one, and keeps the rest.
    pub fn with_different_handler<F1>(self, handler: F1) -> (deprecated: Deprecated<F1>)
        ensures
            deprecated.handler == handler,
            deprecated.discontinued_on == self.discontinued_on,
            deprecated.description == self.description,
    {
        Deprecated {
            handler,
            discontinued_on: self.discontinued_on,
            description: self.description,
        }
    }
}

impl<F> From<F> for Deprecated<F> {
    fn from(handler: F) -> (deprecated: Self) {
        Deprecated::new(handler)
    }
}

impl<F> FromSpecImpl<F> for Deprecated<F> {
    open spec fn obeys_from_spec() -> bool {
        true
    }

    open spec fn from_spec(handler: F) -> Self {
        Deprecated { handler, discontinued_on: None, description: None }
    }
}

impl<F> From<Deprecated<F>> for With<F> {
    fn from(deprecated: Deprecated<F>) -> (with: Self) {
        With {
            handler: deprecated.handler,
            actuality: Actuality::Deprecated {
                discontinued_on: deprecated.discontinued_on,
                description: deprecated.description,
            },
        }
    }
}

impl<F> FromSpecImpl<Deprecated<F>> for With<F> {
    open spec fn obeys_from_spec() -> bool {
        true
    }

    open spec fn from_spec(deprecated: Deprecated<F>) -> Self {
        With {
            handler: deprecated.handler,
            actuality: Actuality::Deprecated {
                discontinued_on: deprecated.discontinued_on,
                description: deprecated.description,
            },
        }
    }
}

impl<F> From<F> for With<F> {
    fn from(handler: F) -> (with: Self) {
        With { handler, actuality: Actuality::Actual }
    }
}

impl<F> FromSpecImpl<F> for With<F> {
    open spec fn obeys_from_spec() -> bool {
        true
    }

    open spec fn from_spec(handler: F) -> Self {
        With { handler, actuality: Actuality::Actual }
    }
}

/// A handler with the name of its endpoint.
#[derive(Debug)]
pub struct NamedWith<F> {
    pub name: String,
    pub inner: With<F>,
    pub mutability: EndpointMutability,
}

impl<F> NamedWith<F> {
    pub fn new<W: Into<With<F>>>(name: &str, inner: W, mutability: EndpointMutability) -> (named:
        Self)
        ensures
            named.name@ == name@,
            named.mutability == mutability,
            W::obeys_into_spec() ==> named.inner == inner.into_spec(),
    {
        NamedWith { name: String::from_str(name), inner: inner.into(), mutability }
    }

    /// An endpoint that writes.
    pub fn mutable<W: Into<With<F>>>(name: &str, inner: W) -> (named: Self)
        ensures
            named.name@ == name@,
            named.mutability == EndpointMutability::Mutable,
            W::obeys_into_spec() ==> named.inner == inner.into_spec(),
    {
        NamedWith::new(name, inner, EndpointMutability::Mutable)
    }

    /// An endpoint that reads.
    pub fn immutable<W: Into<With<F>>>(name: &str, inner: W) -> (named: Self)
        ensures
            named.name@ == name@,
            named.mutability == EndpointMutability::Immutable,
            W::obeys_into_spec() ==> named.inner == inner.into_spec(),
    {
        NamedWith::new(name, inner, EndpointMutability::Immutable)
    }
}

} // verus!
