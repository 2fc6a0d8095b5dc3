//! What the manager is set up with, and what an update brings.

use crate::aggregator::ApiAggregator;
use crate::cors::{
    cors_any_origin, cors_follows, cors_from, cors_is_open, cors_origins,
    hosts_are_header_values, new_cors, AllowOrigin,
};
use crate::scope::{ApiAccess, ApiBuilder};
use vstd::prelude::*;

verus! {

/// How one listener is set up.
#[derive(Debug, Clone, PartialEq, Eq)]
pub struct WebServerConfig {
    /// The address to listen on, as text: a host, a colon and a port.
    pub listen_address: String,
    /// The rule for requests from other origins; without one, the transport
    /// applies its own.
    pub allow_origin: Option<AllowOrigin>,
    /// The largest JSON body accepted, in bytes; without one, the transport
    /// applies its own limit.
    pub json_payload_size: Option<usize>,
}

impl WebServerConfig {
    /// A listener on an address, with no rule for origins and no limit of
    /// its own.
    pub fn new(listen_address: String) -> (config: Self)
        ensures
            config.listen_address == listen_address,
            config.allow_origin is None,
            config.json_payload_size is None,
    {
        WebServerConfig { listen_address, allow_origin: None, json_payload_size: None }
    }

    /// Whether the hosts of the rule for origins can be values of a header,
    /// so that the rule for the transport can be made.
    pub open spec fn has_header_values(&self) -> bool {
        match self.allow_origin {
            Some(origin) => hosts_are_header_values(origin@),
            None => true,
        }
    }

    /// Whether the hosts of the rule for origins can be values of a header.
    pub fn can_make_cors(&self) -> (ok: bool)
        ensures
            ok == self.has_header_values(),
    {
        match &self.allow_origin {
            Some(origin) => origin.has_header_values(),
            None => true,
        }
    }

    /// The rule for requests from other origins, for the transport: one
    /// that follows the rule of the setup, and without such a rule one that
    /// lets in no origin.
    pub fn cors_factory(&self) -> (cors: actix_cors::Cors)
        requires
            self.has_header_values(),
        ensures
            match self.allow_origin {
                Some(origin) => cors_follows(cors, origin@),
                None => !cors_any_origin(cors) && cors_origins(cors) == Set::<Seq<char>>::empty()
                    && cors_is_open(cors),
            },
    {
        match &self.allow_origin {
            Some(origin) => cors_from(origin),
            None => new_cors(),
        }
    }
}

/// The listeners to run: at most one for each level of access.
#[derive(Debug, Clone, PartialEq, Eq)]
pub struct Servers {
    pub public: Option<WebServerConfig>,
    pub private: Option<WebServerConfig>,
}

impl Servers {
    /// The setup of the listener for a level of access, if there is one.
    pub open spec fn config(self, access: ApiAccess) -> Option<WebServerConfig> {
        match access {
            ApiAccess::Public => self.public,
            ApiAccess::Private => self.private,
        }
    }

    /// The levels of access that have a listener, the public one first.
    pub open spec fn spec_levels(self) -> Seq<ApiAccess> {
        (if self.public is Some {
            seq![ApiAccess::Public]
        } else {
            Seq::empty()
        }) + (if self.private is Some {
            seq![ApiAccess::Private]
        } else {
            Seq::empty()
        })
    }

    /// No listener.
    pub fn new() -> (servers: Self)
        ensures
            servers.public is None,
            servers.private is None,
    {
        Servers { public: None, private: None }
    }

    /// Sets the listener for a level of access, and returns the setup that
    /// was there.
    pub fn insert(&mut self, access: ApiAccess, config: WebServerConfig) -> (previous: Option<
        WebServerConfig,
    >)
        ensures
            previous == old(self).config(access),
            final(self).config(access) == Some(config),
            forall|other: ApiAccess|
                other != access ==> final(self).config(other) == old(self).config(other),
    {
        match access {
            ApiAccess::Public => {
                let previous = self.public.take();
                self.public = Some(config);
                previous
            },
            ApiAccess::Private => {
                let previous = self.private.take();
                self.private = Some(config);
                previous
            },
        }
    }

    /// The setup of the listener for a level of access, if there is one.
    pub fn get(&self, access: ApiAccess) -> (config: Option<&WebServerConfig>)
        ensures
            match config {
                Some(c) => self.config(access) == Some(*c),
                None => self.config(access) is None,
            },
    {
        match access {
            ApiAccess::Public => self.public.as_ref(),
            ApiAccess::Private => self.private.as_ref(),
        }
    }

    /// The number of listeners.
    pub fn len(&self) -> (n: usize)
        ensures
            n == self.spec_levels().len(),
    {
        let public: usize = if self.public.is_some() {
            1
        } else {
            0
        };
        let private: usize = if self.private.is_some() {
            1
        } else {
            0
        };
        public + private
    }

    /// The levels of access that have a listener, the public one first.
    pub fn levels(&self) -> (levels: Vec<ApiAccess>)
        ensures
            levels@ == self.spec_levels(),
    {
        let mut levels: Vec<ApiAccess> = Vec::new();
        if self.public.is_some() {
            levels.push(ApiAccess::Public);
        }
        if self.private.is_some() {
            levels.push(ApiAccess::Private);
        }
        levels
    }
}

/// What the manager is set up with.
#[derive(Debug, Clone)]
pub struct ApiManagerConfig<F> {
    /// The listeners to run.
    pub servers: Servers,
    /// The services that are there whatever the changes bring.
    pub api_aggregator: ApiAggregator<F>,
    /// The pause after an attempt to bind that failed, in milliseconds.
    pub server_restart_retry_timeout: u64,
    /// How often binding is attempted.
    pub server_restart_max_retries: u16,
    /// Whether the listeners leave the signals of the system alone.
    pub disable_signals: bool,
}

impl<F> ApiManagerConfig<F> {
    /// A setup with the given listeners and services: 20 attempts to bind,
    /// half a second apart, and listeners that react to signals.
    pub fn new(servers: Servers, api_aggregator: ApiAggregator<F>) -> (config: Self)
        ensures
            config.servers == servers,
            config.api_aggregator == api_aggregator,
            config.server_restart_retry_timeout == 500,
            config.server_restart_max_retries == 20,
            !config.disable_signals,
    {
        ApiManagerConfig {
            servers,
            api_aggregator,
            server_restart_retry_timeout: 500,
            server_restart_max_retries: 20,
            disable_signals: false,
        }
    }

    /// Sets the pause between attempts to bind, in milliseconds, and the
    /// number of attempts.
    pub fn with_retries(self, timeout: u64, max_retries: u16) -> (config: Self)
        ensures
            config.server_restart_retry_timeout == timeout,
            config.server_restart_max_retries == max_retries,
            config.servers == self.servers,
            config.api_aggregator == self.api_aggregator,
            config.disable_signals == self.disable_signals,
    {
        let mut config = self;
        config.server_restart_retry_timeout = timeout;
        config.server_restart_max_retries = max_retries;
        config
    }

    /// Makes the listeners leave the signals of the system alone.
    pub fn disable_signals(self) -> (config: Self)
        ensures
            config.disable_signals,
            config.server_restart_retry_timeout == self.server_restart_retry_timeout,
            config.server_restart_max_retries == self.server_restart_max_retries,
            config.servers == self.servers,
            config.api_aggregator == self.api_aggregator,
    {
        let mut config = self;
        config.disable_signals = true;
        config
    }
}

impl<F> Default for ApiManagerConfig<F> {
    fn default() -> (config: Self)
        ensures
            config.servers.public is None,
            config.servers.private is None,
            config.api_aggregator.entries().len() == 0,
            config.server_restart_retry_timeout == 500,
            config.server_restart_max_retries == 20,
            !config.disable_signals,
    {
        ApiManagerConfig::new(Servers::new(), ApiAggregator::new())
    }
}

/// A new set of endpoints: services with their names. A service of the list
/// takes the place of an earlier one of its name.
#[derive(Debug, Clone)]
pub struct UpdateEndpoints<F> {
    endpoints: Vec<(String, ApiBuilder<F>)>,
}

impl<F> UpdateEndpoints<F> {
    /// The services of the update, in their order.
    pub closed spec fn endpoints(self) -> Vec<(String, ApiBuilder<F>)> {
        self.endpoints
    }

    pub fn new(endpoints: Vec<(String, ApiBuilder<F>)>) -> (update: Self)
        ensures
            update.endpoints() == endpoints,
    {
        UpdateEndpoints { endpoints }
    }

    /// The names of the services of the update, in their order.
    pub fn updated_paths(&self) -> (paths: Vec<&str>)
        ensures
            paths@.len() == self.endpoints()@.len(),
            forall|i: int| 0 <= i < paths@.len() ==> paths@[i]@ == self.endpoints()@[i].0@,
    {
        let mut paths: Vec<&str> = Vec::new();
        let mut i: usize = 0;
        while i < self.endpoints.len()
            invariant
                i <= self.endpoints@.len(),
                paths@.len() == i,
                forall|j: int| 0 <= j < i ==> paths@[j]@ == self.endpoints@[j].0@,
            decreases self.endpoints@.len() - i,
        {
            paths.push(self.endpoints[i].0.as_str());
            i = i + 1;
        }
        paths
    }

    pub fn into_endpoints(self) -> (endpoints: Vec<(String, ApiBuilder<F>)>)
        ensures
            endpoints == self.endpoints(),
    {
        self.endpoints
    }
}

} // verus!
