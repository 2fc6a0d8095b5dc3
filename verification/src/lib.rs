//! The HTTP surface of a node that runs several services: what an endpoint is,
//! how the endpoints of all services form one namespace for each level of
//! access, how results and failures are written on the wire, and the decisions
//! of the manager that keeps one listener for each level of access running.

pub mod aggregator;
pub mod backend;
pub mod config;
pub mod construct;
pub mod cors;
pub mod encoding;
pub mod error;
pub mod header;
pub mod manager;
pub mod names;
pub mod retry;
pub mod scope;
pub mod text;
pub mod withs;

pub use crate::aggregator::ApiAggregator;
pub use crate::cors::AllowOrigin;
pub use crate::error::{Error, ErrorBody, HttpStatusCode, MovedPermanentlyError};
pub use crate::manager::{ApiManager, ApiManagerConfig, UpdateEndpoints, WebServerConfig};
pub use crate::scope::{
    ApiAccess, ApiBackend, ApiBuilder, ApiScope, EndpointMutability, ExtendApiBackend,
};
pub use crate::withs::{Actuality, Deprecated, NamedWith, With};
