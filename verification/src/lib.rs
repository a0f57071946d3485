//! Extension layer for a database server: a registry of custom callable
//! functions, an event registry with wildcard pattern dispatch, a
//! time-to-live cache, and a module system that composes all three into one
//! built snapshot.

pub mod cache;
pub mod clock;
pub mod error;
pub mod events;
pub mod functions;
pub mod jsonval;
pub mod module;
pub mod server;
pub mod strmap;

pub use cache::{CacheEntry, MemoryCacheProvider};
pub use error::Error;
pub use events::{Dispatch, Event, EventRegistry, EventType, ListenerId};
pub use functions::{FunctionRegistry, HandlerId};
pub use module::{Module, RouteId};
pub use server::{BuiltSurrealX, ServerConfig, SurrealX};
