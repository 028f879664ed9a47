//! Connection layer of an HTTP client: the alternative-service cache, the
//! pool of multiplexed connections, and the adapter that drives a
//! completion-based stream through a readiness-based interface.
pub mod adapter;
pub mod altsvc;
pub mod clock;
pub mod dest;
pub mod pool;
pub mod table;
pub mod text;

pub use adapter::{Progress, Step, StreamAdapter};
pub use dest::{extract_domain, Transport, TransportError};
pub use altsvc::{parse, AltAuthority, AltService, HostRecord, KnownHosts, ParseError, Service};
pub use pool::{domain_key, Pool, PoolError, PoolKey};
