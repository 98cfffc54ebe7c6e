//! Order-book mirroring core: the compare-and-set update rule of the state
//! store, the command framing between controller and fetchers, the fetcher's
//! sticky batch, the controller's paced dispatch schedule, and the requests
//! sent to the remote market API.
pub mod types;
pub mod settings;
pub mod transport;
pub mod store;
pub mod scheduler;
pub mod fetcher;
pub mod http;
