//! A cluster coordinator on top of etcd: leadership and locks, publish and
//! subscribe, a durable key-value store, and the peers that others register.
//!
//! Each operation is a state machine. It asks for one call at a time, of etcd
//! or of its surroundings, and goes on with the reply; see [`protocol`]. The
//! program around the library makes the calls.
pub mod backend;
pub mod config;
pub mod config_laws;
pub mod config_runs;
pub mod coordinator_runs;
pub mod error;
pub mod events;
pub mod events_laws;
pub mod events_runs;
pub mod fault_laws;
pub mod kv;
pub mod kv_laws;
pub mod kv_runs;
pub mod lease;
pub mod lease_laws;
pub mod lease_runs;
pub mod names;
pub mod peers;
pub mod peers_laws;
pub mod peers_runs;
pub mod progress_laws;
pub mod protocol;
pub mod protocol_laws;
pub mod registration_laws;
pub mod runs;
pub mod start_laws;
pub mod store;
pub mod text;
pub mod text_laws;
pub mod time;
pub mod tls;

pub use crate::backend::EtcdBackend;
pub use crate::config::{AuthConfig, ConfigError, EtcdConfig, TlsConfig};
pub use crate::error::ClusterError;
pub use crate::kv::EtcdKv;
