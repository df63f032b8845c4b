//! Daemon configuration, and the choice of event store that it makes.
use std::collections::HashMap;
use vstd::prelude::*;

verus! {

/// The value of `send_to_target_by_default` when the configuration leaves it out.
pub fn default_send_to_target() -> (r: bool)
    ensures
        !r,
{
    false
}

/// The daemon's configuration.
#[derive(Debug)]
pub struct AppConfig {
    pub target_server: TargetServerConfig,
    pub event_store: EventStoreConfig,
    /// Whether stored events are forwarded to the target without being asked to.
    pub send_to_target_by_default: bool,
}

/// Where events are forwarded, with the headers added to each forwarded request.
#[derive(Debug)]
pub struct TargetServerConfig {
    pub url: String,
    pub headers: HashMap<String, String>,
}

/// Which event store the daemon uses.
#[derive(Debug)]
pub enum EventStoreConfig {
    Postgres { database_url: String },
    InMemory,
    Custom { name: String },
}

/// An event store that the daemon can build by itself.
#[derive(Debug)]
pub enum StoreBackend {
    Postgres { database_url: String },
    InMemory,
}

/// The message refusing a custom store named `name`.
pub open spec fn custom_store_message(name: Seq<char>) -> Seq<char> {
    "custom event store '"@ + name
        + "' is not wired in cornerbackd build_app; provide an app-specific builder"@
}

impl EventStoreConfig {
    /// The store to build: Postgres at the configured URL, or the in-memory
    /// store. A custom store cannot be built by the daemon and is refused.
    pub fn backend(&self) -> (r: Result<StoreBackend, String>)
        ensures
            match self {
                EventStoreConfig::Postgres { database_url } => r matches Ok(
                    StoreBackend::Postgres { database_url: u },
                ) && u@ == database_url@,
                EventStoreConfig::InMemory => r matches Ok(StoreBackend::InMemory),
                EventStoreConfig::Custom { name } => r matches Err(msg) && msg@
                    == custom_store_message(name@),
            },
    {
        match self {
            EventStoreConfig::Postgres { database_url } => Ok(
                StoreBackend::Postgres { database_url: database_url.clone() },
            ),
            EventStoreConfig::InMemory => Ok(StoreBackend::InMemory),
            EventStoreConfig::Custom { name } => {
                let mut msg = "custom event store '".to_string();
                msg.append(name.as_str());
                msg.append("' is not wired in cornerbackd build_app; provide an app-specific builder");
                Err(msg)
            },
        }
    }
}

} // verus!
