//! ShellBe: an SSH profile manager whose core is a verified extension
//! (plugin) manager: a durable metadata store, an advisory file-lock
//! protocol, a security gate, a live registry of loaded extensions, and
//! the install/enable/disable/remove/update lifecycle built on top of
//! them.

pub mod alias;
pub mod errors;
pub mod events;
pub mod install;
pub mod lock;
pub mod manifest;
pub mod models;
pub mod plugin;
pub mod registry;
pub mod requirements;
pub mod security;
pub mod service;
pub mod store;
pub mod strutil;

pub use errors::DomainError;
pub use errors::DomainError as Error;
pub use errors::ErrorContext;
pub use errors::PluginError;
pub use errors::ShellBeError;
pub use events::Event;
pub use events::EventBus;
pub use events::EventListener;
pub use models::Alias;
pub use models::ConnectionStats;
pub use models::HistoryEntry;
pub use models::Profile;
pub use models::default_port;
pub use plugin::Hook;
pub use plugin::Plugin;
pub use plugin::PluginCommand;
pub use plugin::PluginInfo;
pub use plugin::PluginMetadata;
pub use plugin::PluginStatus;
pub use registry::LiveEntry;
pub use registry::LiveRegistry;
pub use requirements::SystemObservations;
pub use requirements::SystemRequirements;
pub use security::PluginSecurityValidator;
pub use security::SecurityFinding;
pub use service::PluginSandboxSettings;
pub use service::PluginService;
pub use service::UpdateTicket;
pub use store::PluginStore;
