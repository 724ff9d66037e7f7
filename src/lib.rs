//! A declarative reconciliation engine for desktop provisioning.
//!
//! The library decides; the caller acts. Given what is declared, what is
//! observed on the machine and what the engine recorded on earlier runs, it
//! classifies every resource key, resolves confirmations, plans the external
//! operations that an action needs and keeps the record store consistent with
//! the operations that succeeded.
pub mod engine;
pub mod store;
pub mod fingerprint;
pub mod text;
pub mod policy;
pub mod validate;
pub mod accounts;
pub mod snapshot;
pub mod service_snapshot;
pub mod container;
pub mod quadlet;
pub mod services;
pub mod autostart;
pub mod packages;
pub mod dotfiles;
pub mod steps;
pub mod drives;
pub mod desktop;
pub mod laws;
