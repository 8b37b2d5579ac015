//! The verified core of a desktop manager for XAMPP installations: parsing and
//! rewriting of Apache and MySQL files, deployment bookkeeping, remote sync
//! planning, discovery of machines on the network and service control.

use vstd::prelude::*;

pub mod text;
pub mod text_lines;
pub mod unicode;
pub mod paths;
pub mod performance;
pub mod store;
pub mod log_parser;
pub mod logs;
pub mod backup;
pub mod clock;
pub mod config_editor;
pub mod credentials;
pub mod database;
pub mod deployment;
pub mod discovery;
pub mod file_browser;
pub mod file_sync;
pub mod search;
pub mod service;
pub mod sorting;
pub mod ssl_manager;
pub mod sync_scheduler;

verus! {

/// How a machine was found.
#[derive(Clone, Copy, Debug, PartialEq, Eq, Structural)]
pub enum DiscoveryMethod {
    MDns,
    PortScan,
    Manual,
}

/// The services of an XAMPP installation.
#[derive(Clone, Copy, Debug, PartialEq, Eq, Structural)]
pub enum ServiceType {
    Apache,
    MySQL,
    FileZilla,
}

/// The state of a service.
#[derive(Clone, Copy, Debug, PartialEq, Eq, Structural)]
pub enum ServiceState {
    Running,
    Stopped,
    Starting,
    Error,
}

/// A service's state as last observed.
#[derive(Clone, Copy, Debug)]
pub struct ServiceStatus {
    pub name: ServiceType,
    pub status: ServiceState,
    pub port: u16,
    pub pid: Option<u32>,
    pub uptime: Option<u64>,
}

/// A machine running XAMPP on the local network (or this machine).
pub struct Machine {
    pub id: String,
    pub hostname: String,
    pub ip: String,
    pub os: Option<String>,
    pub services: Vec<ServiceStatus>,
    pub last_seen: String,
    pub online: bool,
    pub discovered_via: DiscoveryMethod,
}

/// A change of a service's state on a machine.
pub struct ServiceEvent {
    pub machine_id: String,
    pub service: ServiceType,
    pub status: ServiceState,
}

/// An entry of a directory listing.
pub struct FileEntry {
    pub name: String,
    pub path: String,
    pub size: u64,
    pub modified: String,
    pub is_dir: bool,
}

/// Which parts of the XAMPP installation are present.
pub struct AppHealth {
    pub xampp_root: String,
    pub xampp_available: bool,
    pub openssl_available: bool,
    pub apache_log_available: bool,
    pub mysql_log_available: bool,
}

} // verus!
