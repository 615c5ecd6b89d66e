//! Verified core of a router connection-tracking monitor.
pub mod text;
pub mod ipaddr;
pub mod topology;
pub mod conntrack;
pub mod platform;
pub mod soc;
pub mod accelerator;
pub mod app;
pub mod hardware;
