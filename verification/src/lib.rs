//! The decision core of a DHCPv4 server whose leases and options come from
//! configurable host sources.

pub mod address;
pub mod assoc;
pub mod config;
pub mod error;
pub mod lenient;
pub mod option;
pub mod packet;
pub mod parsed;
pub mod server;
pub mod sources;
pub mod template;
pub mod text;
pub mod value;
