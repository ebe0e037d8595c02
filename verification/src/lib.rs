//! Migration of wicked interface configurations into NetworkManager-style
//! connections: per-technology translation, controller/port resolution and
//! DNS priority assignment.

pub mod batches;
pub mod bond;
pub mod bridge;
pub mod cli;
pub mod connection;
pub mod infiniband;
pub mod interface;
pub mod ip;
pub mod mac;
pub mod migrate;
pub mod model;
pub mod netconfig;
pub mod netconfig_dhcp;
pub mod outcome;
pub mod ovs;
pub mod passes;
pub mod reader;
pub mod report;
pub mod settings;
pub mod state;
pub mod text;
pub mod topology;
pub mod tuntap;
pub mod unhandled;
pub mod vlan;
pub mod wireless;
