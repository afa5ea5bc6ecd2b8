//! Control plane and data-plane decisions of the Velstra virtual network fabric.

pub mod addr;
pub mod addr_laws;
pub mod admin;
pub mod audit;
pub mod authz;
pub mod client;
pub mod config;
pub mod controller;
pub mod datapath;
pub mod datum;
pub mod error;
pub mod evpn;
pub mod evpn_fold;
pub mod fabric_config;
pub mod fabric_laws;
pub mod firewall;
pub mod ipam;
pub mod lists;
pub mod live;
pub mod lookup;
pub mod messages;
pub mod orchestrator;
pub mod overlay;
pub mod reply;
pub mod resources;
pub mod rest;
pub mod sorted;
pub mod srv6;
pub mod srv6_report;
pub mod startup;
pub mod stats;
pub mod store;
pub mod text;
pub mod topology;
pub mod topology_laws;
pub mod topology_save;
pub mod translation;
pub mod webhook;
