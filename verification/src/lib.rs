//! A small dependency-injection world: resources, access locks for systems,
//! schedules and the helper crates built around them (validation gates,
//! attribute parsing models, environment-variable deserialization keys,
//! foreign parameter leasing and command routing).

pub mod any_handle;
pub mod local_any_handle;
pub mod resources;
pub mod access;
pub mod meta;
pub mod dependency_graph;
pub mod param;
pub mod commands;
pub mod system;
pub mod world;
pub mod error;
pub mod gateway;
pub mod schedule;
pub mod text;
pub mod attr;
pub mod bind_derive;
pub mod param_derive;
pub mod clap_routes;
pub mod record;
pub mod dust_record;
pub mod trigger;
pub mod assets;
pub mod record_cli;
pub mod valigate;
pub mod params_client;
pub mod serdeenv;
