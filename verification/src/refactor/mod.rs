//! `act refactor`: argument contract, positions, plugin requests and
//! provider resolution.

pub mod arguments;
pub mod flow;
pub mod manifests;
pub mod metrics;
pub mod paths;
pub mod plugin_args;
pub mod positions;
pub mod request_building;
pub mod requirements;
pub mod resolution;
pub mod response_handling;
