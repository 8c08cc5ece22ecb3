//! Configuration-driven mock and proxy daemon library.
//!
//! A configuration file describes named setups; each setup holds HTTP/HTTPS
//! servers with per-route mock responses or forwarding rules, and TCP
//! listeners that replay scripted byte streams.  This crate holds the
//! configuration model, the parameter resolver, the endpoint matcher, the
//! mock responder, the route-forwarding planner and the TCP listener state
//! machine, each with a verified contract.

pub mod collections;
pub mod config;
pub mod dispatch;
pub mod error;
pub mod matcher;
pub mod mock;
pub mod model;
pub mod params;
pub mod route;
pub mod settings;
pub mod setup;
pub mod subst;
pub mod tcp;
pub mod tls;
pub mod text;
