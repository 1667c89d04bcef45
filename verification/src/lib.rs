//! A sidecar that keeps a folder in step with ConfigMaps and Secrets of a
//! Kubernetes cluster: every data key of a resource with the wanted label
//! becomes a file, and files go when their keys, or their resources, do. After
//! a change a script can be run and a URL requested.
//!
//! This crate holds what the sidecar decides and computes. Calls of the API,
//! work on files and HTTP exchanges take place outside of it: the crate hands
//! out what is to be done next, as plain values, and takes back what came of
//! it. Only the clock and the time zone it reads itself, for log lines. The
//! modules, from the bottom up:
//!
//! - [`outside`]: what is taken from other crates on trust.
//! - [`text`], [`number`], [`ordered`]: strings, numbers in writing, and maps
//!   with ordered keys.
//! - [`env`]: the environment variables.
//! - [`logger`]: log lines, where they go, and the rotation of log files.
//! - [`kubeapi`]: resources as the sync sees them, and calls of the API.
//! - [`cache`]: what is remembered of the resources synced so far.
//! - [`plan`]: what is to be done to the files of a resource.
//! - [`files`], [`http`], [`script`]: writing files, requests, and scripts.
//! - [`health`]: the health endpoint.
//! - [`resources`], [`listing`], [`watching`]: syncing from lists and from
//!   watch connections.
//! - [`startup`], [`launch`]: from flags and environment to running watchers.
//! - [`laws`], [`effect`]: what holds of the sync as a whole, and what it
//!   leaves in the folders.
//! - [`sync_laws`], [`order_laws`]: what a list or an event does to the files
//!   of a resource, and in which order.
//! - [`cache_laws`], [`resource_laws`], [`request_laws`], [`start_laws`],
//!   [`output_laws`], [`message_laws`]: what holds of single calls, and of
//!   several calls together.

pub mod cache;
pub mod cache_laws;
pub mod effect;
pub mod env;
pub mod files;
pub mod health;
pub mod http;
pub mod kubeapi;
pub mod launch;
pub mod laws;
pub mod listing;
pub mod logger;
pub mod message_laws;
pub mod number;
pub mod order_laws;
pub mod ordered;
pub mod output_laws;
pub mod outside;
pub mod plan;
pub mod request_laws;
pub mod resource_laws;
pub mod resources;
pub mod script;
pub mod start_laws;
pub mod startup;
pub mod sync_laws;
pub mod text;
pub mod watching;
