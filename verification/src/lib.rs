//! A scanner for the open TCP ports of a local network, as a library of
//! decisions: what to scan, in which order and how many at a time, when to
//! stop, what an answer is worth as a banner, and which service it suggests.
//! The library never touches the network. Its drivers connect, read and
//! write, and report what came of it.
//!
//! - `ports`: the text format of port lists, and the built-in lists.
//! - `netdetect`: networks in CIDR notation and the hosts they span.
//! - `scanner`: the scan engine, with admission, cancellation and progress.
//! - `probe`: the probing of one open port, step by step.
//! - `fingerprint`: banners, HTTP responses, and the naming of services.
//! - `cert`: what a TLS certificate contributes to a banner.
//! - `server`: requests for scans, and which scan counts.
//! - `report`: the table of results.
//! - `types`: the records that a scan produces.
//! - `text`: operations on sequences of characters.

pub mod cert;
pub mod fingerprint;
pub mod netdetect;
pub mod ports;
pub mod probe;
pub mod report;
pub mod scanner;
pub mod server;
pub mod text;
pub mod types;
