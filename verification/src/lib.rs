//! The acquisition and installation engine of a developer-tool installer:
//! it resolves catalog entries to concrete downloadable artifacts across
//! several source strategies, plans installation steps under dry-run and
//! cancellation, tracks streamed-download progress, drives a queue of jobs
//! through a one-way event protocol, and verifies restored backups against
//! recorded content hashes.  All logic here is verified; the thin shell
//! around it performs the network, file and process work the plans call
//! for.

pub mod catalog;
pub mod distro;
pub mod foreign;
pub mod host;
pub mod installer;
pub mod resolver;
pub mod restorer;
pub mod runner;
pub mod session;
pub mod text;
