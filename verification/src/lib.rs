//! Verified core of a Prometheus exporter for Borg backup repositories.
//!
//! The crate models the two JSON documents that `borg list --json` and
//! `borg info --json` print, encodes and decodes their timestamps, selects
//! the latest archive, and decides what each gauge reads after a scrape.
//! Running the tool, decoding JSON and serving the metrics are left to the
//! program that links this library.

pub mod borg;
pub mod metrics;
pub mod publisher;
