//! Verified core of a Prometheus exporter for the Ookla Speedtest command-line tool:
//! reading the exporter's settings, preparing and interpreting a speedtest run, and
//! keeping the exported server-information series consistent.
use vstd::prelude::*;

pub mod config;
pub mod decimal;
pub mod metrics;
pub mod runner;

verus! {

/// The text of an optional string.
pub open spec fn opt_view(o: Option<String>) -> Option<Seq<char>> {
    match o {
        Some(s) => Some(s@),
        None => None,
    }
}

} // verus!
