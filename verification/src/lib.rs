//! Core of a metrics-collection agent extension: a bit-exact codec for
//! collectd's 2^-30-second fixed-point time encoding, an identifier
//! sanitizer, a record builder for the graphite line protocol, and a
//! dispatch path that hands finished lines to configured sinks.

pub mod cdtime;
pub mod sanitize;
pub mod record;
pub mod sink;
pub mod router;
pub mod config;
