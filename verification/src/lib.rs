//! Per-interface network traffic counters.
//!
//! The library keeps one counters record per interface name, refreshed from
//! two outside data sources: the kernel's routing-interface message buffer
//! (parsed here as bounds-checked bytes) and an address lookup that yields
//! link-layer and IPv4 addresses. Callers fetch the raw data, hand it over as
//! plain values, and read cumulative totals and since-last-refresh deltas.

pub mod addr;
pub mod data;
pub mod laws;
pub mod parse;
pub mod table;
