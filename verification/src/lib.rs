//! The logic of the ZIOFA observability daemon: decoding the records that
//! its eBPF programs write, turning them into events, aggregating events into
//! time series, the filter tables built from a configuration, the symbol
//! cache and symbol parsing, and the decisions of its actors.
use vstd::prelude::*;

pub mod aggregator;
pub mod aya_wrapper;
pub mod calls;
pub mod collector;
pub mod config;
pub mod counter;
pub mod events;
pub mod features;
pub mod filesystem;
pub mod filters;
pub mod items;
pub mod keyed_map;
pub mod map_update;
pub mod oat_lookup;
pub mod odex_symbols;
pub mod procfs_utils;
pub mod registry;
pub mod supervision;
pub mod symbols;
pub mod time_series;
