//! Core logic of the NPS intranet-penetration server and of its DAO source
//! generator: traffic counters, protocol framing, key tables, pool and
//! session bookkeeping, request-error decoding, and the text processing that
//! turns `CREATE TABLE` statements and mapper files into Rust source.
use vstd::prelude::*;

pub mod application;
pub mod dao;
pub mod extension;
pub mod make_dao;
pub mod model;
pub mod nps;
pub mod text;
pub mod util;
pub mod utils;
pub mod web;
