//! A name-based HTTP/WebSocket reverse proxy core.
//!
//! One listening endpoint accepts client connections and forwards each
//! request to one of several configured upstream services, selected by
//! matching the request's Host header against an ordered, runtime-mutable
//! routing table. The modules here hold the decision logic of that proxy:
//! routing-table lookup, the per-request forwarding plan (target
//! construction, hop-by-hop header hygiene, forwarding headers), the
//! WebSocket bridge state machine, and the error taxonomy with its uniform
//! rendering. The surrounding server glue performs the actual network I/O.

pub mod text;
pub mod table;
pub mod shared;
pub mod error;
pub mod headers;
pub mod tokens;
pub mod uri;
pub mod pipeline;
pub mod bridge;
pub mod frontend;
pub mod config;
