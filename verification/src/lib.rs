use vstd::prelude::*;

pub mod h2;
pub mod bytes;
pub mod text;
pub mod unicode;
pub mod string_map;
pub mod proxy_resolver;
pub mod header_rewriter;
pub mod location_rewriter;
pub mod http_proxy_handler;
pub mod parser;
pub mod models;
pub mod host_identification;
pub mod pattern_selector;
pub mod pattern_metadata;
pub mod secrets;
pub mod config;
pub mod connect;
pub mod fixed_upstream;
pub mod http_headers;
pub mod streaming_request;
pub mod streaming_response;
pub mod streaming_policy;
pub mod env_detection;
pub mod chunked_parser;
pub mod dns_resolver;
pub mod dns_cache;
pub mod cached_dns_resolver;
pub mod connection_pool;
pub mod pooled_dns_resolver;
pub mod optimized_dns_resolver;
pub mod multi_upstream_pool;
pub mod configurable_engine;
pub mod http_line_reader;

verus! {

} // verus!
