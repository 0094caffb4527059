pub mod stream_state_machine;
pub mod stream_reset;
pub mod connection_error;
pub mod server_push;
pub mod header_validation;
pub mod alpn;
pub mod flow_controller;
pub mod frame;
pub mod frame_encoder;
pub mod hpack_encoder;
pub mod hpack;
pub mod stream_priority;
pub mod upstream_wiring;
pub mod h2_reader;
pub mod transcode;
pub mod upstream_response_transcoder;
pub mod frame_forwarder;
pub mod h2_upstream_client;
pub mod h2_proxy_bridge;
pub mod header_redactor;
pub mod per_stream_redactor;
pub mod stream_state;
pub mod stream_manager;
pub mod upstream_pool;
