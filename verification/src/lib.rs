//! Forwarding of HTTP requests through rotating upstream proxies: the
//! proxy pool, the forwarding engine's decisions before and after the
//! outbound call, and the routing layer's decisions.

pub mod generator;
pub mod headers;
pub mod pool;
pub mod request;
pub mod server;
pub mod text;

pub use generator::generate_fake_proxies;
pub use pool::ProxyPool;
pub use request::{
    make_https_request, read_https_response, ForwardError, ForwardRequest, ForwardResult, Method,
    RawResponse, TransportOutcome,
};
pub use server::{
    cors_policy, handle_proxy_request, handle_proxy_response, handle_rejection_with_custom,
    CorsPolicy, CustomError, ProxyRequest, RejectionReply,
};
