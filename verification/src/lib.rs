//! A chain of interceptors in front of a router, and an interceptor that
//! enforces a CORS policy.
//!
//! An interceptor sees each request on its way in and each response on its
//! way out. A [`MiddlewareBuilder`] collects interceptors and runs the chain
//! they make: the interceptor attached first is invoked first and wraps
//! those attached after it, and an interceptor that answers a request
//! itself keeps it from everything behind. [`CorsMiddleware`] answers preflights under a [`Config`] and
//! decorates every other response.
//!
//! Every function of the library has a contract that Verus proves, but for
//! the calls into other crates, which are gathered in [`wire`].

pub mod builder;
pub mod cors;
pub mod interceptor;
pub mod middleware;
pub mod text;
pub mod wire;

pub use builder::MiddlewareBuilder;
pub use cors::{
    handle_preflight, response_with_cors, Config, ALL_HEADERS, ALL_METHODS, ALL_ORIGINS,
    NO_ORIGINS,
};
pub use interceptor::CorsMiddleware;
pub use middleware::{Arrival, Flow, Middleware, Next};
