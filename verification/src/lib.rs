//! Core of a terminal HTTP client: placeholder interpolation, layered
//! variable resolution with secret masking, request building with URL
//! normalization, response classification, and send orchestration under
//! cooperative cancellation.

pub mod appstate;
pub mod builder;
pub mod collection;
pub mod environment;
pub mod error;
pub mod executor;
pub mod focus;
pub mod ids;
pub mod interpolator;
pub mod mode;
pub mod orchestrator;
pub mod request;
pub mod resolver;
pub mod response;
pub mod sidebar;
pub mod text;
pub mod workspace;
