pub mod context;
pub mod convert;
pub mod error;
pub mod handlers;
pub mod metrics;
pub mod models;
pub mod monitor;
pub mod owlban;
pub mod protocols;
pub mod responses;
pub mod service;
pub mod sse;
pub mod text;
