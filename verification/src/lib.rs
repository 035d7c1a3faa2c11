//! A forward HTTP proxy core: request classification and dispatch, a
//! data-driven destination rewriter, CONNECT tunnel establishment as a
//! state machine, and a byte-relay model with transfer accounting.
//!
//! The networking shell (listener, outbound HTTP client, TCP connects)
//! lives outside this crate and drives these components with plain values.

pub mod authority;
pub mod config;
pub mod dispatch;
pub mod relay;
pub mod rewrite;
pub mod tunnel;
pub mod uri;
