//! Operational metrics and background-task supervision for a payment gateway.
//!
//! The metric types are plain values: a recorder takes `&mut self`, and whoever
//! shares a value between threads locks it. [`exposition::render`] turns them
//! into a Prometheus text page. [`supervise::Supervisor`] decides when a
//! background task is restarted, after which delay, and what its health record
//! says.

pub mod auth;
pub mod codes;
pub mod counter;
pub mod duration;
pub mod exposition;
pub mod horizon;
pub mod page;
pub mod supervise;
pub mod tasks;
pub mod text;
pub mod trustline;
pub mod webhook;

pub use auth::AuthMetrics;
pub use duration::Duration;
pub use exposition::render;
pub use horizon::HorizonMetrics;
pub use supervise::{Backoff, Supervisor};
pub use tasks::{TaskHealth, TaskSnapshot};
pub use trustline::TrustlineMetrics;
pub use webhook::WebhookMetrics;
