//! Verified core of the Azeroth dashboard: alert throttling, Prometheus text
//! parsing, dashboard layout, world server process selection, alert delivery
//! planning and the browser poll loop's decisions.

pub mod alert;
pub mod dashboard;
pub mod metrics;
pub mod notify;
pub mod number;
pub mod poller;
pub mod process;
pub mod text;
