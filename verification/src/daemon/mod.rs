//! The adaptive daemon loop: what is due, what is owed an alert, when to wake,
//! and what an inbound message is answered.
//!
//! One pass of the loop discovers manifests, dispatches what is due, sweeps
//! for alerts, and sleeps until the next thing happens. Clocks, processes and
//! files stay outside; the decisions are here.

pub mod alerts;
pub mod cache;
pub mod dispatch;
pub mod lifecycle;
pub mod local;
pub mod schedule;
pub mod screen;
