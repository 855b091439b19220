//! Decision logic of a priority-driven Kubernetes controller for the
//! `RTResource` custom resource: the priority event queue, the worker pool
//! and its autoscaler, the reconciliation plans and the status updates.
pub mod decimal;
pub mod configuration;
pub mod event_queue;
pub mod message;
pub mod vars;
pub mod labels;
pub mod rtresource;
pub mod scheduling;
pub mod watchers;
pub mod state_updater;
