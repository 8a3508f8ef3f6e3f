//! The decisions of a Zed extension that drives the cortex-debug adapter for
//! embedded ARM/Cortex-M debugging: which requests it accepts, how it
//! completes a user's debug configuration, how it starts the adapter and how
//! it turns a new-session request into a debug scenario.

pub mod adapter;
pub mod dap;
pub mod defaults;
pub mod json;
pub mod scenario;
pub mod text;
