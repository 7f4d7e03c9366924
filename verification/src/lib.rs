//! A composition runtime for AI workloads: a registry of interchangeable
//! service implementations keyed by their concrete type, strategies that
//! choose among the registered services, and the kernel that binds a
//! registry, a strategy, plugins and hooks into one context.
//!
//! Every function is verified with Verus; what is taken on trust is
//! confined to `services::erasure`.

pub mod builders;
pub mod filing;
pub mod hooks;
pub mod kernel;
pub mod plugins;
pub mod services;

pub use kernel::{Kernel, KernelBuilder};
