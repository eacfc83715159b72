//! Migi — a symbiotic agent that observes a host system, learns its
//! behaviour and earns the right to intervene step by step.
//!
//! The verified core: symbiosis phases and their permissions, trust
//! scoring and phase transitions, intervention authorization, log and
//! metrics classification, the statistical learner, the decisions of the
//! agent's main loop, status snapshots and their bounded history, the
//! sandbox simulation and the encrypted secrets container.
//!
//! Accuracies, thresholds, anomaly probabilities and resource percentages
//! are fixed-point integers in millionths; shares of two counts (trust
//! scores, pattern shares) are exact fractions; see [`fixed`].

pub mod agent;
pub mod config;
pub mod error;
pub mod fixed;
pub mod intervener;
pub mod learner;
pub mod monitor;
pub mod observer;
pub mod sandbox;
pub mod secrets;
pub mod text;
pub mod trust;

pub use error::{MigiError, MigiResult};
