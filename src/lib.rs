//! Conjugate Bayesian inference building blocks: sufficient statistics that
//! fold observations into fixed-size accumulators, views over data that is
//! either raw or already reduced, the laws those accumulators obey, and the
//! shape rules of the Normal-Inverse-Wishart prior.
pub mod data;
pub mod laws;
pub mod niw;
pub mod traits;
