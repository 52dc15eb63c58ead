//! Adaptive inference with ternary weights, model hotswap and version tracking.
//!
//! Three pieces work together:
//!
//! 1. **Ternary weights** ([`TernaryTensor`]): two bits per weight, so one byte holds
//!    sixteen times as many weights as in FP32. A matrix-vector product is a run of
//!    additions and subtractions, with no multiplication.
//! 2. **Hotswap** ([`HotswapSlot`]): the running model is replaced between batches by
//!    swapping one pointer. A batch that already loaded a model keeps that model; the
//!    next batch sees the new one.
//! 3. **Version tracking** ([`VersionCrdt`]): every replica records which model version
//!    it has reached, and replicas merge their records in any order, any number of
//!    times, without a coordinator.
//!
//! [`AdaptiveInferencePipeline`] joins them: it runs batches of frames through the
//! current model and keeps the version record up to date.
//!
//! The element type of frames and outputs is a parameter, [`Arithmetic`]: every result
//! is stated as the exact run of elementary operations that produces it, so the
//! contracts hold for IEEE floats, whose operations round, as well as for [`Integers`].
pub mod arithmetic;
pub mod crdt;
pub mod model;
pub mod pipeline;
pub mod replicas;
pub mod slot;
pub mod tensor;
pub mod trit;
pub mod version;

pub use arithmetic::{Arithmetic, Integers};
pub use crdt::VersionCrdt;
pub use model::{InferenceResult, TernaryModel};
pub use pipeline::AdaptiveInferencePipeline;
pub use slot::HotswapSlot;
pub use tensor::TernaryTensor;
pub use trit::Trit;
pub use version::{ModelVersion, NodeId};
