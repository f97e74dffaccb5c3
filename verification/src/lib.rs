//! Build orchestration for compiling a guest package into a compact,
//! verified, portable WebAssembly binary for sandboxed benchmarking.
//!
//! The library holds every decision and computation of the pipeline:
//! feature resolution, synthetic-workspace manifest generation, build
//! profile detection, compiler flag composition, artifact path layout,
//! post-processing decisions and metadata verification. The thin driver
//! that touches the file system, the environment and external processes
//! lives outside and consumes the plans computed here.

pub mod artifact;
pub mod features;
pub mod manifest;
pub mod profile;
pub mod publish;
pub mod sections;
pub mod paths;
pub mod pipeline;
pub mod text;
pub mod toolchain;
