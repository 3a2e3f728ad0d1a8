//! Detection of installed CAD applications, download planning for drawings
//! and the decisions that open a drawing in a detected application.
//!
//! Everything that touches processes, the network or the environment is
//! left to the caller: the library says which process to spawn next, which
//! request to send and which outcome to report, and is told what happened.
pub mod catalog;
pub mod detect;
pub mod download;
pub mod launch;
pub mod model;
pub mod orchestrate;
pub mod report;
pub mod text;

pub use model::{CADResult, CADSoftware, DetectionResult};
