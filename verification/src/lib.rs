//! Tiandi furnace: the verified core of a local LoRA training workbench.
//!
//! Model families, the run state machine and its supervisor, near-duplicate
//! grouping of image hashes, dataset scans and training mirrors, caption
//! editing, recipe validation and the kernel configuration writers.
//!
//! Every function here computes on plain values; reading and writing files,
//! the database, the HTTP server and the kernel process belong to the
//! application around it.

pub mod family;
pub mod text;
pub mod state;
pub mod hash;
pub mod number;
pub mod recipe;
pub mod compat;
pub mod engine;
pub mod domain;
pub mod paths;
pub mod naming;
pub mod api;
pub mod supervisor;
pub mod dataset;
pub mod queue;
pub mod captions;
pub mod scan;
pub mod mirror;
pub mod doctor;
