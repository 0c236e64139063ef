//! Kernel configuration: the sd-scripts TOML and ai-toolkit YAML writers, the
//! kernel modes and the kernel environment checks.

pub mod escape;
pub mod sdscripts;
pub mod aitk;
pub mod kernel;
pub mod launch;
