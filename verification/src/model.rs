//! Core data model: the closed set of recognized build systems and the
//! record produced by one build attempt.

use vstd::prelude::*;

verus! {

/// The build tooling a project uses, classified from marker files.
#[derive(Debug, Clone, Copy, PartialEq, Eq, Structural)]
pub enum BuildSystem {
    Cargo,
    Makefile,
    CMake,
    PlatformIO,
    ZephyrWest,
    STM32CubeIDE,
    SCons,
}

/// The outcome of a single build attempt; never mutated after creation.
#[derive(Debug, Clone)]
pub struct BuildResult {
    pub success: bool,
    pub output_path: Option<String>,
    pub target_format: Option<String>,
    pub error_output: Option<String>,
    pub build_system: BuildSystem,
    pub duration_ms: u64,
}

} // verus!
