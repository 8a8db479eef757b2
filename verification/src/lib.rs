//! Filesystem-delta mutators for coverage-guided fuzzing of programs that read
//! a whole directory tree (container runtimes and the like).

pub mod baseline;
pub mod delta;
pub mod feedback;
pub mod ffi;
pub mod gen;
pub mod glue;
pub mod guidance;
pub mod harness;
pub mod mutators;
pub mod pool;
pub mod rng;
pub mod seeds;
pub mod symlink_mutators;
pub mod symlink_utils;
pub mod text;
