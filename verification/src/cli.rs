//! What the command line asks for, as operations of the engine.

pub mod toolchain;
pub mod update;
