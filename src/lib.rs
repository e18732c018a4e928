//! The stylesheet pipeline: compiling class-name patterns and generating
//! scoped names, collecting a stylesheet's dependencies, recording how each
//! class name was treated, and the state machine that orders the phases of a
//! run and decides what it returns.

pub mod deps;
pub mod diagnostics;
pub mod modules;
pub mod naming;
pub mod pattern;
pub mod pipeline;
