//! A host-side runtime for authoring massively parallel (SIMT) compute work
//! with reverse-mode automatic differentiation through control flow.
//!
//! The crate has two halves:
//!
//! * `rational` and `tape` implement a tape-based reverse-mode differentiation
//!   engine over an exact rational scalar.  Branches (`if`, `switch`) are
//!   modelled per lane by boolean masks, so every lane receives the gradient
//!   of the branch it actually took, and untaken branches contribute exactly
//!   zero adjoint even when their primal computation is undefined.
//! * `backend`, `command` and `runtime` implement the resource and execution
//!   runtime: a `Device` owning backend handles for buffers, textures,
//!   bindless arrays and streams, and the command-buffer protocol that turns
//!   a recorded sequence of commands into one atomic backend dispatch.
//!
//! The concrete backend is a capability interface (`backend::Backend`); the
//! runtime calls it but never implements a hardware target.  A verified
//! in-memory backend (`backend::ModelBackend`) records every call it
//! receives, which lets the resource-lifetime and commit-atomicity rules be
//! stated over the exact sequence of backend calls.

pub mod backend;
pub mod command;
pub mod laws;
pub mod rational;
pub mod runtime;
pub mod tape;
