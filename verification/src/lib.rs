//! Locate, preview and remove named program units (modules, functions,
//! subroutines) from Fortran source text, keeping an auditable backup of
//! every removed span.
//!
//! The library works on plain bytes: the caller reads the file, hands the
//! content in, and persists whatever comes back.  All location, removal and
//! suggestion logic is verified; file and terminal handling live outside.

pub mod classify;
pub mod laws;
pub mod locate;
pub mod messages;
pub mod patterns;
pub mod pipeline;
pub mod refs;
pub mod suggest;
pub mod text;
pub mod transform;
