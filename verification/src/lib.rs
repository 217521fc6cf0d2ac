//! Coverage tooling for instrumented WebAssembly builds: finding the
//! instrumented modules of a build, stubbing out the function bodies of their
//! LLVM IR, naming the files of the coverage workspace and building the
//! command lines of the LLVM tools that merge profiles and render reports.
//!
//! Every function here works on plain values (bytes, strings, lists) and
//! carries a contract; reading and writing files and running the tools is
//! left to the caller.

pub mod artifacts;
pub mod cargo;
pub mod dir;
pub mod ir;
pub mod llvm;
pub mod near;
pub mod near_sandbox;
pub mod paths;
pub mod pipeline;
pub mod report;
pub mod text;
pub mod utils;
pub mod version;
