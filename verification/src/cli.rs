//! What the command line asks for.

pub mod admin;
pub mod arguments;
pub mod doctor;
pub mod editor;
pub mod management;
pub mod mapping;
pub mod merge;
pub mod preflight;
pub mod probe;
pub mod samples;
pub mod source;
