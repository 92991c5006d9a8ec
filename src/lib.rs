//! A signature-to-wrapper compiler for exporting native functions to an
//! embedded dynamic-language runtime.
//!
//! The library works on a plain model of a function declaration: its
//! attributes and its parameters. From it, it decodes the export directive,
//! extracts a uniform description of each parameter, plans the generated
//! wrapper, and decides at call time how each parameter receives its value.
pub mod directive;
pub mod marshal;
pub mod module;
pub mod naming;
pub mod signature;
pub mod wrapper;
