//! A package-installation dispatcher: classifies a declarative install
//! request by ecosystem, parses its comma-separated package list, and
//! builds the exact command line (executable plus argument vector) for
//! the target package manager.

pub mod dispatch;
pub mod text;
