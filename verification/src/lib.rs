//! Package assembly and visual regression rules for Typst packages.

pub mod compiler;
pub mod config;
pub mod document;
pub mod error;
pub mod glob;
pub mod hash;
pub mod limits;
pub mod packer;
pub mod parser;
pub mod paths;
pub mod rewrite;
pub mod select;
pub mod tester;
pub mod text;
