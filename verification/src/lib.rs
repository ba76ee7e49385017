//! Parts of the front end of a compiler from Hack to bytecode, with
//! machine-checked contracts.
//!
//! The core is the model of source positions ([`pos`]) and the harvest of
//! comments and suppression pragmas from a lossless syntax tree
//! ([`scour_comment`]). Around it stand the view of a source file that
//! turns byte offsets into positions, the syntax tree as far as the harvest
//! reads it, and small helpers for the bytecode assembly: symbol
//! references, type constraints and transformations of names.

pub mod decimal;
pub mod text;

pub mod relative_path;
pub mod file_pos;
pub mod file_pos_small;
pub mod file_pos_large;
pub mod pos;

pub mod line_break_map;
pub mod source_text;
pub mod indexed_source_text;
pub mod syntax;
pub mod suppression;
pub mod ignore_pattern;
pub mod scoured_comments;
pub mod scour_comment;
pub mod scour_laws;

pub mod errors;
pub mod escaper;
pub mod hhas_symbol_refs;
pub mod hhas_type;
pub mod string_utils;
