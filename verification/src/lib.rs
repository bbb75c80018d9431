//! An intermediate representation for a compiler: construction, analyses and
//! transformations of functions in SSA form.

pub mod ids;
pub mod types;
pub mod instructions;
pub mod blocks;
pub mod functions;
pub mod module;
pub mod builder;
pub mod insert_free;
pub mod inlining;
pub mod environment_layout;
pub mod blade;
pub mod hir;
pub mod lowering;
pub mod variable_uses;
pub mod ssa_hints;
pub mod type_metadata;
pub mod constructors;
pub mod lambdas;
pub mod body_lowering;
pub mod statements;
pub mod conditional;
pub mod module_lowering;
pub mod field_access;
pub mod pattern_test;
pub mod loop_depth;
pub mod enum_registration;
pub mod externs;
pub mod text;
