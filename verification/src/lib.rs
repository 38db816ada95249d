//! Verified core of the Oneil design language front end.
pub mod ast;
pub mod lexer;
pub mod span;
pub mod parser;
pub mod parser_laws;
pub mod eval_order;
pub mod ordmap;
pub mod paths;
pub mod imports;
pub mod ir;
pub mod symbol_lookup;
pub mod resolution_errors;
pub mod compilation;
pub mod design_resolution;
pub mod dependency_graph;
pub mod reference_tree;
pub mod ir_copy;
pub mod instance_graph;
pub mod load_model;
pub mod resolver;
pub mod resolver_laws;
pub mod surface;
pub mod print;
pub mod analysis;
pub mod workspace_path;
pub mod cli_args;
pub mod render;
pub mod value_types;
pub mod errors;
pub mod design_segments;
pub mod diagnostics;
pub mod contribution;
