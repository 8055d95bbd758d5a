//! Core of the FormLogic scripting language.
pub mod ast;
pub mod builtins;
pub mod bytecode;
pub mod captures;
pub mod code;
pub mod codegen;
mod compile_assignments;
mod compile_expressions;
mod compile_functions;
mod compile_statements;
pub mod compiler;
pub mod config;
pub mod db_bridge;
pub mod engine;
pub mod env_bridge;
pub mod fs_bridge;
pub mod hash;
pub mod heap;
pub mod host_bridge;
pub mod http_bridge;
pub mod imports;
pub mod intern;
pub mod json;
pub mod json_laws;
mod keep;
mod keep_assignments;
mod keep_expressions;
mod keep_functions;
mod keep_statements;
pub mod key;
pub mod laws;
pub mod layout;
pub mod local_storage;
pub mod machine;
pub mod marking;
pub mod migration;
pub mod names;
pub mod object;
pub mod parts;
pub mod rbranch_laws;
pub mod rclass_laws;
pub mod rcode;
pub mod rcodegen;
mod rcompile_assignments;
mod rcompile_expressions;
mod rcompile_functions;
mod rcompile_statements;
pub mod rcompiler;
pub mod realm;
pub mod render;
pub mod reffects;
pub mod rextend;
mod rextend_assignments;
mod rextend_expressions;
mod rextend_functions;
mod rextend_rules;
mod rextend_statements;
pub mod rjump_laws;
mod rkeep;
mod rkeep_assignments;
mod rkeep_expressions;
mod rkeep_functions;
mod rkeep_statements;
pub mod rlaws;
pub mod rlayout;
pub mod rloop_laws;
pub mod rmeaning;
pub mod roperator_laws;
pub mod rpatches;
pub mod rpattern_laws;
pub mod rrules;
pub mod rsound;
pub mod rules;
pub mod rvalue_laws;
mod scope_names;
pub mod script;
pub mod session;
pub mod sound;
pub mod text;
pub mod value;
