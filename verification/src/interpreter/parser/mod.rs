pub mod ast_types;
