pub mod checks;
pub mod codegen;
pub mod config;
pub mod control;
pub mod emit;
pub mod import;
pub mod instance;
pub mod module_code;
pub mod parser;
pub mod trap;
pub mod types;
pub mod vm;
