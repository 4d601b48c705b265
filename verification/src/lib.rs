pub mod automation_engine;
pub mod context;
pub mod entries;
pub mod fs;
pub mod host;
pub mod interpreter;
pub mod lexer;
pub mod modules;
pub mod parser;
pub mod runner;
pub mod task_management;
pub mod text;

pub use context::RuntimeContext;
