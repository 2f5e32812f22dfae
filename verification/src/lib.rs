pub mod a2a;
pub mod app;
pub mod db;
pub mod json;
pub mod llm;
pub mod mcp;
pub mod shell;
pub mod text;
pub mod ui;
