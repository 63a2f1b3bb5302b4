//! An embeddable interactive command-line shell: a span-annotated
//! command grammar with tolerant and strict parsers, a live edit
//! buffer with history and completion suggestions, variable expansion
//! and argument materialization, syntax-highlighted rendering, and a
//! dispatcher that runs at most one command at a time.
pub mod ast;
pub mod buffer;
pub mod executable;
pub mod grammar;
pub mod history;
pub mod laws;
pub mod paint;
pub mod parser;
pub mod pos;
pub mod programs;
pub mod render;
pub mod shell;
pub mod sink;
pub mod store;
pub mod symbols;
pub mod transform;
