//! Core logic of a desktop launcher for the `file2book` conversion tool.
//!
//! The launcher resolves which Python interpreter to run (explicit override,
//! bundled runtime next to the application binary, or system fallback),
//! builds the tool's command line from typed options, and reduces the child
//! process's captured output to either a result path or a failure message.
//! Everything here is pure decision logic over plain values; the surrounding
//! application performs the environment reads, filesystem probes and the
//! process spawn, and hands their outcomes in as arguments.

pub mod args;
pub mod decimal;
pub mod options;
pub mod outcome;
pub mod resolver;
pub mod views;

pub use args::build_cli_arguments;
pub use decimal::i32_to_string;
pub use decimal::u64_to_string;
pub use options::File2BookOptions;
pub use outcome::extract_final_path;
pub use outcome::interpret_tool_output;
pub use outcome::split_lines;
pub use outcome::trim_str;
pub use resolver::ExeDirStatus;
pub use resolver::bundled_python_candidates;
pub use resolver::discover_bundled_python;
pub use resolver::locate_python_path;

