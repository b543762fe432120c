//! Project-type detection and command resolution for the `qq` command
//! runner: one set of commands (`install`, `start`, `test`, `deploy`, ...)
//! that runs the right thing in every kind of project.
//!
//! - `definition`, `definitions`: the definition schema and the built-in types.
//! - `resolver`: detection, the layer merge and candidate gates; `precedence`
//!   states what they promise, `targets` what they can ask of a directory.
//! - `config`: config paths, loading, and the trust gate.
//! - `cli`: the names, dispatch and text of the command line.
//! - `project_type_trait`, `project_types`, `chain`, `rust`: the hand-written
//!   detection chain; `project_type`, `command_mapping`, `utils`: the first
//!   detection scheme.
//! - `table`, `text`: an ordered string map and string helpers.

pub mod text;
pub mod table;
pub mod definition;
pub mod definitions;
pub mod resolver;
pub mod precedence;
pub mod targets;
pub mod config;
pub mod cli;
pub mod project_type_trait;
pub mod project_types;
pub mod chain;
pub mod parity;
pub mod rust;
pub mod project_type;
pub mod command_mapping;
pub mod utils;

pub use chain::{detect_project, project_command};
