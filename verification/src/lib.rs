mod ts;
pub mod syntax;
pub mod text;
pub mod definition;
pub mod query;
pub mod raises;
pub mod args;
pub mod render;
pub mod dataclass;
pub mod docgen;
pub mod completion;
pub mod store;
pub mod platform;
pub mod laws;

pub use definition::find_definition_above;
pub use docgen::generate_docstring;
pub use ts::{python_parser, PythonParser};
