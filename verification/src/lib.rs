//! Code generation with sections that the user of the generated code may edit.
//!
//! A generator that writes a file anew on every run must not lose what a person
//! wrote into it. The generator marks the regions that belong to the user; before
//! it writes the file again it scans the earlier output, keeps what stands in
//! each region, and writes that back between the same markers.

pub mod code_writer;
pub mod error;
pub mod examples;
pub mod generated_code;
pub mod guarantees;
pub mod markers;
pub mod name_map;
pub mod scanner;
pub mod text;
pub mod user_section;
pub mod utils;

pub use code_writer::CodeWriter;
pub use error::CodeGenError;
pub use examples::{generate_example_header, generate_example_source};
pub use generated_code::GeneratedCodeManager;
pub use user_section::{UserSection, UserSectionManager};
