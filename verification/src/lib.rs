//! Fixed first-generation Rust style rules used by Qubit Rust projects.
//!
//! The rules are checked over a [`ProjectSnapshot`]: the walked source,
//! test and other trees of a project with the text of each Rust file, its
//! exception file, Cargo workspace metadata when needed, and the opt-in
//! environment switches.  Every rule is stated as a specification and the
//! checker is proved to report exactly what the specification says.

pub mod diagnostic;
pub mod error;
pub mod exceptions;
pub mod formatter;
pub mod laws;
pub mod paths;
pub mod project;
pub mod report;
pub mod rules;
pub mod syntax;
pub mod text;

pub use diagnostic::Diagnostic;
pub use error::StyleError;
pub use exceptions::ExceptionConfig;
pub use exceptions::StyleException;
pub use formatter::check_project;
pub use formatter::fix;
pub use formatter::fix_project;
pub use formatter::FixOutcome;
pub use formatter::FormatterAction;
pub use formatter::FormatterOutcome;
pub use paths::project_relative_path;
pub use project::check;
pub use project::ProjectSnapshot;
