//! A command-line option parser: options are registered under a unique name
//! with an optional short form and an optional long form, a token sequence is
//! scanned to collect option values and positional arguments, and the results
//! are exposed through lookup accessors and a rendered help message.

pub mod laws;
pub mod model;
pub mod parser;

pub use model::RegisterError;
pub use parser::CliOption;
pub use parser::CliOptionParser;
pub use parser::OptionValue;
