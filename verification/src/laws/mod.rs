//! Properties of the library as a whole, stated over the specifications
//! that the checking functions are proved against.

pub mod exceptions;
pub mod formatting;
pub mod imports;
pub mod paths;
pub mod rules;
pub mod reports;
