//! Reading the declarative description of a container that the derive
//! front end hands over, and turning it into building steps.

pub mod lexer;
pub mod attribute;
pub mod model;
pub mod derive;
pub mod generate;
