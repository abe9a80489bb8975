//! A JSON document model and the typed parsing that reads game data from it.

pub mod from_value;
pub mod laws;
pub mod parse_error;
pub mod path;
pub mod value;

pub use from_value::{parse_type_err, parse_type_err_res, FromValue};
pub use parse_error::{ParseError, ParseErrorKind, ParseFailure, ParseResult};
pub use path::Path;
pub use value::{Array, Null, Number, Object, Value};
