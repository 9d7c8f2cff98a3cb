//! A parser for LaCoN, a line-oriented configuration language with typed
//! scalars, multi-line text blocks, imports and variables.
//!
//! [`parser`] reads a bare token as a typed scalar, with the unit families
//! of [`units`] and the numbers of [`numeral`]; [`laws`] holds what is true
//! of every token. [`line`] tells the forms of a line apart, [`document`]
//! reads the lines of one document into an object of [`value`], and
//! [`loader`] loads a document with the documents that it imports. None of
//! them touches a file: the caller reads what the loader asks for. No
//! number is ever rounded here either: a number with a fraction is kept as
//! it was written.
//!
//! [`interpretator`] is apart from all this: a small model of objects and
//! prototypes.

pub mod assoc;
pub mod ast;
pub mod context;
pub mod document;
pub mod interpretator;
pub mod laws;
pub mod line;
pub mod loader;
pub mod numeral;
pub mod parser;
pub mod text;
pub mod units;
pub mod value;

pub use context::{ImportStack, ParserContext, VariableRegistry};
pub use document::{
    parse_single_value, process_quoted_multiline, process_raw_multiline, resolve_variables,
    unwrap_quotes, DocumentParser,
};
pub use loader::{LoadError, Loader, Located, Request};
pub use numeral::Numeral;
pub use parser::{
    parse_angle, parse_data_size, parse_fraction, parse_frequency, parse_length,
    parse_percentage, parse_string_literal, parse_time, parse_typed_value, parse_value,
};
pub use units::{AngleUnit, DataSizeUnit, FrequencyUnit, LengthUnit, Scale, TimeUnit};
pub use value::{Dictionary, LaCoNValue};
