//! Conversion of tabular records into SQL `insert` scripts.
//!
//! A run takes a configuration ([`Arguments`]) and a stream of records, each an
//! ordered list of raw text fields, and produces the text of a script of
//! `insert` statements: values quoted or typed, rows batched into multi-row
//! statements, statements batched into transaction blocks, the whole framed by
//! optional prefix and suffix templates.

pub mod arguments;
pub mod emitter;
pub mod error;
pub mod fields;
pub mod framing;
pub mod laws;
pub mod record;
pub mod target;
pub mod text;
pub mod value;

pub use arguments::{Arguments, Settings};
pub use error::ConvertError;
pub use emitter::Emitter;
pub use fields::{format_fields, format_values, get_fields, get_values};
pub use framing::{frame, is_white_space, render_framing, template_is_safe};
pub use record::{Record, Source};
pub use target::{
    generate_sql, generate_sql_file, resolve_fields, Input, Target, TargetCsv, TargetSql,
};
pub use value::{get_value, is_boolean, is_number};
