//! Renders commented, round-trippable TOML example documents from record
//! schemas: each field with its documentation and example value, optional
//! fields commented out, nested records as dotted keys or sections.
pub mod attrs;
pub mod case;
pub mod field;
pub mod laws;
pub mod render;
pub mod scan;
pub mod text;
pub mod types;

pub use attrs::{
    parse_attrs, Attr, AttrMeta, ConfigError, DefaultSource, ErrorKind, NestingFormat, NestingType,
};
pub use case::RenameRule;
pub use field::{parse_field, FieldDecl, ParsedField};
pub use render::{
    toml_example, toml_example_with_prefix, value_expression, DefaultValues, RecordDecl, Schema,
};
pub use types::TypeDesc;
