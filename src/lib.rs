//! Generation of companion record types in which every field is optional, together with
//! the conversion that restores a full record from one.
//!
//! A base type is described by [`TypeDescription`]; [`expand`] reads a configuration
//! (`derives = [..], prefix = "..", suffix = "..", visibility = ..`) and renders the base type
//! without its nesting markers, the companion type and `From<companion> for base`.
//! [`convert`] carries out that conversion on values, for a record described by a
//! [`RecordModel`].
pub mod config;
pub mod emit;
pub mod model;
mod text;
pub mod value;

pub use config::{parse_settings, ConfigError, ConfigErrorKind, Settings};
pub use emit::{
    base_decl, companion_decl, companion_name, conversion, expand, generate, Generated,
};
pub use model::{
    classify, has_nested_attr, is_nested_attr, is_option_type, Attribute, FieldCategory,
    FieldDescription, TypeDescription, TypeRef,
};
pub use value::{convert, copy_value, copy_values, RecordModel, Slot, Value};
