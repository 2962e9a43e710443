//! A format-agnostic value model with verified adapters between it and the
//! Avro and JSON data models.
pub mod avro;
pub mod error;
pub mod readable;
pub mod stream;
pub mod text;
pub mod value;
