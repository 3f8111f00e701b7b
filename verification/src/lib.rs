//! Schema extraction for the Telegram Bot API reference page.
//!
//! A parsed page ([`document`]) is cut into raw records, one per documented
//! entity ([`parse`]), and the string cells of those records are then read
//! into a typed schema ([`transform`], [`schema`]).

pub mod boundary;
pub mod document;
pub mod dropped;
pub mod headings;
pub mod parse;
pub mod schema;
pub mod table;
pub mod text;
pub mod transform;

pub use schema::{primitives, Change, Field, Method, Param, Primitive, Required, Schema, Type};
