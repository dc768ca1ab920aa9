//! Packs the `bool` and `Option<bool>` fields of a named-field record into
//! one bit-flags field.
//!
//! The engine works on a plain description of the record and produces a plain
//! description of everything that has to be emitted: the flat twin of the
//! record, the compacted record, the flags type, the two conversions and the
//! accessors. [`packed`] gives the meaning of the emitted code as executable
//! values, and the laws that relate the two shapes are proved there.
pub mod accessors;
pub mod annotations;
pub mod args;
pub mod cfg;
pub mod classify;
pub mod engine;
pub mod error;
pub mod flags;
pub mod flags_type;
pub mod layout;
pub mod naming;
pub mod packed;
pub mod record;
