//! A "semi-compact" JSON pretty-printer: the overarching structure is laid
//! out multi-line with indentation, while any array or object whose immediate
//! members are all primitive values is kept on a single line.
//!
//! The layout decision is made in a single pass with constant lookahead: the
//! innermost open container buffers its members' already-rendered bytes until
//! either a nested container appears (the buffer is flushed multi-line at
//! once) or the container closes (the buffer is emitted on one line). The
//! formatter state machine lives in [`fmt`], the layout it produces is
//! specified in [`render`], and [`ser`] proves that serializing a [`Json`]
//! value emits exactly that layout. Scalar tokens are delegated to
//! serde_json's compact writer behind the trusted items in [`value`].

pub mod fmt;
pub mod laws;
pub mod render;
pub mod seqs;
pub mod ser;
pub mod value;

pub use fmt::Formatter;
pub use ser::{to_vec, to_vec_with_indent, write_value};
pub use value::Json;
