//! Text buffers for shaping: the Unicode
//! buffer that collects text and segment properties before shaping, the
//! glyph buffer that holds the result, and the text and JSON serializers of
//! glyph buffers, each with its contract proved.

pub mod buffer;
pub mod common;
pub mod debug;
pub mod script;
pub mod serialize;
pub mod serializer;
pub mod text;
pub mod utf8;

pub use buffer::{Codepoints, GenericBuffer, GlyphBuffer, TypedBuffer, UnicodeBuffer};
pub use common::{Feature, GlyphInfo, GlyphPosition, Language, SegmentProperties, Tag};
pub use serialize::{SerializeFlags, SerializeFormat};
pub use serializer::BufferSerializer;
