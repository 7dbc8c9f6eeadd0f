# harfbuzz_buffer

Text buffers for shaping, verified with Verus.

- `src/buffer.rs`: `UnicodeBuffer` (text, clusters, direction, script,
  language, guessing of segment properties), `GlyphBuffer` (glyphs and
  positions after shaping), `TypedBuffer` and the raw `GenericBuffer`.
- `src/serialize.rs`, `src/serializer.rs`: the text and JSON serializations of
  glyph buffers, `SerializeFlags`, and `BufferSerializer`, read in chunks.
  Serialization is fontless: glyph names are always `gid<N>` and extents
  always zero, as with no font.
- `src/script.rs`: ISO 15924 tags, script directions, the script of a
  character (through the `unicode-script` crate).
- `src/debug.rs`: the `Debug` texts of the two buffers, as strings
  (`debug_string`); `{:?}` on the types themselves prints their fields.
- `app/lib.rs`: the `std::io::Read` and `Display` adapters and the default
  language, which the verified library leaves to its callers.

Every public function states its result in its `ensures`; the laws that relate
several functions are public proof functions (`lemma_*`).
