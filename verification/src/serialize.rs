use vstd::prelude::*;
use vstd::wrapping::i32_specs::wrapping_add;
use crate::common::{GlyphInfo, GlyphPosition};

verus! {

/// The serialization format used in `BufferSerializer`.
#[derive(Debug, Clone, Copy, PartialEq, Eq, Hash, Structural)]
pub enum SerializeFormat {
    /// A human-readable, plain text format
    Text,
    /// A machine-readable JSON format.
    Json,
}

/// The tag of the text format, `TEXT`.
pub const SERIALIZE_FORMAT_TEXT: u32 = 0x54455854;
/// The tag of the JSON format, `JSON`.
pub const SERIALIZE_FORMAT_JSON: u32 = 0x4a534f4e;

impl From<SerializeFormat> for u32 {
    fn from(fmt: SerializeFormat) -> (tag: u32) {
        match fmt {
            SerializeFormat::Text => SERIALIZE_FORMAT_TEXT,
            SerializeFormat::Json => SERIALIZE_FORMAT_JSON,
        }
    }
}

impl vstd::std_specs::convert::FromSpecImpl<SerializeFormat> for u32 {
    open spec fn obeys_from_spec() -> bool {
        true
    }

    open spec fn from_spec(fmt: SerializeFormat) -> u32 {
        match fmt {
            SerializeFormat::Text => SERIALIZE_FORMAT_TEXT,
            SerializeFormat::Json => SERIALIZE_FORMAT_JSON,
        }
    }
}

/// Do not serialize glyph cluster.
pub const FLAG_NO_CLUSTERS: u32 = 0x1;
/// Do not serialize glyph position information.
pub const FLAG_NO_POSITIONS: u32 = 0x2;
/// Do no serialize glyph name.
pub const FLAG_NO_GLYPH_NAMES: u32 = 0x4;
/// Serialize glyph extents.
pub const FLAG_GLYPH_EXTENTS: u32 = 0x8;
/// Serialize glyph flags.
pub const FLAG_GLYPH_FLAGS: u32 = 0x10;
/// Do not serialize glyph advances; offsets then reflect absolute positions.
pub const FLAG_NO_ADVANCES: u32 = 0x20;
/// All flags.
pub const FLAGS_ALL: u32 = 0x3f;

/// The glyph flags that are defined (unsafe to break).
pub const GLYPH_FLAG_DEFINED: u32 = 0x1;

/// Flags used for serialization with a `BufferSerializer`.
#[derive(Debug, Clone, Copy, PartialEq, Eq, Hash, Structural)]
pub struct SerializeFlags {
    bits: u32,
}

impl View for SerializeFlags {
    type V = u32;

    /// The flags as bits.
    closed spec fn view(&self) -> u32 {
        self.bits
    }
}

impl SerializeFlags {
    /// The one flag: do not serialize glyph clusters.
    pub fn no_clusters() -> (f: SerializeFlags)
        ensures
            f@ == FLAG_NO_CLUSTERS,
    {
        SerializeFlags { bits: FLAG_NO_CLUSTERS }
    }

    /// The one flag: do not serialize glyph position information.
    pub fn no_positions() -> (f: SerializeFlags)
        ensures
            f@ == FLAG_NO_POSITIONS,
    {
        SerializeFlags { bits: FLAG_NO_POSITIONS }
    }

    /// The one flag: do not serialize glyph names.
    pub fn no_glyph_names() -> (f: SerializeFlags)
        ensures
            f@ == FLAG_NO_GLYPH_NAMES,
    {
        SerializeFlags { bits: FLAG_NO_GLYPH_NAMES }
    }

    /// The one flag: serialize glyph extents.
    pub fn glyph_extents() -> (f: SerializeFlags)
        ensures
            f@ == FLAG_GLYPH_EXTENTS,
    {
        SerializeFlags { bits: FLAG_GLYPH_EXTENTS }
    }

    /// The one flag: serialize glyph flags.
    pub fn glyph_flags() -> (f: SerializeFlags)
        ensures
            f@ == FLAG_GLYPH_FLAGS,
    {
        SerializeFlags { bits: FLAG_GLYPH_FLAGS }
    }

    /// The one flag: do not serialize glyph advances; offsets then reflect absolute positions.
    pub fn no_advances() -> (f: SerializeFlags)
        ensures
            f@ == FLAG_NO_ADVANCES,
    {
        SerializeFlags { bits: FLAG_NO_ADVANCES }
    }

    /// No flag.
    pub fn empty() -> (f: SerializeFlags)
        ensures
            f@ == 0,
    {
        SerializeFlags { bits: 0 }
    }

    /// Every flag.
    pub fn all() -> (f: SerializeFlags)
        ensures
            f@ == FLAGS_ALL,
    {
        SerializeFlags { bits: FLAGS_ALL }
    }

    /// The flags as bits.
    pub fn bits(&self) -> (b: u32)
        ensures
            b == self@,
    {
        self.bits
    }

    /// The flags with the given bits, if every bit is a flag.
    pub fn from_bits(bits: u32) -> (f: Option<SerializeFlags>)
        ensures
            (bits & !FLAGS_ALL) == 0 <==> f is Some,
            f matches Some(f) ==> f@ == bits,
    {
        if (bits & !FLAGS_ALL) == 0 {
            Some(SerializeFlags { bits })
        } else {
            None
        }
    }

    /// The flags among the given bits.
    pub fn from_bits_truncate(bits: u32) -> (f: SerializeFlags)
        ensures
            f@ == bits & FLAGS_ALL,
    {
        SerializeFlags { bits: bits & FLAGS_ALL }
    }

    /// The flags of either.
    pub fn union(self, other: SerializeFlags) -> (f: SerializeFlags)
        ensures
            f@ == self@ | other@,
    {
        SerializeFlags { bits: self.bits | other.bits }
    }

    /// Whether all flags of `other` are set.
    pub fn contains(&self, other: SerializeFlags) -> (b: bool)
        ensures
            b == ((self@ & other@) == other@),
    {
        (self.bits & other.bits) == other.bits
    }

    /// Whether no flag is set.
    pub fn is_empty(&self) -> (b: bool)
        ensures
            b == (self@ == 0),
    {
        self.bits == 0
    }
}

impl core::ops::BitOr for SerializeFlags {
    type Output = SerializeFlags;

    /// The flags of either.
    fn bitor(self, other: SerializeFlags) -> (f: SerializeFlags)
        ensures
            f@ == self@ | other@,
    {
        SerializeFlags { bits: self.bits | other.bits }
    }
}

impl vstd::std_specs::ops::BitOrSpecImpl for SerializeFlags {
    open spec fn obeys_bitor_spec() -> bool {
        true
    }

    open spec fn bitor_req(self, other: SerializeFlags) -> bool {
        true
    }

    closed spec fn bitor_spec(self, other: SerializeFlags) -> SerializeFlags {
        SerializeFlags { bits: self.bits | other.bits }
    }
}

impl Default for SerializeFlags {
    fn default() -> (f: SerializeFlags)
        ensures
            f@ == 0,
    {
        SerializeFlags::empty()
    }
}

/// The decimal digits of `n`, in ASCII.
pub open spec fn digits(n: nat) -> Seq<u8>
    decreases n,
{
    if n < 10 {
        seq![(48 + n) as u8]
    } else {
        digits(n / 10).push((48 + n % 10) as u8)
    }
}

/// `v` in decimal, in ASCII, with a minus sign where it is negative.
pub open spec fn signed_digits(v: int) -> Seq<u8> {
    if v < 0 {
        seq![45u8] /* '-' */ + digits((-v) as nat)
    } else {
        digits(v as nat)
    }
}

/// Appends the decimal digits of `n`.
pub fn push_digits(out: &mut Vec<u8>, n: u32)
    ensures
        final(out)@ == old(out)@ + digits(n as nat),
    decreases n,
{
    if n >= 10 {
        push_digits(out, n / 10);
    }
    out.push((48 + n % 10) as u8);
    assert(out@ =~= old(out)@ + digits(n as nat)) by {
        if n >= 10 {
            assert(old(out)@ + digits((n / 10) as nat) + seq![(48 + n % 10) as u8] =~= old(
                out,
            )@ + digits(n as nat));
        }
    }
}


/// Appends `v` in decimal, with a minus sign where it is negative.
pub fn push_signed_digits(out: &mut Vec<u8>, v: i32)
    ensures
        final(out)@ == old(out)@ + signed_digits(v as int),
{
    if v < 0 {
        out.push(45u8);
        let m: i64 = 0i64 - (v as i64);
        push_digits(out, m as u32);
        assert(out@ =~= old(out)@ + signed_digits(v as int));
    } else {
        push_digits(out, v as u32);
    }
}

/// `"gid"`, the glyph name of a font without names.
pub open spec fn gid_prefix() -> Seq<u8> {
    seq![103u8, 105u8, 100u8]
}

/// `<0,0,0,0>`: the extents of a glyph in a font without outlines.
pub open spec fn text_zero_extents() -> Seq<u8> {
    seq![60u8, 48u8, 44u8, 48u8, 44u8, 48u8, 44u8, 48u8, 62u8]
}

/// `,"key":` for a JSON member after the first.
pub open spec fn json_key(key: Seq<u8>) -> Seq<u8> {
    seq![44u8, 34u8] + key + seq![34u8, 58u8]
}

/// Whether a flag is set among `flags`.
pub open spec fn has_flag(flags: u32, flag: u32) -> bool {
    (flags & flag) != 0
}

/// The glyph name or, with `FLAG_NO_GLYPH_NAMES`, the glyph index.
pub open spec fn glyph_name(g: GlyphInfo, flags: u32) -> Seq<u8> {
    if has_flag(flags, FLAG_NO_GLYPH_NAMES) {
        digits(g.codepoint as nat)
    } else {
        gid_prefix() + digits(g.codepoint as nat)
    }
}

/// The defined glyph flags of a glyph.
pub open spec fn defined_glyph_flags(g: GlyphInfo) -> u32 {
    g.mask & GLYPH_FLAG_DEFINED
}

/// The separator before a text record: `|` for all but the first glyph.
pub open spec fn text_separator(i: int) -> Seq<u8> {
    if i != 0 {
        seq![124u8]
    } else {
        Seq::<u8>::empty()
    }
}

/// `=cluster`, unless the flags leave clusters out.
pub open spec fn text_cluster(g: GlyphInfo, flags: u32) -> Seq<u8> {
    if has_flag(flags, FLAG_NO_CLUSTERS) {
        Seq::<u8>::empty()
    } else {
        seq![61u8] + digits(g.cluster as nat)
    }
}

/// `@dx,dy` where positions are written and the offset (plus the pen
/// position) is not zero.
pub open spec fn text_offset(p: GlyphPosition, x: i32, y: i32, flags: u32) -> Seq<u8> {
    let dx = wrapping_add(x, p.x_offset);
    let dy = wrapping_add(y, p.y_offset);
    if !has_flag(flags, FLAG_NO_POSITIONS) && (dx != 0 || dy != 0) {
        seq![64u8] + signed_digits(dx as int) + seq![44u8] + signed_digits(dy as int)
    } else {
        Seq::<u8>::empty()
    }
}

/// `+x_advance`, and `,y_advance` where that is not zero, where advances are
/// written.
pub open spec fn text_advance(p: GlyphPosition, flags: u32) -> Seq<u8> {
    if !has_flag(flags, FLAG_NO_POSITIONS) && !has_flag(flags, FLAG_NO_ADVANCES) {
        seq![43u8] + signed_digits(p.x_advance as int) + if p.y_advance != 0 {
            seq![44u8] + signed_digits(p.y_advance as int)
        } else {
            Seq::<u8>::empty()
        }
    } else {
        Seq::<u8>::empty()
    }
}

/// `#flags` where glyph flags are asked for and the glyph has any. The
/// glyph flags are below ten, where hexadecimal and decimal agree.
pub open spec fn text_glyph_flags(g: GlyphInfo, flags: u32) -> Seq<u8> {
    if has_flag(flags, FLAG_GLYPH_FLAGS) && defined_glyph_flags(g) != 0 {
        seq![35u8] + digits(defined_glyph_flags(g) as nat)
    } else {
        Seq::<u8>::empty()
    }
}

/// `<0,0,0,0>` where extents are asked for.
pub open spec fn text_extents(flags: u32) -> Seq<u8> {
    if has_flag(flags, FLAG_GLYPH_EXTENTS) {
        text_zero_extents()
    } else {
        Seq::<u8>::empty()
    }
}

/// The text record of glyph `i`, with the pen position `x`, `y`: separator,
/// glyph name, cluster, offset, advance, glyph flags and extents.
pub open spec fn text_record(i: int, g: GlyphInfo, p: GlyphPosition, x: i32, y: i32, flags: u32) -> Seq<u8> {
    text_separator(i) + glyph_name(g, flags) + text_cluster(g, flags) + text_offset(p, x, y, flags)
        + text_advance(p, flags) + text_glyph_flags(g, flags) + text_extents(flags)
}

/// The opening of a JSON record: `[` before the first glyph and `,` before
/// the others, then `{"g":`.
pub open spec fn json_open(i: int) -> Seq<u8> {
    (if i != 0 { seq![44u8] } else { seq![91u8] }) + seq![123u8, 34u8, 103u8, 34u8, 58u8]
}

/// The glyph: its quoted name, or its index with `FLAG_NO_GLYPH_NAMES`.
pub open spec fn json_glyph(g: GlyphInfo, flags: u32) -> Seq<u8> {
    if has_flag(flags, FLAG_NO_GLYPH_NAMES) {
        digits(g.codepoint as nat)
    } else {
        seq![34u8] + gid_prefix() + digits(g.codepoint as nat) + seq![34u8]
    }
}

/// `,"cl":cluster` unless the flags leave clusters out.
pub open spec fn json_cluster(g: GlyphInfo, flags: u32) -> Seq<u8> {
    if has_flag(flags, FLAG_NO_CLUSTERS) {
        Seq::<u8>::empty()
    } else {
        json_key(seq![99u8, 108u8]) + digits(g.cluster as nat)
    }
}

/// `,"ax":x_advance,"ay":y_advance` unless the flags leave advances out.
pub open spec fn json_advance(p: GlyphPosition, flags: u32) -> Seq<u8> {
    if has_flag(flags, FLAG_NO_ADVANCES) {
        Seq::<u8>::empty()
    } else {
        json_key(seq![97u8, 120u8]) + signed_digits(p.x_advance as int) + json_key(
            seq![97u8, 121u8],
        ) + signed_digits(p.y_advance as int)
    }
}

/// `,"dx":dx,"dy":dy` and the advances, where positions are written.
pub open spec fn json_positions(p: GlyphPosition, x: i32, y: i32, flags: u32) -> Seq<u8> {
    if has_flag(flags, FLAG_NO_POSITIONS) {
        Seq::<u8>::empty()
    } else {
        json_key(seq![100u8, 120u8]) + signed_digits(wrapping_add(x, p.x_offset) as int)
            + json_key(seq![100u8, 121u8]) + signed_digits(wrapping_add(y, p.y_offset) as int)
            + json_advance(p, flags)
    }
}

/// `,"fl":flags` where glyph flags are asked for and the glyph has any.
pub open spec fn json_glyph_flags(g: GlyphInfo, flags: u32) -> Seq<u8> {
    if has_flag(flags, FLAG_GLYPH_FLAGS) && defined_glyph_flags(g) != 0 {
        json_key(seq![102u8, 108u8]) + digits(defined_glyph_flags(g) as nat)
    } else {
        Seq::<u8>::empty()
    }
}

/// `,"xb":0,"yb":0,"w":0,"h":0` where extents are asked for.
pub open spec fn json_extents(flags: u32) -> Seq<u8> {
    if has_flag(flags, FLAG_GLYPH_EXTENTS) {
        json_key(seq![120u8, 98u8]) + seq![48u8] + json_key(seq![121u8, 98u8]) + seq![48u8]
            + json_key(seq![119u8]) + seq![48u8] + json_key(seq![104u8]) + seq![48u8]
    } else {
        Seq::<u8>::empty()
    }
}

/// `}`, and `]` after the last glyph of the range.
pub open spec fn json_close(i: int, end: int) -> Seq<u8> {
    if i == end - 1 {
        seq![125u8, 93u8]
    } else {
        seq![125u8]
    }
}

/// The JSON record of glyph `i` of a range ending at `end`, with the pen
/// position `x`, `y`.
pub open spec fn json_record(
    i: int,
    end: int,
    g: GlyphInfo,
    p: GlyphPosition,
    x: i32,
    y: i32,
    flags: u32,
) -> Seq<u8> {
    json_open(i) + json_glyph(g, flags) + json_cluster(g, flags) + json_positions(p, x, y, flags)
        + json_glyph_flags(g, flags) + json_extents(flags) + json_close(i, end)
}

/// The record of glyph `i` in the given format.
#[verifier::opaque]
pub open spec fn record(
    format: SerializeFormat,
    i: int,
    end: int,
    g: GlyphInfo,
    p: GlyphPosition,
    x: i32,
    y: i32,
    flags: u32,
) -> Seq<u8> {
    match format {
        SerializeFormat::Text => text_record(i, g, p, x, y, flags),
        SerializeFormat::Json => json_record(i, end, g, p, x, y, flags),
    }
}

/// The pen position after a glyph: it moves by the advance where offsets
/// are written without advances, and stays otherwise.
pub open spec fn next_pen(x: i32, y: i32, p: GlyphPosition, flags: u32) -> (i32, i32) {
    if !has_flag(flags, FLAG_NO_POSITIONS) && has_flag(flags, FLAG_NO_ADVANCES) {
        (wrapping_add(x, p.x_advance), wrapping_add(y, p.y_advance))
    } else {
        (x, y)
    }
}

/// Appends `,"key":` for a JSON key of one or two letters.
fn push_json_key(out: &mut Vec<u8>, k0: u8, k1: Option<u8>)
    ensures
        final(out)@ == old(out)@ + json_key(
            match k1 {
                Some(b) => seq![k0, b],
                None => seq![k0],
            },
        ),
{
    out.push(44u8);
    out.push(34u8);
    out.push(k0);
    match k1 {
        Some(b) => out.push(b),
        None => {},
    }
    out.push(34u8);
    out.push(58u8);
    assert(out@ =~= old(out)@ + json_key(
        match k1 {
            Some(b) => seq![k0, b],
            None => seq![k0],
        },
    ));
}

/// Appends the record of glyph `i` in the given format.
pub fn push_record(
    out: &mut Vec<u8>,
    format: SerializeFormat,
    i: usize,
    end: usize,
    g: GlyphInfo,
    p: GlyphPosition,
    x: i32,
    y: i32,
    flags: u32,
)
    ensures
        final(out)@ == old(out)@ + record(format, i as int, end as int, g, p, x, y, flags),
{
    reveal(record);
    match format {
        SerializeFormat::Text => push_text_record(out, i, g, p, x, y, flags),
        SerializeFormat::Json => push_json_record(out, i, end, g, p, x, y, flags),
    }
}

fn push_glyph_name(out: &mut Vec<u8>, g: GlyphInfo, flags: u32)
    ensures
        final(out)@ == old(out)@ + glyph_name(g, flags),
{
    if (flags & FLAG_NO_GLYPH_NAMES) == 0 {
        out.push(103u8);
        out.push(105u8);
        out.push(100u8);
        push_digits(out, g.codepoint);
        assert(out@ =~= old(out)@ + glyph_name(g, flags));
    } else {
        push_digits(out, g.codepoint);
    }
}

fn push_text_separator(out: &mut Vec<u8>, i: usize)
    ensures
        final(out)@ == old(out)@ + text_separator(i as int),
{
    if i != 0 {
        out.push(124u8);
    }
    assert(out@ =~= old(out)@ + text_separator(i as int));
}

fn push_text_cluster(out: &mut Vec<u8>, g: GlyphInfo, flags: u32)
    ensures
        final(out)@ == old(out)@ + text_cluster(g, flags),
{
    if (flags & FLAG_NO_CLUSTERS) == 0 {
        out.push(61u8);
        push_digits(out, g.cluster);
    }
    assert(out@ =~= old(out)@ + text_cluster(g, flags));
}

fn push_text_offset(out: &mut Vec<u8>, p: GlyphPosition, x: i32, y: i32, flags: u32)
    ensures
        final(out)@ == old(out)@ + text_offset(p, x, y, flags),
{
    let dx = x.wrapping_add(p.x_offset);
    let dy = y.wrapping_add(p.y_offset);
    if (flags & FLAG_NO_POSITIONS) == 0 && (dx != 0 || dy != 0) {
        out.push(64u8);
        push_signed_digits(out, dx);
        out.push(44u8);
        push_signed_digits(out, dy);
    }
    assert(out@ =~= old(out)@ + text_offset(p, x, y, flags));
}

fn push_text_advance(out: &mut Vec<u8>, p: GlyphPosition, flags: u32)
    ensures
        final(out)@ == old(out)@ + text_advance(p, flags),
{
    if (flags & FLAG_NO_POSITIONS) == 0 && (flags & FLAG_NO_ADVANCES) == 0 {
        out.push(43u8);
        push_signed_digits(out, p.x_advance);
        if p.y_advance != 0 {
            out.push(44u8);
            push_signed_digits(out, p.y_advance);
        }
    }
    assert(out@ =~= old(out)@ + text_advance(p, flags));
}

fn push_text_glyph_flags(out: &mut Vec<u8>, g: GlyphInfo, flags: u32)
    ensures
        final(out)@ == old(out)@ + text_glyph_flags(g, flags),
{
    if (flags & FLAG_GLYPH_FLAGS) != 0 && (g.mask & GLYPH_FLAG_DEFINED) != 0 {
        out.push(35u8);
        push_digits(out, g.mask & GLYPH_FLAG_DEFINED);
    }
    assert(out@ =~= old(out)@ + text_glyph_flags(g, flags));
}

fn push_text_extents(out: &mut Vec<u8>, flags: u32)
    ensures
        final(out)@ == old(out)@ + text_extents(flags),
{
    if (flags & FLAG_GLYPH_EXTENTS) != 0 {
        out.push(60u8);
        out.push(48u8);
        out.push(44u8);
        out.push(48u8);
        out.push(44u8);
        out.push(48u8);
        out.push(44u8);
        out.push(48u8);
        out.push(62u8);
    }
    assert(out@ =~= old(out)@ + text_extents(flags));
}

fn push_text_record(out: &mut Vec<u8>, i: usize, g: GlyphInfo, p: GlyphPosition, x: i32, y: i32, flags: u32)
    ensures
        final(out)@ == old(out)@ + text_record(i as int, g, p, x, y, flags),
{
    push_text_separator(out, i);
    push_glyph_name(out, g, flags);
    push_text_cluster(out, g, flags);
    push_text_offset(out, p, x, y, flags);
    push_text_advance(out, p, flags);
    push_text_glyph_flags(out, g, flags);
    push_text_extents(out, flags);
    assert(out@ =~= old(out)@ + text_record(i as int, g, p, x, y, flags));
}

fn push_json_open(out: &mut Vec<u8>, i: usize)
    ensures
        final(out)@ == old(out)@ + json_open(i as int),
{
    if i != 0 {
        out.push(44u8);
    } else {
        out.push(91u8);
    }
    out.push(123u8);
    out.push(34u8);
    out.push(103u8);
    out.push(34u8);
    out.push(58u8);
    assert(out@ =~= old(out)@ + json_open(i as int));
}

fn push_json_glyph(out: &mut Vec<u8>, g: GlyphInfo, flags: u32)
    ensures
        final(out)@ == old(out)@ + json_glyph(g, flags),
{
    if (flags & FLAG_NO_GLYPH_NAMES) != 0 {
        push_digits(out, g.codepoint);
    } else {
        out.push(34u8);
        out.push(103u8);
        out.push(105u8);
        out.push(100u8);
        push_digits(out, g.codepoint);
        out.push(34u8);
        assert(out@ =~= old(out)@ + json_glyph(g, flags));
    }
}

fn push_json_cluster(out: &mut Vec<u8>, g: GlyphInfo, flags: u32)
    ensures
        final(out)@ == old(out)@ + json_cluster(g, flags),
{
    if (flags & FLAG_NO_CLUSTERS) == 0 {
        push_json_key(out, 99u8, Some(108u8));
        push_digits(out, g.cluster);
    }
    assert(out@ =~= old(out)@ + json_cluster(g, flags));
}

fn push_json_advance(out: &mut Vec<u8>, p: GlyphPosition, flags: u32)
    ensures
        final(out)@ == old(out)@ + json_advance(p, flags),
{
    if (flags & FLAG_NO_ADVANCES) == 0 {
        push_json_key(out, 97u8, Some(120u8));
        push_signed_digits(out, p.x_advance);
        push_json_key(out, 97u8, Some(121u8));
        push_signed_digits(out, p.y_advance);
    }
    assert(out@ =~= old(out)@ + json_advance(p, flags));
}

fn push_json_positions(out: &mut Vec<u8>, p: GlyphPosition, x: i32, y: i32, flags: u32)
    ensures
        final(out)@ == old(out)@ + json_positions(p, x, y, flags),
{
    if (flags & FLAG_NO_POSITIONS) == 0 {
        push_json_key(out, 100u8, Some(120u8));
        push_signed_digits(out, x.wrapping_add(p.x_offset));
        push_json_key(out, 100u8, Some(121u8));
        push_signed_digits(out, y.wrapping_add(p.y_offset));
        push_json_advance(out, p, flags);
    }
    assert(out@ =~= old(out)@ + json_positions(p, x, y, flags));
}

fn push_json_glyph_flags(out: &mut Vec<u8>, g: GlyphInfo, flags: u32)
    ensures
        final(out)@ == old(out)@ + json_glyph_flags(g, flags),
{
    if (flags & FLAG_GLYPH_FLAGS) != 0 && (g.mask & GLYPH_FLAG_DEFINED) != 0 {
        push_json_key(out, 102u8, Some(108u8));
        push_digits(out, g.mask & GLYPH_FLAG_DEFINED);
    }
    assert(out@ =~= old(out)@ + json_glyph_flags(g, flags));
}

fn push_json_extents(out: &mut Vec<u8>, flags: u32)
    ensures
        final(out)@ == old(out)@ + json_extents(flags),
{
    if (flags & FLAG_GLYPH_EXTENTS) != 0 {
        push_json_key(out, 120u8, Some(98u8));
        out.push(48u8);
        push_json_key(out, 121u8, Some(98u8));
        out.push(48u8);
        push_json_key(out, 119u8, None);
        out.push(48u8);
        push_json_key(out, 104u8, None);
        out.push(48u8);
    }
    assert(out@ =~= old(out)@ + json_extents(flags));
}

fn push_json_close(out: &mut Vec<u8>, i: usize, end: usize)
    ensures
        final(out)@ == old(out)@ + json_close(i as int, end as int),
{
    out.push(125u8);
    if end >= 1 && i == end - 1 {
        out.push(93u8);
    }
    assert(out@ =~= old(out)@ + json_close(i as int, end as int));
}

fn push_json_record(
    out: &mut Vec<u8>,
    i: usize,
    end: usize,
    g: GlyphInfo,
    p: GlyphPosition,
    x: i32,
    y: i32,
    flags: u32,
)
    ensures
        final(out)@ == old(out)@ + json_record(i as int, end as int, g, p, x, y, flags),
{
    push_json_open(out, i);
    push_json_glyph(out, g, flags);
    push_json_cluster(out, g, flags);
    push_json_positions(out, p, x, y, flags);
    push_json_glyph_flags(out, g, flags);
    push_json_extents(out, flags);
    push_json_close(out, i, end);
    assert(out@ =~= old(out)@ + json_record(i as int, end as int, g, p, x, y, flags));
}


/// Whether no byte of `s` is `b`.
pub open spec fn lacks(s: Seq<u8>, b: u8) -> bool {
    forall|i: int| 0 <= i < s.len() ==> s[i] != b
}

proof fn lemma_lacks_concat(a: Seq<u8>, c: Seq<u8>, b: u8)
    requires
        lacks(a, b),
        lacks(c, b),
    ensures
        lacks(a + c, b),
{
    assert forall|i: int| 0 <= i < (a + c).len() implies (a + c)[i] != b by {
        if i < a.len() {
            assert((a + c)[i] == a[i]);
        } else {
            assert((a + c)[i] == c[i - a.len()]);
        }
    }
}

/// The decimal digits of a number are the ASCII digits `0` to `9`.
proof fn lemma_digits_ascii(n: nat)
    ensures
        forall|i: int| 0 <= i < digits(n).len() ==> 48 <= #[trigger] digits(n)[i] <= 57,
    decreases n,
{
    if n >= 10 {
        lemma_digits_ascii(n / 10);
        assert forall|i: int| 0 <= i < digits(n).len() implies 48 <= #[trigger] digits(n)[i] <= 57 by {
            if i < digits(n / 10).len() {
                assert(digits(n)[i] == digits(n / 10)[i]);
            }
        }
    }
}

proof fn lemma_numbers_lack_at(n: nat, v: int)
    ensures
        lacks(digits(n), 64u8),
        lacks(signed_digits(v), 64u8),
{
    lemma_digits_ascii(n);
    if v < 0 {
        lemma_digits_ascii((-v) as nat);
        lemma_lacks_concat(seq![45u8], digits((-v) as nat), 64u8);
    } else {
        lemma_digits_ascii(v as nat);
    }
}

/// A text record with positions holds an `@`, the mark of an offset,
/// exactly where the glyph's offset plus the pen position, `dx` and `dy`,
/// is not zero in either direction; there the offset is written as
/// `@dx,dy` right after the glyph name and cluster. Without positions a
/// record holds no `@`.
pub proof fn lemma_text_offset_written(
    i: int,
    g: GlyphInfo,
    p: GlyphPosition,
    x: i32,
    y: i32,
    flags: u32,
)
    ensures
        ({
            let dx = wrapping_add(x, p.x_offset);
            let dy = wrapping_add(y, p.y_offset);
            let r = text_record(i, g, p, x, y, flags);
            let k = (text_separator(i) + glyph_name(g, flags) + text_cluster(g, flags)).len();
            let at = seq![64u8] + signed_digits(dx as int) + seq![44u8] + signed_digits(dy as int);
            &&& r.contains(64u8) <==> (!has_flag(flags, FLAG_NO_POSITIONS) && (dx != 0 || dy != 0))
            &&& (!has_flag(flags, FLAG_NO_POSITIONS) && (dx != 0 || dy != 0)) ==> r.subrange(
                k as int,
                (k + at.len()) as int,
            ) == at
        }),
{
    let dx = wrapping_add(x, p.x_offset);
    let dy = wrapping_add(y, p.y_offset);
    let r = text_record(i, g, p, x, y, flags);
    let pre = text_separator(i) + glyph_name(g, flags) + text_cluster(g, flags);
    let off = text_offset(p, x, y, flags);
    let post = text_advance(p, flags) + text_glyph_flags(g, flags) + text_extents(flags);
    let at = seq![64u8] + signed_digits(dx as int) + seq![44u8] + signed_digits(dy as int);
    assert(r =~= pre + off + post);
    let cond = !has_flag(flags, FLAG_NO_POSITIONS) && (dx != 0 || dy != 0);
    if cond {
        assert(off =~= at);
        assert(r.subrange(pre.len() as int, (pre.len() + at.len()) as int) =~= at);
        assert(r[pre.len() as int] == 64u8);
    } else {
        assert(off =~= Seq::<u8>::empty());
        lemma_numbers_lack_at(g.codepoint as nat, p.x_advance as int);
        lemma_numbers_lack_at(g.cluster as nat, p.y_advance as int);
        lemma_numbers_lack_at(defined_glyph_flags(g) as nat, 0);
        lemma_lacks_concat(gid_prefix(), digits(g.codepoint as nat), 64u8);
        lemma_lacks_concat(seq![61u8], digits(g.cluster as nat), 64u8);
        lemma_lacks_concat(seq![35u8], digits(defined_glyph_flags(g) as nat), 64u8);
        lemma_lacks_concat(seq![43u8], signed_digits(p.x_advance as int), 64u8);
        lemma_lacks_concat(seq![44u8], signed_digits(p.y_advance as int), 64u8);
        let tail = if p.y_advance != 0 {
            seq![44u8] + signed_digits(p.y_advance as int)
        } else {
            Seq::<u8>::empty()
        };
        lemma_lacks_concat(seq![43u8] + signed_digits(p.x_advance as int), tail, 64u8);
        assert(lacks(text_separator(i), 64u8));
        assert(lacks(glyph_name(g, flags), 64u8));
        assert(lacks(text_cluster(g, flags), 64u8));
        assert(lacks(text_advance(p, flags), 64u8));
        assert(lacks(text_glyph_flags(g, flags), 64u8));
        assert(lacks(text_extents(flags), 64u8));
        lemma_lacks_concat(text_separator(i), glyph_name(g, flags), 64u8);
        lemma_lacks_concat(text_separator(i) + glyph_name(g, flags), text_cluster(g, flags), 64u8);
        lemma_lacks_concat(text_advance(p, flags), text_glyph_flags(g, flags), 64u8);
        lemma_lacks_concat(text_advance(p, flags) + text_glyph_flags(g, flags), text_extents(flags), 64u8);
        lemma_lacks_concat(pre, post, 64u8);
        assert(r =~= pre + post);
        if r.contains(64u8) {
            let j = choose|j: int| 0 <= j < r.len() && r[j] == 64u8;
            assert(false);
        }
    }
}

/// The digits of a number are never empty.
pub proof fn lemma_digits_nonempty(n: nat)
    ensures
        digits(n).len() >= 1,
    decreases n,
{
    if n >= 10 {
        lemma_digits_nonempty(n / 10);
    }
}

/// A record is never empty: it holds at least the glyph.
pub proof fn lemma_record_nonempty(
    format: SerializeFormat,
    i: int,
    end: int,
    g: GlyphInfo,
    p: GlyphPosition,
    x: i32,
    y: i32,
    flags: u32,
)
    ensures
        record(format, i, end, g, p, x, y, flags).len() >= 1,
{
    reveal(record);
    lemma_digits_nonempty(g.codepoint as nat);
}


/// Ten to the power `k`.
pub open spec fn pow10(k: nat) -> nat
    decreases k,
{
    if k == 0 {
        1
    } else {
        10 * pow10((k - 1) as nat)
    }
}

/// A number below ten to the `k` has at most `k` digits.
pub proof fn lemma_digits_len(n: nat, k: nat)
    requires
        k >= 1,
        n < pow10(k),
    ensures
        digits(n).len() <= k,
    decreases n,
{
    if n >= 10 {
        let k1 = (k - 1) as nat;
        if k1 == 0 {
            assert(pow10(k) == 10) by {
                assert(pow10(0) == 1);
            }
        }
        assert(k1 >= 1);
        assert(n / 10 < pow10(k1)) by (nonlinear_arith)
            requires
                n < 10 * pow10(k1),
        ;
        lemma_digits_len(n / 10, k1);
    }
}

/// A `u32` has at most ten digits, and an `i32` at most eleven characters.
pub proof fn lemma_number_lengths(n: u32, v: i32)
    ensures
        digits(n as nat).len() <= 10,
        signed_digits(v as int).len() <= 11,
{
    assert(pow10(10) == 10000000000) by {
        reveal_with_fuel(pow10, 11);
    }
    lemma_digits_len(n as nat, 10);
    if v < 0 {
        lemma_digits_len((-v) as nat, 10);
    } else {
        lemma_digits_len(v as nat, 10);
    }
}

/// A text record is at most 84 bytes long, so that it always fits in a chunk.
pub proof fn lemma_text_record_len(i: int, g: GlyphInfo, p: GlyphPosition, x: i32, y: i32, flags: u32)
    ensures
        text_record(i, g, p, x, y, flags).len() <= 84,
{
    lemma_number_lengths(g.codepoint, x);
    lemma_number_lengths(g.cluster, y);
    lemma_number_lengths(defined_glyph_flags(g), wrapping_add(x, p.x_offset));
    lemma_number_lengths(0, wrapping_add(y, p.y_offset));
    lemma_number_lengths(0, p.x_advance);
    lemma_number_lengths(0, p.y_advance);
    let m: u32 = g.mask;
    assert(m & 1u32 <= 1) by (bit_vector);
    if defined_glyph_flags(g) != 0 {
        assert(digits(defined_glyph_flags(g) as nat).len() == 1);
    }
}

} // verus!
