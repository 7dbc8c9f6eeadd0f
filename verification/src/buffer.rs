use vstd::prelude::*;
use vstd::utf8::encode_utf8;
use crate::common::{
    clone_language, language_view, Direction, GlyphInfo, GlyphPosition, Language, Script,
    SegmentProperties, SegmentPropertiesView, DIRECTION_INVALID, DIRECTION_LTR, SCRIPT_COMMON,
    SCRIPT_INHERITED, SCRIPT_INVALID, SCRIPT_UNKNOWN,
};
use crate::script::{
    codepoint_script, horizontal_direction_of, script_get_horizontal_direction,
    script_of_codepoint,
};
use crate::text::{infos_to_string_lossy, lossy_char, lossy_text};
use crate::script::script_from_iso15924_tag;
use crate::script::script_of_tag;
use crate::common::Tag;
use crate::utf8::{lemma_encode_utf8_len, lemma_encode_utf8_prefix, lemma_encode_utf8_push, utf8_width};

verus! {

/// The content of a buffer is not known yet (a fresh or cleared buffer).
pub const CONTENT_TYPE_INVALID: u32 = 0;
/// The buffer holds Unicode code points.
pub const CONTENT_TYPE_UNICODE: u32 = 1;
/// The buffer holds glyph indices (the result of shaping).
pub const CONTENT_TYPE_GLYPHS: u32 = 2;

/// The most items a buffer holds.
pub const MAX_LEN: usize = 0x3FFFFFFF;

/// The mathematical value of a buffer.
pub struct BufferView {
    pub infos: Seq<GlyphInfo>,
    pub positions: Seq<GlyphPosition>,
    pub have_positions: bool,
    pub props: SegmentPropertiesView,
    pub content_type: u32,
}

/// A glyph position with all fields zero.
pub open spec fn zero_position() -> GlyphPosition {
    GlyphPosition { x_advance: 0, y_advance: 0, x_offset: 0, y_offset: 0 }
}

/// `n` zero positions.
pub open spec fn zero_positions(n: nat) -> Seq<GlyphPosition> {
    Seq::new(n, |i: int| zero_position())
}

/// The item that the `i`-th character of `s` adds to a buffer: its code point,
/// no mask, and the offset of its first byte in the UTF-8 encoding of `s`.
pub open spec fn char_info(s: Seq<char>, i: int) -> GlyphInfo {
    GlyphInfo {
        codepoint: s[i] as u32,
        mask: 0,
        cluster: encode_utf8(s.take(i)).len() as u32,
    }
}

/// The items that the text `s` adds to a buffer.
pub open spec fn text_infos(s: Seq<char>) -> Seq<GlyphInfo> {
    Seq::new(s.len(), |i: int| char_info(s, i))
}

/// Whether a script says which script a run of text is in (it is not one
/// of common, inherited or unknown).
pub open spec fn is_specific_script(s: u32) -> bool {
    s != SCRIPT_COMMON && s != SCRIPT_INHERITED && s != SCRIPT_UNKNOWN
}

/// The script of the first item from `i` on whose script is specific, or
/// no script.
pub open spec fn script_search(infos: Seq<GlyphInfo>, i: int) -> u32
    decreases infos.len() - i,
{
    if 0 <= i < infos.len() {
        let s = codepoint_script(infos[i].codepoint);
        if is_specific_script(s) {
            s
        } else {
            script_search(infos, i + 1)
        }
    } else {
        SCRIPT_INVALID
    }
}

/// The script of the first character whose script is specific, or no script.
pub open spec fn guessed_script(infos: Seq<GlyphInfo>) -> u32 {
    script_search(infos, 0)
}

/// The segment properties that guessing fills in: a missing script from the
/// text, a missing direction from the script (left to right where the script
/// says nothing), a missing language from `default_language`.
pub open spec fn guessed_properties(
    props: SegmentPropertiesView,
    infos: Seq<GlyphInfo>,
    default_language: Seq<char>,
) -> SegmentPropertiesView {
    let script = if props.script == SCRIPT_INVALID {
        guessed_script(infos)
    } else {
        props.script
    };
    let direction = if props.direction == DIRECTION_INVALID {
        let d = horizontal_direction_of(script);
        if d == DIRECTION_INVALID {
            DIRECTION_LTR
        } else {
            d
        }
    } else {
        props.direction
    };
    let language = match props.language {
        Some(l) => Some(l),
        None => Some(default_language),
    };
    SegmentPropertiesView { direction, script, language }
}

/// `s` with the items in `[start, end)` in reverse order, where both bounds
/// are first cut to the length of `s`; ranges of fewer than two items stay.
pub open spec fn reverse_range_seq<T>(s: Seq<T>, start: int, end: int) -> Seq<T> {
    let st = if start < s.len() { start } else { s.len() as int };
    let en = if end < s.len() { end } else { s.len() as int };
    if en < st + 2 {
        s
    } else {
        Seq::new(s.len(), |k: int| if st <= k < en { s[st + en - 1 - k] } else { s[k] })
    }
}

/// Reverses the items of `v` in `[start, end)` (bounds cut to the length).
pub fn reverse_vec_range<T: Copy>(v: &mut Vec<T>, start: usize, end: usize)
    ensures
        final(v)@ == reverse_range_seq(old(v)@, start as int, end as int),
    no_unwind
{
    let len = v.len();
    let st = if start < len { start } else { len };
    let en = if end < len { end } else { len };
    if en < 2 || st > en - 2 {
        return;
    }
    let ghost orig = v@;
    let mut i = st;
    let mut j = en - 1;
    while i < j
        invariant
            st <= i,
            j < en,
            en <= len,
            len == orig.len(),
            v@.len() == len,
            i + j == st + en - 1,
            en >= st + 2,
            forall|k: int| 0 <= k < st || en <= k < len ==> v@[k] == orig[k],
            forall|k: int| i <= k <= j ==> v@[k] == orig[k],
            forall|k: int| st <= k < i ==> v@[k] == orig[st + en - 1 - k],
            forall|k: int| j < k < en ==> v@[k] == orig[st + en - 1 - k],
        decreases j + 1 - i,
    {
        let a = v[i];
        let b = v[j];
        v[i] = b;
        v[j] = a;
        i = i + 1;
        j = j - 1;
    }
    assert(v@ =~= reverse_range_seq(orig, start as int, end as int));
}

/// Appends the items and zero positions for the characters of `s`.
fn append_text(info: &mut Vec<GlyphInfo>, pos: &mut Vec<GlyphPosition>, s: &str)
    requires
        encode_utf8(s@).len() <= i32::MAX,
    ensures
        final(info)@ == old(info)@ + text_infos(s@),
        final(pos)@ == old(pos)@ + zero_positions(s@.len()),
{
    broadcast use vstd::string::group_string_axioms;

    let ghost info0 = info@;
    let ghost pos0 = pos@;
    proof {
        lemma_encode_utf8_len(s@);
    }
    let mut i: usize = 0;
    let mut offset: u32 = 0;
    for c in it: s.chars()
        invariant
            it.seq() == s@,
            i == it.index(),
            i <= s@.len(),
            s@.len() <= i32::MAX,
            offset as nat == encode_utf8(s@.take(i as int)).len(),
            encode_utf8(s@).len() <= i32::MAX,
            info@ == info0 + text_infos(s@).take(i as int),
            pos@ == pos0 + zero_positions(s@.len()).take(i as int),
    {
        assert(c == s@[i as int]);
        proof {
            lemma_encode_utf8_push(s@.take(i as int), c);
            assert(s@.take(i as int).push(c) =~= s@.take(i + 1));
            lemma_encode_utf8_prefix(s@, i + 1);
        }
        info.push(GlyphInfo { codepoint: c as u32, mask: 0, cluster: offset });
        pos.push(GlyphPosition { x_advance: 0, y_advance: 0, x_offset: 0, y_offset: 0 });
        let w = utf8_width(c);
        offset = offset + w;
        i = i + 1;
        assert(info@ =~= info0 + text_infos(s@).take(i as int));
        assert(pos@ =~= pos0 + zero_positions(s@.len()).take(i as int));
    }
    assert(text_infos(s@).take(i as int) =~= text_infos(s@));
    assert(zero_positions(s@.len()).take(i as int) =~= zero_positions(s@.len()));
}

/// A raw buffer: the object that `into_raw` hands out and that
/// `TypedBuffer::take_from_raw` takes back.
#[derive(Debug)]
pub struct GenericBuffer {
    info: Vec<GlyphInfo>,
    pos: Vec<GlyphPosition>,
    have_positions: bool,
    props: SegmentProperties,
    content_type: u32,
}

impl View for GenericBuffer {
    type V = BufferView;

    closed spec fn view(&self) -> BufferView {
        BufferView {
            infos: self.info@,
            positions: self.pos@,
            have_positions: self.have_positions,
            props: self.props@,
            content_type: self.content_type,
        }
    }
}

/// What every buffer satisfies: one position per item, positions only in a
/// glyph buffer and all zero until set, and at most `MAX_LEN` items.
pub open spec fn buffer_inv(b: BufferView) -> bool {
    &&& b.positions.len() == b.infos.len()
    &&& b.infos.len() <= MAX_LEN
    &&& b.have_positions ==> b.content_type == CONTENT_TYPE_GLYPHS
    &&& !b.have_positions ==> b.positions == zero_positions(b.infos.len())
}

/// Whether text may be added: the buffer holds Unicode, or is empty and of
/// no content type yet.
pub open spec fn accepts_text(b: BufferView) -> bool {
    ||| b.content_type == CONTENT_TYPE_UNICODE
    ||| (b.content_type == CONTENT_TYPE_INVALID && b.infos.len() == 0)
}

/// The value of a fresh or cleared buffer.
pub open spec fn empty_buffer() -> BufferView {
    BufferView {
        infos: Seq::empty(),
        positions: Seq::empty(),
        have_positions: false,
        props: SegmentProperties::spec_default(),
        content_type: CONTENT_TYPE_INVALID,
    }
}

impl GenericBuffer {
    #[verifier::type_invariant]
    closed spec fn inv(self) -> bool {
        buffer_inv(self@)
    }

    /// A new empty buffer.
    pub fn new() -> (b: GenericBuffer)
        ensures
            b@ == empty_buffer(),
    {
        let info: Vec<GlyphInfo> = Vec::new();
        let pos: Vec<GlyphPosition> = Vec::new();
        assert(pos@ =~= zero_positions(0));
        let b = GenericBuffer {
            info,
            pos,
            have_positions: false,
            props: SegmentProperties {
                direction: DIRECTION_INVALID,
                script: SCRIPT_INVALID,
                language: None,
            },
            content_type: CONTENT_TYPE_INVALID,
        };
        b
    }

    /// The number of items.
    pub fn len(&self) -> (n: usize)
        ensures
            n == self@.infos.len(),
    {
        self.info.len()
    }

    /// Whether the buffer holds no item.
    pub fn is_empty(&self) -> (b: bool)
        ensures
            b == (self@.infos.len() == 0),
    {
        self.len() == 0
    }

    /// Appends the characters of `s`, each with its code point and, as
    /// cluster, the offset of its first byte in `s`; the buffer then holds
    /// Unicode.
    pub fn add_str(&mut self, s: &str)
        requires
            accepts_text(old(self)@),
            old(self)@.infos.len() + s@.len() <= MAX_LEN,
            encode_utf8(s@).len() <= i32::MAX,
        ensures
            final(self)@ == (BufferView {
                infos: old(self)@.infos + text_infos(s@),
                positions: old(self)@.positions + zero_positions(s@.len()),
                content_type: CONTENT_TYPE_UNICODE,
                ..old(self)@
            }),
    {
        let mut taken = GenericBuffer::new();
        std::mem::swap(self, &mut taken);
        proof {
            use_type_invariant(&taken);
        }
        let GenericBuffer { mut info, mut pos, have_positions, props, content_type } = taken;
        let ghost n = info@.len();
        append_text(&mut info, &mut pos, s);
        assert(pos@ =~= zero_positions(n + s@.len()));
        *self = GenericBuffer {
            info,
            pos,
            have_positions,
            props,
            content_type: CONTENT_TYPE_UNICODE,
        };
    }

    /// Sets the text direction.
    pub fn set_direction(&mut self, direction: Direction)
        ensures
            final(self)@ == (BufferView {
                props: SegmentPropertiesView { direction, ..old(self)@.props },
                ..old(self)@
            }),
    {
        proof {
            use_type_invariant(&*self);
        }
        self.props.direction = direction;
    }

    /// The text direction.
    pub fn get_direction(&self) -> (d: Direction)
        ensures
            d == self@.props.direction,
    {
        self.props.direction
    }

    /// Sets the language.
    pub fn set_language(&mut self, lang: Language)
        ensures
            final(self)@ == (BufferView {
                props: SegmentPropertiesView { language: Some(lang@), ..old(self)@.props },
                ..old(self)@
            }),
    {
        proof {
            use_type_invariant(&*self);
        }
        self.props.language = Some(lang);
    }

    /// The language, if one is set.
    pub fn get_language(&self) -> (lang: Option<Language>)
        ensures
            language_view(lang) == self@.props.language,
    {
        clone_language(&self.props.language)
    }

    /// Sets the script.
    pub fn set_script(&mut self, script: Script)
        ensures
            final(self)@ == (BufferView {
                props: SegmentPropertiesView { script, ..old(self)@.props },
                ..old(self)@
            }),
    {
        proof {
            use_type_invariant(&*self);
        }
        self.props.script = script;
    }

    /// The script.
    pub fn get_script(&self) -> (s: Script)
        ensures
            s == self@.props.script,
    {
        self.props.script
    }

    /// Fills in the segment properties that are not set: the script from the
    /// first character of a specific script, the direction from the script,
    /// and the language from `default_language`, the language of the
    /// process's locale.
    pub fn guess_segment_properties(&mut self, default_language: Language)
        requires
            accepts_text(old(self)@),
        ensures
            final(self)@ == (BufferView {
                props: guessed_properties(old(self)@.props, old(self)@.infos, default_language@),
                ..old(self)@
            }),
    {
        proof {
            use_type_invariant(&*self);
        }
        if self.props.script == SCRIPT_INVALID {
            let mut i: usize = 0;
            let n = self.info.len();
            let mut found = SCRIPT_INVALID;
            let mut done = false;
            while !done && i < n
                invariant
                    n == self.info@.len(),
                    i <= n,
                    done ==> found == guessed_script(self.info@),
                    !done ==> guessed_script(self.info@) == script_search(self.info@, i as int),
                    !done ==> found == SCRIPT_INVALID,
                decreases n - i + (if done { 0int } else { 1int }),
            {
                let sc = script_of_codepoint(self.info[i].codepoint);
                if sc != SCRIPT_COMMON && sc != SCRIPT_INHERITED && sc != SCRIPT_UNKNOWN {
                    found = sc;
                    done = true;
                } else {
                    i = i + 1;
                }
            }
            self.props.script = found;
        }
        if self.props.direction == DIRECTION_INVALID {
            let d = script_get_horizontal_direction(self.props.script);
            self.props.direction = if d == DIRECTION_INVALID { DIRECTION_LTR } else { d };
        }
        if self.props.language.is_none() {
            self.props.language = Some(default_language);
        }
    }

    /// The segment properties: direction, script and language.
    pub fn get_segment_properties(&self) -> (props: SegmentProperties)
        ensures
            props@ == self@.props,
    {
        self.props.clone()
    }

    /// Empties the buffer, keeping its storage for reuse, and resets its
    /// properties and content type.
    pub fn clear_contents(&mut self)
        ensures
            final(self)@ == empty_buffer(),
    {
        let mut taken = GenericBuffer::new();
        std::mem::swap(self, &mut taken);
        let GenericBuffer { mut info, mut pos, .. } = taken;
        info.clear();
        pos.clear();
        assert(pos@ =~= zero_positions(0));
        *self = GenericBuffer {
            info,
            pos,
            have_positions: false,
            props: SegmentProperties {
                direction: DIRECTION_INVALID,
                script: SCRIPT_INVALID,
                language: None,
            },
            content_type: CONTENT_TYPE_INVALID,
        };
    }

    /// The glyph positions, one per item.
    pub fn get_glyph_positions(&self) -> (pos: &[GlyphPosition])
        ensures
            pos@ == self@.positions,
    {
        self.pos.as_slice()
    }

    /// The items: code points or glyphs, with masks and clusters.
    pub fn get_glyph_infos(&self) -> (info: &[GlyphInfo])
        ensures
            info@ == self@.infos,
    {
        self.info.as_slice()
    }

    /// Reverses the items in `[start, end)` (an end beyond the last item
    /// counts as the end), and their positions where the buffer has them.
    pub fn reverse_range(&mut self, start: usize, end: usize)
        requires
            start <= old(self)@.infos.len(),
        ensures
            final(self)@ == (BufferView {
                infos: reverse_range_seq(old(self)@.infos, start as int, end as int),
                positions: if old(self)@.have_positions {
                    reverse_range_seq(old(self)@.positions, start as int, end as int)
                } else {
                    old(self)@.positions
                },
                ..old(self)@
            }),
        no_unwind
    {
        proof {
            use_type_invariant(&*self);
        }
        if self.have_positions {
            reverse_vec_range(&mut self.info, start, end);
            reverse_vec_range(&mut self.pos, start, end);
        } else {
            reverse_vec_range(&mut self.info, start, end);
        }
    }

    /// Reverses all items, and their positions where the buffer has them.
    pub fn reverse(&mut self)
        ensures
            final(self)@ == (BufferView {
                infos: old(self)@.infos.reverse(),
                positions: if old(self)@.have_positions {
                    old(self)@.positions.reverse()
                } else {
                    old(self)@.positions
                },
                ..old(self)@
            }),
        no_unwind
    {
        proof {
            use_type_invariant(&*self);
        }
        let n = self.info.len();
        self.reverse_range(0, n);
        assert(self.info@ =~= old(self)@.infos.reverse());
        assert(self.have_positions ==> self.pos@ =~= old(self)@.positions.reverse());
    }

    /// Whether the buffer holds glyph positions (set by shaping).
    pub fn has_positions(&self) -> (b: bool)
        ensures
            b == self@.have_positions,
    {
        self.have_positions
    }

    /// The content type: invalid, Unicode or glyphs.
    pub fn content_type(&self) -> (t: u32)
        ensures
            t == self@.content_type,
    {
        self.content_type
    }
}


/// The code points of a sequence of items.
pub open spec fn codepoints_of(infos: Seq<GlyphInfo>) -> Seq<u32> {
    Seq::new(infos.len(), |i: int| infos[i].codepoint)
}

/// A buffer of Unicode text to be shaped.
///
/// Fill it with text, set or guess its segment properties, and hand it to a
/// shaper, which returns a [`GlyphBuffer`]; clearing that buffer gives back an
/// empty `UnicodeBuffer` reusing the allocation.
///
/// `{:?}` prints the buffer's fields as `derive(Debug)` writes them. The
/// text with the content as a string, the direction, the language and the
/// script is [`UnicodeBuffer::debug_string`].
#[derive(Debug)]
pub struct UnicodeBuffer(GenericBuffer);

impl View for UnicodeBuffer {
    type V = BufferView;

    closed spec fn view(&self) -> BufferView {
        self.0@
    }
}

/// What a Unicode buffer satisfies beyond `buffer_inv`: it holds Unicode,
/// or is empty and of no content type yet.
pub open spec fn unicode_inv(b: BufferView) -> bool {
    buffer_inv(b) && accepts_text(b)
}

impl UnicodeBuffer {
    #[verifier::type_invariant]
    closed spec fn inv(self) -> bool {
        accepts_text(self.0@)
    }

    /// Creates a new empty buffer.
    pub fn new() -> (b: UnicodeBuffer)
        ensures
            b@ == empty_buffer(),
    {
        UnicodeBuffer(GenericBuffer::new())
    }

    /// Converts this buffer to the raw buffer object.
    pub fn into_raw(self) -> (raw: GenericBuffer)
        ensures
            raw@ == self@,
            unicode_inv(raw@),
    {
        proof {
            use_type_invariant(&self);
        }
        let raw = self.0;
        proof {
            use_type_invariant(&raw);
        }
        raw
    }

    /// The number of code points in the buffer.
    pub fn len(&self) -> (n: usize)
        ensures
            n == self@.infos.len(),
    {
        self.0.len()
    }

    /// Whether the buffer holds no code point.
    pub fn is_empty(&self) -> (b: bool)
        ensures
            b == (self@.infos.len() == 0),
    {
        self.0.is_empty()
    }

    /// Adds the characters of `str_slice`, each with the offset of its first
    /// byte in `str_slice` as cluster.
    pub fn add_str(self, str_slice: &str) -> (b: UnicodeBuffer)
        requires
            self@.infos.len() + str_slice@.len() <= MAX_LEN,
            encode_utf8(str_slice@).len() <= i32::MAX,
        ensures
            b@ == (BufferView {
                infos: self@.infos + text_infos(str_slice@),
                positions: self@.positions + zero_positions(str_slice@.len()),
                content_type: CONTENT_TYPE_UNICODE,
                ..self@
            }),
    {
        proof {
            use_type_invariant(&self);
        }
        let mut raw = self.0;
        raw.add_str(str_slice);
        UnicodeBuffer(raw)
    }

    /// The stored code points, one by one.
    pub fn codepoints(&self) -> (c: Codepoints<'_>)
        ensures
            c@ == codepoints_of(self@.infos),
    {
        let c = Codepoints { infos: self.0.get_glyph_infos(), next: 0 };
        assert(c@ =~= codepoints_of(self@.infos));
        c
    }

    /// The stored code points as text, with U+FFFD for each code point that
    /// is no Unicode scalar value.
    pub fn string_lossy(&self) -> (s: String)
        ensures
            s@ == lossy_text(self@.infos),
    {
        infos_to_string_lossy(self.0.get_glyph_infos())
    }

    /// Sets the text direction.
    pub fn set_direction(self, direction: Direction) -> (b: UnicodeBuffer)
        ensures
            b@ == (BufferView {
                props: SegmentPropertiesView { direction, ..self@.props },
                ..self@
            }),
    {
        proof {
            use_type_invariant(&self);
        }
        let mut raw = self.0;
        raw.set_direction(direction);
        UnicodeBuffer(raw)
    }

    /// The text direction.
    pub fn get_direction(&self) -> (d: Direction)
        ensures
            d == self@.props.direction,
    {
        self.0.get_direction()
    }

    /// Sets the script from an ISO 15924 tag.
    pub fn set_script(self, script: Tag) -> (b: UnicodeBuffer)
        ensures
            b@ == (BufferView {
                props: SegmentPropertiesView { script: script_of_tag(script.0), ..self@.props },
                ..self@
            }),
    {
        proof {
            use_type_invariant(&self);
        }
        let mut raw = self.0;
        raw.set_script(script_from_iso15924_tag(script.0));
        UnicodeBuffer(raw)
    }

    /// The ISO 15924 tag of the script.
    pub fn get_script(&self) -> (t: Tag)
        ensures
            t.0 == self@.props.script,
    {
        Tag(self.0.get_script())
    }

    /// Sets the language.
    pub fn set_language(self, lang: Language) -> (b: UnicodeBuffer)
        ensures
            b@ == (BufferView {
                props: SegmentPropertiesView { language: Some(lang@), ..self@.props },
                ..self@
            }),
    {
        proof {
            use_type_invariant(&self);
        }
        let mut raw = self.0;
        raw.set_language(lang);
        UnicodeBuffer(raw)
    }

    /// The language, if one is set.
    pub fn get_language(&self) -> (lang: Option<Language>)
        ensures
            language_view(lang) == self@.props.language,
    {
        self.0.get_language()
    }

    /// Guesses the segment properties that are not set: the script from the
    /// text, the direction from the script, the language from
    /// `default_language`, the language of the process's locale.
    pub fn guess_segment_properties(self, default_language: Language) -> (b: UnicodeBuffer)
        ensures
            b@ == (BufferView {
                props: guessed_properties(self@.props, self@.infos, default_language@),
                ..self@
            }),
    {
        proof {
            use_type_invariant(&self);
        }
        let mut raw = self.0;
        raw.guess_segment_properties(default_language);
        UnicodeBuffer(raw)
    }

    /// The segment properties: direction, script and language.
    pub fn get_segment_properties(&self) -> (props: SegmentProperties)
        ensures
            props@ == self@.props,
    {
        self.0.get_segment_properties()
    }

    /// Clears the text, and with it the segment properties.
    pub fn clear_contents(self) -> (b: UnicodeBuffer)
        ensures
            b@ == empty_buffer(),
    {
        let mut raw = self.0;
        raw.clear_contents();
        UnicodeBuffer(raw)
    }
}

impl Default for UnicodeBuffer {
    fn default() -> (b: UnicodeBuffer)
        ensures
            b@ == empty_buffer(),
    {
        UnicodeBuffer::new()
    }
}

/// The code points of a [`UnicodeBuffer`], one at a time.
#[derive(Debug, Clone, Copy)]
pub struct Codepoints<'a> {
    infos: &'a [GlyphInfo],
    next: usize,
}

impl<'a> View for Codepoints<'a> {
    type V = Seq<u32>;

    /// The code points not handed out yet.
    closed spec fn view(&self) -> Seq<u32> {
        codepoints_of(self.infos@).skip(self.next as int)
    }
}

impl<'a> Codepoints<'a> {
    #[verifier::type_invariant]
    closed spec fn inv(self) -> bool {
        self.next <= self.infos@.len()
    }

    /// The next code point, if any is left.
    pub fn next(&mut self) -> (cp: Option<u32>)
        ensures
            old(self)@.len() == 0 ==> cp is None && final(self)@ == old(self)@,
            old(self)@.len() > 0 ==> cp == Some(old(self)@[0]) && final(self)@
                == old(self)@.drop_first(),
    {
        proof {
            use_type_invariant(&*self);
        }
        if self.next < self.infos.len() {
            let cp = self.infos[self.next].codepoint;
            self.next = self.next + 1;
            assert(self@ =~= old(self)@.drop_first());
            Some(cp)
        } else {
            None
        }
    }
}

/// The result of shaping: glyphs and their positions.
///
/// `{:?}` prints the buffer's fields as `derive(Debug)` writes them. The
/// text with the glyph positions and the glyph infos as lists is
/// [`GlyphBuffer::debug_string`]; the text serialization is
/// [`GlyphBuffer::to_string`].
#[derive(Debug)]
pub struct GlyphBuffer(GenericBuffer);

impl View for GlyphBuffer {
    type V = BufferView;

    closed spec fn view(&self) -> BufferView {
        self.0@
    }
}

/// What a glyph buffer satisfies beyond `buffer_inv`: it holds glyphs.
pub open spec fn glyph_inv(b: BufferView) -> bool {
    buffer_inv(b) && b.content_type == CONTENT_TYPE_GLYPHS
}

impl GlyphBuffer {
    #[verifier::type_invariant]
    closed spec fn inv(self) -> bool {
        self.0@.content_type == CONTENT_TYPE_GLYPHS
    }

    /// The glyph buffer that shaping `buffer` leaves: the given glyphs and
    /// positions, with the segment properties of `buffer`.
    pub fn from_shaping(
        buffer: UnicodeBuffer,
        glyphs: Vec<GlyphInfo>,
        positions: Vec<GlyphPosition>,
    ) -> (b: GlyphBuffer)
        requires
            glyphs@.len() == positions@.len(),
            glyphs@.len() <= MAX_LEN,
        ensures
            b@ == (BufferView {
                infos: glyphs@,
                positions: positions@,
                have_positions: true,
                content_type: CONTENT_TYPE_GLYPHS,
                ..buffer@
            }),
    {
        let raw = buffer.into_raw();
        proof {
            use_type_invariant(&raw);
        }
        let GenericBuffer { props, .. } = raw;
        GlyphBuffer(
            GenericBuffer {
                info: glyphs,
                pos: positions,
                have_positions: true,
                props,
                content_type: CONTENT_TYPE_GLYPHS,
            },
        )
    }

    /// The number of glyphs.
    pub fn len(&self) -> (n: usize)
        ensures
            n == self@.infos.len(),
    {
        self.0.len()
    }

    /// The raw buffer object behind this buffer.
    pub fn as_raw(&self) -> (raw: &GenericBuffer)
        ensures
            raw@ == self@,
            glyph_inv(raw@),
    {
        proof {
            use_type_invariant(self);
            use_type_invariant(&self.0);
        }
        &self.0
    }

    /// Converts this buffer to the raw buffer object.
    pub fn into_raw(self) -> (raw: GenericBuffer)
        ensures
            raw@ == self@,
            glyph_inv(raw@),
    {
        proof {
            use_type_invariant(&self);
        }
        let raw = self.0;
        proof {
            use_type_invariant(&raw);
        }
        raw
    }

    /// Whether the buffer holds no glyph.
    pub fn is_empty(&self) -> (b: bool)
        ensures
            b == (self@.infos.len() == 0),
    {
        self.0.is_empty()
    }

    /// The glyph positions.
    pub fn get_glyph_positions(&self) -> (pos: &[GlyphPosition])
        ensures
            pos@ == self@.positions,
    {
        self.0.get_glyph_positions()
    }

    /// The glyph infos.
    pub fn get_glyph_infos(&self) -> (info: &[GlyphInfo])
        ensures
            info@ == self@.infos,
    {
        self.0.get_glyph_infos()
    }

    /// Reverses the glyphs, with their positions.
    pub fn reverse(&mut self)
        ensures
            final(self)@ == (BufferView {
                infos: old(self)@.infos.reverse(),
                positions: if old(self)@.have_positions {
                    old(self)@.positions.reverse()
                } else {
                    old(self)@.positions
                },
                ..old(self)@
            }),
    {
        proof {
            use_type_invariant(&*self);
        }
        self.0.reverse()
    }

    /// Reverses the glyphs in `[start, end)`, with their positions; an end
    /// beyond the last glyph counts as the end of the buffer.
    pub fn reverse_range(&mut self, start: usize, end: usize)
        requires
            start <= old(self)@.infos.len(),
        ensures
            final(self)@ == (BufferView {
                infos: reverse_range_seq(old(self)@.infos, start as int, end as int),
                positions: if old(self)@.have_positions {
                    reverse_range_seq(old(self)@.positions, start as int, end as int)
                } else {
                    old(self)@.positions
                },
                ..old(self)@
            }),
    {
        proof {
            use_type_invariant(&*self);
        }
        self.0.reverse_range(start, end)
    }

    /// Clears the glyphs and returns an empty `UnicodeBuffer` reusing the
    /// buffer.
    pub fn clear(self) -> (b: UnicodeBuffer)
        ensures
            b@ == empty_buffer(),
    {
        let mut raw = self.0;
        raw.clear_contents();
        UnicodeBuffer(raw)
    }
}

/// A buffer of either kind, as recovered from a raw buffer object.
#[derive(Debug)]
pub enum TypedBuffer {
    /// Contains a `UnicodeBuffer`
    Unicode(UnicodeBuffer),
    /// Contains a `GlyphBuffer`
    Glyphs(GlyphBuffer),
}

impl TypedBuffer {
    /// Takes the raw buffer object and converts it by its content type: to a
    /// `UnicodeBuffer` where it holds Unicode, to a `GlyphBuffer` where it
    /// holds glyphs, and to `None` where its content type is not set.
    pub fn take_from_raw(raw: GenericBuffer) -> (t: Option<TypedBuffer>)
        ensures
            raw@.content_type == CONTENT_TYPE_UNICODE <==> t matches Some(
                TypedBuffer::Unicode(_),
            ),
            raw@.content_type == CONTENT_TYPE_GLYPHS <==> t matches Some(TypedBuffer::Glyphs(_)),
            t matches Some(TypedBuffer::Unicode(u)) ==> u@ == raw@,
            t matches Some(TypedBuffer::Glyphs(g)) ==> g@ == raw@,
    {
        let content_type = raw.content_type();
        if content_type == CONTENT_TYPE_UNICODE {
            Some(TypedBuffer::Unicode(UnicodeBuffer(raw)))
        } else if content_type == CONTENT_TYPE_GLYPHS {
            Some(TypedBuffer::Glyphs(GlyphBuffer(raw)))
        } else {
            None
        }
    }
}

/// The text of a buffer after `add_str` is its text before, followed by the
/// added string: added text reads back unchanged through `string_lossy`.
pub proof fn lemma_added_text_reads_back(infos: Seq<GlyphInfo>, s: Seq<char>)
    ensures
        lossy_text(infos + text_infos(s)) == lossy_text(infos) + s,
{
    assert forall|i: int| 0 <= i < s.len() implies lossy_char(#[trigger] s[i] as u32) == s[i] by {
        vstd::utf8::char_u32_cast(s[i], s[i] as u32);
    }
    assert(lossy_text(infos + text_infos(s)) =~= lossy_text(infos) + s);
}

/// The code points of a buffer after `add_str` are those before, followed by
/// the code points of the added characters, one per character.
pub proof fn lemma_added_codepoints(infos: Seq<GlyphInfo>, s: Seq<char>)
    ensures
        codepoints_of(infos + text_infos(s)) == codepoints_of(infos) + s.map_values(
            |c: char| c as u32,
        ),
{
    assert(codepoints_of(infos + text_infos(s)) =~= codepoints_of(infos) + s.map_values(
        |c: char| c as u32,
    ));
}

/// The number of bytes that UTF-8 takes for a character: one below U+0080,
/// two below U+0800, three below U+10000, four above.
pub open spec fn utf8_bytes(c: char) -> nat {
    if (c as u32) < 0x80 {
        1
    } else if (c as u32) < 0x800 {
        2
    } else if (c as u32) < 0x10000 {
        3
    } else {
        4
    }
}

proof fn lemma_encode_scalar_len(c: char)
    ensures
        vstd::utf8::encode_scalar(c as u32).len() == utf8_bytes(c),
{
    vstd::utf8::char_is_scalar(c);
}

proof fn lemma_encode_utf8_bound(s: Seq<char>, i: int)
    requires
        0 <= i <= s.len(),
    ensures
        encode_utf8(s.take(i)).len() <= 4 * i,
    decreases i,
{
    if i > 0 {
        lemma_encode_utf8_bound(s, i - 1);
        lemma_encode_utf8_push(s.take(i - 1), s[i - 1]);
        assert(s.take(i - 1).push(s[i - 1]) =~= s.take(i));
        lemma_encode_scalar_len(s[i - 1]);
    }
}

/// The clusters that `add_str` gives are the byte offsets of the characters
/// in the string: the first character is at offset 0, and each next one
/// follows after as many bytes as UTF-8 takes for the one before it.
pub proof fn lemma_clusters_are_byte_offsets(s: Seq<char>)
    requires
        s.len() <= MAX_LEN,
    ensures
        text_infos(s).len() == s.len(),
        s.len() > 0 ==> text_infos(s)[0].cluster == 0,
        forall|i: int|
            0 <= i < s.len() - 1 ==> #[trigger] text_infos(s)[i + 1].cluster == text_infos(s)[i].cluster
                + utf8_bytes(s[i]),
        forall|i: int| 0 <= i < s.len() ==> #[trigger] text_infos(s)[i].codepoint == s[i] as u32,
{
    if s.len() > 0 {
        assert(s.take(0) =~= Seq::<char>::empty());
        assert(encode_utf8(Seq::<char>::empty()) =~= Seq::<u8>::empty());
    }
    assert forall|i: int| 0 <= i < s.len() - 1 implies #[trigger] text_infos(s)[i + 1].cluster
        == text_infos(s)[i].cluster + utf8_bytes(s[i]) by {
        lemma_encode_utf8_push(s.take(i), s[i]);
        assert(s.take(i).push(s[i]) =~= s.take(i + 1));
        lemma_encode_scalar_len(s[i]);
        lemma_encode_utf8_bound(s, i + 1);
        lemma_encode_utf8_bound(s, i);
    }
}

/// Reversing `[start, end)` puts the item at `start + end - 1 - k` at each
/// index `k` of the range and leaves every item outside it in place, where
/// an end beyond the last item counts as the end of the sequence.
pub proof fn lemma_reverse_range_places<T>(s: Seq<T>, start: int, end: int)
    requires
        0 <= start <= s.len(),
    ensures
        ({
            let r = reverse_range_seq(s, start, end);
            let e = if end < s.len() { end } else { s.len() as int };
            &&& r.len() == s.len()
            &&& forall|k: int| 0 <= k < s.len() && (k < start || k >= e) ==> #[trigger] r[k] == s[k]
            &&& forall|k: int| start <= k < e ==> #[trigger] r[k] == s[start + e - 1 - k]
        }),
{
}


/// Reversing a range twice gives the items back.
pub proof fn lemma_reverse_range_involutive<T>(s: Seq<T>, start: int, end: int)
    requires
        0 <= start,
    ensures
        reverse_range_seq(reverse_range_seq(s, start, end), start, end) == s,
{
    assert(reverse_range_seq(reverse_range_seq(s, start, end), start, end) =~= s);
}

/// Reversing the whole buffer is reversing the range from the first item to
/// the end.
pub proof fn lemma_reverse_is_full_range<T>(s: Seq<T>, end: int)
    requires
        end >= s.len(),
    ensures
        reverse_range_seq(s, 0, end) == s.reverse(),
{
    assert(reverse_range_seq(s, 0, end) =~= s.reverse());
}

/// Guessing the segment properties a second time changes nothing, whatever
/// default language it is given, and after guessing the direction and the
/// language are set.
pub proof fn lemma_guess_idempotent(
    props: SegmentPropertiesView,
    infos: Seq<GlyphInfo>,
    default_language: Seq<char>,
    second_default: Seq<char>,
)
    ensures
        guessed_properties(guessed_properties(props, infos, default_language), infos, second_default)
            == guessed_properties(props, infos, default_language),
        guessed_properties(props, infos, default_language).direction != DIRECTION_INVALID,
        guessed_properties(props, infos, default_language).language is Some,
{
}

/// The items of a buffer after adding the strings of `ss`, one after
/// another, to a buffer holding `infos`.
pub open spec fn added_texts_infos(infos: Seq<GlyphInfo>, ss: Seq<Seq<char>>) -> Seq<GlyphInfo>
    decreases ss.len(),
{
    if ss.len() == 0 {
        infos
    } else {
        added_texts_infos(infos + text_infos(ss[0]), ss.drop_first())
    }
}

/// After any number of `add_str` calls the buffer holds one item per added
/// character, its code points are those of the added strings joined, and
/// its text reads back as the added strings joined.
pub proof fn lemma_added_texts(infos: Seq<GlyphInfo>, ss: Seq<Seq<char>>)
    ensures
        added_texts_infos(infos, ss).len() == infos.len() + ss.flatten().len(),
        codepoints_of(added_texts_infos(infos, ss)) == codepoints_of(infos) + ss.flatten().map_values(
            |c: char| c as u32,
        ),
        lossy_text(added_texts_infos(infos, ss)) == lossy_text(infos) + ss.flatten(),
    decreases ss.len(),
{
    if ss.len() > 0 {
        let next = infos + text_infos(ss[0]);
        let rest = ss.drop_first();
        lemma_added_codepoints(infos, ss[0]);
        lemma_added_text_reads_back(infos, ss[0]);
        lemma_added_texts(next, rest);
        assert(ss.flatten() == ss[0] + rest.flatten());
        assert(ss.flatten().map_values(|c: char| c as u32) =~= ss[0].map_values(|c: char| c as u32)
            + rest.flatten().map_values(|c: char| c as u32));
        assert(codepoints_of(infos) + ss.flatten().map_values(|c: char| c as u32) =~= codepoints_of(
            infos,
        ) + ss[0].map_values(|c: char| c as u32) + rest.flatten().map_values(|c: char| c as u32));
        assert(lossy_text(infos) + ss.flatten() =~= lossy_text(infos) + ss[0] + rest.flatten());
    }
}

/// A buffer that `UnicodeBuffer::into_raw` hands out holds Unicode, or is
/// empty with no content type; so `TypedBuffer::take_from_raw` turns it back
/// into a `UnicodeBuffer` exactly when it is not that empty buffer, and never
/// into a `GlyphBuffer`.
pub proof fn lemma_unicode_raw_content(b: BufferView)
    requires
        unicode_inv(b),
    ensures
        b.content_type != CONTENT_TYPE_GLYPHS,
        b.content_type != CONTENT_TYPE_UNICODE ==> b.infos.len() == 0,
{
}

} // verus!
