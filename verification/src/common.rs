use vstd::prelude::*;

verus! {

/// A text direction: invalid, left to right, right to left, top to bottom
/// or bottom to top.
pub type Direction = u32;

/// A script, by its ISO 15924 tag.
pub type Script = u32;

pub const DIRECTION_INVALID: u32 = 0;
pub const DIRECTION_LTR: u32 = 4;
pub const DIRECTION_RTL: u32 = 5;
pub const DIRECTION_TTB: u32 = 6;
pub const DIRECTION_BTT: u32 = 7;

/// No script set (the empty tag).
pub const SCRIPT_INVALID: u32 = 0;
/// `Zyyy`
pub const SCRIPT_COMMON: u32 = 0x5a797979;
/// `Zinh`
pub const SCRIPT_INHERITED: u32 = 0x5a696e68;
/// `Zzzz`
pub const SCRIPT_UNKNOWN: u32 = 0x5a7a7a7a;

/// A four-byte OpenType or ISO 15924 tag, big-endian.
#[derive(Clone, Copy, Debug, PartialEq, Eq, Structural)]
pub struct Tag(pub u32);

/// One glyph (or, before shaping, one character) of a buffer.
#[derive(Clone, Copy, Debug, PartialEq, Eq, Structural)]
pub struct GlyphInfo {
    /// The Unicode code point before shaping, the glyph index after.
    pub codepoint: u32,
    pub mask: u32,
    /// The index of the first byte of the character in the added text.
    pub cluster: u32,
}

/// The position of one glyph after shaping.
#[derive(Clone, Copy, Debug, PartialEq, Eq, Structural)]
pub struct GlyphPosition {
    pub x_advance: i32,
    pub y_advance: i32,
    pub x_offset: i32,
    pub y_offset: i32,
}

/// A font feature applied to a range of clusters.
#[derive(Clone, Copy, Debug, PartialEq, Eq, Structural)]
pub struct Feature {
    pub tag: Tag,
    pub value: u32,
    pub start: u32,
    pub end: u32,
}

/// A BCP 47 language, by its name.
#[derive(Debug)]
pub struct Language {
    name: String,
}

impl View for Language {
    type V = Seq<char>;

    closed spec fn view(&self) -> Seq<char> {
        self.name@
    }
}

impl Language {
    /// The language with the given name.
    pub fn new(name: &str) -> (lang: Language)
        ensures
            lang@ == name@,
    {
        Language { name: name.to_owned() }
    }

    /// The name of the language.
    pub fn as_str(&self) -> (name: &str)
        ensures
            name@ == self@,
    {
        self.name.as_str()
    }
}

impl Clone for Language {
    fn clone(&self) -> (res: Self)
        ensures
            res@ == self@,
    {
        Language { name: self.name.clone() }
    }
}

/// Direction, script and language of a run of text.
#[derive(Debug)]
pub struct SegmentProperties {
    pub direction: Direction,
    pub script: Script,
    pub language: Option<Language>,
}

/// The view of an optional language: its name, if any.
pub open spec fn language_view(lang: Option<Language>) -> Option<Seq<char>> {
    match lang {
        Some(l) => Some(l@),
        None => None,
    }
}

pub fn clone_language(lang: &Option<Language>) -> (res: Option<Language>)
    ensures
        language_view(res) == language_view(*lang),
{
    match lang {
        Some(l) => Some(l.clone()),
        None => None,
    }
}

impl SegmentProperties {
    /// The properties of a fresh buffer: nothing set.
    pub open spec fn spec_default() -> (SegmentPropertiesView) {
        SegmentPropertiesView { direction: DIRECTION_INVALID, script: SCRIPT_INVALID, language: None }
    }
}

/// The mathematical value of [`SegmentProperties`].
pub struct SegmentPropertiesView {
    pub direction: u32,
    pub script: u32,
    pub language: Option<Seq<char>>,
}

impl View for SegmentProperties {
    type V = SegmentPropertiesView;

    open spec fn view(&self) -> SegmentPropertiesView {
        SegmentPropertiesView {
            direction: self.direction,
            script: self.script,
            language: language_view(self.language),
        }
    }
}

impl Clone for SegmentProperties {
    fn clone(&self) -> (res: Self)
        ensures
            res@ == self@,
    {
        SegmentProperties {
            direction: self.direction,
            script: self.script,
            language: clone_language(&self.language),
        }
    }
}

} // verus!
