use vstd::prelude::*;
use crate::common::GlyphInfo;
use crate::script::char_from_u32;

verus! {

/// Calls `String::push`: appends the character to the string.
#[verifier::external_body]
pub(crate) fn string_push(s: &mut String, c: char)
    ensures
        final(s)@ == old(s)@.push(c),
{
    s.push(c)
}

/// The characters of bytes taken one by one as Latin-1, which for ASCII
/// bytes is their UTF-8 reading.
pub open spec fn ascii_text(bytes: Seq<u8>) -> Seq<char> {
    Seq::new(bytes.len(), |i: int| bytes[i] as char)
}

/// The character of a code point, or U+FFFD where the code point is no
/// Unicode scalar value.
pub open spec fn lossy_char(u: u32) -> char {
    if vstd::utf8::is_scalar(u) {
        u as char
    } else {
        '\u{FFFD}'
    }
}

/// The text of a sequence of items, code point by code point.
pub open spec fn lossy_text(infos: Seq<GlyphInfo>) -> Seq<char> {
    Seq::new(infos.len(), |i: int| lossy_char(infos[i].codepoint))
}

/// The text of the items' code points, with U+FFFD for each code point
/// that is no Unicode scalar value.
pub fn infos_to_string_lossy(infos: &[GlyphInfo]) -> (s: String)
    ensures
        s@ == lossy_text(infos@),
{
    let mut s = String::new();
    let n = infos.len();
    let mut i: usize = 0;
    while i < n
        invariant
            n == infos@.len(),
            i <= n,
            s@ == lossy_text(infos@).take(i as int),
        decreases n - i,
    {
        let u = infos[i].codepoint;
        let c = match char_from_u32(u) {
            Some(c) => {
                proof {
                    vstd::utf8::char_u32_cast(c, u);
                }
                c
            },
            None => '\u{FFFD}',
        };
        string_push(&mut s, c);
        i = i + 1;
        assert(s@ =~= lossy_text(infos@).take(i as int));
    }
    assert(lossy_text(infos@).take(n as int) =~= lossy_text(infos@));
    s
}

} // verus!
