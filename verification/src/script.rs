use vstd::prelude::*;
use unicode_script::UnicodeScript;
use crate::common::{
    DIRECTION_INVALID, DIRECTION_LTR, DIRECTION_RTL, SCRIPT_INHERITED, SCRIPT_INVALID,
    SCRIPT_UNKNOWN,
};

verus! {

/// `Qaai`, the old private-use code of the inherited script.
pub const TAG_QAAI: u32 = 0x51616169;
/// `Qaac`, the old private-use code of Coptic.
pub const TAG_QAAC: u32 = 0x51616163;
pub const SCRIPT_COPTIC: u32 = 0x436f7074;
pub const SCRIPT_ARABIC: u32 = 0x41726162;
pub const SCRIPT_CYRILLIC: u32 = 0x4379726c;
pub const SCRIPT_GEORGIAN: u32 = 0x47656f72;
pub const SCRIPT_HAN: u32 = 0x48616e69;
pub const SCRIPT_HANGUL: u32 = 0x48616e67;
pub const SCRIPT_LATIN: u32 = 0x4c61746e;
pub const SCRIPT_SYRIAC: u32 = 0x53797263;

/// The script that an ISO 15924 variant tag stands for, if it is one of the
/// variants (`Aran`, `Cyrs`, `Geok`, `Hans`, `Hant`, `Jamo`, `Latf`, `Latg`,
/// `Syre`, `Syrj`, `Syrn`) or an old private-use code (`Qaai`, `Qaac`).
pub open spec fn variant_script(t: u32) -> Option<u32> {
    if t == TAG_QAAI {
        Some(SCRIPT_INHERITED)
    } else if t == TAG_QAAC {
        Some(SCRIPT_COPTIC)
    } else if t == 0x4172616e {
        Some(SCRIPT_ARABIC)
    } else if t == 0x43797273 {
        Some(SCRIPT_CYRILLIC)
    } else if t == 0x47656f6b {
        Some(SCRIPT_GEORGIAN)
    } else if t == 0x48616e73 || t == 0x48616e74 {
        Some(SCRIPT_HAN)
    } else if t == 0x4a616d6f {
        Some(SCRIPT_HANGUL)
    } else if t == 0x4c617466 || t == 0x4c617467 {
        Some(SCRIPT_LATIN)
    } else if t == 0x53797265 || t == 0x5379726a || t == 0x5379726e {
        Some(SCRIPT_SYRIAC)
    } else {
        None
    }
}

/// The tag with its first letter upper case and the other three lower case.
pub open spec fn adjust_case(tag: u32) -> u32 {
    (tag & 0xDFDFDFDFu32) | 0x00202020u32
}

/// Whether a case-adjusted tag has the shape of a script tag: one capital
/// letter followed by three small letters (or the characters beside them).
pub open spec fn looks_like_script(t: u32) -> bool {
    (t & 0xE0E0E0E0u32) == 0x40606060u32
}

/// The script of an ISO 15924 tag: none for the empty tag, the canonical
/// script of a variant tag, the tag itself (case adjusted) where it has the
/// shape of a script tag, and the unknown script otherwise.
pub open spec fn script_of_tag(tag: u32) -> u32 {
    if tag == 0 {
        SCRIPT_INVALID
    } else {
        let t = adjust_case(tag);
        match variant_script(t) {
            Some(s) => s,
            None => if looks_like_script(t) { t } else { SCRIPT_UNKNOWN },
        }
    }
}

/// Converts an ISO 15924 tag to a script.
pub fn script_from_iso15924_tag(tag: u32) -> (script: u32)
    ensures
        script == script_of_tag(tag),
{
    if tag == 0 {
        return SCRIPT_INVALID;
    }
    let t = (tag & 0xDFDFDFDFu32) | 0x00202020u32;
    if t == TAG_QAAI {
        SCRIPT_INHERITED
    } else if t == TAG_QAAC {
        SCRIPT_COPTIC
    } else if t == 0x4172616e {
        SCRIPT_ARABIC
    } else if t == 0x43797273 {
        SCRIPT_CYRILLIC
    } else if t == 0x47656f6b {
        SCRIPT_GEORGIAN
    } else if t == 0x48616e73 || t == 0x48616e74 {
        SCRIPT_HAN
    } else if t == 0x4a616d6f {
        SCRIPT_HANGUL
    } else if t == 0x4c617466 || t == 0x4c617467 {
        SCRIPT_LATIN
    } else if t == 0x53797265 || t == 0x5379726a || t == 0x5379726e {
        SCRIPT_SYRIAC
    } else if (t & 0xE0E0E0E0u32) == 0x40606060u32 {
        t
    } else {
        SCRIPT_UNKNOWN
    }
}

/// Whether a script is written right to left.
pub open spec fn is_rtl_script(s: u32) -> bool {
    ||| s == 0x41726162 // Arab
    ||| s == 0x48656272 // Hebr
    ||| s == 0x53797263 // Syrc
    ||| s == 0x54686161 // Thaa
    ||| s == 0x43707274 // Cprt
    ||| s == 0x4b686172 // Khar
    ||| s == 0x50686e78 // Phnx
    ||| s == 0x4e6b6f6f // Nkoo
    ||| s == 0x4c796469 // Lydi
    ||| s == 0x41767374 // Avst
    ||| s == 0x41726d69 // Armi
    ||| s == 0x50686c69 // Phli
    ||| s == 0x50727469 // Prti
    ||| s == 0x53617262 // Sarb
    ||| s == 0x4f726b68 // Orkh
    ||| s == 0x53616d72 // Samr
    ||| s == 0x4d616e64 // Mand
    ||| s == 0x4d657263 // Merc
    ||| s == 0x4d65726f // Mero
    ||| s == 0x4d616e69 // Mani
    ||| s == 0x4d656e64 // Mend
    ||| s == 0x4e626174 // Nbat
    ||| s == 0x4e617262 // Narb
    ||| s == 0x50616c6d // Palm
    ||| s == 0x50686c70 // Phlp
    ||| s == 0x48617472 // Hatr
    ||| s == 0x41646c6d // Adlm
    ||| s == 0x526f6867 // Rohg
    ||| s == 0x536f676f // Sogo
    ||| s == 0x536f6764 // Sogd
    ||| s == 0x456c796d // Elym
    ||| s == 0x43687273 // Chrs
    ||| s == 0x59657a69 // Yezi
    ||| s == 0x4f756772 // Ougr
}

/// Whether a script is written in either horizontal direction.
pub open spec fn is_bidirectional_script(s: u32) -> bool {
    ||| s == 0x48756e67 // Hung
    ||| s == 0x4974616c // Ital
    ||| s == 0x52756e72 // Runr
    ||| s == 0x54666e67 // Tfng
}

/// The horizontal direction of a script: right to left for the scripts so
/// written, none for those written either way, left to right for the rest.
pub open spec fn horizontal_direction_of(s: u32) -> u32 {
    if is_rtl_script(s) {
        DIRECTION_RTL
    } else if is_bidirectional_script(s) {
        DIRECTION_INVALID
    } else {
        DIRECTION_LTR
    }
}

/// The horizontal direction in which a script is written.
pub fn script_get_horizontal_direction(s: u32) -> (d: u32)
    ensures
        d == horizontal_direction_of(s),
{
    if s == 0x41726162 || s == 0x48656272 || s == 0x53797263 || s == 0x54686161
        || s == 0x43707274 || s == 0x4b686172 || s == 0x50686e78 || s == 0x4e6b6f6f
        || s == 0x4c796469 || s == 0x41767374 || s == 0x41726d69 || s == 0x50686c69
        || s == 0x50727469 || s == 0x53617262 || s == 0x4f726b68 || s == 0x53616d72
        || s == 0x4d616e64 || s == 0x4d657263 || s == 0x4d65726f || s == 0x4d616e69
        || s == 0x4d656e64 || s == 0x4e626174 || s == 0x4e617262 || s == 0x50616c6d
        || s == 0x50686c70 || s == 0x48617472 || s == 0x41646c6d || s == 0x526f6867
        || s == 0x536f676f || s == 0x536f6764 || s == 0x456c796d || s == 0x43687273
        || s == 0x59657a69 || s == 0x4f756772 {
        DIRECTION_RTL
    } else if s == 0x48756e67 || s == 0x4974616c || s == 0x52756e72 || s == 0x54666e67 {
        DIRECTION_INVALID
    } else {
        DIRECTION_LTR
    }
}

/// The ISO 15924 tag of the Unicode `Script` property of a character.
pub uninterp spec fn unicode_script_tag(c: char) -> u32;

/// Calls `UnicodeScript::script` of the `unicode-script` crate on the
/// character and `Script::as_iso15924_tag` on the result. The contract claims
/// only that the result is a function of the character, named
/// `unicode_script_tag`; which script the Unicode tables assign is not stated.
#[verifier::external_body]
fn unicode_script_of(c: char) -> (tag: u32)
    ensures
        tag == unicode_script_tag(c),
{
    c.script().as_iso15924_tag()
}

/// Calls `char::from_u32`: the character with the given code, if the code
/// is a Unicode scalar value.
#[verifier::external_body]
pub(crate) fn char_from_u32(u: u32) -> (c: Option<char>)
    ensures
        c is Some <==> vstd::utf8::is_scalar(u),
        c matches Some(ch) ==> ch as u32 == u,
{
    char::from_u32(u)
}

/// The script of a code point: that of its character, and the unknown
/// script for a value that is no Unicode scalar.
pub open spec fn codepoint_script(u: u32) -> u32 {
    if vstd::utf8::is_scalar(u) {
        unicode_script_tag(u as char)
    } else {
        SCRIPT_UNKNOWN
    }
}

/// The script of a code point.
pub fn script_of_codepoint(u: u32) -> (s: u32)
    ensures
        s == codepoint_script(u),
{
    match char_from_u32(u) {
        Some(c) => {
            proof {
                vstd::utf8::char_u32_cast(c, u);
            }
            unicode_script_of(c)
        },
        None => SCRIPT_UNKNOWN,
    }
}

/// A script's own tag converts to the script itself: setting the script
/// from the tag that `get_script` returns leaves it unchanged, and
/// converting a tag twice is converting it once.
pub proof fn lemma_script_of_tag_idempotent(tag: u32)
    ensures
        script_of_tag(script_of_tag(tag)) == script_of_tag(tag),
{
    if tag != 0 {
        let t = adjust_case(tag);
        assert(adjust_case(t) == t && t != 0) by (bit_vector)
            requires
                t == (tag & 0xDFDFDFDFu32) | 0x00202020u32,
        ;
        assert(adjust_case(SCRIPT_INHERITED) == SCRIPT_INHERITED && looks_like_script(SCRIPT_INHERITED))
            by (bit_vector);
        assert(adjust_case(SCRIPT_COPTIC) == SCRIPT_COPTIC && looks_like_script(SCRIPT_COPTIC))
            by (bit_vector);
        assert(adjust_case(SCRIPT_ARABIC) == SCRIPT_ARABIC && looks_like_script(SCRIPT_ARABIC))
            by (bit_vector);
        assert(adjust_case(SCRIPT_CYRILLIC) == SCRIPT_CYRILLIC && looks_like_script(SCRIPT_CYRILLIC))
            by (bit_vector);
        assert(adjust_case(SCRIPT_GEORGIAN) == SCRIPT_GEORGIAN && looks_like_script(SCRIPT_GEORGIAN))
            by (bit_vector);
        assert(adjust_case(SCRIPT_HAN) == SCRIPT_HAN && looks_like_script(SCRIPT_HAN)) by (bit_vector);
        assert(adjust_case(SCRIPT_HANGUL) == SCRIPT_HANGUL && looks_like_script(SCRIPT_HANGUL))
            by (bit_vector);
        assert(adjust_case(SCRIPT_LATIN) == SCRIPT_LATIN && looks_like_script(SCRIPT_LATIN))
            by (bit_vector);
        assert(adjust_case(SCRIPT_SYRIAC) == SCRIPT_SYRIAC && looks_like_script(SCRIPT_SYRIAC))
            by (bit_vector);
        assert(adjust_case(SCRIPT_UNKNOWN) == SCRIPT_UNKNOWN && looks_like_script(SCRIPT_UNKNOWN))
            by (bit_vector);
    }
}

/// The scripts written right to left: Arabic, Hebrew, Syriac, Thaana,
/// Cypriot, Kharoshthi, Phoenician, N'Ko, Lydian, Avestan, Imperial Aramaic,
/// Inscriptional Pahlavi and Parthian, Old South Arabian, Old Turkic,
/// Samaritan, Mandaic, Meroitic, Manichaean, Mende Kikakui, Nabataean, Old
/// North Arabian, Palmyrene, Psalter Pahlavi, Hatran, Adlam, Hanifi
/// Rohingya, Sogdian, Old Sogdian, Elymaic, Chorasmian, Yezidi and Old
/// Uyghur. Old Hungarian, Old Italic, Runic and Tifinagh are written either
/// way.
pub proof fn lemma_script_directions(s: u32)
    ensures
        horizontal_direction_of(s) == DIRECTION_RTL <==> set![
            0x41726162u32, // Arab
            0x48656272u32, // Hebr
            0x53797263u32, // Syrc
            0x54686161u32, // Thaa
            0x43707274u32, // Cprt
            0x4b686172u32, // Khar
            0x50686e78u32, // Phnx
            0x4e6b6f6fu32, // Nkoo
            0x4c796469u32, // Lydi
            0x41767374u32, // Avst
            0x41726d69u32, // Armi
            0x50686c69u32, // Phli
            0x50727469u32, // Prti
            0x53617262u32, // Sarb
            0x4f726b68u32, // Orkh
            0x53616d72u32, // Samr
            0x4d616e64u32, // Mand
            0x4d657263u32, // Merc
            0x4d65726fu32, // Mero
            0x4d616e69u32, // Mani
            0x4d656e64u32, // Mend
            0x4e626174u32, // Nbat
            0x4e617262u32, // Narb
            0x50616c6du32, // Palm
            0x50686c70u32, // Phlp
            0x48617472u32, // Hatr
            0x41646c6du32, // Adlm
            0x526f6867u32, // Rohg
            0x536f676fu32, // Sogo
            0x536f6764u32, // Sogd
            0x456c796du32, // Elym
            0x43687273u32, // Chrs
            0x59657a69u32, // Yezi
            0x4f756772u32, // Ougr
        ].contains(s),
        horizontal_direction_of(s) == DIRECTION_INVALID <==> set![
            0x48756e67u32, // Hung
            0x4974616cu32, // Ital
            0x52756e72u32, // Runr
            0x54666e67u32, // Tfng
        ].contains(s),
        horizontal_direction_of(s) == DIRECTION_RTL || horizontal_direction_of(s) == DIRECTION_LTR
            || horizontal_direction_of(s) == DIRECTION_INVALID,
{
}

/// Tags are read whatever the case of their letters, and each ISO 15924
/// variant tag gives the script it is a variant of: `Aran` Arabic, `Cyrs`
/// Cyrillic, `Geok` Georgian, `Hans` and `Hant` Han, `Jamo` Hangul, `Latf`
/// and `Latg` Latin, `Syre`, `Syrj` and `Syrn` Syriac; the old private-use
/// codes `Qaai` and `Qaac` give the inherited script and Coptic.
pub proof fn lemma_variant_tags(tag: u32)
    ensures
        ({
            let t = (tag & 0xDFDFDFDFu32) | 0x00202020u32;
            &&& t == 0x4172616eu32 ==> script_of_tag(tag) == 0x41726162u32
            &&& t == 0x43797273u32 ==> script_of_tag(tag) == 0x4379726cu32
            &&& t == 0x47656f6bu32 ==> script_of_tag(tag) == 0x47656f72u32
            &&& (t == 0x48616e73u32 || t == 0x48616e74u32) ==> script_of_tag(tag) == 0x48616e69u32
            &&& t == 0x4a616d6fu32 ==> script_of_tag(tag) == 0x48616e67u32
            &&& (t == 0x4c617466u32 || t == 0x4c617467u32) ==> script_of_tag(tag) == 0x4c61746eu32
            &&& (t == 0x53797265u32 || t == 0x5379726au32 || t == 0x5379726eu32) ==> script_of_tag(tag)
                == 0x53797263u32
            &&& t == 0x51616169u32 ==> script_of_tag(tag) == 0x5a696e68u32
            &&& t == 0x51616163u32 ==> script_of_tag(tag) == 0x436f7074u32
        }),
{
    assert(tag == 0 ==> ((tag & 0xDFDFDFDFu32) | 0x00202020u32) == 0x00202020u32) by (bit_vector);
}

/// Two non-empty tags that differ only in the case of their letters give
/// the same script.
pub proof fn lemma_tag_case_insensitive(a: u32, b: u32)
    requires
        a != 0,
        b != 0,
        (a | 0x20202020u32) == (b | 0x20202020u32),
    ensures
        script_of_tag(a) == script_of_tag(b),
{
    assert(adjust_case(a) == adjust_case(b)) by (bit_vector)
        requires
            (a | 0x20202020u32) == (b | 0x20202020u32),
    ;
}

} // verus!
