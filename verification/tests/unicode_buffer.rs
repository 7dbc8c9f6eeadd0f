use harfbuzz_buffer::buffer::CONTENT_TYPE_UNICODE;
use harfbuzz_buffer::common::{DIRECTION_INVALID, DIRECTION_LTR, DIRECTION_RTL};
use harfbuzz_buffer::{GlyphBuffer, GlyphInfo, GlyphPosition, Language, Tag, TypedBuffer, UnicodeBuffer};

fn tag(s: &[u8; 4]) -> u32 {
    u32::from_be_bytes(*s)
}

#[test]
fn new_buffer_is_empty() {
    let buffer = UnicodeBuffer::new();
    assert!(buffer.is_empty());
    assert_eq!(buffer.len(), 0);
    let buffer = UnicodeBuffer::default();
    assert!(buffer.is_empty());
}

#[test]
fn len_counts_code_points() {
    let str1 = "Hello ";
    let buffer = UnicodeBuffer::new().add_str(str1);
    assert_eq!(buffer.len(), str1.len());
    let str2 = "😍🙈";
    let buffer = buffer.add_str(str2);
    assert_eq!(buffer.len(), str1.len() + 2);
}

#[test]
fn added_strings_read_back() {
    let buffer = UnicodeBuffer::new().add_str("Hello");
    let buffer = buffer.add_str(" World");
    assert_eq!(buffer.string_lossy(), "Hello World");
    let buffer = UnicodeBuffer::new().add_str("añ😍");
    assert_eq!(buffer.string_lossy(), "añ😍");
}

#[test]
fn codepoints_iterate_in_order() {
    let buffer = UnicodeBuffer::new().add_str("ab");
    let mut iterator = buffer.codepoints();
    assert_eq!('a' as u32, iterator.next().unwrap());
    assert_eq!('b' as u32, iterator.next().unwrap());
    assert!(iterator.next().is_none());
    assert!(iterator.next().is_none());
}

#[test]
fn clear_contents_empties_the_buffer() {
    let buffer = UnicodeBuffer::new();
    let buffer = buffer.add_str("Test!");
    assert_eq!(buffer.len(), 5);
    let buffer = buffer.clear_contents();
    assert!(buffer.is_empty());
}

#[test]
fn clear_contents_resets_properties() {
    let buffer = UnicodeBuffer::new()
        .add_str("x")
        .set_direction(DIRECTION_RTL)
        .set_language(Language::new("fr"))
        .set_script(Tag(tag(b"Latn")))
        .clear_contents();
    assert_eq!(buffer.get_direction(), DIRECTION_INVALID);
    assert!(buffer.get_language().is_none());
    assert_eq!(buffer.get_script(), Tag(0));
}

#[test]
fn clusters_are_byte_offsets() {
    let buffer = UnicodeBuffer::new().add_str("aé😍b");
    let raw = buffer.into_raw();
    let clusters: Vec<u32> = raw.get_glyph_infos().iter().map(|i| i.cluster).collect();
    assert_eq!(clusters, vec![0, 1, 3, 7]);
    let codepoints: Vec<u32> = raw.get_glyph_infos().iter().map(|i| i.codepoint).collect();
    assert_eq!(codepoints, vec!['a' as u32, 'é' as u32, '😍' as u32, 'b' as u32]);
    assert!(raw.get_glyph_infos().iter().all(|i| i.mask == 0));
}

#[test]
fn clusters_restart_with_each_string() {
    let buffer = UnicodeBuffer::new().add_str("ab").add_str("c");
    let raw = buffer.into_raw();
    let clusters: Vec<u32> = raw.get_glyph_infos().iter().map(|i| i.cluster).collect();
    assert_eq!(clusters, vec![0, 1, 0]);
}

#[test]
fn direction_set_and_get() {
    let buffer = UnicodeBuffer::new();
    assert_eq!(buffer.get_direction(), DIRECTION_INVALID);
    let buffer = buffer.set_direction(DIRECTION_RTL);
    assert_eq!(buffer.get_direction(), DIRECTION_RTL);
}

#[test]
fn language_set_and_get() {
    let buffer = UnicodeBuffer::new();
    assert!(buffer.get_language().is_none());
    let buffer = buffer.set_language(Language::new("de"));
    assert_eq!(buffer.get_language().unwrap().as_str(), "de");
    assert_eq!(buffer.get_segment_properties().language.unwrap().as_str(), "de");
}

#[test]
fn script_tags_are_normalized() {
    let buffer = UnicodeBuffer::new().set_script(Tag(tag(b"Latn")));
    assert_eq!(buffer.get_script(), Tag(tag(b"Latn")));
    let buffer = buffer.set_script(Tag(tag(b"latn")));
    assert_eq!(buffer.get_script(), Tag(tag(b"Latn")));
    let buffer = buffer.set_script(Tag(tag(b"LATN")));
    assert_eq!(buffer.get_script(), Tag(tag(b"Latn")));
    let buffer = buffer.set_script(Tag(tag(b"Qaai")));
    assert_eq!(buffer.get_script(), Tag(tag(b"Zinh")));
    let buffer = buffer.set_script(Tag(tag(b"Hans")));
    assert_eq!(buffer.get_script(), Tag(tag(b"Hani")));
    let buffer = buffer.set_script(Tag(tag(b"Syrj")));
    assert_eq!(buffer.get_script(), Tag(tag(b"Syrc")));
    let buffer = buffer.set_script(Tag(tag(b"1234")));
    assert_eq!(buffer.get_script(), Tag(tag(b"Zzzz")));
    let buffer = buffer.set_script(Tag(0));
    assert_eq!(buffer.get_script(), Tag(0));
}

#[test]
fn script_of_own_tag_is_unchanged() {
    for t in [b"Arab", b"zinh", b"Hant", b"Qaac", b"Zzzz", b"\x01\x02\x03\x04"] {
        let once = UnicodeBuffer::new().set_script(Tag(tag(t))).get_script();
        let twice = UnicodeBuffer::new().set_script(once).get_script();
        assert_eq!(once, twice);
    }
}

#[test]
fn guess_arabic_text() {
    let buffer = UnicodeBuffer::new()
        .add_str("مرحبا")
        .guess_segment_properties(Language::new("en"));
    assert_eq!(buffer.get_script(), Tag(tag(b"Arab")));
    assert_eq!(buffer.get_direction(), DIRECTION_RTL);
    assert_eq!(buffer.get_language().unwrap().as_str(), "en");
}

#[test]
fn guess_latin_after_digits() {
    let buffer = UnicodeBuffer::new()
        .add_str("123 abc")
        .guess_segment_properties(Language::new("en"));
    assert_eq!(buffer.get_script(), Tag(tag(b"Latn")));
    assert_eq!(buffer.get_direction(), DIRECTION_LTR);
}

#[test]
fn guess_without_specific_script() {
    let buffer = UnicodeBuffer::new()
        .add_str("123 !")
        .guess_segment_properties(Language::new("en"));
    assert_eq!(buffer.get_script(), Tag(0));
    assert_eq!(buffer.get_direction(), DIRECTION_LTR);
}

#[test]
fn guess_keeps_what_is_set() {
    let buffer = UnicodeBuffer::new()
        .add_str("مرحبا")
        .set_direction(DIRECTION_LTR)
        .set_language(Language::new("ar"))
        .set_script(Tag(tag(b"Latn")))
        .guess_segment_properties(Language::new("en"));
    assert_eq!(buffer.get_script(), Tag(tag(b"Latn")));
    assert_eq!(buffer.get_direction(), DIRECTION_LTR);
    assert_eq!(buffer.get_language().unwrap().as_str(), "ar");
}

#[test]
fn guess_twice_changes_nothing() {
    let once = UnicodeBuffer::new()
        .add_str("Привет")
        .guess_segment_properties(Language::new("ru"));
    let p1 = once.get_segment_properties();
    let twice = once.guess_segment_properties(Language::new("en"));
    let p2 = twice.get_segment_properties();
    assert_eq!(p1.direction, p2.direction);
    assert_eq!(p1.script, p2.script);
    assert_eq!(p1.script, tag(b"Cyrl"));
    assert_eq!(p2.language.unwrap().as_str(), "ru");
}

#[test]
fn fresh_buffer_from_raw_is_none() {
    let raw = UnicodeBuffer::new().into_raw();
    assert!(TypedBuffer::take_from_raw(raw).is_none());
}

#[test]
fn unicode_buffer_round_trips_through_raw() {
    let raw = UnicodeBuffer::new().add_str("abc").into_raw();
    assert_eq!(raw.content_type(), CONTENT_TYPE_UNICODE);
    match TypedBuffer::take_from_raw(raw) {
        Some(TypedBuffer::Unicode(b)) => assert_eq!(b.string_lossy(), "abc"),
        _ => panic!("expected a Unicode buffer"),
    }
}

#[test]
fn glyph_buffer_round_trips_through_raw() {
    let glyphs = vec![GlyphInfo { codepoint: 5, mask: 0, cluster: 0 }];
    let positions = vec![GlyphPosition { x_advance: 10, y_advance: 0, x_offset: 0, y_offset: 0 }];
    let g = GlyphBuffer::from_shaping(UnicodeBuffer::new().add_str("a"), glyphs, positions);
    match TypedBuffer::take_from_raw(g.into_raw()) {
        Some(TypedBuffer::Glyphs(b)) => {
            assert_eq!(b.len(), 1);
            assert_eq!(b.get_glyph_infos()[0].codepoint, 5);
        }
        _ => panic!("expected a glyph buffer"),
    }
}

#[test]
fn unicode_buffer_debug_text() {
    let buffer = UnicodeBuffer::new();
    assert_eq!(
        buffer.debug_string(),
        "UnicodeBuffer { content: \"\", direction: 0, language: None, script: Tag(0) }"
    );
    let buffer = buffer
        .add_str("a\"b\n")
        .set_direction(DIRECTION_LTR)
        .set_language(Language::new("en"))
        .set_script(Tag(tag(b"Latn")));
    assert_eq!(
        buffer.debug_string(),
        "UnicodeBuffer { content: \"a\\\"b\\n\", direction: 4, \
         language: Some(Language { name: \"en\" }), script: Tag(1281455214) }"
    );
}

#[test]
fn many_added_strings_give_all_code_points() {
    let parts = ["ab", "", "é😍", "c"];
    let mut buffer = UnicodeBuffer::new();
    for p in parts {
        buffer = buffer.add_str(p);
    }
    let joined: String = parts.concat();
    let expected: Vec<u32> = joined.chars().map(|c| c as u32).collect();
    let mut got = Vec::new();
    let mut it = buffer.codepoints();
    while let Some(cp) = it.next() {
        got.push(cp);
    }
    assert_eq!(got, expected);
    assert_eq!(buffer.len(), joined.chars().count());
    assert_eq!(buffer.string_lossy(), joined);
}

#[test]
fn cleared_buffer_is_reused() {
    let buffer = UnicodeBuffer::new().add_str("first").set_direction(DIRECTION_RTL);
    let buffer = buffer.clear_contents().add_str("second");
    assert_eq!(buffer.string_lossy(), "second");
    assert_eq!(buffer.get_direction(), DIRECTION_INVALID);
    let raw = buffer.into_raw();
    let clusters: Vec<u32> = raw.get_glyph_infos().iter().map(|i| i.cluster).collect();
    assert_eq!(clusters, vec![0, 1, 2, 3, 4, 5]);
}
