use harfbuzz_buffer::serialize::{
    FLAG_GLYPH_EXTENTS, FLAG_GLYPH_FLAGS, FLAG_NO_ADVANCES, FLAG_NO_CLUSTERS, FLAG_NO_GLYPH_NAMES,
    FLAG_NO_POSITIONS,
};
use harfbuzz_buffer::{
    GlyphBuffer, GlyphInfo, GlyphPosition, SerializeFlags, SerializeFormat, UnicodeBuffer,
};

fn info(codepoint: u32, cluster: u32) -> GlyphInfo {
    GlyphInfo { codepoint, mask: 0, cluster }
}

fn advance(x: i32) -> GlyphPosition {
    GlyphPosition { x_advance: x, y_advance: 0, x_offset: 0, y_offset: 0 }
}

fn abc_glyphs() -> GlyphBuffer {
    GlyphBuffer::from_shaping(
        UnicodeBuffer::new().add_str("ABC"),
        vec![info(2, 0), info(3, 1), info(4, 2)],
        vec![advance(520), advance(574), advance(562)],
    )
}

fn serialize(buffer: &GlyphBuffer, format: SerializeFormat, flags: u32, chunk: usize) -> String {
    let flags = SerializeFlags::from_bits(flags).unwrap();
    assert!(buffer.can_serialize(format, flags));
    let mut serializer = buffer.serializer(format, flags);
    let mut bytes = Vec::new();
    let mut buf = vec![0u8; chunk];
    loop {
        let n = serializer.read(&mut buf);
        if n == 0 {
            break;
        }
        assert!(n <= chunk);
        bytes.extend_from_slice(&buf[..n]);
    }
    String::from_utf8(bytes).unwrap()
}

#[test]
fn text_serialization_default_flags() {
    let buffer = abc_glyphs();
    assert_eq!(
        serialize(&buffer, SerializeFormat::Text, 0, 64),
        "gid2=0+520|gid3=1+574|gid4=2+562"
    );
}

#[test]
fn to_string_is_text_serialization() {
    let buffer = abc_glyphs();
    assert_eq!(buffer.to_string(), "gid2=0+520|gid3=1+574|gid4=2+562");
}

#[test]
fn single_glyph_is_serialized() {
    let buffer = GlyphBuffer::from_shaping(
        UnicodeBuffer::new().add_str("a"),
        vec![info(7, 0)],
        vec![advance(100)],
    );
    assert_eq!(buffer.to_string(), "gid7=0+100");
}

#[test]
fn empty_glyph_buffer_serializes_to_nothing() {
    let buffer = GlyphBuffer::from_shaping(UnicodeBuffer::new(), vec![], vec![]);
    assert_eq!(buffer.to_string(), "");
    assert_eq!(serialize(&buffer, SerializeFormat::Json, 0, 16), "");
}

#[test]
fn small_reads_give_the_same_bytes() {
    let buffer = abc_glyphs();
    for chunk in [1, 2, 3, 5, 7, 128, 1000] {
        assert_eq!(
            serialize(&buffer, SerializeFormat::Text, 0, chunk),
            "gid2=0+520|gid3=1+574|gid4=2+562"
        );
    }
}

#[test]
fn read_into_empty_buffer_returns_zero() {
    let buffer = abc_glyphs();
    let mut serializer = buffer.serializer(SerializeFormat::Text, SerializeFlags::default());
    let mut empty: [u8; 0] = [];
    assert_eq!(serializer.read(&mut empty), 0);
    let mut buf = [0u8; 4];
    let n = serializer.read(&mut buf);
    assert_eq!(&buf[..n], b"gid2");
    assert_eq!(serializer.read(&mut empty), 0);
    let mut rest = vec![0u8; 100];
    let m = serializer.read(&mut rest);
    assert_eq!(&rest[..m], b"=0+520|gid3=1+574|gid4=2+562");
    assert_eq!(serializer.read(&mut rest), 0);
    assert_eq!(serializer.read(&mut rest), 0);
}

#[test]
fn long_buffers_span_several_chunks() {
    let n = 40;
    let glyphs: Vec<GlyphInfo> = (0..n).map(|i| info(1000 + i, i)).collect();
    let positions: Vec<GlyphPosition> = (0..n).map(|i| advance(i as i32)).collect();
    let buffer = GlyphBuffer::from_shaping(UnicodeBuffer::new(), glyphs, positions);
    let expected: Vec<String> = (0..n).map(|i| format!("gid{}={}+{}", 1000 + i, i, i)).collect();
    let expected = expected.join("|");
    assert!(expected.len() > 128);
    assert_eq!(buffer.to_string(), expected);
    assert_eq!(serialize(&buffer, SerializeFormat::Text, 0, 13), expected);
}

#[test]
fn json_serialization() {
    let buffer = abc_glyphs();
    assert_eq!(
        serialize(&buffer, SerializeFormat::Json, 0, 64),
        "[{\"g\":\"gid2\",\"cl\":0,\"dx\":0,\"dy\":0,\"ax\":520,\"ay\":0},\
         {\"g\":\"gid3\",\"cl\":1,\"dx\":0,\"dy\":0,\"ax\":574,\"ay\":0},\
         {\"g\":\"gid4\",\"cl\":2,\"dx\":0,\"dy\":0,\"ax\":562,\"ay\":0}]"
    );
}

#[test]
fn json_with_all_flags() {
    let buffer = GlyphBuffer::from_shaping(
        UnicodeBuffer::new(),
        vec![GlyphInfo { codepoint: 9, mask: 3, cluster: 4 }],
        vec![GlyphPosition { x_advance: 1, y_advance: 2, x_offset: 3, y_offset: 4 }],
    );
    assert_eq!(
        serialize(&buffer, SerializeFormat::Json, FLAG_GLYPH_FLAGS | FLAG_GLYPH_EXTENTS, 64),
        "[{\"g\":\"gid9\",\"cl\":4,\"dx\":3,\"dy\":4,\"ax\":1,\"ay\":2,\"fl\":1,\
         \"xb\":0,\"yb\":0,\"w\":0,\"h\":0}]"
    );
    assert_eq!(
        serialize(&buffer, SerializeFormat::Json, FLAG_NO_GLYPH_NAMES | FLAG_NO_CLUSTERS | FLAG_NO_POSITIONS, 64),
        "[{\"g\":9}]"
    );
}

#[test]
fn text_offsets_and_vertical_advances() {
    let buffer = GlyphBuffer::from_shaping(
        UnicodeBuffer::new(),
        vec![info(1, 0), info(2, 1)],
        vec![
            GlyphPosition { x_advance: 10, y_advance: -20, x_offset: -5, y_offset: 3 },
            GlyphPosition { x_advance: 0, y_advance: 0, x_offset: 0, y_offset: 0 },
        ],
    );
    assert_eq!(buffer.to_string(), "gid1=0@-5,3+10,-20|gid2=1+0");
}

#[test]
fn text_flags() {
    let buffer = GlyphBuffer::from_shaping(
        UnicodeBuffer::new(),
        vec![GlyphInfo { codepoint: 2, mask: 1, cluster: 0 }, GlyphInfo { codepoint: 3, mask: 2, cluster: 1 }],
        vec![advance(520), advance(574)],
    );
    assert_eq!(serialize(&buffer, SerializeFormat::Text, FLAG_NO_CLUSTERS, 64), "gid2+520|gid3+574");
    assert_eq!(serialize(&buffer, SerializeFormat::Text, FLAG_NO_POSITIONS, 64), "gid2=0|gid3=1");
    assert_eq!(serialize(&buffer, SerializeFormat::Text, FLAG_NO_GLYPH_NAMES, 64), "2=0+520|3=1+574");
    assert_eq!(serialize(&buffer, SerializeFormat::Text, FLAG_GLYPH_FLAGS, 64), "gid2=0+520#1|gid3=1+574");
    assert_eq!(
        serialize(&buffer, SerializeFormat::Text, FLAG_GLYPH_EXTENTS, 64),
        "gid2=0+520<0,0,0,0>|gid3=1+574<0,0,0,0>"
    );
}

#[test]
fn no_advances_moves_the_pen() {
    let buffer = abc_glyphs();
    assert_eq!(
        serialize(&buffer, SerializeFormat::Text, FLAG_NO_ADVANCES, 64),
        "gid2=0|gid3=1@520,0|gid4=2@1094,0"
    );
}

#[test]
fn json_records_can_be_too_long() {
    let buffer = GlyphBuffer::from_shaping(
        UnicodeBuffer::new(),
        vec![GlyphInfo { codepoint: u32::MAX, mask: 1, cluster: u32::MAX }],
        vec![GlyphPosition {
            x_advance: i32::MIN,
            y_advance: i32::MIN,
            x_offset: i32::MIN,
            y_offset: i32::MIN,
        }],
    );
    let all = SerializeFlags::from_bits(FLAG_GLYPH_FLAGS | FLAG_GLYPH_EXTENTS).unwrap();
    assert!(!buffer.can_serialize(SerializeFormat::Json, all));
    assert!(buffer.can_serialize(SerializeFormat::Text, all));
    assert!(buffer.can_serialize(SerializeFormat::Json, SerializeFlags::empty()));
}

#[test]
fn reverse_glyphs() {
    let mut buffer = abc_glyphs();
    buffer.reverse();
    let cps: Vec<u32> = buffer.get_glyph_infos().iter().map(|i| i.codepoint).collect();
    assert_eq!(cps, vec![4, 3, 2]);
    let adv: Vec<i32> = buffer.get_glyph_positions().iter().map(|p| p.x_advance).collect();
    assert_eq!(adv, vec![562, 574, 520]);
    buffer.reverse();
    assert_eq!(buffer.to_string(), "gid2=0+520|gid3=1+574|gid4=2+562");
}

#[test]
fn reverse_range_glyphs() {
    let mut buffer = abc_glyphs();
    buffer.reverse_range(1, 3);
    assert_eq!(buffer.to_string(), "gid2=0+520|gid4=2+562|gid3=1+574");
    buffer.reverse_range(0, 100);
    assert_eq!(buffer.to_string(), "gid3=1+574|gid4=2+562|gid2=0+520");
    buffer.reverse_range(2, 1);
    assert_eq!(buffer.to_string(), "gid3=1+574|gid4=2+562|gid2=0+520");
    buffer.reverse_range(3, 3);
    assert_eq!(buffer.len(), 3);
}

#[test]
fn clear_gives_an_empty_unicode_buffer() {
    let buffer = abc_glyphs();
    assert!(!buffer.is_empty());
    assert_eq!(buffer.len(), 3);
    let unicode = buffer.clear();
    assert!(unicode.is_empty());
    let unicode = unicode.add_str("again");
    assert_eq!(unicode.string_lossy(), "again");
}

#[test]
fn serialize_flags_operations() {
    assert_eq!(SerializeFlags::default().bits(), 0);
    assert!(SerializeFlags::default().is_empty());
    assert_eq!(SerializeFlags::all().bits(), 0x3f);
    assert!(SerializeFlags::from_bits(0x40).is_none());
    assert_eq!(SerializeFlags::from_bits_truncate(0x41).bits(), 1);
    let a = SerializeFlags::from_bits(FLAG_NO_CLUSTERS).unwrap();
    let b = SerializeFlags::from_bits(FLAG_NO_ADVANCES).unwrap();
    let ab = a.union(b);
    assert_eq!(ab.bits(), 0x21);
    assert!(ab.contains(a));
    assert!(!a.contains(ab));
    assert!(SerializeFlags::all().contains(ab));
}

#[test]
fn serialize_flags_values() {
    assert_eq!(SerializeFlags::no_clusters().bits(), FLAG_NO_CLUSTERS);
    assert_eq!(SerializeFlags::no_positions().bits(), FLAG_NO_POSITIONS);
    assert_eq!(SerializeFlags::no_glyph_names().bits(), FLAG_NO_GLYPH_NAMES);
    assert_eq!(SerializeFlags::glyph_extents().bits(), FLAG_GLYPH_EXTENTS);
    assert_eq!(SerializeFlags::glyph_flags().bits(), FLAG_GLYPH_FLAGS);
    assert_eq!(SerializeFlags::no_advances().bits(), FLAG_NO_ADVANCES);
    let f = SerializeFlags::no_clusters() | SerializeFlags::no_advances();
    assert_eq!(f.bits(), 0x21);
    let buffer = abc_glyphs();
    assert!(buffer.can_serialize(SerializeFormat::Text, f));
    let mut serializer = buffer.serializer(SerializeFormat::Text, f);
    let mut buf = vec![0u8; 64];
    let n = serializer.read(&mut buf);
    assert_eq!(&buf[..n], b"gid2|gid3@520,0|gid4@1094,0");
}

#[test]
fn glyph_buffer_debug_text() {
    let infos = vec![info(2, 0), GlyphInfo { codepoint: 3, mask: 1, cluster: 7 }];
    let positions = vec![
        advance(520),
        GlyphPosition { x_advance: -3, y_advance: 4, x_offset: -5, y_offset: 6 },
    ];
    let buffer = GlyphBuffer::from_shaping(UnicodeBuffer::new(), infos.clone(), positions.clone());
    assert_eq!(
        buffer.debug_string(),
        "GlyphBuffer { glyph_positions: [GlyphPosition { x_advance: 520, y_advance: 0, \
         x_offset: 0, y_offset: 0 }, GlyphPosition { x_advance: -3, y_advance: 4, x_offset: -5, \
         y_offset: 6 }], glyph_infos: [GlyphInfo { codepoint: 2, mask: 0, cluster: 0 }, \
         GlyphInfo { codepoint: 3, mask: 1, cluster: 7 }] }"
    );
    assert_eq!(
        buffer.debug_string(),
        format!("GlyphBuffer {{ glyph_positions: {:?}, glyph_infos: {:?} }}", positions, infos)
    );
    let empty = GlyphBuffer::from_shaping(UnicodeBuffer::new(), vec![], vec![]);
    assert_eq!(empty.debug_string(), "GlyphBuffer { glyph_positions: [], glyph_infos: [] }");
}

#[test]
fn serialize_format_tags() {
    assert_eq!(u32::from(SerializeFormat::Text), u32::from_be_bytes(*b"TEXT"));
    assert_eq!(u32::from(SerializeFormat::Json), u32::from_be_bytes(*b"JSON"));
}
