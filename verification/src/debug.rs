use vstd::prelude::*;
use crate::buffer::{GlyphBuffer, UnicodeBuffer};
use crate::common::{language_view, GlyphInfo, GlyphPosition, Language};
use crate::serialize::{digits, push_digits, push_signed_digits, signed_digits};
use crate::text::{ascii_text, lossy_text, string_push};

verus! {

/// The text that `{:?}` gives for a string: the string in double quotes,
/// with quotes, backslashes and non-printable characters escaped.
pub uninterp spec fn str_debug(s: Seq<char>) -> Seq<char>;

/// Calls `format!("{:?}", s)` on a string slice, std's `Debug` for `str`.
/// The contract claims only that the result is a function of the string,
/// named `str_debug`; the escaping rules are not stated.
#[verifier::external_body]
fn debug_str(s: &str) -> (r: String)
    ensures
        r@ == str_debug(s@),
{
    format!("{:?}", s)
}

/// Appends the characters of `s`.
fn push_text(out: &mut String, s: &str)
    ensures
        final(out)@ == old(out)@ + s@,
{
    broadcast use vstd::string::group_string_axioms;

    let ghost out0 = out@;
    for c in it: s.chars()
        invariant
            it.seq() == s@,
            it.index() <= s@.len(),
            out@ == out0 + s@.take(it.index() as int),
    {
        let ghost k = it.index();
        assert(c == s@[k as int]);
        string_push(out, c);
        assert(out@ =~= out0 + s@.take(k + 1));
    }
    assert(s@.take(s@.len() as int) =~= s@);
}

/// Appends ASCII bytes as characters.
fn push_ascii(out: &mut String, bytes: &Vec<u8>)
    ensures
        final(out)@ == old(out)@ + ascii_text(bytes@),
{
    let ghost out0 = out@;
    let n = bytes.len();
    let mut i: usize = 0;
    while i < n
        invariant
            n == bytes@.len(),
            i <= n,
            out@ == out0 + ascii_text(bytes@.take(i as int)),
        decreases n - i,
    {
        string_push(out, bytes[i] as char);
        i = i + 1;
        assert(out@ =~= out0 + ascii_text(bytes@.take(i as int)));
    }
    assert(bytes@.take(n as int) =~= bytes@);
}

/// Appends `n` in decimal.
fn push_u32(out: &mut String, n: u32)
    ensures
        final(out)@ == old(out)@ + ascii_text(digits(n as nat)),
{
    let mut v: Vec<u8> = Vec::new();
    push_digits(&mut v, n);
    assert(v@ =~= digits(n as nat));
    push_ascii(out, &v);
}

/// Appends `n` in decimal, with a minus sign where it is negative.
fn push_i32(out: &mut String, n: i32)
    ensures
        final(out)@ == old(out)@ + ascii_text(signed_digits(n as int)),
{
    let mut v: Vec<u8> = Vec::new();
    push_signed_digits(&mut v, n);
    assert(v@ =~= signed_digits(n as int));
    push_ascii(out, &v);
}

/// The `Debug` text of an optional language: `None`, or the language in
/// `Some(Language { name: .. })`.
pub open spec fn language_debug(lang: Option<Seq<char>>) -> Seq<char> {
    match lang {
        Some(name) => "Some(Language { name: "@ + str_debug(name) + " })"@,
        None => "None"@,
    }
}

/// The `Debug` text of a Unicode buffer: its content as a string, its
/// direction, language and script.
pub open spec fn unicode_debug(
    content: Seq<char>,
    direction: u32,
    language: Option<Seq<char>>,
    script: u32,
) -> Seq<char> {
    "UnicodeBuffer { content: "@ + str_debug(content) + ", direction: "@ + ascii_text(
        digits(direction as nat),
    ) + ", language: "@ + language_debug(language) + ", script: Tag("@ + ascii_text(
        digits(script as nat),
    ) + ") }"@
}

/// The `Debug` text of a glyph position.
pub open spec fn position_debug(p: GlyphPosition) -> Seq<char> {
    "GlyphPosition { x_advance: "@ + ascii_text(signed_digits(p.x_advance as int))
        + ", y_advance: "@ + ascii_text(signed_digits(p.y_advance as int)) + ", x_offset: "@
        + ascii_text(signed_digits(p.x_offset as int)) + ", y_offset: "@ + ascii_text(
        signed_digits(p.y_offset as int),
    ) + " }"@
}

/// The `Debug` text of a glyph info.
pub open spec fn info_debug(g: GlyphInfo) -> Seq<char> {
    "GlyphInfo { codepoint: "@ + ascii_text(digits(g.codepoint as nat)) + ", mask: "@
        + ascii_text(digits(g.mask as nat)) + ", cluster: "@ + ascii_text(digits(g.cluster as nat))
        + " }"@
}

/// Texts joined with `, ` between them.
pub open spec fn joined(items: Seq<Seq<char>>) -> Seq<char>
    decreases items.len(),
{
    if items.len() == 0 {
        Seq::<char>::empty()
    } else if items.len() == 1 {
        items[0]
    } else {
        joined(items.drop_last()) + ", "@ + items.last()
    }
}

/// The `Debug` text of a glyph buffer: its positions, then its infos, each
/// as a list.
pub open spec fn glyph_debug(positions: Seq<GlyphPosition>, infos: Seq<GlyphInfo>) -> Seq<char> {
    "GlyphBuffer { glyph_positions: ["@ + joined(positions.map_values(|p: GlyphPosition| position_debug(p)))
        + "], glyph_infos: ["@ + joined(infos.map_values(|g: GlyphInfo| info_debug(g))) + "] }"@
}

fn push_position(out: &mut String, p: GlyphPosition)
    ensures
        final(out)@ == old(out)@ + position_debug(p),
{
    let ghost out0 = out@;
    push_text(out, "GlyphPosition { x_advance: ");
    push_i32(out, p.x_advance);
    push_text(out, ", y_advance: ");
    push_i32(out, p.y_advance);
    push_text(out, ", x_offset: ");
    push_i32(out, p.x_offset);
    push_text(out, ", y_offset: ");
    push_i32(out, p.y_offset);
    push_text(out, " }");
    assert(out@ =~= out0 + position_debug(p));
}

fn push_info(out: &mut String, g: GlyphInfo)
    ensures
        final(out)@ == old(out)@ + info_debug(g),
{
    let ghost out0 = out@;
    push_text(out, "GlyphInfo { codepoint: ");
    push_u32(out, g.codepoint);
    push_text(out, ", mask: ");
    push_u32(out, g.mask);
    push_text(out, ", cluster: ");
    push_u32(out, g.cluster);
    push_text(out, " }");
    assert(out@ =~= out0 + info_debug(g));
}

fn push_positions(out: &mut String, ps: &[GlyphPosition])
    ensures
        final(out)@ == old(out)@ + joined(ps@.map_values(|p: GlyphPosition| position_debug(p))),
{
    let ghost out0 = out@;
    let ghost items = ps@.map_values(|p: GlyphPosition| position_debug(p));
    let n = ps.len();
    let mut i: usize = 0;
    while i < n
        invariant
            n == ps@.len(),
            items == ps@.map_values(|p: GlyphPosition| position_debug(p)),
            i <= n,
            out@ == out0 + joined(items.take(i as int)),
        decreases n - i,
    {
        let ghost before = out@;
        if i > 0 {
            push_text(out, ", ");
        }
        push_position(out, ps[i]);
        i = i + 1;
        assert(items.take(i as int).drop_last() =~= items.take(i - 1));
        if i == 1 {
            assert(joined(items.take(1)) == items[0]);
            assert(out@ =~= out0 + joined(items.take(i as int)));
        } else {
            assert(out@ =~= out0 + joined(items.take(i as int)));
        }
    }
    assert(items.take(n as int) =~= items);
}

fn push_infos(out: &mut String, gs: &[GlyphInfo])
    ensures
        final(out)@ == old(out)@ + joined(gs@.map_values(|g: GlyphInfo| info_debug(g))),
{
    let ghost out0 = out@;
    let ghost items = gs@.map_values(|g: GlyphInfo| info_debug(g));
    let n = gs.len();
    let mut i: usize = 0;
    while i < n
        invariant
            n == gs@.len(),
            items == gs@.map_values(|g: GlyphInfo| info_debug(g)),
            i <= n,
            out@ == out0 + joined(items.take(i as int)),
        decreases n - i,
    {
        if i > 0 {
            push_text(out, ", ");
        }
        push_info(out, gs[i]);
        i = i + 1;
        assert(items.take(i as int).drop_last() =~= items.take(i - 1));
        if i == 1 {
            assert(joined(items.take(1)) == items[0]);
            assert(out@ =~= out0 + joined(items.take(i as int)));
        } else {
            assert(out@ =~= out0 + joined(items.take(i as int)));
        }
    }
    assert(items.take(n as int) =~= items);
}

impl UnicodeBuffer {
    /// The buffer as its `Debug` text shows it: its content as a string,
    /// its direction, language and script.
    pub fn debug_string(&self) -> (s: String)
        ensures
            s@ == unicode_debug(
                lossy_text(self@.infos),
                self@.props.direction,
                self@.props.language,
                self@.props.script,
            ),
    {
        let mut out = String::new();
        push_text(&mut out, "UnicodeBuffer { content: ");
        let content = self.string_lossy();
        let quoted = debug_str(content.as_str());
        push_text(&mut out, quoted.as_str());
        push_text(&mut out, ", direction: ");
        push_u32(&mut out, self.get_direction());
        push_text(&mut out, ", language: ");
        let lang: Option<Language> = self.get_language();
        match lang {
            Some(l) => {
                push_text(&mut out, "Some(Language { name: ");
                let q = debug_str(l.as_str());
                push_text(&mut out, q.as_str());
                push_text(&mut out, " })");
            },
            None => {
                push_text(&mut out, "None");
            },
        }
        push_text(&mut out, ", script: Tag(");
        push_u32(&mut out, self.get_script().0);
        push_text(&mut out, ") }");
        assert(out@ =~= unicode_debug(
            lossy_text(self@.infos),
            self@.props.direction,
            self@.props.language,
            self@.props.script,
        ));
        out
    }
}

impl GlyphBuffer {
    /// The buffer as its `Debug` text shows it: the glyph positions, then
    /// the glyph infos.
    pub fn debug_string(&self) -> (s: String)
        ensures
            s@ == glyph_debug(self@.positions, self@.infos),
    {
        let mut out = String::new();
        push_text(&mut out, "GlyphBuffer { glyph_positions: [");
        push_positions(&mut out, self.get_glyph_positions());
        push_text(&mut out, "], glyph_infos: [");
        push_infos(&mut out, self.get_glyph_infos());
        push_text(&mut out, "] }");
        assert(out@ =~= glyph_debug(self@.positions, self@.infos));
        out
    }
}

} // verus!
