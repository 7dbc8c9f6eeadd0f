use vstd::prelude::*;
use crate::buffer::{BufferView, GenericBuffer, GlyphBuffer, glyph_inv};
use crate::serialize::{
    has_flag, lemma_record_nonempty, lemma_text_record_len, next_pen, push_record, record,
    SerializeFlags, SerializeFormat, FLAG_NO_ADVANCES, FLAG_NO_POSITIONS,
};
use crate::text::{ascii_text, string_push};

verus! {

/// The room, in bytes, of the chunk that each refill of a serializer
/// writes; a chunk holds whole records and leaves one byte free.
pub const CHUNK_SIZE: usize = 128;

/// The flags that serialization uses: positions are left out of a buffer
/// that has none.
pub open spec fn effective_flags(b: BufferView, flags: u32) -> u32 {
    if b.have_positions {
        flags
    } else {
        flags | FLAG_NO_POSITIONS
    }
}

/// The number of records, and their bytes, that fit one after another from
/// glyph `i` on (before `end`) in `room` bytes, each one only while the room
/// left is larger than the record; `x`, `y` is the pen position.
pub open spec fn chunk_from(
    b: BufferView,
    i: int,
    end: int,
    x: i32,
    y: i32,
    room: int,
    format: SerializeFormat,
    flags: u32,
) -> (nat, Seq<u8>)
    decreases end - i,
{
    if 0 <= i < end && end <= b.infos.len() && end <= b.positions.len() {
        let r = record(format, i, end, b.infos[i], b.positions[i], x, y, flags);
        if room > r.len() {
            let pen = next_pen(x, y, b.positions[i], flags);
            let rest = chunk_from(b, i + 1, end, pen.0, pen.1, room - r.len(), format, flags);
            ((rest.0 + 1) as nat, r + rest.1)
        } else {
            (0, Seq::<u8>::empty())
        }
    } else {
        (0, Seq::<u8>::empty())
    }
}

/// One chunk of the serialization of the glyphs from `start` to `end`:
/// the number of glyphs it holds and its bytes.
pub open spec fn serialize_chunk(
    b: BufferView,
    start: int,
    end: int,
    format: SerializeFormat,
    flags: u32,
) -> (nat, Seq<u8>) {
    chunk_from(b, start, end, 0, 0, CHUNK_SIZE as int, format, effective_flags(b, flags))
}

/// Serializes glyphs from `start` on, at most `end`, into a chunk.
pub fn serialize_glyphs(
    buffer: &GenericBuffer,
    start: usize,
    end: usize,
    format: SerializeFormat,
    flags: u32,
) -> (res: (usize, Vec<u8>))
    requires
        start <= end <= buffer@.infos.len(),
        buffer@.positions.len() == buffer@.infos.len(),
    ensures
        res.0 as nat == serialize_chunk(buffer@, start as int, end as int, format, flags).0,
        res.1@ == serialize_chunk(buffer@, start as int, end as int, format, flags).1,
{
    let infos = buffer.get_glyph_infos();
    let positions = buffer.get_glyph_positions();
    let flags = if buffer.has_positions() {
        flags
    } else {
        flags | FLAG_NO_POSITIONS
    };
    let ghost b = buffer@;
    let mut out: Vec<u8> = Vec::new();
    let mut count: usize = 0;
    let mut x: i32 = 0;
    let mut y: i32 = 0;
    let mut i = start;
    let mut done = false;
    while !done && i < end
        invariant
            infos@ == b.infos,
            positions@ == b.positions,
            b.positions.len() == b.infos.len(),
            start <= i <= end <= b.infos.len(),
            count == i - start,
            out@.len() < CHUNK_SIZE,
            !done ==> chunk_from(b, start as int, end as int, 0, 0, CHUNK_SIZE as int, format, flags)
                == ((count + chunk_from(b, i as int, end as int, x, y, CHUNK_SIZE - out@.len(), format, flags).0) as nat,
                out@ + chunk_from(b, i as int, end as int, x, y, CHUNK_SIZE - out@.len(), format, flags).1),
            done ==> chunk_from(b, start as int, end as int, 0, 0, CHUNK_SIZE as int, format, flags)
                == (count as nat, out@),
        decreases end - i + (if done { 0int } else { 1int }),
    {
        let mut r: Vec<u8> = Vec::new();
        push_record(&mut r, format, i, end, infos[i], positions[i], x, y, flags);
        assert(r@ =~= record(format, i as int, end as int, b.infos[i as int], b.positions[i as int], x, y, flags));
        if CHUNK_SIZE - out.len() > r.len() {
            let p = positions[i];
            if (flags & FLAG_NO_POSITIONS) == 0 && (flags & crate::serialize::FLAG_NO_ADVANCES) != 0 {
                x = x.wrapping_add(p.x_advance);
                y = y.wrapping_add(p.y_advance);
            }
            let ghost old_out = out@;
            let ghost rec = r@;
            out.append(&mut r);
            count = count + 1;
            i = i + 1;
            assert(out@ == old_out + rec);
            assert(old_out + rec + chunk_from(b, i as int, end as int, x, y, CHUNK_SIZE - out@.len(), format, flags).1
                =~= old_out + (rec + chunk_from(b, i as int, end as int, x, y, CHUNK_SIZE - out@.len(), format, flags).1));
        } else {
            done = true;
        }
    }
    (count, out)
}


/// A chunk holds no more glyphs than there are from `i` to `end`.
pub proof fn lemma_chunk_count(
    b: BufferView,
    i: int,
    end: int,
    x: i32,
    y: i32,
    room: int,
    format: SerializeFormat,
    flags: u32,
)
    requires
        i <= end,
    ensures
        chunk_from(b, i, end, x, y, room, format, flags).0 <= end - i,
    decreases end - i,
{
    if 0 <= i < end && end <= b.infos.len() && end <= b.positions.len() {
        let r = record(format, i, end, b.infos[i], b.positions[i], x, y, flags);
        let pen = next_pen(x, y, b.positions[i], flags);
        lemma_chunk_count(b, i + 1, end, pen.0, pen.1, room - r.len(), format, flags);
    }
}

/// Whether every glyph's record, written at the start of a chunk, fits in a
/// chunk: what a serializer needs to make progress.
pub open spec fn serializable(b: BufferView, format: SerializeFormat, flags: u32) -> bool {
    forall|i: int|
        0 <= i < b.infos.len() ==> #[trigger] record(
            format,
            i,
            b.infos.len() as int,
            b.infos[i],
            b.positions[i],
            0,
            0,
            effective_flags(b, flags),
        ).len() < CHUNK_SIZE
}

/// Each chunk of a serializable buffer holds at least one glyph and one
/// byte, and no more glyphs than are left.
pub proof fn lemma_chunk_progress(b: BufferView, start: int, format: SerializeFormat, flags: u32)
    requires
        serializable(b, format, flags),
        b.positions.len() == b.infos.len(),
        0 <= start < b.infos.len(),
    ensures
        serialize_chunk(b, start, b.infos.len() as int, format, flags).0 >= 1,
        serialize_chunk(b, start, b.infos.len() as int, format, flags).1.len() >= 1,
        start + serialize_chunk(b, start, b.infos.len() as int, format, flags).0 <= b.infos.len(),
{
    let end = b.infos.len() as int;
    let f = effective_flags(b, flags);
    let r = record(format, start, end, b.infos[start], b.positions[start], 0, 0, f);
    assert(r.len() < CHUNK_SIZE);
    lemma_record_nonempty(format, start, end, b.infos[start], b.positions[start], 0, 0, f);
    lemma_chunk_count(b, start, end, 0, 0, CHUNK_SIZE as int, format, f);
}

/// The mathematical value of a serializer: the buffer, the glyphs left to
/// serialize, and the bytes serialized but not read yet.
pub struct SerializerView {
    pub buffer: BufferView,
    pub start: nat,
    pub end: nat,
    pub format: SerializeFormat,
    pub flags: u32,
    pub pending: Seq<u8>,
}

/// What a read into a buffer of `n` bytes returns and leaves: nothing into
/// an empty buffer; otherwise it copies the pending bytes, as many as fit,
/// and with none pending it serializes the next chunk and tries again, until
/// all glyphs are serialized.
pub open spec fn read_outcome(v: SerializerView, n: nat) -> (Seq<u8>, SerializerView)
    decreases v.end - v.start,
{
    if n == 0 {
        (Seq::<u8>::empty(), v)
    } else {
        read_nonempty(v, n)
    }
}

/// What a read into a buffer of `n > 0` bytes returns and leaves.
pub open spec fn read_nonempty(v: SerializerView, n: nat) -> (Seq<u8>, SerializerView)
    decreases v.end - v.start,
{
    let k = if v.pending.len() < n {
        v.pending.len()
    } else {
        n
    };
    if k > 0 {
        (v.pending.take(k as int), SerializerView { pending: v.pending.skip(k as int), ..v })
    } else if v.start >= v.end {
        (Seq::<u8>::empty(), v)
    } else {
        let c = serialize_chunk(v.buffer, v.start as int, v.end as int, v.format, v.flags);
        if c.0 == 0 || v.start + c.0 > v.end {
            (Seq::<u8>::empty(), v)
        } else {
            read_nonempty(SerializerView { start: v.start + c.0, pending: c.1, ..v }, n)
        }
    }
}

/// The bytes that serializing the glyphs from `start` to `end` yields,
/// chunk after chunk, until a chunk holds no glyph.
pub open spec fn serialized_from(
    b: BufferView,
    start: int,
    end: int,
    format: SerializeFormat,
    flags: u32,
) -> Seq<u8>
    decreases end - start,
{
    if start < end {
        let c = serialize_chunk(b, start, end, format, flags);
        if c.0 == 0 || start + c.0 > end {
            Seq::<u8>::empty()
        } else {
            c.1 + serialized_from(b, start + c.0, end, format, flags)
        }
    } else {
        Seq::<u8>::empty()
    }
}

/// What is left to read from a serializer: the pending bytes, then the
/// serialization of the glyphs not serialized yet.
pub open spec fn unread(v: SerializerView) -> Seq<u8> {
    v.pending + serialized_from(v.buffer, v.start as int, v.end as int, v.format, v.flags)
}

/// A read takes a prefix of what is left to read: what it returns,
/// followed by what is left after it, is what was left before it.
pub proof fn lemma_read_splits(v: SerializerView, n: nat)
    ensures
        read_outcome(v, n).0 + unread(read_outcome(v, n).1) == unread(v),
{
    if n == 0 {
        assert(Seq::<u8>::empty() + unread(v) =~= unread(v));
    } else {
        lemma_read_nonempty_splits(v, n);
    }
}

proof fn lemma_read_nonempty_splits(v: SerializerView, n: nat)
    requires
        n > 0,
    ensures
        read_nonempty(v, n).0 + unread(read_nonempty(v, n).1) == unread(v),
    decreases v.end - v.start,
{
    let k = if v.pending.len() < n {
        v.pending.len()
    } else {
        n
    };
    let rest = serialized_from(v.buffer, v.start as int, v.end as int, v.format, v.flags);
    if k > 0 {
        assert(v.pending.take(k as int) + (v.pending.skip(k as int) + rest) =~= v.pending + rest);
    } else {
        assert(v.pending =~= Seq::<u8>::empty());
        if v.start < v.end {
            let c = serialize_chunk(v.buffer, v.start as int, v.end as int, v.format, v.flags);
            if !(c.0 == 0 || v.start + c.0 > v.end) {
                let w = SerializerView { start: v.start + c.0, pending: c.1, ..v };
                lemma_read_nonempty_splits(w, n);
            }
        }
        assert(unread(v) =~= rest);
    }
}

/// A read returns at most as many bytes as the buffer holds; into a
/// non-empty buffer it returns at least one byte while anything is left to
/// read; and the serializer stays one that can make progress.
pub proof fn lemma_read_progress(v: SerializerView, n: nat)
    requires
        serializer_inv(v),
    ensures
        read_outcome(v, n).0.len() <= n,
        n > 0 && unread(v).len() > 0 ==> read_outcome(v, n).0.len() > 0,
        serializer_inv(read_outcome(v, n).1),
{
    if n > 0 {
        lemma_read_nonempty_progress(v, n);
    }
}

proof fn lemma_read_nonempty_progress(v: SerializerView, n: nat)
    requires
        serializer_inv(v),
        n > 0,
    ensures
        read_nonempty(v, n).0.len() <= n,
        unread(v).len() > 0 ==> read_nonempty(v, n).0.len() > 0,
        serializer_inv(read_nonempty(v, n).1),
    decreases v.end - v.start,
{
    let k = if v.pending.len() < n {
        v.pending.len()
    } else {
        n
    };
    if k == 0 && v.start < v.end {
        let c = serialize_chunk(v.buffer, v.start as int, v.end as int, v.format, v.flags);
        lemma_chunk_progress(v.buffer, v.start as int, v.format, v.flags);
        let w = SerializerView { start: v.start + c.0, pending: c.1, ..v };
        lemma_read_nonempty_progress(w, n);
    }
}

/// The bytes that reads into buffers of the sizes in `ns`, one after
/// another, return together, and the serializer that they leave.
pub open spec fn read_run(v: SerializerView, ns: Seq<nat>) -> (Seq<u8>, SerializerView)
    decreases ns.len(),
{
    if ns.len() == 0 {
        (Seq::<u8>::empty(), v)
    } else {
        let r = read_outcome(v, ns[0]);
        let rest = read_run(r.1, ns.drop_first());
        (r.0 + rest.0, rest.1)
    }
}

/// Reads one after another take what is left to read in order: what they
/// return together, followed by what is left after them, is what was left
/// before them.
pub proof fn lemma_read_run(v: SerializerView, ns: Seq<nat>)
    requires
        serializer_inv(v),
    ensures
        read_run(v, ns).0 + unread(read_run(v, ns).1) == unread(v),
        serializer_inv(read_run(v, ns).1),
    decreases ns.len(),
{
    if ns.len() > 0 {
        let r = read_outcome(v, ns[0]);
        lemma_read_splits(v, ns[0]);
        lemma_read_progress(v, ns[0]);
        lemma_read_run(r.1, ns.drop_first());
        let rest = read_run(r.1, ns.drop_first());
        assert(r.0 + rest.0 + unread(rest.1) =~= r.0 + (rest.0 + unread(rest.1)));
    }
}

/// Reading until a read into a non-empty buffer returns nothing yields all
/// that was left to read, each byte once and in order; from a fresh
/// serializer (nothing pending, at the first glyph) that is the whole
/// serialization of the buffer.
pub proof fn lemma_read_to_end(v: SerializerView, ns: Seq<nat>, n: nat)
    requires
        serializer_inv(v),
        n > 0,
        read_outcome(read_run(v, ns).1, n).0.len() == 0,
    ensures
        read_run(v, ns).0 == unread(v),
{
    lemma_read_run(v, ns);
    lemma_read_progress(read_run(v, ns).1, n);
    assert(unread(read_run(v, ns).1) =~= Seq::<u8>::empty());
    assert(read_run(v, ns).0 + Seq::<u8>::empty() =~= read_run(v, ns).0);
}

/// Every text record fits in a chunk, so that a buffer can always be
/// serialized as text.
pub proof fn lemma_text_serializable(b: BufferView, flags: u32)
    ensures
        serializable(b, SerializeFormat::Text, flags),
{
    let f = effective_flags(b, flags);
    let end = b.infos.len() as int;
    assert forall|i: int| 0 <= i < b.infos.len() implies #[trigger] record(
        SerializeFormat::Text,
        i,
        end,
        b.infos[i],
        b.positions[i],
        0,
        0,
        f,
    ).len() < CHUNK_SIZE by {
        reveal(record);
        lemma_text_record_len(i, b.infos[i], b.positions[i], 0, 0, f);
    }
}

/// The records of the glyphs from `i` to `end`, one after another, each
/// written with the pen at the origin.
pub open spec fn records_from(b: BufferView, i: int, end: int, format: SerializeFormat, flags: u32) -> Seq<u8>
    decreases end - i,
{
    if 0 <= i < end && end <= b.infos.len() && end <= b.positions.len() {
        record(format, i, end, b.infos[i], b.positions[i], 0, 0, flags) + records_from(
            b,
            i + 1,
            end,
            format,
            flags,
        )
    } else {
        Seq::<u8>::empty()
    }
}

/// Whether the pen moves from glyph to glyph: only where offsets are
/// written without advances.
pub open spec fn pen_moves(flags: u32) -> bool {
    !has_flag(flags, FLAG_NO_POSITIONS) && has_flag(flags, FLAG_NO_ADVANCES)
}

/// Where the pen stays at the origin, a chunk is the records of the glyphs
/// it holds.
proof fn lemma_chunk_records(
    b: BufferView,
    i: int,
    end: int,
    room: int,
    format: SerializeFormat,
    flags: u32,
)
    requires
        !pen_moves(flags),
        0 <= i <= end,
    ensures
        chunk_from(b, i, end, 0, 0, room, format, flags).1 + records_from(
            b,
            i + chunk_from(b, i, end, 0, 0, room, format, flags).0,
            end,
            format,
            flags,
        ) == records_from(b, i, end, format, flags),
    decreases end - i,
{
    if 0 <= i < end && end <= b.infos.len() && end <= b.positions.len() {
        let r = record(format, i, end, b.infos[i], b.positions[i], 0, 0, flags);
        if room > r.len() {
            assert(next_pen(0, 0, b.positions[i], flags) == (0i32, 0i32));
            lemma_chunk_records(b, i + 1, end, room - r.len(), format, flags);
            let rest = chunk_from(b, i + 1, end, 0, 0, room - r.len(), format, flags);
            assert(r + rest.1 + records_from(b, i + 1 + rest.0, end, format, flags) =~= r + (rest.1
                + records_from(b, i + 1 + rest.0, end, format, flags)));
        } else {
            assert(Seq::<u8>::empty() + records_from(b, i, end, format, flags) =~= records_from(
                b,
                i,
                end,
                format,
                flags,
            ));
        }
    } else {
        assert(Seq::<u8>::empty() + records_from(b, i, end, format, flags) =~= records_from(
            b,
            i,
            end,
            format,
            flags,
        ));
    }
}

/// However the serialization is cut into chunks, where the pen does not move
/// it is the records of the glyphs one after another.
pub proof fn lemma_serialization_is_records(b: BufferView, start: int, format: SerializeFormat, flags: u32)
    requires
        serializable(b, format, flags),
        !pen_moves(effective_flags(b, flags)),
        b.positions.len() == b.infos.len(),
        0 <= start <= b.infos.len(),
    ensures
        serialized_from(b, start, b.infos.len() as int, format, flags) == records_from(
            b,
            start,
            b.infos.len() as int,
            format,
            effective_flags(b, flags),
        ),
    decreases b.infos.len() - start,
{
    let end = b.infos.len() as int;
    if start < end {
        let c = serialize_chunk(b, start, end, format, flags);
        lemma_chunk_progress(b, start, format, flags);
        lemma_chunk_records(b, start, end, CHUNK_SIZE as int, format, effective_flags(b, flags));
        lemma_serialization_is_records(b, start + c.0, format, flags);
    }
}

/// A reader of the serialized contents of a `GlyphBuffer`.
///
/// A `BufferSerializer` is obtained by calling the `GlyphBuffer::serializer`
/// method; its `read` method hands out the serialized buffer contents.
#[derive(Debug)]
pub struct BufferSerializer<'a> {
    buffer: &'a GenericBuffer,
    start: usize,
    end: usize,
    format: SerializeFormat,
    flags: SerializeFlags,
    bytes: Vec<u8>,
    position: usize,
}

impl<'a> View for BufferSerializer<'a> {
    type V = SerializerView;

    closed spec fn view(&self) -> SerializerView {
        SerializerView {
            buffer: self.buffer@,
            start: self.start as nat,
            end: self.end as nat,
            format: self.format,
            flags: self.flags@,
            pending: self.bytes@.skip(self.position as int),
        }
    }
}

/// What every serializer satisfies: it reads a glyph buffer that it can
/// serialize, and has not gone past its end.
pub open spec fn serializer_inv(v: SerializerView) -> bool {
    &&& glyph_inv(v.buffer)
    &&& v.start <= v.end
    &&& v.end == v.buffer.infos.len()
    &&& serializable(v.buffer, v.format, v.flags)
}

impl<'a> BufferSerializer<'a> {
    #[verifier::type_invariant]
    closed spec fn inv(self) -> bool {
        &&& self.position <= self.bytes@.len()
        &&& serializer_inv(self@)
    }

    /// Reads serialized bytes into `buf`: as many pending bytes as fit, where
    /// bytes are pending, serializing the next chunk of glyphs first where
    /// none are; zero once all glyphs are read. Reading into an empty `buf`
    /// returns zero and consumes nothing.
    pub fn read(&mut self, buf: &mut [u8]) -> (n: usize)
        ensures
            n == read_outcome(old(self)@, old(buf)@.len()).0.len(),
            final(self)@ == read_outcome(old(self)@, old(buf)@.len()).1,
            final(buf)@ == read_outcome(old(self)@, old(buf)@.len()).0 + old(buf)@.skip(n as int),
    {
        if buf.len() == 0 {
            return 0;
        }
        let ghost v0 = self@;
        let ghost len = buf@.len();
        loop
            invariant
                buf@ == old(buf)@,
                len == buf@.len(),
                v0 == old(self)@,
                len > 0,
                read_nonempty(self@, len) == read_outcome(v0, len),
            decreases self@.end - self@.start,
        {
            proof {
                use_type_invariant(&*self);
            }
            let blen = self.bytes.len();
            let avail = blen - self.position;
            let k = if avail < buf.len() {
                avail
            } else {
                buf.len()
            };
            if k > 0 {
                let mut j: usize = 0;
                while j < k
                    invariant
                        j <= k,
                        k <= buf@.len(),
                        buf@.len() == len,
                        self.position + k <= blen,
                        blen == self.bytes@.len(),
                        forall|t: int| 0 <= t < j ==> buf@[t] == self.bytes@[self.position + t],
                        forall|t: int| j <= t < len ==> buf@[t] == old(buf)@[t],
                    decreases k - j,
                {
                    buf[j] = self.bytes[self.position + j];
                    j = j + 1;
                }
                let ghost pend = self@.pending;
                assert(buf@ =~= pend.take(k as int) + old(buf)@.skip(k as int));
                self.position = self.position + k;
                assert(self@.pending =~= pend.skip(k as int));
                return k;
            }
            if self.start >= self.end {
                return 0;
            }
            let (num, chunk) = serialize_glyphs(
                self.buffer,
                self.start,
                self.end,
                self.format,
                self.flags.bits(),
            );
            proof {
                lemma_chunk_progress(self.buffer@, self.start as int, self.format, self.flags@);
            }
            let ghost before = self@;
            let ghost chunk_v = chunk@;
            self.position = 0;
            self.bytes = chunk;
            self.start = self.start + num;
            assert(self@.pending =~= chunk_v);
            assert(self@ == SerializerView { start: (before.start + num) as nat, pending: chunk_v, ..before });
        }
    }
}

impl GlyphBuffer {
    /// Whether the buffer can be serialized in the given format with the
    /// given flags: each glyph's record fits in a chunk. A text record
    /// always fits.
    pub fn can_serialize(&self, format: SerializeFormat, flags: SerializeFlags) -> (b: bool)
        ensures
            b == serializable(self@, format, flags@),
    {
        let raw = self.as_raw();
        let infos = raw.get_glyph_infos();
        let positions = raw.get_glyph_positions();
        let f = if raw.has_positions() {
            flags.bits()
        } else {
            flags.bits() | FLAG_NO_POSITIONS
        };
        let n = infos.len();
        let mut i: usize = 0;
        while i < n
            invariant
                infos@ == self@.infos,
                positions@ == self@.positions,
                positions@.len() == n,
                n == infos@.len(),
                i <= n,
                f == effective_flags(self@, flags@),
                forall|t: int| 0 <= t < i ==> #[trigger] record(
                    format,
                    t,
                    n as int,
                    self@.infos[t],
                    self@.positions[t],
                    0,
                    0,
                    f,
                ).len() < CHUNK_SIZE,
            decreases n - i,
        {
            let mut r: Vec<u8> = Vec::new();
            push_record(&mut r, format, i, n, infos[i], positions[i], 0, 0, f);
            if r.len() >= CHUNK_SIZE {
                return false;
            }
            i = i + 1;
        }
        true
    }

    /// The buffer's glyphs serialized as text with the default flags: the
    /// text records of the glyphs one after another.
    pub fn to_string(&self) -> (s: String)
        ensures
            s@ == ascii_text(
                records_from(
                    self@,
                    0,
                    self@.infos.len() as int,
                    SerializeFormat::Text,
                    effective_flags(self@, 0),
                ),
            ),
    {
        let raw = self.as_raw();
        let ghost b = raw@;
        let ghost total = records_from(b, 0, b.infos.len() as int, SerializeFormat::Text, effective_flags(b, 0));
        proof {
            lemma_text_serializable(b, 0);
            let f = effective_flags(b, 0);
            assert(f == 0u32 || f == 2u32) by {
                assert((0u32 | 2u32) == 2u32) by (bit_vector);
            }
            assert(!pen_moves(f)) by (bit_vector)
                requires
                    f == 0u32 || f == 2u32,
            ;
            lemma_serialization_is_records(b, 0, SerializeFormat::Text, 0);
        }
        let mut ser = self.serializer(SerializeFormat::Text, SerializeFlags::default());
        let mut buf: Vec<u8> = Vec::new();
        let mut j: usize = 0;
        while j < CHUNK_SIZE
            invariant
                j <= CHUNK_SIZE,
                buf@.len() == j,
            decreases CHUNK_SIZE - j,
        {
            buf.push(0u8);
            j = j + 1;
        }
        let mut out = String::new();
        loop
            invariant
                buf@.len() == CHUNK_SIZE,
                out@ + ascii_text(unread(ser@)) == ascii_text(total),
            ensures
                out@ == ascii_text(total),
            decreases unread(ser@).len(),
        {
            proof {
                use_type_invariant(&ser);
            }
            let ghost v = ser@;
            let n = ser.read(buf.as_mut_slice());
            proof {
                lemma_read_splits(v, CHUNK_SIZE as nat);
                lemma_read_progress(v, CHUNK_SIZE as nat);
            }
            let ghost got = read_outcome(v, CHUNK_SIZE as nat).0;
            assert(buf@.len() == CHUNK_SIZE);
            if n == 0 {
                assert(unread(v) =~= Seq::<u8>::empty());
                assert(ascii_text(unread(v)) =~= Seq::<char>::empty());
                assert(out@ + Seq::<char>::empty() =~= out@);
                break;
            }
            let ghost out0 = out@;
            let mut k: usize = 0;
            while k < n
                invariant
                    k <= n,
                    n == got.len(),
                    n <= buf@.len(),
                    forall|t: int| 0 <= t < n ==> buf@[t] == got[t],
                    out@ == out0 + ascii_text(got.take(k as int)),
                decreases n - k,
            {
                string_push(&mut out, buf[k] as char);
                k = k + 1;
                assert(out@ =~= out0 + ascii_text(got.take(k as int)));
            }
            assert(got.take(n as int) =~= got);
            assert(ascii_text(got + unread(ser@)) =~= ascii_text(got) + ascii_text(unread(ser@)));
            assert(out@ + ascii_text(unread(ser@)) =~= out0 + (ascii_text(got) + ascii_text(unread(ser@))));
        }
        out
    }

    /// A serializer of the buffer's glyphs in the given format and with the
    /// given flags, at the first glyph, nothing read yet.
    pub fn serializer(&self, format: SerializeFormat, flags: SerializeFlags) -> (s: BufferSerializer<'_>)
        requires
            serializable(self@, format, flags@),
        ensures
            s@ == (SerializerView {
                buffer: self@,
                start: 0,
                end: self@.infos.len(),
                format,
                flags: flags@,
                pending: Seq::<u8>::empty(),
            }),
    {
        let raw = self.as_raw();
        let s = BufferSerializer {
            buffer: raw,
            start: 0,
            end: raw.len(),
            format,
            flags,
            bytes: Vec::new(),
            position: 0,
        };
        assert(s@.pending =~= Seq::<u8>::empty());
        s
    }
}

} // verus!
