//! One client connection as the server sees it: the bytes read so far, the
//! bytes waiting to be written, and the frame length announced by the
//! client.
//!
//! Reading and writing the socket belong to the caller. The session decides
//! what each read does to its state (`fill_step`), which line a read frame
//! starts with (`next_line`), and what a write leaves to be written
//! (`consume_written`).
use crate::buffers::{
    bytes_as_slice, bytes_extend, bytes_len, bytes_mut_contents, bytes_new, bytes_split_off,
    bytes_split_to,
};
use crate::framing::{
    frame_bytes, lemma_u32_be_roundtrip, read_u32_be, u32_be_bytes, u32_from_be, u32_from_le,
};
use bytes::BytesMut;
use vstd::prelude::*;

verus! {

/// The bytes of `x`, most significant first.
pub fn transform_u32_to_array_of_u8(x: u32) -> (r: [u8; 4])
    ensures
        r@ == u32_be_bytes(x),
{
    let b1: u8 = ((x >> 24) & 0xff) as u8;
    let b2: u8 = ((x >> 16) & 0xff) as u8;
    let b3: u8 = ((x >> 8) & 0xff) as u8;
    let b4: u8 = (x & 0xff) as u8;
    proof {
        assert((x >> 24) & 0xff == x / 0x1000000) by (bit_vector);
        assert((x >> 16) & 0xff == (x / 0x10000) % 0x100) by (bit_vector);
        assert((x >> 8) & 0xff == (x / 0x100) % 0x100) by (bit_vector);
        assert(x & 0xff == x % 0x100) by (bit_vector);
    }
    let r = [b1, b2, b3, b4];
    assert(r@ =~= u32_be_bytes(x));
    r
}

/// The value whose bytes are `s`, least significant first.
pub fn transform_u8_to_u32(s: [u8; 4]) -> (r: u32)
    ensures
        r == u32_from_le(s@),
{
    let b1: u32 = s[0] as u32;
    let b2: u32 = s[1] as u32 * 256;
    let b3: u32 = s[2] as u32 * 65536;
    let b4: u32 = s[3] as u32 * 16777216;
    let bx: u32 = b1 + b2 + b3 + b4;
    bx as u32
}

/// A connection's buffers and framing state.
pub struct Session {
    /// Bytes read from the client and not yet taken as a line.
    pub rd: BytesMut,
    /// Bytes waiting to be written to the client.
    pub wr: BytesMut,
    /// The length the client's frame announced; zero until it is known.
    pub magic_size: u32,
    /// How many bytes of the frame have yet to arrive.
    pub cap_size: u32,
}

pub struct SessionView {
    pub rd: Seq<u8>,
    pub wr: Seq<u8>,
    pub magic_size: u32,
    pub cap_size: u32,
}

impl View for Session {
    type V = SessionView;

    open spec fn view(&self) -> SessionView {
        SessionView {
            rd: bytes_mut_contents(self.rd),
            wr: bytes_mut_contents(self.wr),
            magic_size: self.magic_size,
            cap_size: self.cap_size,
        }
    }
}

/// Where one round of filling the read buffer stands: still gathering the
/// four length bytes (with what has arrived of them and its count), or
/// reading the rest of the frame.
pub enum FillCursor {
    Header { buf: BytesMut, n: u32 },
    Body,
}

pub enum CursorView {
    Header { buf: Seq<u8>, n: u32 },
    Body,
}

impl View for FillCursor {
    type V = CursorView;

    open spec fn view(&self) -> CursorView {
        match self {
            FillCursor::Header { buf, n } => CursorView::Header {
                buf: bytes_mut_contents(*buf),
                n: *n,
            },
            FillCursor::Body => CursorView::Body,
        }
    }
}

/// How many bytes a read of `chunk` reports, as a `u32`.
pub open spec fn read_count(chunk: Seq<u8>) -> u32 {
    chunk.len() as u32
}

/// The reads that a session in state `s` at cursor `c` can take without
/// an arithmetic overflow: the byte count of the header stays within
/// `u32`, the announced length plus four fits in a `u32` and covers the
/// bytes read so far, and a read in the body is no longer than what the
/// frame still lacks. Buffers stay within `isize`.
pub open spec fn fill_allowed(s: SessionView, c: CursorView, chunk: Seq<u8>) -> bool {
    let ni = read_count(chunk);
    ni == 0 || match c {
        CursorView::Header { buf, n } => {
            &&& n + ni <= u32::MAX
            &&& buf.len() + chunk.len() <= isize::MAX
            &&& (buf + chunk).len() >= 4 ==> {
                let m = u32_from_be(buf + chunk);
                &&& m + 4 <= u32::MAX
                &&& n + ni <= m + 4
                &&& s.rd.len() + buf.len() + chunk.len() <= isize::MAX
            }
        },
        CursorView::Body => {
            &&& ni <= s.cap_size
            &&& s.rd.len() + chunk.len() <= isize::MAX
        },
    }
}

/// The state, the cursor and whether the round is over, after a read that
/// returned `chunk`. A read of no bytes ends the round and changes
/// nothing. In the header, bytes gather until four have arrived; then the
/// length is taken from the first four, everything gathered moves to the
/// read buffer, and what the frame still lacks is the length plus four
/// minus the bytes read. In the body, each read goes to the read buffer
/// and shrinks what the frame lacks.
pub open spec fn fill_next(s: SessionView, c: CursorView, chunk: Seq<u8>) -> (
    SessionView,
    CursorView,
    bool,
) {
    let ni = read_count(chunk);
    if ni == 0 {
        (s, c, true)
    } else {
        match c {
            CursorView::Header { buf, n } => {
                let b = buf + chunk;
                let n2 = (n + ni) as u32;
                if b.len() < 4 {
                    (s, CursorView::Header { buf: b, n: n2 }, false)
                } else {
                    let m = u32_from_be(b);
                    (
                        SessionView {
                            rd: s.rd + b,
                            magic_size: m,
                            cap_size: (m + 4 - n2) as u32,
                            ..s
                        },
                        CursorView::Body,
                        false,
                    )
                }
            },
            CursorView::Body => (
                SessionView { rd: s.rd + chunk, cap_size: (s.cap_size - ni) as u32, ..s },
                CursorView::Body,
                false,
            ),
        }
    }
}

/// `pos` is where the first CR LF of `s` starts.
pub open spec fn is_crlf_at(s: Seq<u8>, pos: int) -> bool {
    0 <= pos && pos + 1 < s.len() && s[pos] == 13 && s[pos + 1] == 10
}

pub open spec fn first_crlf(s: Seq<u8>, pos: int) -> bool {
    &&& is_crlf_at(s, pos)
    &&& forall|j: int| 0 <= j < pos ==> !is_crlf_at(s, j)
}

pub open spec fn has_crlf(s: Seq<u8>) -> bool {
    exists|j: int| is_crlf_at(s, j)
}

/// Where a round starts while the frame length is still unknown.
pub open spec fn header_start() -> CursorView {
    CursorView::Header { buf: Seq::empty(), n: 0 }
}

/// The state and cursor after the reads `chunks`, one after another, or
/// `None` when one of them is not allowed or ends the round.
pub open spec fn fill_run(s: SessionView, c: CursorView, chunks: Seq<Seq<u8>>) -> Option<
    (SessionView, CursorView),
>
    decreases chunks.len(),
{
    if chunks.len() == 0 {
        Some((s, c))
    } else if !fill_allowed(s, c, chunks[0]) {
        None
    } else {
        let (s2, c2, done) = fill_next(s, c, chunks[0]);
        if done {
            None
        } else {
            fill_run(s2, c2, chunks.drop_first())
        }
    }
}

pub open spec fn all_nonempty(chunks: Seq<Seq<u8>>) -> bool {
    forall|i: int| 0 <= i < chunks.len() ==> #[trigger] chunks[i].len() > 0
}

proof fn lemma_be_prefix(x: Seq<u8>, z: Seq<u8>)
    requires
        x.len() >= 4,
    ensures
        u32_from_be(x + z) == u32_from_be(x),
{
    assert((x + z)[0] == x[0] && (x + z)[1] == x[1] && (x + z)[2] == x[2] && (x + z)[3] == x[3]);
}

/// In the body of a frame, reads that stay within what the frame lacks
/// all land in the read buffer, in order.
pub proof fn lemma_body_run(s: SessionView, chunks: Seq<Seq<u8>>)
    requires
        all_nonempty(chunks),
        chunks.flatten().len() <= s.cap_size,
        s.rd.len() + chunks.flatten().len() <= isize::MAX,
    ensures
        fill_run(s, CursorView::Body, chunks) == Some(
            (
                SessionView {
                    rd: s.rd + chunks.flatten(),
                    cap_size: (s.cap_size - chunks.flatten().len()) as u32,
                    ..s
                },
                CursorView::Body,
            ),
        ),
    decreases chunks.len(),
{
    if chunks.len() == 0 {
        assert(s.rd + chunks.flatten() =~= s.rd);
    } else {
        let c = chunks[0];
        let rest = chunks.drop_first();
        assert(chunks.flatten() == c + rest.flatten());
        assert(c.len() > 0);
        assert(read_count(c) == c.len());
        let s2 = SessionView { rd: s.rd + c, cap_size: (s.cap_size - c.len()) as u32, ..s };
        assert(all_nonempty(rest)) by {
            assert forall|i: int| 0 <= i < rest.len() implies #[trigger] rest[i].len() > 0 by {
                assert(rest[i] == chunks[i + 1]);
            }
        }
        lemma_body_run(s2, rest);
        assert(s2.rd + rest.flatten() =~= s.rd + chunks.flatten());
    }
}

/// While the length bytes are gathered, reads pile up until four bytes
/// have come; from then on everything lands in the read buffer.
proof fn lemma_header_run(s: SessionView, b: Seq<u8>, chunks: Seq<Seq<u8>>)
    requires
        b.len() < 4,
        all_nonempty(chunks),
        (b + chunks.flatten()).len() >= 4,
        u32_from_be(b + chunks.flatten()) + 4 <= u32::MAX,
        (b + chunks.flatten()).len() <= u32_from_be(b + chunks.flatten()) + 4,
        s.rd.len() + (b + chunks.flatten()).len() <= isize::MAX,
    ensures
        ({
            let t = b + chunks.flatten();
            let m = u32_from_be(t);
            fill_run(s, CursorView::Header { buf: b, n: b.len() as u32 }, chunks) == Some(
                (
                    SessionView { rd: s.rd + t, magic_size: m, cap_size: (m + 4 - t.len()) as u32, ..s },
                    CursorView::Body,
                ),
            )
        }),
    decreases chunks.len(),
{
    let t = b + chunks.flatten();
    let m = u32_from_be(t);
    if chunks.len() == 0 {
        assert(t =~= b);
    } else {
        let c = chunks[0];
        let rest = chunks.drop_first();
        assert(chunks.flatten() == c + rest.flatten());
        assert(c.len() > 0);
        assert(t =~= (b + c) + rest.flatten());
        assert(read_count(c) == c.len());
        assert(all_nonempty(rest)) by {
            assert forall|i: int| 0 <= i < rest.len() implies #[trigger] rest[i].len() > 0 by {
                assert(rest[i] == chunks[i + 1]);
            }
        }
        let b2 = b + c;
        if b2.len() < 4 {
            lemma_header_run(s, b2, rest);
        } else {
            lemma_be_prefix(b2, rest.flatten());
            let s2 = SessionView { rd: s.rd + b2, magic_size: m, cap_size: (m + 4 - b2.len()) as u32, ..s };
            lemma_body_run(s2, rest);
            assert(s2.rd + rest.flatten() =~= s.rd + t);
        }
    }
}

/// However the client's bytes are split into non-empty reads, a round that
/// starts without a frame length ends, once all of them are read, with
/// exactly those bytes appended to the read buffer, the announced length
/// taken from the first four, and the rest of the frame still expected.
/// Reads that run past the announced frame are left out: they overflow.
pub proof fn lemma_fill_gathers_all(s: SessionView, chunks: Seq<Seq<u8>>)
    requires
        all_nonempty(chunks),
        chunks.flatten().len() >= 4,
        u32_from_be(chunks.flatten()) + 4 <= u32::MAX,
        chunks.flatten().len() <= u32_from_be(chunks.flatten()) + 4,
        s.rd.len() + chunks.flatten().len() <= isize::MAX,
    ensures
        ({
            let t = chunks.flatten();
            let m = u32_from_be(t);
            fill_run(s, header_start(), chunks) == Some(
                (
                    SessionView { rd: s.rd + t, magic_size: m, cap_size: (m + 4 - t.len()) as u32, ..s },
                    CursorView::Body,
                ),
            )
        }),
{
    let e = Seq::<u8>::empty();
    assert(e + chunks.flatten() =~= chunks.flatten());
    lemma_header_run(s, e, chunks);
}

/// Only one position holds the first CR LF.
pub proof fn lemma_first_crlf_unique(s: Seq<u8>, p: int, q: int)
    requires
        first_crlf(s, p),
        first_crlf(s, q),
    ensures
        p == q,
{
}

/// A frame that the client builds around a magic line ending in CR LF,
/// read by a fresh session in any split into non-empty reads, leaves the
/// whole frame in the read buffer, its length known and nothing more
/// expected. Its first line is the four length bytes and the magic line
/// without its CR LF, and what follows that line is the message. Left out:
/// length bytes and magic line that hold a CR LF of their own (the line
/// then ends early), and frames too long for a `u32` or an `isize`.
pub proof fn lemma_frame_read_back(
    s: SessionView,
    magic_line: Seq<u8>,
    payload: Seq<u8>,
    chunks: Seq<Seq<u8>>,
)
    requires
        s.rd.len() == 0,
        all_nonempty(chunks),
        chunks.flatten() == frame_bytes(magic_line + seq![13u8, 10u8], payload),
        magic_line.len() + 2 + payload.len() + 4 <= u32::MAX,
        magic_line.len() + 2 + payload.len() + 4 <= isize::MAX,
        !has_crlf(
            u32_be_bytes((magic_line.len() + 2 + payload.len()) as u32) + magic_line,
        ),
    ensures
        ({
            let magic = magic_line + seq![13u8, 10u8];
            let f = frame_bytes(magic, payload);
            let len = (magic_line.len() + 2 + payload.len()) as u32;
            &&& fill_run(s, header_start(), chunks) == Some(
                (SessionView { rd: f, magic_size: len, cap_size: 0, ..s }, CursorView::Body),
            )
            &&& first_crlf(f, 4 + magic_line.len() as int)
            &&& f.take(4 + magic_line.len() as int) == u32_be_bytes(len) + magic_line
            &&& f.skip(4 + magic_line.len() as int + 2) == payload
        }),
{
    let magic = magic_line + seq![13u8, 10u8];
    let f = frame_bytes(magic, payload);
    let len = (magic_line.len() + 2 + payload.len()) as u32;
    assert(magic.len() as u32 == magic.len());
    assert(payload.len() as u32 == payload.len());
    lemma_u32_be_roundtrip(len);
    let head = u32_be_bytes(len);
    assert(f =~= head + magic_line + seq![13u8, 10u8] + payload);
    assert(u32_from_be(f) == len) by {
        lemma_be_prefix(head, magic + payload);
        assert(f =~= head + (magic + payload));
    }
    lemma_fill_gathers_all(s, chunks);
    assert(s.rd + f =~= f);
    let p: int = 4 + magic_line.len() as int;
    let hl = head + magic_line;
    assert(f.take(p) =~= hl);
    assert(f.skip(p + 2) =~= payload);
    assert(f[p] == 13 && f[p + 1] == 10);
    assert forall|j: int| 0 <= j < p implies !is_crlf_at(f, j) by {
        if j + 1 < p {
            if is_crlf_at(f, j) {
                assert(hl[j] == f[j] && hl[j + 1] == f[j + 1]);
                assert(is_crlf_at(hl, j));
            }
        } else {
            assert(f[j + 1] == 13);
        }
    }
}

impl Session {
    /// A session with nothing read, nothing to write and no frame length.
    pub fn new() -> (s: Session)
        ensures
            s@.rd == Seq::<u8>::empty(),
            s@.wr == Seq::<u8>::empty(),
            s@.magic_size == 0,
            s@.cap_size == 0,
    {
        Session { rd: bytes_new(), wr: bytes_new(), magic_size: 0, cap_size: 0 }
    }

    /// Queues `line` after the bytes already waiting to be written.
    pub fn buffer(&mut self, line: &[u8])
        requires
            old(self)@.wr.len() + line@.len() <= isize::MAX,
        ensures
            final(self)@ == (SessionView { wr: old(self)@.wr + line@, ..old(self)@ }),
    {
        bytes_extend(&mut self.wr, line);
    }

    /// Whether bytes are waiting to be written.
    pub fn has_pending_output(&self) -> (r: bool)
        ensures
            r == (self@.wr.len() > 0),
    {
        bytes_len(&self.wr) != 0
    }

    /// Drops the first `n` waiting bytes once a write has sent them, and
    /// says whether any remain. A write reports at least one byte.
    pub fn consume_written(&mut self, n: usize) -> (more: bool)
        requires
            0 < n <= old(self)@.wr.len(),
        ensures
            final(self)@ == (SessionView { wr: old(self)@.wr.skip(n as int), ..old(self)@ }),
            more == (final(self)@.wr.len() > 0),
    {
        let _ = bytes_split_to(&mut self.wr, n);
        bytes_len(&self.wr) != 0
    }

    /// Starts a round of filling the read buffer: while the frame length is
    /// still unknown, the round first gathers the four length bytes.
    pub fn begin_fill(&self) -> (c: FillCursor)
        ensures
            self@.magic_size == 0 ==> c@ == (CursorView::Header { buf: Seq::empty(), n: 0 }),
            self@.magic_size != 0 ==> c@ == CursorView::Body,
    {
        if self.magic_size == 0 {
            FillCursor::Header { buf: bytes_new(), n: 0 }
        } else {
            FillCursor::Body
        }
    }

    /// Whether `fill_step` can take `chunk` at `cursor` (see `fill_allowed`).
    pub fn can_fill(&self, cursor: &FillCursor, chunk: &[u8]) -> (ok: bool)
        ensures
            ok == fill_allowed(self@, cursor@, chunk@),
    {
        let ni: u32 = chunk.len() as u32;
        if ni == 0 {
            return true;
        }
        let limit: usize = isize::MAX as usize;
        let rd_len = bytes_len(&self.rd);
        match cursor {
            FillCursor::Header { buf, n } => {
                let gathered = bytes_as_slice(buf);
                let blen = gathered.len();
                if (*n as u64) + (ni as u64) > u32::MAX as u64 {
                    return false;
                }
                if blen > limit || chunk.len() > limit - blen {
                    return false;
                }
                let total = blen + chunk.len();
                if total < 4 {
                    return true;
                }
                let ghost b = gathered@ + chunk@;
                let mut bs: [u8; 4] = [0u8; 4];
                let mut i: usize = 0;
                while i < 4
                    invariant
                        i <= 4,
                        blen == gathered@.len(),
                        total == b.len(),
                        total >= 4,
                        b == gathered@ + chunk@,
                        forall|j: int| 0 <= j < i ==> bs@[j] == b[j],
                    decreases 4 - i,
                {
                    let v: u8 = if i < blen {
                        gathered[i]
                    } else {
                        chunk[i - blen]
                    };
                    bs[i] = v;
                    i = i + 1;
                }
                let m: u64 = bs[0] as u64 * 0x1000000 + bs[1] as u64 * 0x10000 + bs[2] as u64 * 0x100
                    + bs[3] as u64;
                assert(m == u32_from_be(b));
                if m + 4 > u32::MAX as u64 {
                    return false;
                }
                if (*n as u64) + (ni as u64) > m + 4 {
                    return false;
                }
                rd_len <= limit && total <= limit - rd_len
            },
            FillCursor::Body => {
                ni <= self.cap_size && rd_len <= limit && chunk.len() <= limit - rd_len
            },
        }
    }

    /// Takes the result of one read into account: returns the next cursor
    /// and whether the round is over (the client sent no more bytes).
    pub fn fill_step(&mut self, cursor: FillCursor, chunk: &[u8]) -> (r: (FillCursor, bool))
        requires
            fill_allowed(old(self)@, cursor@, chunk@),
        ensures
            (final(self)@, r.0@, r.1) == fill_next(old(self)@, cursor@, chunk@),
    {
        let ni: u32 = chunk.len() as u32;
        if ni == 0 {
            return (cursor, true);
        }
        match cursor {
            FillCursor::Header { buf, n } => {
                let mut buf = buf;
                bytes_extend(&mut buf, chunk);
                let n2: u32 = n + ni;
                if bytes_len(&buf) < 4 {
                    (FillCursor::Header { buf, n: n2 }, false)
                } else {
                    let gathered = bytes_as_slice(&buf);
                    let head = vstd::slice::slice_subrange(gathered, 0, 4);
                    let m: u32 = read_u32_be(head);
                    assert(u32_from_be(head@) == u32_from_be(gathered@));
                    self.magic_size = m;
                    self.cap_size = m + 4;
                    bytes_extend(&mut self.rd, gathered);
                    self.cap_size = self.cap_size - n2;
                    (FillCursor::Body, false)
                }
            },
            FillCursor::Body => {
                bytes_extend(&mut self.rd, chunk);
                self.cap_size = self.cap_size - ni;
                (FillCursor::Body, false)
            },
        }
    }

    /// Takes the first line off the read buffer: the bytes before the first
    /// CR LF, with the CR LF itself dropped. `None`, and the buffer
    /// unchanged, when it holds no CR LF.
    pub fn next_line(&mut self) -> (line: Option<BytesMut>)
        ensures
            final(self)@.wr == old(self)@.wr,
            final(self)@.magic_size == old(self)@.magic_size,
            final(self)@.cap_size == old(self)@.cap_size,
            match line {
                Some(l) => exists|pos: int|
                    {
                        &&& first_crlf(old(self)@.rd, pos)
                        &&& bytes_mut_contents(l) == old(self)@.rd.take(pos)
                        &&& final(self)@.rd == old(self)@.rd.skip(pos + 2)
                    },
                None => !has_crlf(old(self)@.rd) && final(self)@.rd == old(self)@.rd,
            },
    {
        let ghost rd = self@.rd;
        let data = bytes_as_slice(&self.rd);
        let len = data.len();
        let mut i: usize = 0;
        let mut found = false;
        while i + 1 < len
            invariant_except_break
                !found,
            invariant
                data@ == rd,
                len == rd.len(),
                i == 0 || i < len,
                forall|j: int| 0 <= j < i ==> !is_crlf_at(rd, j),
            ensures
                found ==> is_crlf_at(rd, i as int),
                !found ==> i + 1 >= len,
                forall|j: int| 0 <= j < i ==> !is_crlf_at(rd, j),
            decreases len - i,
        {
            if data[i] == 13 && data[i + 1] == 10 {
                found = true;
                break;
            }
            i = i + 1;
        }
        if found {
            let mut line = bytes_split_to(&mut self.rd, i + 2);
            let _ = bytes_split_off(&mut line, i);
            assert(bytes_mut_contents(line) =~= rd.take(i as int));
            assert(first_crlf(rd, i as int));
            Some(line)
        } else {
            assert(!has_crlf(rd)) by {
                assert forall|j: int| !is_crlf_at(rd, j) by {
                    if is_crlf_at(rd, j) {
                        assert(j < i);
                    }
                }
            }
            None
        }
    }
}

} // verus!
