//! Frame codec: converts the raw serial byte stream into discrete,
//! self-delimiting frames and back. A frame is an escaped payload followed
//! by a delimiter byte; the delimiter value never appears unescaped inside
//! a frame body, so the decoder can always resynchronize on it.
//!
//! The codec has no knowledge of message content; it hands complete payloads
//! to the message schema layer.

use vstd::prelude::*;
use crate::{MAX_ENCODED_FRAME, MAX_FRAME_PAYLOAD};

verus! {

/// Byte that terminates every frame; never appears unescaped in a body.
pub const FRAME_DELIMITER: u8 = 0;

/// Byte that introduces an escape pair inside a frame body.
pub const FRAME_ESCAPE: u8 = 1;

/// Why the accumulated bytes do not form a frame.
#[derive(Clone, Copy, Debug, PartialEq, Eq, Structural)]
pub enum FrameError {
    /// The frame grew past the fixed maximum before its delimiter was seen,
    /// or its decoded payload exceeds the maximum payload size.
    Oversized,
    /// The delimited bytes are not a well-formed escaped body.
    Corrupt,
}

/// Escaped form of one payload byte: the delimiter and the escape byte are
/// written as an escape pair; every other byte stands for itself.
pub open spec fn escape_byte(b: u8) -> Seq<u8> {
    if b == FRAME_DELIMITER || b == FRAME_ESCAPE {
        seq![FRAME_ESCAPE, (b + 2) as u8]
    } else {
        seq![b]
    }
}

/// Escaped form of a whole payload: the concatenation of its bytes' escaped
/// forms. Contains no delimiter byte.
pub open spec fn encode_body(p: Seq<u8>) -> Seq<u8>
    decreases p.len(),
{
    if p.len() == 0 {
        Seq::empty()
    } else {
        escape_byte(p[0]) + encode_body(p.subrange(1, p.len() as int))
    }
}

/// Inverse of `encode_body`: `None` on a body that is not a well-formed
/// escaped payload (a stray delimiter, a dangling escape, or an escape pair
/// that stands for nothing).
pub open spec fn decode_body(s: Seq<u8>) -> Option<Seq<u8>>
    decreases s.len(),
{
    if s.len() == 0 {
        Some(Seq::empty())
    } else if s[0] == FRAME_ESCAPE {
        if s.len() >= 2 && (s[1] == 2 || s[1] == 3) {
            match decode_body(s.subrange(2, s.len() as int)) {
                Some(rest) => Some(seq![(s[1] - 2) as u8] + rest),
                None => None,
            }
        } else {
            None
        }
    } else if s[0] == FRAME_DELIMITER {
        None
    } else {
        match decode_body(s.subrange(1, s.len() as int)) {
            Some(rest) => Some(seq![s[0]] + rest),
            None => None,
        }
    }
}

/// An escaped body never contains the delimiter byte.
pub proof fn lemma_encode_body_no_delimiter(p: Seq<u8>)
    ensures
        forall|i: int| 0 <= i < encode_body(p).len() ==> encode_body(p)[i] != FRAME_DELIMITER,
    decreases p.len(),
{
    if p.len() > 0 {
        lemma_encode_body_no_delimiter(p.subrange(1, p.len() as int));
        let e = escape_byte(p[0]);
        let rest = encode_body(p.subrange(1, p.len() as int));
        assert forall|i: int| 0 <= i < encode_body(p).len() implies encode_body(p)[i]
            != FRAME_DELIMITER by {
            assert(encode_body(p) == e + rest);
            if i < e.len() {
                assert(encode_body(p)[i] == e[i]);
            } else {
                assert(encode_body(p)[i] == rest[i - e.len()]);
            }
        }
    }
}

/// Escaping at most doubles a payload and never shrinks it.
pub proof fn lemma_encode_body_len(p: Seq<u8>)
    ensures
        p.len() <= encode_body(p).len() <= 2 * p.len(),
    decreases p.len(),
{
    if p.len() > 0 {
        lemma_encode_body_len(p.subrange(1, p.len() as int));
    }
}

/// Appending one payload byte appends its escaped form to the body.
pub proof fn lemma_encode_body_push(p: Seq<u8>, b: u8)
    ensures
        encode_body(p.push(b)) == encode_body(p) + escape_byte(b),
    decreases p.len(),
{
    let q = p.push(b);
    if p.len() == 0 {
        assert(q[0] == b);
        assert(q.subrange(1, q.len() as int) =~= Seq::<u8>::empty());
        assert(encode_body(q) == escape_byte(b) + encode_body(Seq::<u8>::empty()));
        assert(encode_body(q) =~= encode_body(p) + escape_byte(b));
    } else {
        lemma_encode_body_push(p.subrange(1, p.len() as int), b);
        assert(q[0] == p[0]);
        assert(q.subrange(1, q.len() as int) =~= p.subrange(1, p.len() as int).push(b));
        assert(encode_body(q) == escape_byte(p[0]) + encode_body(
            p.subrange(1, p.len() as int).push(b),
        ));
        assert(encode_body(q) =~= encode_body(p) + escape_byte(b));
    }
}

/// Decoding inverts escaping: every payload's escaped body decodes back to
/// that exact payload.
pub proof fn lemma_decode_encode(p: Seq<u8>)
    ensures
        decode_body(encode_body(p)) == Some(p),
    decreases p.len(),
{
    if p.len() == 0 {
        assert(decode_body(encode_body(p)) =~~= Some(p));
    } else {
        let tail = p.subrange(1, p.len() as int);
        lemma_decode_encode(tail);
        let s = encode_body(p);
        if p[0] == FRAME_DELIMITER || p[0] == FRAME_ESCAPE {
            assert(s.subrange(2, s.len() as int) =~= encode_body(tail));
            assert(seq![(s[1] - 2) as u8] + tail =~= p);
        } else {
            assert(s.subrange(1, s.len() as int) =~= encode_body(tail));
            assert(seq![s[0]] + tail =~= p);
        }
    }
}

/// Fill-state of the codec: the escaped bytes of the frame under assembly,
/// and whether the codec is discarding an oversized frame until the next
/// delimiter.
pub struct CodecView {
    pub buf: Seq<u8>,
    pub skipping: bool,
}

/// State of a freshly constructed codec: empty buffer, not discarding.
pub open spec fn initial_codec() -> CodecView {
    CodecView { buf: Seq::empty(), skipping: false }
}

/// What one fed byte does to the codec's state.
pub open spec fn feed_next(st: CodecView, byte: u8) -> CodecView {
    if st.skipping {
        if byte == FRAME_DELIMITER {
            CodecView { buf: st.buf, skipping: false }
        } else {
            st
        }
    } else if byte == FRAME_DELIMITER {
        initial_codec()
    } else if st.buf.len() == MAX_ENCODED_FRAME {
        CodecView { buf: Seq::empty(), skipping: true }
    } else {
        CodecView { buf: st.buf.push(byte), skipping: false }
    }
}

/// What one fed byte makes the codec report.
pub enum FeedOutcome {
    /// No complete frame yet.
    Pending,
    /// A delimiter arrived and the accumulated body decoded to this payload.
    Frame(Seq<u8>),
    /// The frame outgrew the fixed bound.
    Oversized,
    /// The delimited bytes were not a well-formed escaped body.
    Corrupt,
}

/// The report that goes with `feed_next`.
pub open spec fn feed_out(st: CodecView, byte: u8) -> FeedOutcome {
    if st.skipping {
        FeedOutcome::Pending
    } else if byte == FRAME_DELIMITER {
        match decode_body(st.buf) {
            Some(p) => if p.len() <= MAX_FRAME_PAYLOAD {
                FeedOutcome::Frame(p)
            } else {
                FeedOutcome::Oversized
            },
            None => FeedOutcome::Corrupt,
        }
    } else if st.buf.len() == MAX_ENCODED_FRAME {
        FeedOutcome::Oversized
    } else {
        FeedOutcome::Pending
    }
}

/// State after feeding a whole byte sequence.
pub open spec fn feed_many(st: CodecView, bytes: Seq<u8>) -> CodecView
    decreases bytes.len(),
{
    if bytes.len() == 0 {
        st
    } else {
        feed_many(feed_next(st, bytes[0]), bytes.subrange(1, bytes.len() as int))
    }
}

/// Feeding this byte sequence from this state reports no frame and no error.
pub open spec fn all_pending(st: CodecView, bytes: Seq<u8>) -> bool
    decreases bytes.len(),
{
    if bytes.len() == 0 {
        true
    } else {
        &&& feed_out(st, bytes[0]) is Pending
        &&& all_pending(feed_next(st, bytes[0]), bytes.subrange(1, bytes.len() as int))
    }
}

/// Delimiter-free bytes that fit in the buffer are accumulated silently, in
/// order.
pub proof fn lemma_feed_accumulates(b: Seq<u8>, bytes: Seq<u8>)
    requires
        forall|i: int| 0 <= i < bytes.len() ==> bytes[i] != FRAME_DELIMITER,
        b.len() + bytes.len() <= MAX_ENCODED_FRAME,
    ensures
        feed_many(CodecView { buf: b, skipping: false }, bytes) == (CodecView {
            buf: b + bytes,
            skipping: false,
        }),
        all_pending(CodecView { buf: b, skipping: false }, bytes),
    decreases bytes.len(),
{
    if bytes.len() == 0 {
        assert(b + bytes =~= b);
    } else {
        let st = CodecView { buf: b, skipping: false };
        assert(feed_next(st, bytes[0]) == (CodecView { buf: b.push(bytes[0]), skipping: false }));
        lemma_feed_accumulates(b.push(bytes[0]), bytes.subrange(1, bytes.len() as int));
        assert(b.push(bytes[0]) + bytes.subrange(1, bytes.len() as int) =~= b + bytes);
    }
}

/// Round trip through the codec: feeding the escaped body of any payload of
/// legal size into a fresh codec, one byte at a time, reports nothing until
/// the delimiter, and the delimiter reports exactly that payload and returns
/// the codec to its initial state.
pub proof fn lemma_frame_round_trip(p: Seq<u8>)
    requires
        p.len() <= MAX_FRAME_PAYLOAD,
    ensures
        ({
            let body = encode_body(p);
            let st = feed_many(initial_codec(), body);
            &&& all_pending(initial_codec(), body)
            &&& feed_out(st, FRAME_DELIMITER) == FeedOutcome::Frame(p)
            &&& feed_next(st, FRAME_DELIMITER) == initial_codec()
        }),
{
    let body = encode_body(p);
    lemma_encode_body_no_delimiter(p);
    lemma_encode_body_len(p);
    lemma_feed_accumulates(Seq::empty(), body);
    assert(Seq::<u8>::empty() + body =~= body);
    lemma_decode_encode(p);
}

/// Resynchronization: while discarding an oversized frame, the codec stays
/// silent through any delimiter-free bytes, and the next delimiter returns
/// it to its initial state, ready for the next frame.
pub proof fn lemma_resynchronize(bytes: Seq<u8>)
    requires
        forall|i: int| 0 <= i < bytes.len() ==> bytes[i] != FRAME_DELIMITER,
    ensures
        ({
            let skip = CodecView { buf: Seq::empty(), skipping: true };
            &&& feed_many(skip, bytes) == skip
            &&& all_pending(skip, bytes)
            &&& feed_next(skip, FRAME_DELIMITER) == initial_codec()
        }),
    decreases bytes.len(),
{
    if bytes.len() > 0 {
        lemma_resynchronize(bytes.subrange(1, bytes.len() as int));
    }
}

/// Accumulates serial bytes and cuts them into frames at each delimiter.
pub struct FrameCodec {
    buf: Vec<u8>,
    skipping: bool,
}

impl View for FrameCodec {
    type V = CodecView;

    closed spec fn view(&self) -> CodecView {
        CodecView { buf: self.buf@, skipping: self.skipping }
    }
}

impl FrameCodec {
    /// The assembly buffer never outgrows the fixed bound.
    pub open spec fn wf(self) -> bool {
        self@.buf.len() <= MAX_ENCODED_FRAME
    }

    pub fn new() -> (r: FrameCodec)
        ensures
            r@ == initial_codec(),
            r.wf(),
    {
        FrameCodec { buf: Vec::new(), skipping: false }
    }

    /// Accumulate one byte. On a delimiter, decode the accumulated body and
    /// hand the payload out; on an oversized or corrupt frame, report the
    /// error, discard the partial buffer and resynchronize on the next
    /// delimiter.
    pub fn feed(&mut self, byte: u8) -> (r: Result<Option<Vec<u8>>, FrameError>)
        requires
            old(self).wf(),
        ensures
            final(self).wf(),
            final(self)@ == feed_next(old(self)@, byte),
            match feed_out(old(self)@, byte) {
                FeedOutcome::Pending => r == Ok::<Option<Vec<u8>>, FrameError>(None),
                FeedOutcome::Frame(p) => r is Ok && r->Ok_0 is Some && r->Ok_0->0@ == p,
                FeedOutcome::Oversized => r == Err::<Option<Vec<u8>>, FrameError>(
                    FrameError::Oversized,
                ),
                FeedOutcome::Corrupt => r == Err::<Option<Vec<u8>>, FrameError>(
                    FrameError::Corrupt,
                ),
            },
    {
        if self.skipping {
            if byte == FRAME_DELIMITER {
                self.skipping = false;
            }
            Ok(None)
        } else if byte == FRAME_DELIMITER {
            let decoded = decode_body_exec(self.buf.as_slice());
            self.buf.clear();
            match decoded {
                Some(p) => {
                    if p.len() <= MAX_FRAME_PAYLOAD {
                        Ok(Some(p))
                    } else {
                        Err(FrameError::Oversized)
                    }
                },
                None => Err(FrameError::Corrupt),
            }
        } else if self.buf.len() == MAX_ENCODED_FRAME {
            self.buf.clear();
            self.skipping = true;
            Err(FrameError::Oversized)
        } else {
            self.buf.push(byte);
            Ok(None)
        }
    }
}

/// Decode an escaped frame body; `None` exactly where `decode_body` says so.
fn decode_body_exec(bytes: &[u8]) -> (r: Option<Vec<u8>>)
    ensures
        match decode_body(bytes@) {
            Some(p) => r is Some && r->0@ == p,
            None => r is None,
        },
{
    let n = bytes.len();
    let mut out: Vec<u8> = Vec::new();
    let mut i: usize = 0;
    proof {
        assert(bytes@.subrange(0, n as int) =~= bytes@);
        if let Some(rest) = decode_body(bytes@) {
            assert(Seq::<u8>::empty() + rest =~= rest);
        }
    }
    while i < n
        invariant
            0 <= i <= n,
            n == bytes@.len(),
            match decode_body(bytes@.subrange(i as int, n as int)) {
                Some(rest) => decode_body(bytes@) == Some(out@ + rest),
                None => decode_body(bytes@) is None,
            },
        decreases n - i,
    {
        let ghost suf = bytes@.subrange(i as int, n as int);
        let b = bytes[i];
        if b == FRAME_ESCAPE {
            if i + 1 == n {
                assert(decode_body(suf) is None);
                return None;
            }
            let b2 = bytes[i + 1];
            if b2 == 2 || b2 == 3 {
                let ghost out0 = out@;
                out.push(b2 - 2);
                proof {
                    assert(suf.subrange(2, suf.len() as int) =~= bytes@.subrange(
                        i + 2,
                        n as int,
                    ));
                    if let Some(rest2) = decode_body(bytes@.subrange(i + 2, n as int)) {
                        assert(out@ + rest2 =~= out0 + (seq![(b2 - 2) as u8] + rest2));
                    }
                }
                i = i + 2;
            } else {
                assert(decode_body(suf) is None);
                return None;
            }
        } else if b == FRAME_DELIMITER {
            assert(decode_body(suf) is None);
            return None;
        } else {
            let ghost out0 = out@;
            out.push(b);
            proof {
                assert(suf.subrange(1, suf.len() as int) =~= bytes@.subrange(i + 1, n as int));
                if let Some(rest2) = decode_body(bytes@.subrange(i + 1, n as int)) {
                    assert(out@ + rest2 =~= out0 + (seq![b] + rest2));
                }
            }
            i = i + 1;
        }
    }
    assert(bytes@.subrange(n as int, n as int) =~= Seq::<u8>::empty());
    assert(out@ + Seq::<u8>::empty() =~= out@);
    Some(out)
}

/// Wrap a payload for the wire: its escaped body followed by the delimiter.
pub fn encode_frame(payload: &[u8]) -> (r: Vec<u8>)
    requires
        payload@.len() <= MAX_FRAME_PAYLOAD,
    ensures
        r@ == encode_body(payload@) + seq![FRAME_DELIMITER],
{
    let n = payload.len();
    let mut out: Vec<u8> = Vec::new();
    let mut i: usize = 0;
    while i < n
        invariant
            0 <= i <= n,
            n == payload@.len(),
            out@ == encode_body(payload@.subrange(0, i as int)),
        decreases n - i,
    {
        let b = payload[i];
        if b == FRAME_DELIMITER || b == FRAME_ESCAPE {
            out.push(FRAME_ESCAPE);
            out.push(b + 2);
        } else {
            out.push(b);
        }
        proof {
            lemma_encode_body_push(payload@.subrange(0, i as int), b);
            assert(payload@.subrange(0, i + 1) =~= payload@.subrange(0, i as int).push(b));
            assert(out@ =~= encode_body(payload@.subrange(0, i + 1)));
        }
        i = i + 1;
    }
    assert(payload@.subrange(0, n as int) =~= payload@);
    out.push(FRAME_DELIMITER);
    assert(out@ =~= encode_body(payload@) + seq![FRAME_DELIMITER]);
    out
}

} // verus!
