//! One connection's session: the receive buffer that accumulates stream
//! bytes, the reassembly loop that cuts every complete frame out of it, and
//! the transitions that end a session on peer close, read failure, or idle
//! timeout.

use vstd::prelude::*;

use crate::bytebuf::{
    buf_advance, buf_byte, buf_contents, buf_extend, buf_freeze, buf_len, buf_split_to,
    buf_with_capacity,
};
use crate::frame::{package_frame, spec_package_matches, MessagePackage, START_BYTE};

verus! {

/// Why a session ended: the peer closed the connection, a read failed, or
/// no bytes arrived within the idle timeout.
#[derive(Clone, Copy, Debug, PartialEq, Eq, Structural)]
pub enum TerminalReason {
    PeerClosed,
    IoError,
    IdleTimeout,
}

/// One outcome of a session's wait: either a read completed (with the bytes
/// it delivered, none meaning the peer closed, or a failure), or the idle
/// deadline elapsed first.
#[derive(Debug)]
pub enum SessionEvent {
    Data(Vec<u8>),
    PeerClosed,
    ReadFailed,
    TimedOut,
}

/// What one reassembly pass extracts from a buffered byte sequence: the
/// complete frames, front to back, and the bytes that remain buffered.
/// Leading non-marker bytes are noise and are discarded one at a time; a
/// frame whose bytes have all arrived is cut from the front whole; a
/// partial frame (its marker and any prefix) stays buffered.
pub open spec fn spec_drain(b: Seq<u8>) -> (Seq<Seq<u8>>, Seq<u8>)
    decreases b.len(),
{
    if b.len() >= 2 && b[0] != START_BYTE {
        spec_drain(b.skip(1))
    } else if b.len() >= 2 && b[0] == START_BYTE && b.len() >= b[1] + 2 {
        let l = b[1] + 2;
        let rest = spec_drain(b.skip(l));
        (seq![b.take(l)] + rest.0, rest.1)
    } else {
        (Seq::<Seq<u8>>::empty(), b)
    }
}

/// Each extracted package carries exactly the bytes of the corresponding
/// frame, in order.
pub open spec fn spec_frames_match(ps: Seq<MessagePackage>, fs: Seq<Seq<u8>>) -> bool {
    &&& ps.len() == fs.len()
    &&& forall|i: int| 0 <= i < ps.len() ==> spec_package_matches(#[trigger] ps[i], fs[i])
}

/// The session handler's state for one accepted connection: the bytes
/// received but not yet consumed into a frame.
pub struct Session {
    buffer: bytes::BytesMut,
}

impl View for Session {
    type V = Seq<u8>;

    closed spec fn view(&self) -> Seq<u8> {
        buf_contents(self.buffer)
    }
}

/// What one step of the session produced: every frame extracted on this
/// step, and the terminal reason if the session ended.
pub struct StepOutcome {
    pub frames: Vec<MessagePackage>,
    pub terminal: Option<TerminalReason>,
}

impl Session {
    /// A fresh session with an empty receive buffer.
    pub fn new(capacity: usize) -> (r: Session)
        ensures
            r@ == Seq::<u8>::empty(),
    {
        Session { buffer: buf_with_capacity(capacity) }
    }

    /// The number of bytes currently buffered, received but not yet
    /// consumed into a frame.
    pub fn buffered_len(&self) -> (r: usize)
        ensures
            r == self@.len(),
    {
        buf_len(&self.buffer)
    }

    /// Cuts every complete frame out of the front of the buffer, packaging
    /// each, until only noise-free incomplete data (or nothing) remains.
    fn drain_frames(&mut self) -> (r: Vec<MessagePackage>)
        ensures
            spec_frames_match(r@, spec_drain(old(self)@).0),
            final(self)@ == spec_drain(old(self)@).1,
    {
        let ghost b0 = buf_contents(self.buffer);
        let mut frames: Vec<MessagePackage> = Vec::new();
        let mut done = false;
        while !done
            invariant
                ({
                    let cur = buf_contents(self.buffer);
                    let whole = spec_drain(b0);
                    let now = spec_drain(cur);
                    &&& whole.1 == now.1
                    &&& whole.0.len() == frames@.len() + now.0.len()
                    &&& forall|i: int|
                        0 <= i < frames@.len() ==> spec_package_matches(
                            #[trigger] frames@[i],
                            whole.0[i],
                        )
                    &&& forall|j: int|
                        0 <= j < now.0.len() ==> now.0[j] == whole.0[frames@.len() + j]
                    &&& (done ==> now.0.len() == 0 && now.1 == cur)
                }),
            decreases buf_contents(self.buffer).len() + (if done { 0int } else { 1 }),
        {
            let ghost cur = buf_contents(self.buffer);
            let ghost whole = spec_drain(b0);
            let ghost now = spec_drain(cur);
            let n = buf_len(&self.buffer);
            if n < 2 {
                done = true;
            } else {
                let first = buf_byte(&self.buffer, 0);
                if first != START_BYTE {
                    buf_advance(&mut self.buffer, 1);
                    proof {
                        assert(spec_drain(cur) == spec_drain(cur.skip(1)));
                    }
                } else {
                    let length = buf_byte(&self.buffer, 1) as usize + 2;
                    if n >= length {
                        let front = buf_split_to(&mut self.buffer, length);
                        let fbytes = buf_freeze(front);
                        proof {
                            assert(now.0 == seq![cur.take(length as int)] + spec_drain(
                                cur.skip(length as int),
                            ).0);
                            assert(now.0[0] == cur.take(length as int));
                            assert(now.0[0] == whole.0[frames@.len() as int]);
                        }
                        let pkg = package_frame(fbytes);
                        frames.push(pkg);
                        proof {
                            let after = spec_drain(cur.skip(length as int));
                            assert forall|j: int| 0 <= j < after.0.len() implies after.0[j]
                                == whole.0[frames@.len() + j] by {
                                assert(after.0[j] == now.0[j + 1]);
                            }
                        }
                    } else {
                        done = true;
                    }
                }
            }
        }
        frames
    }

    /// Acts on one awaited outcome. Arrived bytes are appended to the
    /// buffer and every complete frame is then extracted, in arrival
    /// order; the session stays active. A zero-byte read, a read failure,
    /// or an elapsed idle deadline ends the session with its reason, the
    /// buffer untouched.
    pub fn step(&mut self, event: SessionEvent) -> (r: StepOutcome)
        ensures
            match event {
                SessionEvent::Data(d) => {
                    &&& r.terminal is None
                    &&& spec_frames_match(r.frames@, spec_drain(old(self)@ + d@).0)
                    &&& final(self)@ == spec_drain(old(self)@ + d@).1
                },
                SessionEvent::PeerClosed => {
                    &&& r.terminal == Some(TerminalReason::PeerClosed)
                    &&& r.frames@ == Seq::<MessagePackage>::empty()
                    &&& final(self)@ == old(self)@
                },
                SessionEvent::ReadFailed => {
                    &&& r.terminal == Some(TerminalReason::IoError)
                    &&& r.frames@ == Seq::<MessagePackage>::empty()
                    &&& final(self)@ == old(self)@
                },
                SessionEvent::TimedOut => {
                    &&& r.terminal == Some(TerminalReason::IdleTimeout)
                    &&& r.frames@ == Seq::<MessagePackage>::empty()
                    &&& final(self)@ == old(self)@
                },
            },
    {
        match event {
            SessionEvent::Data(d) => {
                buf_extend(&mut self.buffer, &d);
                let frames = self.drain_frames();
                StepOutcome { frames, terminal: None }
            },
            SessionEvent::PeerClosed => StepOutcome {
                frames: Vec::new(),
                terminal: Some(TerminalReason::PeerClosed),
            },
            SessionEvent::ReadFailed => StepOutcome {
                frames: Vec::new(),
                terminal: Some(TerminalReason::IoError),
            },
            SessionEvent::TimedOut => StepOutcome {
                frames: Vec::new(),
                terminal: Some(TerminalReason::IdleTimeout),
            },
        }
    }
}

/// One whole frame alone in the buffer drains to exactly that frame,
/// leaving nothing.
pub proof fn lemma_drain_whole_frame(f: Seq<u8>)
    requires
        crate::frame::valid_frame(f),
    ensures
        spec_drain(f).0 =~= seq![f],
        spec_drain(f).1 =~= Seq::<u8>::empty(),
{
    let l = f[1] + 2;
    assert(f.take(l) =~= f);
    assert(f.skip(l) =~= Seq::<u8>::empty());
    assert(spec_drain(Seq::<u8>::empty()).0 =~= Seq::<Seq<u8>>::empty());
    assert(spec_drain(f).0 == seq![f.take(l)] + spec_drain(f.skip(l)).0);
    assert(seq![f] + Seq::<Seq<u8>>::empty() =~= seq![f]);
}

/// Any proper prefix of a valid frame drains to no frame at all and stays
/// buffered untouched: the marker and length byte are not consumed while
/// the rest of the frame has yet to arrive.
pub proof fn lemma_drain_frame_prefix(f: Seq<u8>, k: int)
    requires
        crate::frame::valid_frame(f),
        0 <= k < f.len(),
    ensures
        spec_drain(f.take(k)).0 =~= Seq::<Seq<u8>>::empty(),
        spec_drain(f.take(k)).1 == f.take(k),
{
}

/// Split-boundary idempotence: a valid frame's bytes cut at any offset and
/// delivered as two reads in order still drain to exactly that one frame,
/// with an empty buffer left — never zero frames, never a truncated one.
pub proof fn lemma_split_boundary(f: Seq<u8>, k: int)
    requires
        crate::frame::valid_frame(f),
        0 <= k <= f.len(),
    ensures
        spec_drain(f.take(k)).0 + spec_drain(spec_drain(f.take(k)).1 + f.skip(k)).0 =~= seq![f],
        spec_drain(spec_drain(f.take(k)).1 + f.skip(k)).1 =~= Seq::<u8>::empty(),
{
    if k < f.len() {
        lemma_drain_frame_prefix(f, k);
        assert(f.take(k) + f.skip(k) =~= f);
        lemma_drain_whole_frame(f);
    } else {
        assert(f.take(k) =~= f);
        lemma_drain_whole_frame(f);
        assert(spec_drain(f.take(k)).1 + f.skip(k) =~= Seq::<u8>::empty());
    }
}

/// Resynchronization: any run of non-marker noise bytes directly followed
/// by one valid frame drains to exactly that frame, the noise discarded
/// byte by byte, with an empty buffer left.
pub proof fn lemma_resynchronization(noise: Seq<u8>, f: Seq<u8>)
    requires
        forall|i: int| 0 <= i < noise.len() ==> noise[i] != START_BYTE,
        crate::frame::valid_frame(f),
    ensures
        spec_drain(noise + f).0 =~= seq![f],
        spec_drain(noise + f).1 =~= Seq::<u8>::empty(),
    decreases noise.len(),
{
    if noise.len() == 0 {
        assert(noise + f =~= f);
        lemma_drain_whole_frame(f);
    } else {
        let b = noise + f;
        assert(b[0] == noise[0]);
        assert(b.skip(1) =~= noise.skip(1) + f);
        lemma_resynchronization(noise.skip(1), f);
    }
}

/// The bytes of a sequence of read chunks, in arrival order.
pub open spec fn spec_concat_chunks(chunks: Seq<Seq<u8>>) -> Seq<u8>
    decreases chunks.len(),
{
    if chunks.len() == 0 {
        Seq::<u8>::empty()
    } else {
        chunks[0] + spec_concat_chunks(chunks.skip(1))
    }
}

/// A whole run of reads against one session, as `step` performs them: each
/// chunk is appended to the carried buffer and drained, and the extracted
/// frames accumulate in order.
pub open spec fn spec_feed_all(buf: Seq<u8>, chunks: Seq<Seq<u8>>) -> (Seq<Seq<u8>>, Seq<u8>)
    decreases chunks.len(),
{
    if chunks.len() == 0 {
        (Seq::<Seq<u8>>::empty(), buf)
    } else {
        let stepped = spec_drain(buf + chunks[0]);
        let rest = spec_feed_all(stepped.1, chunks.skip(1));
        (stepped.0 + rest.0, rest.1)
    }
}

/// Chunks that concatenate to nothing are each empty.
proof fn lemma_concat_chunks_empty(chunks: Seq<Seq<u8>>)
    requires
        spec_concat_chunks(chunks).len() == 0,
    ensures
        forall|i: int| 0 <= i < chunks.len() ==> #[trigger] chunks[i].len() == 0,
    decreases chunks.len(),
{
    if chunks.len() > 0 {
        lemma_concat_chunks_empty(chunks.skip(1));
        assert forall|i: int| 0 <= i < chunks.len() implies #[trigger] chunks[i].len() == 0 by {
            if i > 0 {
                assert(chunks[i] == chunks.skip(1)[i - 1]);
            }
        }
    }
}

/// Feeding empty chunks into an empty buffer yields nothing.
proof fn lemma_feed_all_nothing(chunks: Seq<Seq<u8>>)
    requires
        forall|i: int| 0 <= i < chunks.len() ==> #[trigger] chunks[i].len() == 0,
    ensures
        spec_feed_all(Seq::<u8>::empty(), chunks).0 =~= Seq::<Seq<u8>>::empty(),
        spec_feed_all(Seq::<u8>::empty(), chunks).1 =~= Seq::<u8>::empty(),
    decreases chunks.len(),
{
    if chunks.len() > 0 {
        assert(Seq::<u8>::empty() + chunks[0] =~= Seq::<u8>::empty());
        assert(forall|i: int|
            0 <= i < chunks.skip(1).len() ==> #[trigger] chunks.skip(1)[i].len() == 0);
        lemma_feed_all_nothing(chunks.skip(1));
    }
}

/// Feeding the missing remainder of a valid frame, in any number of
/// chunks, onto a buffer already holding its first `j` bytes yields
/// exactly that frame.
proof fn lemma_feed_prefix(f: Seq<u8>, j: int, chunks: Seq<Seq<u8>>)
    requires
        crate::frame::valid_frame(f),
        0 <= j < f.len(),
        f.take(j) + spec_concat_chunks(chunks) == f,
    ensures
        spec_feed_all(f.take(j), chunks).0 =~= seq![f],
        spec_feed_all(f.take(j), chunks).1 =~= Seq::<u8>::empty(),
    decreases chunks.len(),
{
    if chunks.len() == 0 {
        assert(f.take(j) + spec_concat_chunks(chunks) =~= f.take(j));
        assert(f.take(j).len() == f.len());
        assert(false);
    } else {
        let c0 = chunks[0];
        let tail = spec_concat_chunks(chunks.skip(1));
        let j2 = j + c0.len();
        assert(f.take(j) + spec_concat_chunks(chunks) =~= (f.take(j) + c0) + tail);
        assert(j2 + tail.len() == f.len());
        assert(f.take(j) + c0 =~= f.take(j2)) by {
            assert forall|idx: int| 0 <= idx < j2 implies (f.take(j) + c0)[idx] == f[idx] by {
                assert(f[idx] == ((f.take(j) + c0) + tail)[idx]);
            }
        }
        if j2 < f.len() {
            lemma_drain_frame_prefix(f, j2);
            assert(f.take(j2) + tail =~= f);
            lemma_feed_prefix(f, j2, chunks.skip(1));
            assert(spec_feed_all(f.take(j), chunks).0 =~= Seq::<Seq<u8>>::empty()
                + spec_feed_all(f.take(j2), chunks.skip(1)).0);
        } else {
            assert(f.take(j2) =~= f);
            lemma_drain_whole_frame(f);
            lemma_concat_chunks_empty(chunks.skip(1));
            lemma_feed_all_nothing(chunks.skip(1));
            assert(spec_drain(f.take(j) + c0).1 =~= Seq::<u8>::empty());
        }
    }
}

/// Round-trip framing: a valid frame's bytes delivered in order, in any
/// number of arbitrarily sized chunks, drain across the run of reads to
/// exactly one extracted frame, equal byte for byte to the frame sent,
/// with nothing left buffered.
pub proof fn lemma_round_trip_framing(f: Seq<u8>, chunks: Seq<Seq<u8>>)
    requires
        crate::frame::valid_frame(f),
        spec_concat_chunks(chunks) == f,
    ensures
        spec_feed_all(Seq::<u8>::empty(), chunks).0 =~= seq![f],
        spec_feed_all(Seq::<u8>::empty(), chunks).1 =~= Seq::<u8>::empty(),
{
    assert(f.take(0) =~= Seq::<u8>::empty());
    assert(f.take(0) + spec_concat_chunks(chunks) =~= f);
    lemma_feed_prefix(f, 0, chunks);
}

} // verus!
