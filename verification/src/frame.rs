//! Frames of the IEC 60870-5-104 transport layer: the wire layout of an
//! APDU, the completeness test over a buffered byte sequence, the control
//! field classifier, and the packaging of one extracted frame.

use vstd::prelude::*;

use crate::bytebuf::{
    buf_freeze, buf_put_u8, buf_with_capacity, bytes_byte, bytes_contents, bytes_len,
    bytes_split_to,
};

verus! {

/// Every APDU on the wire opens with this start marker.
pub const START_BYTE: u8 = 0x68;

/// The kind a complete frame's control field selects: an Information frame
/// carries sequence numbers and application payload, a Supervisory frame is
/// a bare acknowledgment, an Unnumbered frame carries link-control signals.
#[derive(Clone, Copy, Debug, PartialEq, Eq, Structural)]
pub enum FrameKind {
    Information,
    Supervisory,
    Unnumbered,
}

/// The kind the control byte's low-order bits select: bit 0 clear is
/// Information; bits 1:0 equal to 01 are Supervisory; bits 1:0 equal to 11
/// are Unnumbered.
pub open spec fn spec_classify(control: u8) -> FrameKind {
    if control & 0x01 == 0 {
        FrameKind::Information
    } else if control & 0x03 == 0x01 {
        FrameKind::Supervisory
    } else {
        FrameKind::Unnumbered
    }
}

/// The kind of a complete frame: its control byte sits right after the
/// marker and length bytes. A degenerate frame with no control byte (length
/// field zero) is tagged Information.
pub open spec fn spec_classify_frame(frame: Seq<u8>) -> FrameKind {
    if frame.len() >= 3 {
        spec_classify(frame[2])
    } else {
        FrameKind::Information
    }
}

/// A byte sequence that is exactly one well-formed APDU: it opens with the
/// start marker, and its total length is the length byte plus the two
/// header bytes.
pub open spec fn valid_frame(frame: Seq<u8>) -> bool {
    &&& frame.len() >= 2
    &&& frame[0] == START_BYTE
    &&& frame.len() == frame[1] + 2
}

/// The total on-wire length of the frame starting at index `i` of `b`, or 0
/// when too few bytes have arrived to extract it: 0 if the length byte at
/// `i + 1` is not buffered yet, 0 if fewer than `length + 2` bytes follow
/// from `i`, else `length + 2`.
pub open spec fn spec_judge(b: Seq<u8>, i: int) -> int
    recommends
        0 <= i,
{
    if b.len() - i < 2 {
        0
    } else if b.len() - i < b[i + 1] + 2 {
        0
    } else {
        b[i + 1] + 2
    }
}

/// Classifies one control byte by its low-order bits.
pub fn classify(control: u8) -> (r: FrameKind)
    ensures
        r == spec_classify(control),
{
    if control & 0x01 == 0 {
        FrameKind::Information
    } else if control & 0x03 == 0x01 {
        FrameKind::Supervisory
    } else {
        FrameKind::Unnumbered
    }
}

/// The display label of each frame kind.
pub open spec fn spec_kind_label(k: FrameKind) -> Seq<char> {
    match k {
        FrameKind::Information => "I-Frame"@,
        FrameKind::Supervisory => "S-Frame"@,
        FrameKind::Unnumbered => "U-Frame"@,
    }
}

/// Returns the display label of a frame kind.
pub fn kind_label(k: FrameKind) -> (r: String)
    ensures
        r@ == spec_kind_label(k),
{
    match k {
        FrameKind::Information => String::from_str("I-Frame"),
        FrameKind::Supervisory => String::from_str("S-Frame"),
        FrameKind::Unnumbered => String::from_str("U-Frame"),
    }
}

/// Measures the frame starting at `index`: the total number of bytes it
/// occupies on the wire, or 0 while the buffer does not yet hold it whole.
pub fn judge(buf: &bytes::Bytes, index: usize) -> (r: usize)
    ensures
        r == spec_judge(bytes_contents(*buf), index as int),
{
    let n = bytes_len(buf);
    if index >= n || n - index < 2 {
        return 0;
    }
    let length = bytes_byte(buf, index + 1) as usize + 2;
    if n - index < length {
        0
    } else {
        length
    }
}

/// One extracted frame: the APDU's raw bytes, the label of its kind, and
/// the time it was captured, in milliseconds since the Unix epoch.
#[derive(Clone, Debug)]
pub struct MessagePackage {
    pub message: bytes::Bytes,
    pub frame_type: String,
    pub time_stamp: i64,
}

impl MessagePackage {
    /// Packs a frame's bytes, kind label and capture time together.
    pub fn new(message: bytes::Bytes, frame_type: String, time_stamp: i64) -> (r: Self)
        ensures
            r.message == message,
            r.frame_type == frame_type,
            r.time_stamp == time_stamp,
    {
        MessagePackage { message, frame_type, time_stamp }
    }
}

/// Relies on `std::time::SystemTime::now` and the duration since
/// `std::time::UNIX_EPOCH`: a clock reading, so no two calls are related;
/// every outcome is non-negative, pre-epoch clocks reading as 0.
#[verifier::external_body]
pub fn current_time_millis() -> (r: i64)
    ensures
        r >= 0,
{
    match std::time::SystemTime::now().duration_since(std::time::UNIX_EPOCH) {
        Ok(d) => i64::try_from(d.as_millis()).unwrap_or(i64::MAX),
        Err(_) => 0,
    }
}

/// The index of the first start marker at or after `i` in `b`, or `b.len()`
/// when no marker follows.
pub open spec fn spec_find_marker(b: Seq<u8>, i: int) -> int
    recommends
        0 <= i <= b.len(),
    decreases b.len() - i,
{
    if i < 0 || i >= b.len() {
        b.len() as int
    } else if b[i] == START_BYTE {
        i
    } else {
        spec_find_marker(b, i + 1)
    }
}

/// What one extracted frame must look like, given the raw bytes it was cut
/// from: the package owns exactly those bytes, carries the label of their
/// classified kind, and a non-negative capture time.
pub open spec fn spec_package_matches(p: MessagePackage, frame: Seq<u8>) -> bool {
    &&& bytes_contents(p.message) == frame
    &&& p.frame_type@ == spec_kind_label(spec_classify_frame(frame))
    &&& p.time_stamp >= 0
}

/// Builds the package for one complete frame: classifies its control field
/// and stamps the capture time.
pub fn package_frame(frame: bytes::Bytes) -> (r: MessagePackage)
    ensures
        spec_package_matches(r, bytes_contents(frame)),
{
    let kind: FrameKind = if bytes_len(&frame) >= 3 {
        classify(bytes_byte(&frame, 2))
    } else {
        FrameKind::Information
    };
    let label = kind_label(kind);
    let now = current_time_millis();
    MessagePackage::new(frame, label, now)
}

/// Scans one chunk of received bytes for a single frame: leading non-marker
/// bytes are protocol noise and are skipped; the first complete frame found
/// is extracted and packaged. Returns `None` when the chunk holds no marker
/// or too few bytes after the first marker for a whole frame.
pub fn process_data(data: bytes::Bytes) -> (r: Option<MessagePackage>)
    ensures
        ({
            let b = bytes_contents(data);
            let m = spec_find_marker(b, 0);
            let l = spec_judge(b, m);
            if m < b.len() && l > 0 {
                &&& r is Some
                &&& spec_package_matches(r->Some_0, b.subrange(m, m + l))
            } else {
                r is None
            }
        }),
{
    let mut data = data;
    let ghost b = bytes_contents(data);
    let n = bytes_len(&data);
    let mut index: usize = 0;
    while index < n && bytes_byte(&data, index) != START_BYTE
        invariant
            b == bytes_contents(data),
            n == b.len(),
            0 <= index <= n,
            spec_find_marker(b, 0) == spec_find_marker(b, index as int),
        decreases n - index,
    {
        index = index + 1;
    }
    if index >= n {
        return None;
    }
    let length = judge(&data, index);
    if length == 0 {
        return None;
    }
    let _noise = bytes_split_to(&mut data, index);
    let message = bytes_split_to(&mut data, length);
    proof {
        assert(bytes_contents(message) =~= b.subrange(index as int, index + length));
    }
    Some(package_frame(message))
}

/// The bytes of the fixed STARTDT-activation Unnumbered frame a client
/// opens its link with.
pub open spec fn spec_startdt_act() -> Seq<u8> {
    seq![0x68u8, 0x04u8, 0x07u8, 0x00u8, 0x00u8, 0x00u8]
}

/// Builds the STARTDT-activation Unnumbered frame: a 4-byte APDU whose
/// first control byte carries the activation bits.
pub fn create_startdt_act() -> (r: bytes::Bytes)
    ensures
        bytes_contents(r) == spec_startdt_act(),
        valid_frame(bytes_contents(r)),
{
    let mut buf = buf_with_capacity(6);
    buf_put_u8(&mut buf, START_BYTE);
    buf_put_u8(&mut buf, 4);
    buf_put_u8(&mut buf, 0x07);
    buf_put_u8(&mut buf, 0x00);
    buf_put_u8(&mut buf, 0x00);
    buf_put_u8(&mut buf, 0x00);
    proof {
        assert(crate::bytebuf::buf_contents(buf) =~= spec_startdt_act());
    }
    buf_freeze(buf)
}

/// The bytes of the fixed sample Information frame: an APDU of 16 payload
/// bytes holding one set-point command (four control bytes, then the ASDU
/// header, then the normalized value as the four wire bytes of its
/// single-precision encoding).
pub open spec fn spec_test_i_frame() -> Seq<u8> {
    seq![
        0x68u8, 0x10u8, 0x00u8, 0x00u8, 0x00u8, 0x00u8, 0x64u8, 0x01u8, 0x06u8, 0x00u8, 0x00u8,
        0x01u8, 0x00u8, 0x00u8, 0x40u8, 0x48u8, 0xF5u8, 0xC3u8,
    ]
}

/// Builds the sample Information frame used to exercise a link.
pub fn create_test_i_frame() -> (r: bytes::Bytes)
    ensures
        bytes_contents(r) == spec_test_i_frame(),
        valid_frame(bytes_contents(r)),
{
    let mut buf = buf_with_capacity(18);
    buf_put_u8(&mut buf, START_BYTE);
    buf_put_u8(&mut buf, 0x10);
    buf_put_u8(&mut buf, 0x00);
    buf_put_u8(&mut buf, 0x00);
    buf_put_u8(&mut buf, 0x00);
    buf_put_u8(&mut buf, 0x00);
    buf_put_u8(&mut buf, 0x64);
    buf_put_u8(&mut buf, 0x01);
    buf_put_u8(&mut buf, 0x06);
    buf_put_u8(&mut buf, 0x00);
    buf_put_u8(&mut buf, 0x00);
    buf_put_u8(&mut buf, 0x01);
    buf_put_u8(&mut buf, 0x00);
    buf_put_u8(&mut buf, 0x00);
    buf_put_u8(&mut buf, 0x40);
    buf_put_u8(&mut buf, 0x48);
    buf_put_u8(&mut buf, 0xF5);
    buf_put_u8(&mut buf, 0xC3);
    proof {
        assert(crate::bytebuf::buf_contents(buf) =~= spec_test_i_frame());
    }
    buf_freeze(buf)
}

} // verus!
