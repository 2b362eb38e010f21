use bytes::BufMut;
use iec104::frame::{classify, create_startdt_act, create_test_i_frame, judge, FrameKind};
use iec104::session::{Session, SessionEvent};

#[test]
fn test_frame_transmission() {
    // The STARTDT activation frame, built byte by byte as a client sends it.
    let mut frame = bytes::BytesMut::with_capacity(6);
    frame.put_u8(0x68);
    frame.put_u8(0x04);
    frame.put_u8(0x07);
    frame.put_u8(0x00);
    frame.put_u8(0x00);
    frame.put_u8(0x00);

    let mut session = Session::new(1024);
    let out = session.step(SessionEvent::Data(frame.to_vec()));
    assert!(out.terminal.is_none());
    assert_eq!(out.frames.len(), 1);
    let buf = &out.frames[0].message;
    assert_eq!(buf[0], 0x68);
    assert_eq!(buf[1], 0x04);
    assert_eq!(buf[2], 0x07);
}

#[test]
fn test_i_frame_transmission() {
    // The sample I-frame as a demonstration client sends it, its
    // normalized value encoded by put_f32.
    let mut frame = bytes::BytesMut::with_capacity(16);
    frame.put_u8(0x68);
    frame.put_u8(0x0E);
    frame.put_u8(0x00);
    frame.put_u8(0x00);
    frame.put_u8(0x00);
    frame.put_u8(0x00);
    frame.put_u8(0x64);
    frame.put_u8(0x01);
    frame.put_u8(0x06);
    frame.put_u8(0x00);
    frame.put_u8(0x00);
    frame.put_u8(0x01);
    frame.put_u8(0x00);
    frame.put_u8(0x00);
    frame.put_f32(3.14);

    let mut session = Session::new(1024);
    let out = session.step(SessionEvent::Data(frame.to_vec()));
    assert!(out.terminal.is_none());
    assert_eq!(out.frames.len(), 1);
    let buf = &out.frames[0].message;
    assert_eq!(buf[0], 0x68);
    assert_eq!(buf[1], 0x0E);
    assert_eq!(buf[2], 0x00);
}

#[test]
fn round_trip_one_read() {
    let frame = create_test_i_frame();
    let mut session = Session::new(64);
    let out = session.step(SessionEvent::Data(frame.to_vec()));
    assert_eq!(out.frames.len(), 1);
    assert_eq!(out.frames[0].message, frame);
    assert_eq!(out.frames[0].frame_type, "I-Frame");
    assert_eq!(session.buffered_len(), 0);
}

#[test]
fn split_at_every_offset() {
    let frame = create_startdt_act().to_vec();
    for k in 0..=frame.len() {
        let mut session = Session::new(64);
        let first = session.step(SessionEvent::Data(frame[..k].to_vec()));
        let second = session.step(SessionEvent::Data(frame[k..].to_vec()));
        let total = first.frames.len() + second.frames.len();
        assert_eq!(total, 1, "split at {}", k);
        let got = first.frames.into_iter().chain(second.frames).next().unwrap();
        assert_eq!(got.message.to_vec(), frame);
        assert_eq!(session.buffered_len(), 0);
    }
}

#[test]
fn resynchronization_discards_noise() {
    let mut data = vec![0x00u8, 0x12, 0xFF, 0x67];
    let frame = create_startdt_act().to_vec();
    data.extend_from_slice(&frame);
    let mut session = Session::new(64);
    let out = session.step(SessionEvent::Data(data));
    assert_eq!(out.frames.len(), 1);
    assert_eq!(out.frames[0].message.to_vec(), frame);
    assert_eq!(session.buffered_len(), 0);
}

#[test]
fn many_frames_in_one_read() {
    let mut data = create_startdt_act().to_vec();
    data.extend_from_slice(&create_test_i_frame().to_vec());
    data.extend_from_slice(&create_startdt_act().to_vec());
    let mut session = Session::new(64);
    let out = session.step(SessionEvent::Data(data));
    assert_eq!(out.frames.len(), 3);
    assert_eq!(out.frames[0].frame_type, "U-Frame");
    assert_eq!(out.frames[1].frame_type, "I-Frame");
    assert_eq!(out.frames[2].frame_type, "U-Frame");
    assert_eq!(session.buffered_len(), 0);
}

#[test]
fn byte_by_byte_delivery() {
    let frame = create_test_i_frame().to_vec();
    let mut session = Session::new(64);
    let mut got = Vec::new();
    for &b in &frame {
        let out = session.step(SessionEvent::Data(vec![b]));
        got.extend(out.frames);
    }
    assert_eq!(got.len(), 1);
    assert_eq!(got[0].message.to_vec(), frame);
    assert_eq!(session.buffered_len(), 0);
}

#[test]
fn partial_frame_stays_buffered() {
    let mut session = Session::new(64);
    let out = session.step(SessionEvent::Data(vec![0x68, 0x04, 0x07]));
    assert_eq!(out.frames.len(), 0);
    assert_eq!(session.buffered_len(), 3);
    let out = session.step(SessionEvent::Data(vec![0x00, 0x00, 0x00]));
    assert_eq!(out.frames.len(), 1);
    assert_eq!(out.frames[0].message.to_vec(), vec![0x68, 0x04, 0x07, 0x00, 0x00, 0x00]);
    assert_eq!(session.buffered_len(), 0);
}

#[test]
fn degenerate_empty_frame() {
    let mut session = Session::new(64);
    let out = session.step(SessionEvent::Data(vec![0x68, 0x00]));
    assert_eq!(out.frames.len(), 1);
    assert_eq!(out.frames[0].message.to_vec(), vec![0x68, 0x00]);
    assert_eq!(out.frames[0].frame_type, "I-Frame");
}

#[test]
fn lone_noise_byte_waits() {
    // A single byte is not enough to decide anything, marker or not.
    let mut session = Session::new(64);
    let out = session.step(SessionEvent::Data(vec![0x42]));
    assert_eq!(out.frames.len(), 0);
    assert_eq!(session.buffered_len(), 1);
}

#[test]
fn classify_control_bits() {
    assert_eq!(classify(0x00), FrameKind::Information);
    assert_eq!(classify(0x06), FrameKind::Information);
    assert_eq!(classify(0x01), FrameKind::Supervisory);
    assert_eq!(classify(0x05), FrameKind::Supervisory);
    assert_eq!(classify(0x03), FrameKind::Unnumbered);
    assert_eq!(classify(0x07), FrameKind::Unnumbered);
    assert_eq!(classify(0x0B), FrameKind::Unnumbered);
}

#[test]
fn judge_measures_frames() {
    let full = bytes::Bytes::from(create_startdt_act().to_vec());
    assert_eq!(judge(&full, 0), 6);
    assert_eq!(judge(&full, 5), 0);
    assert_eq!(judge(&full, 6), 0);
    let partial = bytes::Bytes::from(vec![0x68u8, 0x04, 0x07]);
    assert_eq!(judge(&partial, 0), 0);
    let empty = bytes::Bytes::from(Vec::<u8>::new());
    assert_eq!(judge(&empty, 0), 0);
    let offset = bytes::Bytes::from(vec![0xAAu8, 0x68, 0x00]);
    assert_eq!(judge(&offset, 1), 2);
}

#[test]
fn builders_emit_well_formed_frames() {
    let u = create_startdt_act().to_vec();
    assert_eq!(u, vec![0x68, 0x04, 0x07, 0x00, 0x00, 0x00]);
    assert_eq!(u.len(), u[1] as usize + 2);
    let i = create_test_i_frame().to_vec();
    assert_eq!(i.len(), i[1] as usize + 2);
    assert_eq!(i[0], 0x68);
    assert_eq!(i[2] & 0x01, 0x00);
    assert_eq!(&i[14..], &3.14f32.to_be_bytes());
}
