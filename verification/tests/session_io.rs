use clips::framing::frame_request;
use clips::session::{transform_u32_to_array_of_u8, transform_u8_to_u32, FillCursor, Session};

#[test]
fn transform_u32_is_big_endian() {
    assert_eq!(transform_u32_to_array_of_u8(0x01020304), [1, 2, 3, 4]);
    assert_eq!(transform_u32_to_array_of_u8(0), [0, 0, 0, 0]);
    assert_eq!(transform_u32_to_array_of_u8(u32::MAX), [255, 255, 255, 255]);
}

#[test]
fn transform_u8_is_little_endian() {
    assert_eq!(transform_u8_to_u32([1, 2, 3, 4]), 0x04030201);
    assert_eq!(transform_u8_to_u32([255, 255, 255, 255]), u32::MAX);
    assert_eq!(transform_u8_to_u32([0, 1, 0, 0]), 256);
}

#[test]
fn buffer_then_consume() {
    let mut s = Session::new();
    assert!(!s.has_pending_output());
    s.buffer(b"hello ");
    s.buffer(b"world");
    assert_eq!(s.wr.as_ref(), b"hello world");
    assert!(s.has_pending_output());
    assert!(s.consume_written(6));
    assert_eq!(s.wr.as_ref(), b"world");
    assert!(!s.consume_written(5));
    assert!(!s.has_pending_output());
}

fn feed(s: &mut Session, chunks: &[&[u8]]) -> bool {
    let mut cursor = s.begin_fill();
    for c in chunks {
        let (next, done) = s.fill_step(cursor, c);
        if done {
            return true;
        }
        cursor = next;
    }
    let (_, done) = s.fill_step(cursor, &[]);
    done
}

#[test]
fn fill_whole_frame_in_one_read() {
    let frame = frame_request(b"aaaa\r\n", b"PAYLOAD");
    assert_eq!(&frame[..4], &[0, 0, 0, 13]);
    let mut s = Session::new();
    assert!(feed(&mut s, &[&frame]));
    assert_eq!(s.rd.as_ref(), &frame[..]);
    assert_eq!(s.magic_size, 13);
    assert_eq!(s.cap_size, 0);
    let line = s.next_line().unwrap();
    assert_eq!(line.as_ref(), &[0, 0, 0, 13, b'a', b'a', b'a', b'a']);
    assert_eq!(s.rd.as_ref(), b"PAYLOAD");
    assert!(s.next_line().is_none());
    assert_eq!(s.rd.as_ref(), b"PAYLOAD");
}

#[test]
fn fill_header_split_across_reads() {
    let frame = frame_request(b"\r\n", b"xyz");
    let mut s = Session::new();
    let mut cursor = s.begin_fill();
    let (c, done) = s.fill_step(cursor, &frame[..1]);
    assert!(!done);
    assert!(matches!(c, FillCursor::Header { n: 1, .. }));
    assert_eq!(s.rd.len(), 0);
    assert_eq!(s.magic_size, 0);
    cursor = c;
    let (c, done) = s.fill_step(cursor, &frame[1..6]);
    assert!(!done);
    assert!(matches!(c, FillCursor::Body));
    assert_eq!(s.magic_size, 5);
    assert_eq!(s.cap_size, 3);
    assert_eq!(s.rd.as_ref(), &frame[..6]);
    cursor = c;
    let (c, done) = s.fill_step(cursor, &frame[6..]);
    assert!(!done);
    assert_eq!(s.cap_size, 0);
    let (_, done) = s.fill_step(c, &[]);
    assert!(done);
    assert_eq!(s.rd.as_ref(), &frame[..]);
    let line = s.next_line().unwrap();
    assert_eq!(line.as_ref(), &[0, 0, 0, 5]);
    assert_eq!(s.rd.as_ref(), b"xyz");
}

#[test]
fn eof_before_header_keeps_state() {
    let mut s = Session::new();
    let cursor = s.begin_fill();
    let (c, done) = s.fill_step(cursor, &[0, 0]);
    assert!(!done);
    let (_, done) = s.fill_step(c, &[]);
    assert!(done);
    // The partial length bytes belonged to the round and are gone.
    assert_eq!(s.rd.len(), 0);
    assert_eq!(s.magic_size, 0);
}

#[test]
fn known_length_starts_in_body() {
    let frame = frame_request(b"\r\n", b"abcdef");
    let mut s = Session::new();
    let c = s.begin_fill();
    let (_, _) = s.fill_step(c, &frame[..6]);
    // A new round once the length is known reads straight into the body.
    let c = s.begin_fill();
    assert!(matches!(c, FillCursor::Body));
    let (_, done) = s.fill_step(c, &frame[6..]);
    assert!(!done);
    assert_eq!(s.rd.as_ref(), &frame[..]);
    assert_eq!(s.cap_size, 0);
}

#[test]
fn next_line_without_crlf() {
    let mut s = Session::new();
    let c = s.begin_fill();
    let (_, _) = s.fill_step(c, &[0, 0, 0, 9, b'a', b'\r', b'b']);
    assert!(s.next_line().is_none());
    assert_eq!(s.rd.as_ref(), &[0, 0, 0, 9, b'a', b'\r', b'b']);
}

#[test]
fn next_line_takes_first_crlf_only() {
    let mut s = Session::new();
    let c = s.begin_fill();
    let (_, _) = s.fill_step(c, &[0, 0, 0, 9, b'\r', b'\n', b'x', b'\r', b'\n']);
    let line = s.next_line().unwrap();
    assert_eq!(line.as_ref(), &[0, 0, 0, 9]);
    assert_eq!(s.rd.as_ref(), b"x\r\n");
    let line = s.next_line().unwrap();
    assert_eq!(line.as_ref(), b"x");
    assert_eq!(s.rd.len(), 0);
}

#[test]
fn can_fill_rejects_overflowing_reads() {
    let mut s = Session::new();
    let c = s.begin_fill();
    // An announced length of u32::MAX cannot have four added to it.
    assert!(!s.can_fill(&c, &[0xff, 0xff, 0xff, 0xff]));
    assert!(s.can_fill(&c, &[0xff, 0xff, 0xff]));
    // More bytes than the frame announces underflow what it lacks.
    assert!(!s.can_fill(&c, &[0, 0, 0, 0, 1]));
    assert!(s.can_fill(&c, &[0, 0, 0, 1, 1]));
    let (c, _) = s.fill_step(c, &[0, 0, 0, 2, 1]);
    assert_eq!(s.cap_size, 1);
    assert!(s.can_fill(&c, &[9]));
    assert!(!s.can_fill(&c, &[9, 9]));
    assert!(s.can_fill(&c, &[]));
    let (c, _) = s.fill_step(c, &[9]);
    assert_eq!(s.cap_size, 0);
    // Once the frame is complete any further byte is too many.
    assert!(!s.can_fill(&c, &[1]));
}
