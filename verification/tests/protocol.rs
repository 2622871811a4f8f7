use clips::client::{get_magic, get_request, push_magic, push_request, reply_text};
use clips::framing::frame_request;
use clips::runtime::{ClipMessage, ClipMessage_msgtype, ClipMessage_paddingtype, Select};
use clips::servo::{empty_response, handle_request};
use clips::storage::Shared;

#[test]
fn test_get_sel() {
    let mut sel = ClipMessage::default();
    sel.set_st_name(3);
    sel.set_st_size(0);
    sel.set_st_type(ClipMessage_msgtype::MSG_GET);
    sel.set_st_padding(String::from("").into_bytes());
    assert_eq!(sel.st_name, 3);
    assert_eq!(sel.st_size, 0);
    assert_eq!(sel.st_type, ClipMessage_msgtype::MSG_GET);
    assert!(sel.st_padding.is_empty());
    let req = get_request();
    assert_eq!(req.st_name, sel.st_name);
    assert_eq!(req.st_type, sel.st_type);
    assert_eq!(req.st_paddingtype, sel.st_paddingtype);
}

#[test]
fn push_frame_layout() {
    let data = vec![0x89u8, b'P', b'N', b'G'];
    let sel = push_request(1, data.clone(), ClipMessage_paddingtype::PNG);
    assert_eq!(sel.st_size, 4);
    assert_eq!(sel.st_type, ClipMessage_msgtype::MSG_PUSH);
    let frame = frame_request(b"\r\n", &data);
    assert_eq!(frame, vec![0, 0, 0, 6, 13, 10, 0x89, b'P', b'N', b'G']);
}

#[test]
fn magic_lines() {
    assert_eq!(push_magic(), b"aaaa\r\n".to_vec());
    assert_eq!(get_magic(), b"\r\n".to_vec());
    let f = frame_request(&push_magic(), &[7u8; 300]);
    assert_eq!(&f[..4], &[0, 0, 1, 50]);
    assert_eq!(f.len(), 4 + 6 + 300);
}

#[test]
fn push_then_get_is_served() {
    let mut state = Shared::new();
    let push = push_request(3, b"clip".to_vec(), ClipMessage_paddingtype::TXT);
    push.handle();
    let r = handle_request(&mut state, Some(push));
    assert_eq!(r.st_type, ClipMessage_msgtype::MSG_GET);
    assert_eq!(r.st_name, 3);
    assert!(r.st_padding.is_empty());
    let r = handle_request(&mut state, Some(get_request()));
    assert_eq!(r.st_padding, b"clip".to_vec());
    assert_eq!(r.st_type, ClipMessage_msgtype::MSG_PUSH);
    assert_eq!(r.st_paddingtype, ClipMessage_paddingtype::TXT);
}

#[test]
fn get_on_empty_store_gets_empty_reply() {
    let mut state = Shared::new();
    let r = handle_request(&mut state, Some(get_request()));
    let e = empty_response();
    assert_eq!(r.st_name, e.st_name);
    assert_eq!(r.st_size, 0);
    assert_eq!(r.st_type, ClipMessage_msgtype::MSG_GET);
    assert_eq!(r.st_paddingtype, ClipMessage_paddingtype::PNG);
    assert!(r.st_padding.is_empty());
}

#[test]
fn undecodable_request_gets_empty_reply() {
    let mut state = Shared::new();
    handle_request(&mut state, Some(push_request(3, b"kept".to_vec(), ClipMessage_paddingtype::TXT)));
    let r = handle_request(&mut state, None);
    assert_eq!(r.st_type, ClipMessage_msgtype::MSG_GET);
    assert!(r.st_padding.is_empty());
    assert_eq!(state.first_blob(), Ok(b"kept".to_vec()));
}

#[test]
fn reply_text_only_for_text() {
    let t = push_request(3, b"hi".to_vec(), ClipMessage_paddingtype::TXT);
    assert_eq!(reply_text(t), Some(b"hi".to_vec()));
    let p = push_request(3, b"hi".to_vec(), ClipMessage_paddingtype::PNG);
    assert_eq!(reply_text(p), None);
}

#[test]
fn take_padding_leaves_empty() {
    let mut m = push_request(3, b"abc".to_vec(), ClipMessage_paddingtype::TXT);
    assert_eq!(m.take_st_padding(), b"abc".to_vec());
    assert!(m.st_padding.is_empty());
    assert_eq!(m.get_st_paddingtype(), ClipMessage_paddingtype::TXT);
    let d = m.clone();
    assert_eq!(d.st_name, 3);
}
