use clips::client::push_request;
use clips::runtime::{ClipMessage, ClipMessage_msgtype, ClipMessage_paddingtype};
use clips::storage::{Shared, StoreError, VD_LENGTH};

fn text(name: u32, data: &[u8]) -> ClipMessage {
    push_request(name, data.to_vec(), ClipMessage_paddingtype::TXT)
}

#[test]
fn empty_store_has_no_selection() {
    let s = Shared::new();
    assert!(s.get_selection().is_none());
    assert_eq!(s.first_blob(), Err(StoreError::NotFound));
}

#[test]
fn push_then_get_returns_pushed() {
    let mut s = Shared::new();
    assert!(s.push_selection(text(3, b"hello")));
    let got = s.get_selection().unwrap();
    assert_eq!(got.st_padding, b"hello".to_vec());
    assert_eq!(got.st_name, 3);
    assert_eq!(got.st_size, 5);
    assert_eq!(got.st_type, ClipMessage_msgtype::MSG_PUSH);
    assert_eq!(got.st_paddingtype, ClipMessage_paddingtype::TXT);
    assert_eq!(s.first_blob(), Ok(b"hello".to_vec()));
}

#[test]
fn newest_selection_wins() {
    let mut s = Shared::new();
    s.push_selection(text(1, b"a"));
    s.push_selection(text(2, b"b"));
    assert_eq!(s.first_blob(), Ok(b"b".to_vec()));
}

#[test]
fn pop_drops_oldest() {
    let mut s = Shared::new();
    s.push_selection(text(1, b"a"));
    s.push_selection(text(2, b"b"));
    assert!(s.pop_selection().is_ok());
    assert_eq!(s.first_blob(), Ok(b"b".to_vec()));
    assert!(s.pop_selection().is_ok());
    assert_eq!(s.first_blob(), Err(StoreError::NotFound));
    assert!(s.pop_selection().is_ok());
    assert!(s.get_selection().is_none());
}

#[test]
fn store_keeps_only_latest_ten() {
    let mut s = Shared::new();
    for i in 0..(VD_LENGTH as u8 + 3) {
        s.push_selection(text(i as u32, &[i]));
    }
    assert_eq!(s.first_blob(), Ok(vec![12u8]));
    // Thirteen pushes leave ten selections: nine pops keep one, the tenth
    // empties the store.
    for _ in 0..(VD_LENGTH - 1) {
        s.pop_selection().unwrap();
    }
    assert_eq!(s.first_blob(), Ok(vec![12u8]));
    s.pop_selection().unwrap();
    assert_eq!(s.first_blob(), Err(StoreError::NotFound));
}

#[test]
fn full_store_evicts_oldest_on_push() {
    let mut s = Shared::new();
    for i in 0..(VD_LENGTH as u8) {
        s.push_selection(text(i as u32, &[i]));
    }
    // Pop all but one: the survivor is the newest.
    for _ in 0..(VD_LENGTH - 1) {
        s.pop_selection().unwrap();
    }
    assert_eq!(s.first_blob(), Ok(vec![9u8]));
    s.push_selection(text(42, b"n"));
    s.pop_selection().unwrap();
    // The older survivor was at the front and left; the new push remains.
    assert_eq!(s.first_blob(), Ok(b"n".to_vec()));
}

#[test]
fn get_copies_are_independent() {
    let mut s = Shared::new();
    s.push_selection(text(1, b"xy"));
    let mut a = s.get_selection().unwrap();
    a.st_padding.push(b'z');
    assert_eq!(s.first_blob(), Ok(b"xy".to_vec()));
}
