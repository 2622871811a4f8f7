//! The client side: the requests it sends, the magic lines that open its
//! frames, and what it shows of the server's reply.
use crate::runtime::{ClipMessage, ClipMessageView, ClipMessage_msgtype, ClipMessage_paddingtype};
use vstd::prelude::*;

verus! {

/// The magic line that opens a push frame: `aaaa` and CR LF.
pub open spec fn push_magic_bytes() -> Seq<u8> {
    seq![97u8, 97u8, 97u8, 97u8, 13u8, 10u8]
}

/// The magic line that opens a get frame: CR LF alone.
pub open spec fn get_magic_bytes() -> Seq<u8> {
    seq![13u8, 10u8]
}

pub fn push_magic() -> (m: Vec<u8>)
    ensures
        m@ == push_magic_bytes(),
{
    let m: Vec<u8> = vec![97u8, 97u8, 97u8, 97u8, 13u8, 10u8];
    assert(m@ =~= push_magic_bytes());
    m
}

pub fn get_magic() -> (m: Vec<u8>)
    ensures
        m@ == get_magic_bytes(),
{
    let m: Vec<u8> = vec![13u8, 10u8];
    assert(m@ =~= get_magic_bytes());
    m
}

/// A push of `data` under the name `name`, its size the length of `data`
/// as a `u32`, its payload read as `paddingtype`.
pub fn push_request(name: u32, data: Vec<u8>, paddingtype: ClipMessage_paddingtype) -> (m:
    ClipMessage)
    ensures
        m@ == (ClipMessageView {
            st_name: name,
            st_size: data@.len() as u32,
            st_type: ClipMessage_msgtype::MSG_PUSH,
            st_padding: data@,
            st_paddingtype: paddingtype,
        }),
{
    let mut sel = ClipMessage::default();
    sel.set_st_name(name);
    sel.set_st_size(data.len() as u32);
    sel.set_st_type(ClipMessage_msgtype::MSG_PUSH);
    sel.set_st_padding(data);
    sel.set_st_paddingtype(paddingtype);
    sel
}

/// A get under the name 3, with an empty payload.
pub fn get_request() -> (m: ClipMessage)
    ensures
        m@ == (ClipMessageView {
            st_name: 3,
            st_size: 0,
            st_type: ClipMessage_msgtype::MSG_GET,
            st_padding: Seq::empty(),
            st_paddingtype: ClipMessage_paddingtype::PNG,
        }),
{
    let dummy_data: Vec<u8> = Vec::new();
    let mut sel = ClipMessage::default();
    sel.set_st_name(3);
    sel.set_st_size(dummy_data.len() as u32);
    sel.set_st_type(ClipMessage_msgtype::MSG_GET);
    sel.set_st_padding(dummy_data);
    sel
}

/// The text a reply carries: its payload when the payload is text, and
/// nothing for an image.
pub fn reply_text(reply: ClipMessage) -> (text: Option<Vec<u8>>)
    ensures
        reply@.st_paddingtype == ClipMessage_paddingtype::TXT ==> (text matches Some(t) && t@
            == reply@.st_padding),
        reply@.st_paddingtype == ClipMessage_paddingtype::PNG ==> text is None,
{
    let mut sel = reply;
    match sel.get_st_paddingtype() {
        ClipMessage_paddingtype::PNG => None,
        ClipMessage_paddingtype::TXT => Some(sel.take_st_padding()),
    }
}

} // verus!
