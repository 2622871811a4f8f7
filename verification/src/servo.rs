//! What the server answers a client: a push is stored, a get is answered
//! with the newest stored selection, and everything else with the empty
//! reply.
use crate::runtime::{
    ClipMessage, ClipMessageView, ClipMessage_msgtype, ClipMessage_paddingtype, Select,
};
use crate::storage::{pushed, Shared};
use vstd::prelude::*;

verus! {

/// The reply the server sends when it has no selection to send: an empty
/// get under the name 3.
pub open spec fn empty_reply() -> ClipMessageView {
    ClipMessageView {
        st_name: 3,
        st_size: 0,
        st_type: ClipMessage_msgtype::MSG_GET,
        st_padding: Seq::empty(),
        st_paddingtype: ClipMessage_paddingtype::PNG,
    }
}

/// The store and the reply after the server has taken `request`; `None`
/// stands for bytes that did not decode as a message.
pub open spec fn serve(store: Seq<ClipMessageView>, request: Option<ClipMessageView>) -> (
    Seq<ClipMessageView>,
    ClipMessageView,
) {
    match request {
        None => (store, empty_reply()),
        Some(m) => match m.st_type {
            ClipMessage_msgtype::MSG_PUSH => (pushed(store, m), empty_reply()),
            ClipMessage_msgtype::MSG_GET => (
                store,
                if store.len() > 0 {
                    store.last()
                } else {
                    empty_reply()
                },
            ),
        },
    }
}

/// Builds the empty reply.
pub fn empty_response() -> (m: ClipMessage)
    ensures
        m@ == empty_reply(),
{
    let dummy_data: Vec<u8> = Vec::new();
    let mut msg = ClipMessage::default();
    msg.set_st_name(3);
    msg.set_st_size(dummy_data.len() as u32);
    msg.set_st_type(ClipMessage_msgtype::MSG_GET);
    msg.set_st_padding(dummy_data);
    msg
}

/// Serves one decoded request (or `None` for bytes that did not decode)
/// against the shared store and returns the message to send back.
pub fn handle_request(state: &mut Shared, request: Option<ClipMessage>) -> (reply: ClipMessage)
    ensures
        (final(state)@, reply@) == serve(
            old(state)@,
            match request {
                Some(m) => Some(m@),
                None => None,
            },
        ),
        match request {
            Some(m) => m.st_type == ClipMessage_msgtype::MSG_PUSH ==> {
            &&& reply@.st_name == 3
            &&& reply@.st_size == 0
            &&& reply@.st_type == ClipMessage_msgtype::MSG_GET
            &&& reply@.st_padding.len() == 0
            &&& reply@.st_paddingtype == ClipMessage_paddingtype::PNG
            &&& final(state)@.len() == (if old(state)@.len() >= 10 {
                10
            } else {
                old(state)@.len() + 1
            })
            &&& final(state)@[final(state)@.len() - 1] == m@
            &&& forall|i: int|
                0 <= i < final(state)@.len() - 1 ==> final(state)@[i] == old(state)@[i + (
                old(state)@.len() + 1 - final(state)@.len())]
            },
            None => true,
        },
{
    let msg = empty_response();
    match request {
        None => msg,
        Some(sel) => {
            sel.handle();
            match sel.st_type {
                ClipMessage_msgtype::MSG_PUSH => {
                    let _ = state.push_selection(sel);
                    msg
                },
                ClipMessage_msgtype::MSG_GET => {
                    match state.get_selection() {
                        Some(last) => last,
                        None => msg,
                    }
                },
            }
        },
    }
}

/// What a get returns right after a push is the pushed selection.
pub proof fn lemma_get_returns_last_push(
    store: Seq<ClipMessageView>,
    pushed_msg: ClipMessageView,
    get: ClipMessageView,
)
    requires
        pushed_msg.st_type == ClipMessage_msgtype::MSG_PUSH,
        get.st_type == ClipMessage_msgtype::MSG_GET,
    ensures
        serve(serve(store, Some(pushed_msg)).0, Some(get)).1 == pushed_msg,
{
}

/// A get never changes the store, and neither does a request that did not
/// decode.
pub proof fn lemma_reads_leave_store(store: Seq<ClipMessageView>, get: ClipMessageView)
    requires
        get.st_type == ClipMessage_msgtype::MSG_GET,
    ensures
        serve(store, Some(get)).0 == store,
        serve(store, None).0 == store,
        serve(store, None).1 == empty_reply(),
{
}

/// A push is always answered with the empty reply (name 3, size 0, a get,
/// no payload, read as an image), whatever the store held before.
pub proof fn lemma_push_reply_is_empty(store: Seq<ClipMessageView>, m: ClipMessageView)
    requires
        m.st_type == ClipMessage_msgtype::MSG_PUSH,
    ensures
        serve(store, Some(m)).1.st_name == 3,
        serve(store, Some(m)).1.st_size == 0,
        serve(store, Some(m)).1.st_type == ClipMessage_msgtype::MSG_GET,
        serve(store, Some(m)).1.st_padding.len() == 0,
        serve(store, Some(m)).1.st_paddingtype == ClipMessage_paddingtype::PNG,
{
}

/// A push onto a store of at most ten selections appends the pushed one as
/// the newest; the oldest leaves only when ten were already held, and all
/// others keep their order.
pub proof fn lemma_push_appends(store: Seq<ClipMessageView>, m: ClipMessageView)
    requires
        store.len() <= 10,
        m.st_type == ClipMessage_msgtype::MSG_PUSH,
    ensures
        ({
            let after = serve(store, Some(m)).0;
            let dropped: int = if store.len() == 10 { 1 } else { 0 };
            &&& after.len() == store.len() + 1 - dropped
            &&& after[after.len() - 1] == m
            &&& forall|i: int| 0 <= i < after.len() - 1 ==> after[i] == store[i + dropped]
        }),
{
}

/// A get answers a non-empty store with its newest selection and an empty
/// store with the empty reply, and leaves the store as it was.
pub proof fn lemma_get_reply(store: Seq<ClipMessageView>, g: ClipMessageView)
    requires
        g.st_type == ClipMessage_msgtype::MSG_GET,
    ensures
        serve(store, Some(g)).0 == store,
        store.len() > 0 ==> serve(store, Some(g)).1 == store[store.len() - 1],
        store.len() == 0 ==> serve(store, Some(g)).1.st_name == 3 && serve(store, Some(
            g,
        )).1.st_size == 0 && serve(store, Some(g)).1.st_type == ClipMessage_msgtype::MSG_GET
            && serve(store, Some(g)).1.st_padding.len() == 0 && serve(store, Some(g)).1.st_paddingtype
            == ClipMessage_paddingtype::PNG,
{
}

/// A get answers an empty store with the empty reply.
pub proof fn lemma_get_on_empty_store(get: ClipMessageView)
    requires
        get.st_type == ClipMessage_msgtype::MSG_GET,
    ensures
        serve(Seq::empty(), Some(get)).1 == empty_reply(),
{
}

} // verus!
