//! The clipboard message exchanged between clients and the server, and the
//! `Select` hook that the server runs on every message it accepts.
use vstd::prelude::*;

verus! {

/// What a message asks of the server.
#[allow(non_camel_case_types)]
#[derive(Clone, Copy, Debug, PartialEq, Eq, Structural)]
pub enum ClipMessage_msgtype {
    MSG_PUSH,
    MSG_GET,
}

/// How the payload of a message is to be read.
#[allow(non_camel_case_types)]
#[derive(Clone, Copy, Debug, PartialEq, Eq, Structural)]
pub enum ClipMessage_paddingtype {
    PNG,
    TXT,
}

/// One clipboard selection together with the request it travels in.
#[derive(Debug)]
pub struct ClipMessage {
    pub st_name: u32,
    pub st_size: u32,
    pub st_type: ClipMessage_msgtype,
    pub st_padding: Vec<u8>,
    pub st_paddingtype: ClipMessage_paddingtype,
}

/// A message as a mathematical value: its payload is a sequence of bytes.
pub struct ClipMessageView {
    pub st_name: u32,
    pub st_size: u32,
    pub st_type: ClipMessage_msgtype,
    pub st_padding: Seq<u8>,
    pub st_paddingtype: ClipMessage_paddingtype,
}

impl View for ClipMessage {
    type V = ClipMessageView;

    open spec fn view(&self) -> ClipMessageView {
        ClipMessageView {
            st_name: self.st_name,
            st_size: self.st_size,
            st_type: self.st_type,
            st_padding: self.st_padding@,
            st_paddingtype: self.st_paddingtype,
        }
    }
}

/// The message that every field left at its default value gives: name and
/// size zero, a push, an empty payload read as an image.
pub open spec fn default_message() -> ClipMessageView {
    ClipMessageView {
        st_name: 0,
        st_size: 0,
        st_type: ClipMessage_msgtype::MSG_PUSH,
        st_padding: Seq::empty(),
        st_paddingtype: ClipMessage_paddingtype::PNG,
    }
}

impl Default for ClipMessage {
    /// A message with every field at its default value.
    fn default() -> (m: ClipMessage)
        ensures
            m@ == default_message(),
    {
        ClipMessage {
            st_name: 0,
            st_size: 0,
            st_type: ClipMessage_msgtype::MSG_PUSH,
            st_padding: Vec::new(),
            st_paddingtype: ClipMessage_paddingtype::PNG,
        }
    }
}

impl Clone for ClipMessage {
    /// A copy of the message, payload included.
    fn clone(&self) -> (m: ClipMessage)
        ensures
            m@ == self@,
    {
        ClipMessage {
            st_name: self.st_name,
            st_size: self.st_size,
            st_type: self.st_type,
            st_padding: vstd::slice::slice_to_vec(self.st_padding.as_slice()),
            st_paddingtype: self.st_paddingtype,
        }
    }
}

impl ClipMessage {
    pub fn set_st_name(&mut self, v: u32)
        ensures
            final(self)@ == (ClipMessageView { st_name: v, ..old(self)@ }),
    {
        self.st_name = v;
    }

    pub fn set_st_size(&mut self, v: u32)
        ensures
            final(self)@ == (ClipMessageView { st_size: v, ..old(self)@ }),
    {
        self.st_size = v;
    }

    pub fn set_st_type(&mut self, v: ClipMessage_msgtype)
        ensures
            final(self)@ == (ClipMessageView { st_type: v, ..old(self)@ }),
    {
        self.st_type = v;
    }

    pub fn set_st_padding(&mut self, v: Vec<u8>)
        ensures
            final(self)@ == (ClipMessageView { st_padding: v@, ..old(self)@ }),
    {
        self.st_padding = v;
    }

    pub fn set_st_paddingtype(&mut self, v: ClipMessage_paddingtype)
        ensures
            final(self)@ == (ClipMessageView { st_paddingtype: v, ..old(self)@ }),
    {
        self.st_paddingtype = v;
    }

    pub fn get_st_paddingtype(&self) -> (v: ClipMessage_paddingtype)
        ensures
            v == self@.st_paddingtype,
    {
        self.st_paddingtype
    }

    /// Moves the payload out, leaving an empty one behind.
    pub fn take_st_padding(&mut self) -> (v: Vec<u8>)
        ensures
            v@ == old(self)@.st_padding,
            final(self)@ == (ClipMessageView { st_padding: Seq::empty(), ..old(self)@ }),
    {
        let mut v: Vec<u8> = Vec::new();
        std::mem::swap(&mut v, &mut self.st_padding);
        v
    }
}

/// The hook that the server runs on each message it accepts.
pub trait Select {
    fn handle(&self) -> ();
}

impl Select for ClipMessage {
    /// Looks at the kind of request; no kind calls for any work yet.
    fn handle(&self) -> () {
        match self.st_type {
            ClipMessage_msgtype::MSG_GET => {},
            ClipMessage_msgtype::MSG_PUSH => {},
        }
    }
}

} // verus!
