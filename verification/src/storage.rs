//! The server's shared state: the most recent clipboard selections, oldest
//! first, never more than `VD_LENGTH` of them.
use crate::runtime::{ClipMessage, ClipMessageView};
use std::collections::VecDeque;
use vstd::prelude::*;

verus! {

/// How many selections the store keeps.
pub const VD_LENGTH: usize = 10;

/// Why the store could not answer a request.
#[derive(Clone, Copy, Debug, PartialEq, Eq, Structural)]
pub enum StoreError {
    /// The store holds no selection.
    NotFound,
}

/// The selections pushed so far, oldest first, at most `VD_LENGTH` of them.
pub struct Shared {
    vd: VecDeque<ClipMessage>,
}

/// The store after `c` is pushed onto `s`: the oldest selection leaves when
/// the store is full.
pub open spec fn pushed(s: Seq<ClipMessageView>, c: ClipMessageView) -> Seq<ClipMessageView> {
    if s.len() >= VD_LENGTH {
        s.drop_first().push(c)
    } else {
        s.push(c)
    }
}

/// The last `VD_LENGTH` elements of `t`, or all of them when there are
/// fewer.
pub open spec fn latest(t: Seq<ClipMessageView>) -> Seq<ClipMessageView> {
    if t.len() > VD_LENGTH {
        t.skip(t.len() - VD_LENGTH)
    } else {
        t
    }
}

/// The store after each of `cs` is pushed onto `s`, in order.
pub open spec fn push_all(s: Seq<ClipMessageView>, cs: Seq<ClipMessageView>) -> Seq<
    ClipMessageView,
>
    decreases cs.len(),
{
    if cs.len() == 0 {
        s
    } else {
        push_all(pushed(s, cs[0]), cs.drop_first())
    }
}

/// However many selections are pushed, the store holds exactly the most
/// recent `VD_LENGTH` of all it has seen, oldest first.
pub proof fn lemma_store_keeps_latest(s: Seq<ClipMessageView>, cs: Seq<ClipMessageView>)
    requires
        s.len() <= VD_LENGTH,
    ensures
        push_all(s, cs) == latest(s + cs),
    decreases cs.len(),
{
    if cs.len() == 0 {
        assert(s + cs =~= s);
    } else {
        let c = cs[0];
        let rest = cs.drop_first();
        let s1 = pushed(s, c);
        assert(s1 =~= latest(s.push(c)));
        lemma_store_keeps_latest(s1, rest);
        assert(s + cs =~= s.push(c) + rest);
        lemma_latest_absorbs(s.push(c), rest);
    }
}

proof fn lemma_latest_absorbs(x: Seq<ClipMessageView>, r: Seq<ClipMessageView>)
    ensures
        latest(latest(x) + r) == latest(x + r),
{
    if x.len() > VD_LENGTH {
        let k = x.len() - VD_LENGTH;
        assert(latest(x) + r =~= (x + r).skip(k));
        let y = x + r;
        if y.len() - k > VD_LENGTH {
            assert((y.skip(k)).skip(y.len() - k - VD_LENGTH) =~= y.skip(y.len() - VD_LENGTH));
        }
    }
}

impl View for Shared {
    type V = Seq<ClipMessageView>;

    closed spec fn view(&self) -> Seq<ClipMessageView> {
        self.vd@.map_values(|m: ClipMessage| m@)
    }
}

impl Shared {
    #[verifier::type_invariant]
    closed spec fn inv(self) -> bool {
        self.vd@.len() <= VD_LENGTH
    }

    /// An empty store.
    pub fn new() -> (s: Shared)
        ensures
            s@ == Seq::<ClipMessageView>::empty(),
    {
        let s = Shared { vd: VecDeque::new() };
        assert(s@ =~= Seq::<ClipMessageView>::empty());
        s
    }

    /// Appends `c` as the newest selection, first dropping the oldest one
    /// when the store is full. Always reports success.
    pub fn push_selection(&mut self, c: ClipMessage) -> (ok: bool)
        ensures
            ok,
            final(self)@ == pushed(old(self)@, c@),
            final(self)@.len() <= VD_LENGTH,
            final(self)@.len() == (if old(self)@.len() >= VD_LENGTH {
                VD_LENGTH as int
            } else {
                old(self)@.len() + 1int
            }),
            final(self)@[final(self)@.len() - 1] == c@,
            forall|i: int|
                0 <= i < final(self)@.len() - 1 ==> final(self)@[i] == old(self)@[i + (old(
                    self,
                )@.len() + 1 - final(self)@.len())],
    {
        proof { use_type_invariant(&*self); }
        if self.vd.len() >= VD_LENGTH {
            let _ = self.pop_selection();
        }
        let mut vd: VecDeque<ClipMessage> = VecDeque::new();
        std::mem::swap(&mut vd, &mut self.vd);
        let ghost before = vd@;
        vd.push_back(c);
        self.vd = vd;
        proof {
            assert(self@ =~= before.map_values(|m: ClipMessage| m@).push(c@));
        }
        true
    }

    /// A copy of the newest selection, or `None` when the store is empty.
    pub fn get_selection(&self) -> (r: Option<ClipMessage>)
        ensures
            match r {
                Some(m) => self@.len() > 0 && m@ == self@.last(),
                None => self@.len() == 0,
            },
    {
        proof { use_type_invariant(self); }
        let n = self.vd.len();
        if n == 0 {
            None
        } else {
            let m = self.vd[n - 1].clone();
            Some(m)
        }
    }

    /// Drops the oldest selection, if there is one. Always reports success.
    pub fn pop_selection(&mut self) -> (r: Result<(), StoreError>)
        ensures
            r is Ok,
            final(self)@.len() <= VD_LENGTH,
            final(self)@ == if old(self)@.len() > 0 { old(self)@.drop_first() } else { old(self)@ },
    {
        proof { use_type_invariant(&*self); }
        let mut vd: VecDeque<ClipMessage> = VecDeque::new();
        std::mem::swap(&mut vd, &mut self.vd);
        let ghost before = vd@;
        let _ = vd.pop_front();
        self.vd = vd;
        proof {
            if before.len() > 0 {
                assert(self@ =~= before.map_values(|m: ClipMessage| m@).drop_first());
            }
        }
        Ok(())
    }

    /// The payload of the newest selection, or `NotFound` when the store is
    /// empty.
    pub fn first_blob(&self) -> (r: Result<Vec<u8>, StoreError>)
        ensures
            match r {
                Ok(blob) => self@.len() > 0 && blob@ == self@.last().st_padding,
                Err(e) => self@.len() == 0 && e == StoreError::NotFound,
            },
    {
        let sel = self.get_selection();
        match sel {
            Some(s) => Ok(s.st_padding),
            None => Err(StoreError::NotFound),
        }
    }
}

} // verus!
