use vstd::prelude::*;

verus! {

/// All samples of a buffer lie within `[-m, m]`.
pub open spec fn bounded(s: Seq<i64>, m: int) -> bool {
    forall|i: int| 0 <= i < s.len() ==> -m <= #[trigger] s[i] <= m
}

/// An all-zero buffer of the given length.
pub open spec fn zeros(n: int) -> Seq<i64> {
    Seq::new(n as nat, |i: int| 0i64)
}

/// A bound that holds on a buffer holds for any wider bound.
pub proof fn lemma_bounded_widen(s: Seq<i64>, m1: int, m2: int)
    requires
        bounded(s, m1),
        m1 <= m2,
    ensures
        bounded(s, m2),
{
    assert forall|i: int| 0 <= i < s.len() implies -m2 <= #[trigger] s[i] <= m2 by {
        assert(-m1 <= s[i] <= m1);
    }
}

/// Ghost image of a [`Field`]: both slots and which one is authoritative.
#[verifier::ext_equal]
pub ghost struct FieldView {
    pub s0: Seq<i64>,
    pub s1: Seq<i64>,
    pub cur: int,
}

impl FieldView {
    /// The slot holding the result of the most recently completed stage.
    pub open spec fn auth(self) -> Seq<i64> {
        if self.cur == 0 {
            self.s0
        } else {
            self.s1
        }
    }

    /// The other slot: writable scratch for the next stage.
    pub open spec fn scratch(self) -> Seq<i64> {
        if self.cur == 0 {
            self.s1
        } else {
            self.s0
        }
    }

    pub open spec fn wf(self, len: int, m: int) -> bool {
        &&& self.s0.len() == len
        &&& self.s1.len() == len
        &&& (self.cur == 0 || self.cur == 1)
        &&& bounded(self.s0, m)
        &&& bounded(self.s1, m)
    }
}

/// The field view whose authoritative slot holds `auth`, whose scratch slot
/// holds `scratch`, and whose authoritative index is `cur`.
pub open spec fn fv(auth: Seq<i64>, scratch: Seq<i64>, cur: int) -> FieldView {
    if cur == 0 {
        FieldView { s0: auth, s1: scratch, cur }
    } else {
        FieldView { s0: scratch, s1: auth, cur }
    }
}

/// A double-buffered grid quantity.  Exactly one of the two equally sized
/// slots is authoritative at any time; a stage reads the authoritative slot,
/// writes the scratch slot in full, and then either flips the roles or copies
/// its result back, so no stage ever reads the slot it is writing.
pub struct Field {
    slot0: Vec<i64>,
    slot1: Vec<i64>,
    cur: u8,
}

impl View for Field {
    type V = FieldView;

    closed spec fn view(&self) -> FieldView {
        FieldView { s0: self.slot0@, s1: self.slot1@, cur: self.cur as int }
    }
}

impl Field {
    /// A field of `len` samples, both slots zeroed, slot 0 authoritative.
    pub fn new(len: usize) -> (r: Field)
        ensures
            r@.s0 == zeros(len as int),
            r@.s1 == zeros(len as int),
            r@.cur == 0,
    {
        let f = Field { slot0: vec![0i64; len], slot1: vec![0i64; len], cur: 0 };
        proof {
            assert(f@.s0 =~= zeros(len as int));
            assert(f@.s1 =~= zeros(len as int));
        }
        f
    }

    pub fn len(&self) -> (r: usize)
        ensures
            r == self@.s0.len(),
    {
        self.slot0.len()
    }

    /// Index of the authoritative slot.
    pub fn current(&self) -> (r: u8)
        ensures
            r as int == self@.cur,
    {
        self.cur
    }

    /// Immutable view of one slot.
    pub fn read(&self, which: u8) -> (r: &Vec<i64>)
        requires
            which <= 1,
        ensures
            r@ == if which == 0 { self@.s0 } else { self@.s1 },
    {
        if which == 0 {
            &self.slot0
        } else {
            &self.slot1
        }
    }

    /// Immutable view of the authoritative slot.
    pub fn auth(&self) -> (r: &Vec<i64>)
        ensures
            r@ == self@.auth(),
    {
        if self.cur == 0 {
            &self.slot0
        } else {
            &self.slot1
        }
    }

    /// Flips which slot is authoritative.
    pub fn swap(&mut self)
        requires
            old(self)@.cur == 0 || old(self)@.cur == 1,
        ensures
            final(self)@.s0 == old(self)@.s0,
            final(self)@.s1 == old(self)@.s1,
            final(self)@.cur == 1 - old(self)@.cur,
    {
        self.cur = 1 - self.cur;
    }

    /// Replaces one slot in full; the other slot and the authoritative index
    /// are untouched.
    pub fn write(&mut self, which: u8, data: Vec<i64>)
        requires
            which <= 1,
        ensures
            final(self)@.cur == old(self)@.cur,
            final(self)@.s0 == if which == 0 { data@ } else { old(self)@.s0 },
            final(self)@.s1 == if which == 1 { data@ } else { old(self)@.s1 },
    {
        if which == 0 {
            self.slot0 = data;
        } else {
            self.slot1 = data;
        }
    }

    /// Replaces the scratch slot in full; the authoritative slot is untouched.
    pub fn write_scratch(&mut self, data: Vec<i64>)
        requires
            old(self)@.cur == 0 || old(self)@.cur == 1,
        ensures
            final(self)@.cur == old(self)@.cur,
            final(self)@.auth() == old(self)@.auth(),
            final(self)@.scratch() == data@,
    {
        let which = 1 - self.cur;
        self.write(which, data);
    }

    /// Copies the scratch slot into the authoritative slot, restoring the
    /// invariant after a stage that left its result in the scratch slot.
    pub fn copy_back(&mut self)
        requires
            old(self)@.cur == 0 || old(self)@.cur == 1,
        ensures
            final(self)@.cur == old(self)@.cur,
            final(self)@.auth() == old(self)@.scratch(),
            final(self)@.scratch() == old(self)@.scratch(),
    {
        if self.cur == 0 {
            let copy = self.slot1.clone();
            proof {
                assert(copy@ =~= self.slot1@);
            }
            self.slot0 = copy;
        } else {
            let copy = self.slot0.clone();
            proof {
                assert(copy@ =~= self.slot0@);
            }
            self.slot1 = copy;
        }
    }

    /// Zeroes both slots; which slot is authoritative is unchanged.
    pub fn zero(&mut self)
        requires
            old(self)@.cur == 0 || old(self)@.cur == 1,
        ensures
            final(self)@.cur == old(self)@.cur,
            final(self)@.s0 == zeros(old(self)@.s0.len() as int),
            final(self)@.s1 == zeros(old(self)@.s0.len() as int),
    {
        let len = self.slot0.len();
        self.slot0 = vec![0i64; len];
        self.slot1 = vec![0i64; len];
        proof {
            assert(self.slot0@ =~= zeros(len as int));
            assert(self.slot1@ =~= zeros(len as int));
        }
    }
}

} // verus!
