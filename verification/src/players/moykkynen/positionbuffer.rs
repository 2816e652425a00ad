use vstd::prelude::*;

use crate::api::position::Position;

verus! {

pub const BUFFER_SIZE: usize = 10;

// Very simple ring buffer for storing a limited amount of position data
#[derive(Clone, Copy, Debug)]
pub struct PositionBuffer {
    buffer: [Option<Position>; BUFFER_SIZE],
    index: usize,
    count: usize,
}

impl PositionBuffer {
    /// The slot written next is always in the buffer, and the count never exceeds it.
    #[verifier::type_invariant]
    spec fn wf(self) -> bool {
        &&& self.index < BUFFER_SIZE
        &&& self.count <= BUFFER_SIZE
    }

    /// The slots of the buffer.
    pub closed spec fn slots(self) -> Seq<Option<Position>> {
        self.buffer@
    }

    /// The slot written next.
    pub closed spec fn next_slot(self) -> int {
        self.index as int
    }

    /// How many positions were pushed, counting at most the buffer's size.
    pub closed spec fn count_spec(self) -> int {
        self.count as int
    }

    /// A buffer with nothing in it.
    pub closed spec fn empty() -> Self {
        PositionBuffer { buffer: [None; BUFFER_SIZE], index: 0, count: 0 }
    }

    /// The buffer after `position` is pushed onto it.
    pub closed spec fn pushed(self, position: Position) -> Self {
        PositionBuffer {
            buffer: vstd::array::spec_array_update(self.buffer, self.index as int, Some(position)),
            index: if self.index + 1 >= BUFFER_SIZE {
                0
            } else {
                (self.index + 1) as usize
            },
            count: if self.count < BUFFER_SIZE {
                (self.count + 1) as usize
            } else {
                self.count
            },
        }
    }

    pub fn new() -> (r: Self)
        ensures
            r == Self::empty(),
            r.count_spec() == 0,
            r.next_slot() == 0,
            r.slots() == Seq::new(BUFFER_SIZE as nat, |i: int| None::<Position>),
    {
        let r = Self { buffer: [None; BUFFER_SIZE], index: 0, count: 0 };
        assert(r.buffer@ =~= Seq::new(BUFFER_SIZE as nat, |i: int| None::<Position>));
        r
    }

    /// Writes a position into the next slot, going round to the first slot after the last.
    pub fn push(&mut self, position: Position)
        ensures
            *final(self) == old(self).pushed(position),
            final(self).slots() == old(self).slots().update(old(self).next_slot(), Some(position)),
            final(self).next_slot() == (old(self).next_slot() + 1) % (BUFFER_SIZE as int),
            final(self).count_spec() == if old(self).count_spec() < BUFFER_SIZE {
                old(self).count_spec() + 1
            } else {
                BUFFER_SIZE as int
            },
    {
        proof {
            use_type_invariant(&*self);
        }
        let mut buffer = self.buffer;
        buffer[self.index] = Some(position);
        let mut index = self.index + 1;
        if index >= BUFFER_SIZE {
            index = 0;
        }
        let mut count = self.count;
        if count < BUFFER_SIZE {
            count += 1;
        }
        *self = PositionBuffer { buffer, index, count };
    }

    /// The position written last (the last slot's content when nothing was written yet).
    pub fn _last(&self) -> (r: Option<Position>)
        ensures
            r == self.slots()[(self.next_slot() + BUFFER_SIZE - 1) % (BUFFER_SIZE as int)],
    {
        proof {
            use_type_invariant(self);
        }
        if self.index == 0 {
            self.buffer[BUFFER_SIZE - 1]
        } else {
            self.buffer[self.index - 1]
        }
    }

    pub fn is_full(&self) -> (r: bool)
        ensures
            r == (self.count_spec() >= BUFFER_SIZE),
    {
        if self.count >= BUFFER_SIZE {
            return true;
        }
        return false;
    }

    /// Whether at least two positions were pushed and the first `count` slots hold the
    /// same content.
    pub fn all_equal(&self) -> (r: bool)
        ensures
            r == (self.count_spec() >= 2 && forall|i: int|
                0 <= i < self.count_spec() ==> #[trigger] self.slots()[i] == self.slots()[0]),
    {
        proof {
            use_type_invariant(self);
        }
        if self.count < 2 {
            return false;
        }
        let first_value = self.buffer[0];
        let mut i: usize = 0;
        while i < self.count
            invariant
                self.count <= BUFFER_SIZE,
                i <= self.count,
                first_value == self.buffer@[0],
                forall|k: int| 0 <= k < i ==> #[trigger] self.buffer@[k] == first_value,
            decreases self.count - i,
        {
            if self.buffer[i] != first_value {
                assert(self.slots()[i as int] != self.slots()[0]);
                return false;
            }
            i = i + 1;
        }
        true
    }
}

/// Once the buffer is full, pushing the position it holds in every slot keeps it full and
/// all equal: a tank that stands still stays recognised as standing still.
pub proof fn lemma_still_target_stays_still(b: PositionBuffer, p: Position)
    requires
        0 <= b.next_slot() < BUFFER_SIZE,
        b.count_spec() == BUFFER_SIZE,
        forall|i: int| 0 <= i < BUFFER_SIZE ==> #[trigger] b.slots()[i] == Some(p),
    ensures
        b.pushed(p).count_spec() == BUFFER_SIZE,
        forall|i: int| 0 <= i < BUFFER_SIZE ==> #[trigger] b.pushed(p).slots()[i] == Some(p),
{
    assert forall|i: int| 0 <= i < BUFFER_SIZE implies #[trigger] b.pushed(p).slots()[i] == Some(p) by {
        if i != b.next_slot() {
            assert(b.pushed(p).slots()[i] == b.slots()[i]);
        }
    }
}

} // verus!
