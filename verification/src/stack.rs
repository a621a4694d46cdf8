//! The call stack: a fixed number of return addresses.

use vstd::prelude::*;

verus! {

/// The number of return addresses the call stack holds.
pub const STACK_SIZE: usize = 12;

/// Return addresses in `STACK_SIZE` slots, of which the first `pointer` are live.
pub struct CallStack {
    slots: [u16; STACK_SIZE],
    pointer: u8,
}

impl View for CallStack {
    type V = Seq<u16>;

    /// The live return addresses, oldest first.
    closed spec fn view(&self) -> Seq<u16> {
        Seq::new(self.pointer as nat, |slot: int| self.slots@[slot])
    }
}

impl CallStack {
    /// No stack holds more than `STACK_SIZE` addresses.
    #[verifier::type_invariant]
    pub open spec fn inv(self) -> bool {
        self@.len() <= STACK_SIZE
    }

    /// An empty stack.
    pub fn new() -> (stack: CallStack)
        ensures
            stack@ == Seq::<u16>::empty(),
    {
        let stack = CallStack { slots: [0u16; STACK_SIZE], pointer: 0 };
        assert(stack@ =~= Seq::<u16>::empty());
        stack
    }

    /// The number of live return addresses.
    pub fn depth(&self) -> (depth: usize)
        ensures
            depth == self@.len(),
            depth <= STACK_SIZE,
    {
        proof {
            use_type_invariant(self);
        }
        self.pointer as usize
    }

    /// Puts `address` on top, unless the stack is full; tells whether it did.
    pub fn push(&mut self, address: u16) -> (pushed: bool)
        ensures
            pushed == (old(self)@.len() < STACK_SIZE),
            pushed ==> final(self)@ == old(self)@.push(address),
            !pushed ==> final(self)@ == old(self)@,
    {
        proof {
            use_type_invariant(&*self);
        }
        if self.pointer as usize >= STACK_SIZE {
            return false;
        }
        self.slots[self.pointer as usize] = address;
        self.pointer = self.pointer + 1;
        assert(self@ =~= old(self)@.push(address));
        true
    }

    /// Takes the top address off, if there is one.
    pub fn pop(&mut self) -> (top: Option<u16>)
        ensures
            match top {
                Some(address) => {
                    &&& old(self)@.len() > 0
                    &&& address == old(self)@.last()
                    &&& final(self)@ == old(self)@.drop_last()
                },
                None => old(self)@.len() == 0 && final(self)@ == old(self)@,
            },
    {
        proof {
            use_type_invariant(&*self);
        }
        if self.pointer == 0 {
            return None;
        }
        self.pointer = self.pointer - 1;
        let address: u16 = self.slots[self.pointer as usize];
        assert(self@ =~= old(self)@.drop_last());
        Some(address)
    }
}

} // verus!
