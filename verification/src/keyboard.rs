//! The key state: sixteen boolean flags recording which logical keys of the
//! input pad are currently held.

use vstd::prelude::*;

verus! {

/// Number of logical keys on the input pad.
pub const NUM_KEYS: usize = 16;

/// The input pad state, one flag per logical key 0 through 15.
pub struct Keyboard {
    keys: Vec<bool>,
}

impl View for Keyboard {
    type V = Seq<bool>;

    closed spec fn view(&self) -> Seq<bool> {
        self.keys@
    }
}

impl Keyboard {
    /// A key state is well formed when it holds exactly one flag per key.
    pub open spec fn wf(&self) -> bool {
        self@.len() == NUM_KEYS
    }

    /// A fresh key state: no key held.
    pub fn new() -> (k: Keyboard)
        ensures
            k.wf(),
            k@ == Seq::new(NUM_KEYS as nat, |i: int| false),
    {
        let mut keys: Vec<bool> = Vec::new();
        let mut i: usize = 0;
        while i < NUM_KEYS
            invariant
                i <= NUM_KEYS,
                keys@.len() == i,
                forall|j: int| 0 <= j < i ==> !keys@[j],
            decreases NUM_KEYS - i,
        {
            keys.push(false);
            i = i + 1;
        }
        proof {
            assert(keys@ =~= Seq::new(NUM_KEYS as nat, |i: int| false));
        }
        Keyboard { keys }
    }

    /// Releases every key.
    pub fn reset(&mut self)
        requires
            old(self).wf(),
        ensures
            final(self).wf(),
            final(self)@ == Seq::new(NUM_KEYS as nat, |i: int| false),
    {
        let mut i: usize = 0;
        while i < NUM_KEYS
            invariant
                i <= NUM_KEYS,
                self@.len() == NUM_KEYS,
                forall|j: int| 0 <= j < i ==> !self@[j],
            decreases NUM_KEYS - i,
        {
            self.keys.set(i, false);
            i = i + 1;
        }
        proof {
            assert(self@ =~= Seq::new(NUM_KEYS as nat, |i: int| false));
        }
    }

    /// Reports whether logical key `key` is currently held. The caller
    /// guarantees the index is in range.
    pub fn is_pressed(&self, key: u8) -> (r: bool)
        requires
            self.wf(),
            key < 16,
        ensures
            r == self@[key as int],
    {
        self.keys[key as usize]
    }

    /// Records a key transition reported by the input collaborator. The
    /// caller guarantees the index is in range.
    pub fn keypress(&mut self, key: usize, pressed: bool)
        requires
            old(self).wf(),
            key < NUM_KEYS,
        ensures
            final(self).wf(),
            final(self)@ == old(self)@.update(key as int, pressed),
    {
        self.keys.set(key, pressed);
    }
}

} // verus!
