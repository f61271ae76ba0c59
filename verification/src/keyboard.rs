//! The sixteen-key keypad.

use vstd::prelude::*;

verus! {

/// Number of keys.
pub const KEY_COUNT: usize = 16;

/// Whether `key` names a key that `keys` shows held down. A number that names
/// no key is never held down.
pub open spec fn pressed(keys: Seq<bool>, key: int) -> bool {
    0 <= key < keys.len() && keys[key]
}

/// Whether `key` is the lowest key that `keys` shows held down.
pub open spec fn is_first_pressed(keys: Seq<bool>, key: int) -> bool {
    pressed(keys, key) && forall|lower: int| 0 <= lower < key ==> !#[trigger] keys[lower]
}

/// The lowest key held down, if any is.
pub open spec fn first_pressed(keys: Seq<bool>) -> Option<u8> {
    if exists|key: int| pressed(keys, key) {
        Some((choose|key: int| is_first_pressed(keys, key)) as u8)
    } else {
        None
    }
}

/// A key that is the lowest one held down is the one `first_pressed` names.
pub proof fn lemma_first_pressed(keys: Seq<bool>, key: int)
    requires
        keys.len() == KEY_COUNT,
        is_first_pressed(keys, key),
    ensures
        first_pressed(keys) == Some(key as u8),
{
    assert(pressed(keys, key));
    let chosen = choose|k: int| is_first_pressed(keys, k);
    assert(is_first_pressed(keys, chosen));
    if chosen < key {
        assert(!keys[chosen]);
    }
    if key < chosen {
        assert(!keys[key]);
    }
}

/// The state of the keypad: for each key, whether it is held down.
#[derive(Debug)]
pub struct Keyboard {
    keys: [bool; 16],
}

impl View for Keyboard {
    type V = Seq<bool>;

    closed spec fn view(&self) -> Seq<bool> {
        self.keys@
    }
}

impl Keyboard {
    /// The model of a keypad has one entry per key.
    pub proof fn lemma_len(&self)
        ensures
            self@.len() == KEY_COUNT,
    {
    }

    /// A keypad with no key held down.
    pub fn new() -> (k: Keyboard)
        ensures
            k@ == Seq::new(KEY_COUNT as nat, |i: int| false),
    {
        let k = Keyboard { keys: [false; 16] };
        assert(k.keys@ =~= Seq::new(KEY_COUNT as nat, |i: int| false));
        k
    }

    /// Records that `key` is held down, or that it is not.
    pub fn set_key_state(&mut self, key: usize, state: bool)
        requires
            key < KEY_COUNT,
        ensures
            final(self)@ == old(self)@.update(key as int, state),
    {
        self.keys[key] = state;
    }

    /// Replaces the state of all keys at once: `held[k]` says whether key `k`
    /// is held down.
    pub fn update_keys(&mut self, held: &[bool; 16])
        ensures
            final(self)@ == held@,
    {
        let mut k: usize = 0;
        while k < KEY_COUNT
            invariant
                k <= KEY_COUNT,
                forall|j: int| 0 <= j < k ==> self.keys@[j] == held@[j],
            decreases KEY_COUNT - k,
        {
            self.keys[k] = held[k];
            k = k + 1;
        }
        assert(self.keys@ =~= held@);
    }

    /// Whether `key` is held down. A number above fifteen names no key and is
    /// never held down.
    pub fn is_pressed(&self, key: u8) -> (held: bool)
        ensures
            held == pressed(self@, key as int),
    {
        if (key as usize) < KEY_COUNT {
            self.keys[key as usize]
        } else {
            false
        }
    }

    /// Whether `key` is held down. A number above fifteen names no key and is
    /// never held down.
    pub fn is_key_pressed(&self, key: u8) -> (held: bool)
        ensures
            held == pressed(self@, key as int),
    {
        self.is_pressed(key)
    }

    /// The lowest key that is held down, if any is.
    pub fn get_pressed(&self) -> (found: Option<u8>)
        ensures
            found == first_pressed(self@),
            match found {
                Some(key) => is_first_pressed(self@, key as int),
                None => forall|k: int| 0 <= k < KEY_COUNT ==> !#[trigger] self@[k],
            },
    {
        let mut k: usize = 0;
        while k < KEY_COUNT
            invariant
                k <= KEY_COUNT,
                forall|j: int| 0 <= j < k ==> !#[trigger] self.keys@[j],
            decreases KEY_COUNT - k,
        {
            if self.keys[k] {
                proof {
                    lemma_first_pressed(self.keys@, k as int);
                }
                return Some(k as u8);
            }
            k = k + 1;
        }
        assert(!exists|key: int| pressed(self.keys@, key));
        None
    }
}

} // verus!
