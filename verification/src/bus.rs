//! The devices the processor drives.

use vstd::prelude::*;
use crate::display::Display;
use crate::display::blank;
use crate::keyboard::Keyboard;
use crate::keyboard::KEY_COUNT;
use crate::memory::Memory;
use crate::memory::font;
use crate::memory::overlay;
use crate::memory::zeroed;

verus! {

/// Memory, display and keypad, owned together.
#[derive(Debug)]
pub struct Bus {
    pub memory: Memory,
    pub display: Display,
    pub keyboard: Keyboard,
}

impl Bus {
    /// Each device is well formed.
    pub open spec fn wf(&self) -> bool {
        self.memory.wf() && self.display.wf()
    }

    /// A zeroed memory with the font in place, a dark display and a keypad
    /// with no key held down.
    pub fn new() -> (bus: Bus)
        ensures
            bus.wf(),
            bus.memory@ == overlay(zeroed(), 0, font()),
            bus.display@ == blank(),
            bus.keyboard@ == Seq::new(KEY_COUNT as nat, |i: int| false),
    {
        Bus { memory: Memory::default(), display: Display::new(), keyboard: Keyboard::new() }
    }
}

} // verus!
