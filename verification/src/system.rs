//! The machine behind a window: a program goes in, key states go in, and the
//! framebuffer comes out as a frame of four-byte pixels.

use vstd::prelude::*;
use rand::rngs::StdRng;
use crate::cpu::Cpu;
use crate::display::PIXEL_COUNT;
use crate::fault::Fault;
use crate::isa::initial;
use crate::isa::outcome;
use crate::isa::step;
use crate::isa::valid;
use crate::isa::MachineState;
use crate::isa::ENTRY_POINT;
use crate::memory::write_slice_spec;

verus! {

/// Bytes per pixel of a frame.
pub const BYTES_PER_PIXEL: usize = 4;

/// The frame after the picture `pixels` is painted into it: the four bytes of
/// frame pixel `k` are all `0x00` where framebuffer cell `k` is dark and all
/// `0xFF` where it is lit. Bytes beyond the last whole pixel stay.
pub open spec fn painted(frame: Seq<u8>, pixels: Seq<u8>) -> Seq<u8> {
    Seq::new(
        frame.len(),
        |j: int|
            if j < (frame.len() / 4) * 4 {
                if pixels[j / 4] == 0 {
                    0x00u8
                } else {
                    0xFFu8
                }
            } else {
                frame[j]
            },
    )
}

/// A processor with its devices, driven cycle by cycle.
#[derive(Debug)]
pub struct System {
    cpu: Cpu,
}

impl View for System {
    type V = MachineState;

    closed spec fn view(&self) -> MachineState {
        self.cpu@
    }
}

impl System {
    /// The processor and its devices are well formed.
    pub open spec fn wf(&self) -> bool {
        valid(self@)
    }

    /// The generator from which the processor draws its random bytes.
    pub closed spec fn source(&self) -> StdRng {
        self.cpu.source()
    }

    /// A machine in the initial state, whose random bytes come from a
    /// generator with a key of the operating system; `None` where the
    /// operating system hands out no key.
    pub fn new() -> (system: Option<System>)
        ensures
            system is Some ==> system->Some_0.wf() && system->Some_0@ == initial(),
    {
        match Cpu::new() {
            Some(cpu) => Some(System { cpu }),
            None => None,
        }
    }

    /// The processor.
    pub fn cpu(&self) -> (cpu: &Cpu)
        ensures
            cpu@ == self@,
    {
        &self.cpu
    }

    /// Stores the program `rom_data` from the entry point on. A program that
    /// does not fit into memory raises an address fault and leaves the
    /// machine as it was.
    pub fn load_rom(&mut self, rom_data: &Vec<u8>) -> (r: Result<(), Fault>)
        requires
            old(self).wf(),
        ensures
            final(self).wf(),
            final(self).source() == old(self).source(),
            match write_slice_spec(old(self)@.memory, ENTRY_POINT as int, rom_data@) {
                Ok(memory) => r is Ok && final(self)@ == (MachineState { memory, ..old(self)@ }),
                Err(fault) => r == Err::<(), Fault>(fault) && final(self)@ == old(self)@,
            },
    {
        self.cpu.load(ENTRY_POINT as usize, rom_data.as_slice())
    }

    /// One cycle: fetches the instruction at the program counter and executes
    /// it. On a fault the machine stays as it was.
    pub fn execute(&mut self) -> (r: Result<(), Fault>)
        requires
            old(self).wf(),
        ensures
            final(self).wf(),
            match crate::isa::fetch(old(self)@) {
                Ok(instruction) => crate::isa::op_family(instruction) != 0xC ==> final(self).source()
                    == old(self).source(),
                Err(_) => final(self).source() == old(self).source(),
            },
            exists|random: u8| outcome(old(self)@, #[trigger] step(old(self)@, random), final(self)@, r),
    {
        self.cpu.step()
    }

    /// The framebuffer, row by row from the top left, one byte per pixel: 1
    /// for a lit pixel and 0 for a dark one.
    pub fn get_screen(&self) -> (frame: &[u8])
        ensures
            frame@ == self@.pixels,
    {
        self.cpu.display().get_screen()
    }

    /// Replaces the state of all keys at once: `held[k]` says whether key `k`
    /// is held down.
    pub fn update_keys(&mut self, held: &[bool; 16])
        ensures
            final(self).source() == old(self).source(),
            final(self)@ == (MachineState { keys: held@, ..old(self)@ }),
    {
        self.cpu.update_keys(held);
    }
}

/// Paints the framebuffer into `frame`, four bytes per pixel: `0x00` four
/// times for a dark pixel, `0xFF` four times for a lit one. The frame may hold
/// fewer pixels than the framebuffer, and not more.
pub fn draw_screen(frame: &mut [u8], system: &System)
    requires
        system.wf(),
        old(frame)@.len() / 4 <= PIXEL_COUNT,
    ensures
        final(frame)@ == painted(old(frame)@, system@.pixels),
{
    let screen = system.get_screen();
    let whole: usize = (frame.len() / BYTES_PER_PIXEL) * BYTES_PER_PIXEL;
    let ghost before = frame@;
    let mut j: usize = 0;
    while j < whole
        invariant
            j <= whole,
            whole == (before.len() / 4) * 4,
            before.len() / 4 <= PIXEL_COUNT,
            screen@.len() == PIXEL_COUNT,
            frame@.len() == before.len(),
            forall|k: int| 0 <= k < j ==> frame@[k] == painted(before, screen@)[k],
            forall|k: int| j <= k < before.len() ==> frame@[k] == before[k],
        decreases whole - j,
    {
        frame[j] = if screen[j / BYTES_PER_PIXEL] == 0 { 0x00 } else { 0xFF };
        j = j + 1;
    }
    assert(frame@ =~= painted(before, screen@));
}

} // verus!
