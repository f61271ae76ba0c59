//! The machine as a host drives it: a processor, the program it runs and the
//! speed at which the host is asked to clock it.

use vstd::prelude::*;
use rand::rngs::StdRng;
use crate::cpu::Cpu;
use crate::fault::Fault;
use crate::isa::initial;
use crate::isa::outcome;
use crate::isa::runs_to;
use crate::isa::step;
use crate::isa::valid;
use crate::isa::MachineState;
use crate::isa::ENTRY_POINT;
use crate::keyboard::KEY_COUNT;
use crate::memory::write_slice_spec;
use crate::memory::MEMORY_SIZE;
use crate::random::seeded;

verus! {

/// Clock speed of a new machine, in instructions per second.
pub const DEFAULT_SPEED: u32 = 500;

/// Why a program could not be loaded again.
#[derive(Clone, Copy, Debug, PartialEq, Eq, Structural)]
pub enum ReloadError {
    /// No program is loaded.
    NothingLoaded,
    /// The program does not fit into memory.
    Fault(Fault),
}

/// What a host sees of the machine.
#[verifier::ext_equal]
pub struct Chip8State {
    /// Clock speed in instructions per second.
    pub speed: u32,
    /// The processor and its devices.
    pub machine: MachineState,
    /// The name of the loaded program, if one is loaded.
    pub rom_name: Option<Seq<char>>,
    /// Whether a program is loaded.
    pub loaded: bool,
}

/// The machine as it is built and as a reset leaves it, at clock speed `speed`.
pub open spec fn unloaded(speed: u32) -> Chip8State {
    Chip8State { speed, machine: initial(), rom_name: None, loaded: false }
}

/// The machine after the program `rom`, called `name`, is loaded: a machine
/// that holds a program is reset first, and the program is stored from the
/// entry point on. A program that does not fit raises an address fault.
pub open spec fn load(c: Chip8State, name: Seq<char>, rom: Seq<u8>) -> Result<Chip8State, Fault> {
    let base = if c.loaded {
        initial()
    } else {
        c.machine
    };
    match write_slice_spec(base.memory, ENTRY_POINT as int, rom) {
        Ok(memory) => Ok(
            Chip8State {
                speed: c.speed,
                machine: MachineState { memory, ..base },
                rom_name: Some(name),
                loaded: true,
            },
        ),
        Err(fault) => Err(fault),
    }
}

/// The machine with its program, clock speed and load state.
#[derive(Debug)]
pub struct Chip8 {
    speed: u32,
    cpu: Cpu,
    rom_name: Option<String>,
    loaded: bool,
}

impl View for Chip8 {
    type V = Chip8State;

    closed spec fn view(&self) -> Chip8State {
        Chip8State {
            speed: self.speed,
            machine: self.cpu@,
            rom_name: match self.rom_name {
                Some(name) => Some(name@),
                None => None,
            },
            loaded: self.loaded,
        }
    }
}

impl Chip8 {
    /// The processor and its devices are well formed.
    pub open spec fn wf(&self) -> bool {
        valid(self@.machine)
    }

    /// A machine without a program, at the default clock speed, whose random
    /// bytes come from a generator with a key of the operating system; `None`
    /// where the operating system hands out no key.
    pub fn new() -> (c: Option<Chip8>)
        ensures
            c is Some ==> c->Some_0.wf() && c->Some_0@ == unloaded(DEFAULT_SPEED),
    {
        match Cpu::new() {
            Some(cpu) => Some(Chip8 { speed: DEFAULT_SPEED, cpu, rom_name: None, loaded: false }),
            None => None,
        }
    }

    /// A machine without a program, at the default clock speed, whose random
    /// bytes come from a generator that starts from `seed`.
    pub fn with_seed(seed: u64) -> (c: Chip8)
        ensures
            c.wf(),
            c@ == unloaded(DEFAULT_SPEED),
            c.source() == seeded(seed),
    {
        Chip8 { speed: DEFAULT_SPEED, cpu: Cpu::with_seed(seed), rom_name: None, loaded: false }
    }

    /// The generator from which the processor draws its random bytes.
    pub closed spec fn source(&self) -> StdRng {
        self.cpu.source()
    }

    /// Sets the clock speed, in instructions per second.
    pub fn set_speed(&mut self, speed: u32)
        ensures
            final(self).source() == old(self).source(),
            final(self)@ == (Chip8State { speed, ..old(self)@ }),
    {
        self.speed = speed;
    }

    /// The clock speed, in instructions per second.
    pub fn speed(&self) -> (speed: u32)
        ensures
            speed == self@.speed,
    {
        self.speed
    }

    /// The processor.
    pub fn cpu(&self) -> (cpu: &Cpu)
        ensures
            cpu@ == self@.machine,
    {
        &self.cpu
    }

    /// Loads the program `rom` under the name `name`. A machine that holds a
    /// program is reset first. A program that does not fit into memory raises
    /// an address fault and leaves the machine as it was.
    pub fn load_rom(&mut self, name: String, rom: &[u8]) -> (r: Result<(), Fault>)
        requires
            old(self).wf(),
        ensures
            final(self).wf(),
            final(self).source() == old(self).source(),
            match load(old(self)@, name@, rom@) {
                Ok(next) => r is Ok && final(self)@ == next,
                Err(fault) => r == Err::<(), Fault>(fault) && final(self)@ == old(self)@,
            },
    {
        if rom.len() > MEMORY_SIZE - ENTRY_POINT as usize {
            return Err(Fault::AddressFault);
        }
        if self.loaded {
            self.reset();
        }
        let stored = self.cpu.load(ENTRY_POINT as usize, rom);
        assert(stored is Ok);
        self.loaded = true;
        self.rom_name = Some(name);
        Ok(())
    }

    /// Loads `rom` in place of the loaded program and under its name, after a
    /// reset. Without a loaded program nothing happens and `NothingLoaded` is
    /// returned.
    pub fn reload_rom(&mut self, rom: &[u8]) -> (r: Result<(), ReloadError>)
        requires
            old(self).wf(),
        ensures
            final(self).wf(),
            final(self).source() == old(self).source(),
            match old(self)@.rom_name {
                Some(name) => match load(old(self)@, name, rom@) {
                    Ok(next) => r is Ok && final(self)@ == next,
                    Err(fault) => r == Err::<(), ReloadError>(ReloadError::Fault(fault)) && final(self)@
                        == old(self)@,
                },
                None => r == Err::<(), ReloadError>(ReloadError::NothingLoaded) && final(self)@ == old(
                    self,
                )@,
            },
    {
        let name = match &self.rom_name {
            Some(name) => name.clone(),
            None => {
                return Err(ReloadError::NothingLoaded);
            },
        };
        match self.load_rom(name, rom) {
            Ok(()) => Ok(()),
            Err(fault) => Err(ReloadError::Fault(fault)),
        }
    }

    /// Puts the machine back into its initial state, without a program. The
    /// clock speed stays.
    pub fn reset(&mut self)
        ensures
            final(self).wf(),
            final(self).source() == old(self).source(),
            final(self)@ == unloaded(old(self)@.speed),
    {
        self.cpu.reset();
        self.loaded = false;
        self.rom_name = None;
    }

    /// Runs up to `cycles` cycles and stops at the first fault, which leaves
    /// the machine as the last good cycle left it.
    pub fn run(&mut self, cycles: u64) -> (r: Result<(), Fault>)
        requires
            old(self).wf(),
        ensures
            final(self).wf(),
            final(self)@ == (Chip8State { machine: final(self)@.machine, ..old(self)@ }),
            r is Ok ==> runs_to(old(self)@.machine, final(self)@.machine, cycles as nat),
            r is Err ==> exists|done: nat, random: u8|
                #![trigger runs_to(old(self)@.machine, final(self)@.machine, done), step(final(self)@.machine, random)]
                done < cycles && runs_to(old(self)@.machine, final(self)@.machine, done) && step(
                    final(self)@.machine,
                    random,
                ) == Err::<MachineState, Fault>(r->Err_0),
    {
        let ghost start = self@;
        let mut done: u64 = 0;
        while done < cycles
            invariant
                done <= cycles,
                start == old(self)@,
                self.wf(),
                self@ == (Chip8State { machine: self@.machine, ..start }),
                runs_to(start.machine, self@.machine, done as nat),
            decreases cycles - done,
        {
            let ghost before = self@.machine;
            let r = self.cpu.step();
            let ghost random = choose|random: u8|
                outcome(before, #[trigger] step(before, random), self@.machine, r);
            match r {
                Ok(()) => {
                    assert(step(before, random) == Ok::<MachineState, Fault>(self@.machine));
                },
                Err(fault) => {
                    assert(runs_to(start.machine, self@.machine, done as nat) && step(
                        self@.machine,
                        random,
                    ) == Err::<MachineState, Fault>(fault));
                    return Err(fault);
                },
            }
            done = done + 1;
        }
        Ok(())
    }

    /// One cycle: fetches the instruction at the program counter and executes
    /// it. On a fault the machine stays as it was.
    pub fn step(&mut self) -> (r: Result<(), Fault>)
        requires
            old(self).wf(),
        ensures
            final(self).wf(),
            match crate::isa::fetch(old(self)@.machine) {
                Ok(instruction) => crate::isa::op_family(instruction) != 0xC ==> final(self).source()
                    == old(self).source(),
                Err(_) => final(self).source() == old(self).source(),
            },
            final(self)@ == (Chip8State { machine: final(self)@.machine, ..old(self)@ }),
            exists|random: u8|
                outcome(
                    old(self)@.machine,
                    #[trigger] step(old(self)@.machine, random),
                    final(self)@.machine,
                    r,
                ),
    {
        self.cpu.step()
    }

    /// Records that `key` is held down, or that it is not.
    pub fn set_key_state(&mut self, key: usize, state: bool)
        requires
            key < KEY_COUNT,
        ensures
            final(self).source() == old(self).source(),
            final(self)@ == (Chip8State {
                machine: MachineState {
                    keys: old(self)@.machine.keys.update(key as int, state),
                    ..old(self)@.machine
                },
                ..old(self)@
            }),
    {
        self.cpu.set_key_state(key, state);
    }

    /// The framebuffer, row by row from the top left, one byte per pixel: 1
    /// for a lit pixel and 0 for a dark one.
    pub fn get_display(&self) -> (frame: &[u8])
        ensures
            frame@ == self@.machine.pixels,
    {
        self.cpu.display().get()
    }

    /// Whether a program is loaded.
    pub fn is_loaded(&self) -> (loaded: bool)
        ensures
            loaded == self@.loaded,
    {
        self.loaded
    }

    /// The name of the loaded program, if one is loaded.
    pub fn get_rom_name(&self) -> (name: Option<String>)
        ensures
            match self@.rom_name {
                Some(stored) => name is Some && name->Some_0@ == stored,
                None => name is None,
            },
    {
        match &self.rom_name {
            Some(name) => Some(name.clone()),
            None => None,
        }
    }
}

} // verus!
