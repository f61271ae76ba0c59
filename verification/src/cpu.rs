//! The processor: registers, stack and timers, and the devices it owns.

use vstd::prelude::*;
use byteorder::BigEndian;
use byteorder::ByteOrder;
use rand::rngs::StdRng;
use crate::bus::Bus;
use crate::display::Display;
use crate::fault::Fault;
use crate::isa::advance;
use crate::isa::alu;
use crate::isa::apply;
use crate::isa::big_endian;
use crate::isa::decimal_digits;
use crate::isa::decode_family;
use crate::isa::decode_kk;
use crate::isa::decode_n;
use crate::isa::decode_nnn;
use crate::isa::decode_x;
use crate::isa::decode_y;
use crate::isa::draw;
use crate::isa::initial;
use crate::isa::misc;
use crate::isa::moved;
use crate::isa::op_family;
use crate::isa::outcome;
use crate::isa::tick;
use crate::isa::valid;
use crate::isa::with_loaded;
use crate::isa::MachineState;
use crate::isa::ENTRY_POINT;
use crate::keyboard::Keyboard;
use crate::keyboard::KEY_COUNT;
use crate::memory::write_slice_spec;
use crate::memory::Memory;
use crate::random::entropy_source;
use crate::random::next_byte;
use crate::random::seeded;
use crate::random::seeded_source;

verus! {

/// `ByteOrder::read_u16` of `byteorder`, for `BigEndian`: the first two bytes
/// of `bytes` as one word, the first byte the high one. It panics on fewer
/// than two bytes, which the precondition rules out.
#[verifier::external_body]
fn read_word(bytes: &[u8]) -> (word: u16)
    requires
        bytes@.len() >= 2,
    ensures
        word == big_endian(bytes@[0], bytes@[1]),
{
    BigEndian::read_u16(bytes)
}

/// The processor with its memory, display and keypad.
#[derive(Debug)]
pub struct Cpu {
    bus: Bus,
    pc: u16,
    vx: [u8; 16],
    i: u16,
    st: u8,
    dt: u8,
    stack: Vec<u16>,
    source: StdRng,
}

impl View for Cpu {
    type V = MachineState;

    closed spec fn view(&self) -> MachineState {
        MachineState {
            pc: self.pc,
            v: self.vx@,
            i: self.i,
            dt: self.dt,
            st: self.st,
            stack: self.stack@,
            memory: self.bus.memory@,
            pixels: self.bus.display@,
            keys: self.bus.keyboard@,
        }
    }
}

impl Cpu {
    /// A processor in the initial state that draws its random bytes from
    /// `source`, which it keeps as it is handed in. This is the way to give
    /// the processor a generator of the host's own making; `new` and
    /// `with_seed` make one and hand it on to this function.
    pub fn assemble(source: StdRng) -> (cpu: Cpu)
        ensures
            cpu.wf(),
            cpu@ == initial(),
            cpu.source() == source,
    {
        let cpu = Cpu {
            bus: Bus::new(),
            pc: ENTRY_POINT,
            vx: [0; 16],
            i: 0,
            st: 0,
            dt: 0,
            stack: Vec::with_capacity(16),
            source,
        };
        proof {
            cpu.bus.keyboard.lemma_len();
            assert(cpu.vx@ =~= Seq::new(16, |j: int| 0u8));
            assert(cpu.stack@ =~= Seq::empty());
        }
        cpu
    }

    /// A processor in the initial state, whose random bytes come from a
    /// generator with a key of the operating system; `None` where the
    /// operating system hands out no key.
    pub fn new() -> (cpu: Option<Cpu>)
        ensures
            cpu is Some ==> cpu->Some_0.wf() && cpu->Some_0@ == initial(),
    {
        match entropy_source() {
            Some(source) => Some(Cpu::assemble(source)),
            None => None,
        }
    }

    /// A processor in the initial state, whose random bytes come from a
    /// generator that starts from `seed`.
    pub fn with_seed(seed: u64) -> (cpu: Cpu)
        ensures
            cpu.wf(),
            cpu@ == initial(),
            cpu.source() == seeded(seed),
    {
        Cpu::assemble(seeded_source(seed))
    }

    /// The devices are well formed.
    pub open spec fn wf(&self) -> bool {
        valid(self@)
    }

    /// The generator from which the processor draws its random bytes. It is
    /// no part of the view: the instructions are stated for every byte that
    /// it may hand out.
    pub closed spec fn source(&self) -> StdRng {
        self.source
    }

    /// Puts the processor and its devices back into the initial state. The
    /// random source goes on where it was.
    pub fn reset(&mut self)
        ensures
            final(self).wf(),
            final(self)@ == initial(),
            final(self).source() == old(self).source(),
    {
        self.bus = Bus::new();
        self.pc = ENTRY_POINT;
        self.vx = [0; 16];
        self.i = 0;
        self.st = 0;
        self.dt = 0;
        self.stack = Vec::with_capacity(16);
        proof {
            self.bus.keyboard.lemma_len();
            assert(self.vx@ =~= Seq::new(16, |j: int| 0u8));
            assert(self.stack@ =~= Seq::empty());
        }
    }

    /// The program counter.
    pub fn pc(&self) -> (pc: u16)
        ensures
            pc == self@.pc,
    {
        self.pc
    }

    /// The address register `I`.
    pub fn index(&self) -> (i: u16)
        ensures
            i == self@.i,
    {
        self.i
    }

    /// The delay timer.
    pub fn delay_timer(&self) -> (dt: u8)
        ensures
            dt == self@.dt,
    {
        self.dt
    }

    /// The sound timer.
    pub fn sound_timer(&self) -> (st: u8)
        ensures
            st == self@.st,
    {
        self.st
    }

    /// The return addresses on the call stack, innermost call last.
    pub fn stack(&self) -> (stack: &[u16])
        ensures
            stack@ == self@.stack,
    {
        self.stack.as_slice()
    }

    /// The value of register `index`.
    pub fn read_vx(&self, index: u8) -> (value: u8)
        requires
            index < 16,
        ensures
            value == self@.v[index as int],
    {
        self.vx[index as usize]
    }

    /// Puts `value` into register `index`.
    pub fn write_vx(&mut self, index: u8, value: u8)
        requires
            index < 16,
        ensures
            final(self)@ == (MachineState { v: old(self)@.v.update(index as int, value), ..old(self)@ }),
            final(self).source() == old(self).source(),
    {
        self.vx[index as usize] = value;
    }

    /// The memory.
    pub fn memory(&self) -> (memory: &Memory)
        ensures
            memory@ == self@.memory,
    {
        &self.bus.memory
    }

    /// The display.
    pub fn display(&self) -> (display: &Display)
        ensures
            display@ == self@.pixels,
    {
        &self.bus.display
    }

    /// The keypad.
    pub fn keyboard(&self) -> (keyboard: &Keyboard)
        ensures
            keyboard@ == self@.keys,
    {
        &self.bus.keyboard
    }

    /// Records that `key` is held down, or that it is not.
    pub fn set_key_state(&mut self, key: usize, state: bool)
        requires
            key < KEY_COUNT,
        ensures
            final(self)@ == (MachineState { keys: old(self)@.keys.update(key as int, state), ..old(self)@ }),
            final(self).source() == old(self).source(),
    {
        self.bus.keyboard.set_key_state(key, state);
    }

    /// Replaces the state of all keys at once.
    pub fn update_keys(&mut self, held: &[bool; 16])
        ensures
            final(self)@ == (MachineState { keys: held@, ..old(self)@ }),
            final(self).source() == old(self).source(),
    {
        self.bus.keyboard.update_keys(held);
    }

    /// Copies `bytes` into memory from `address` on.
    pub fn load(&mut self, address: usize, bytes: &[u8]) -> (r: Result<(), Fault>)
        requires
            old(self).wf(),
        ensures
            final(self).wf(),
            final(self).source() == old(self).source(),
            match write_slice_spec(old(self)@.memory, address as int, bytes@) {
                Ok(memory) => r is Ok && final(self)@ == (MachineState { memory, ..old(self)@ }),
                Err(fault) => r == Err::<(), Fault>(fault) && final(self)@ == old(self)@,
            },
    {
        self.bus.memory.write_slice(address, bytes)
    }

    /// Reads the instruction word at the program counter, high byte first.
    pub fn fetch(&self) -> (r: Result<u16, Fault>)
        requires
            self.wf(),
        ensures
            r == crate::isa::fetch(self@),
    {
        match self.bus.memory.read_slice(self.pc as usize, 2) {
            Ok(bytes) => Ok(read_word(bytes)),
            Err(fault) => Err(fault),
        }
    }

    /// Lowers each timer that is not zero by one.
    pub fn tick(&mut self)
        ensures
            final(self)@ == tick(old(self)@),
            final(self).source() == old(self).source(),
    {
        if self.dt > 0 {
            self.dt -= 1;
        }
        if self.st > 0 {
            self.st -= 1;
        }
    }

    fn advance(&mut self, by: u16)
        ensures
            final(self)@ == (MachineState { pc: moved(old(self)@.pc, by as int), ..old(self)@ }),
            final(self).source() == old(self).source(),
    {
        self.pc = self.pc.wrapping_add(by);
    }

    fn skip_if(&mut self, skip: bool)
        ensures
            final(self)@ == crate::isa::skip_if(old(self)@, skip),
            final(self).source() == old(self).source(),
    {
        if skip {
            self.advance(4);
        } else {
            self.advance(2);
        }
    }

    fn alu(&mut self, x: u8, y: u8, n: u8) -> (r: Result<(), Fault>)
        requires
            x < 16,
            y < 16,
        ensures
            final(self).source() == old(self).source(),
            match alu(old(self)@.v, x as int, y as int, n) {
                Some(v) => r is Ok && final(self)@ == (MachineState { v, ..old(self)@ }),
                None => r == Err::<(), Fault>(Fault::DecodeFault) && final(self)@ == old(self)@,
            },
    {
        let a: u8 = self.vx[x as usize];
        let b: u8 = self.vx[y as usize];
        if n == 0x0 {
            self.vx[x as usize] = b;
        } else if n == 0x1 {
            self.vx[x as usize] = a | b;
        } else if n == 0x2 {
            self.vx[x as usize] = a & b;
        } else if n == 0x3 {
            self.vx[x as usize] = a ^ b;
        } else if n == 0x4 {
            let sum: u16 = a as u16 + b as u16;
            self.vx[0xF] = if sum > 255 { 1 } else { 0 };
            self.vx[x as usize] = (sum % 256) as u8;
        } else if n == 0x5 {
            self.vx[0xF] = if a > b { 1 } else { 0 };
            self.vx[x as usize] = a.wrapping_sub(b);
        } else if n == 0x6 {
            assert(a & 1 == a % 2 && a >> 1 == a / 2) by (bit_vector);
            self.vx[0xF] = a & 1;
            self.vx[x as usize] = a >> 1;
        } else if n == 0x7 {
            self.vx[0xF] = if b > a { 1 } else { 0 };
            self.vx[x as usize] = b.wrapping_sub(a);
        } else if n == 0xE {
            assert(a >> 7 == a / 128 && a << 1 == (a * 2) % 256) by (bit_vector);
            self.vx[0xF] = a >> 7;
            self.vx[x as usize] = a << 1;
        } else {
            return Err(Fault::DecodeFault);
        }
        Ok(())
    }

    fn misc(&mut self, x: u8, kk: u8) -> (r: Result<(), Fault>)
        requires
            x < 16,
            old(self).wf(),
        ensures
            final(self).wf(),
            final(self).source() == old(self).source(),
            outcome(old(self)@, misc(old(self)@, x as int, kk), final(self)@, r),
    {
        let a: u8 = self.vx[x as usize];
        let base: usize = self.i as usize;
        let count: usize = x as usize + 1;
        let ghost before = self@;
        if kk == 0x07 {
            self.vx[x as usize] = self.dt;
        } else if kk == 0x0A {
            match self.bus.keyboard.get_pressed() {
                Some(key) => {
                    self.vx[x as usize] = key;
                },
                None => {
                    return Ok(());
                },
            }
        } else if kk == 0x15 {
            self.dt = a;
        } else if kk == 0x1E {
            self.i = self.i.wrapping_add(a as u16);
        } else if kk == 0x29 {
            self.i = a as u16 * 5;
        } else if kk == 0x33 {
            let digits: [u8; 3] = [(a / 100) % 10, (a / 10) % 10, a % 10];
            assert(digits@ =~= decimal_digits(a));
            match self.bus.memory.write_slice(base, digits.as_slice()) {
                Ok(()) => {},
                Err(fault) => {
                    return Err(fault);
                },
            }
        } else if kk == 0x55 {
            let registers = vstd::slice::slice_subrange(self.vx.as_slice(), 0, count);
            assert(registers@ =~= before.v.take(x + 1));
            match self.bus.memory.write_slice(base, registers) {
                Ok(()) => {},
                Err(fault) => {
                    return Err(fault);
                },
            }
        } else if kk == 0x65 {
            match self.bus.memory.read_slice(base, count) {
                Ok(bytes) => {
                    assert(self.vx@ =~= with_loaded(before.v, -1, bytes@));
                    let mut j: usize = 0;
                    while j < count
                        invariant
                            j <= count,
                            count <= 16,
                            bytes@.len() == count,
                            self.vx@ == with_loaded(before.v, j - 1, bytes@),
                            self@ == (MachineState { v: self.vx@, ..before }),
                            self.source() == old(self).source(),
                        decreases count - j,
                    {
                        self.vx[j] = bytes[j];
                        j = j + 1;
                        assert(self.vx@ =~= with_loaded(before.v, j - 1, bytes@));
                    }
                },
                Err(fault) => {
                    return Err(fault);
                },
            }
        } else {
            return Err(Fault::DecodeFault);
        }
        assert(advance(self@) =~= misc(before, x as int, kk)->Ok_0);
        self.advance(2);
        Ok(())
    }

    fn draw(&mut self, x: u8, y: u8, n: u8) -> (r: Result<(), Fault>)
        requires
            x < 16,
            y < 16,
            old(self).wf(),
        ensures
            final(self).wf(),
            final(self).source() == old(self).source(),
            outcome(old(self)@, draw(old(self)@, x as int, y as int, n), final(self)@, r),
    {
        let left: u8 = self.vx[x as usize];
        let top: u8 = self.vx[y as usize];
        match self.bus.display.draw_sprite(&self.bus.memory, self.i, left, top, n) {
            Ok(erased) => {
                self.vx[0xF] = if erased { 1 } else { 0 };
                self.advance(2);
                Ok(())
            },
            Err(fault) => Err(fault),
        }
    }

    /// Executes the instruction `instruction` with `random` as the byte that
    /// the random source hands out, and lets the timers tick once. On a fault
    /// the machine stays as it was.
    pub fn execute_with(&mut self, instruction: u16, random: u8) -> (r: Result<(), Fault>)
        requires
            old(self).wf(),
        ensures
            final(self).wf(),
            final(self).source() == old(self).source(),
            outcome(old(self)@, crate::isa::execute(old(self)@, instruction, random), final(self)@, r),
    {
        let nnn: u16 = decode_nnn(instruction);
        let kk: u8 = decode_kk(instruction);
        let n: u8 = decode_n(instruction);
        let x: u8 = decode_x(instruction);
        let y: u8 = decode_y(instruction);
        let family: u8 = decode_family(instruction);
        let ghost before = self@;
        let a: u8 = self.vx[x as usize];
        let b: u8 = self.vx[y as usize];
        if family == 0x0 {
            if kk == 0xE0 {
                self.bus.display.clear();
                self.advance(2);
            } else if kk == 0xEE {
                match self.stack.pop() {
                    Some(address) => {
                        self.pc = address;
                    },
                    None => {
                        return Err(Fault::StackUnderflow);
                    },
                }
            } else {
                return Err(Fault::DecodeFault);
            }
        } else if family == 0x1 {
            self.pc = nnn;
        } else if family == 0x2 {
            self.stack.push(self.pc.wrapping_add(2));
            self.pc = nnn;
        } else if family == 0x3 {
            self.skip_if(a == kk);
        } else if family == 0x4 {
            self.skip_if(a != kk);
        } else if family == 0x5 {
            self.skip_if(a == b);
        } else if family == 0x6 {
            self.vx[x as usize] = kk;
            self.advance(2);
        } else if family == 0x7 {
            self.vx[x as usize] = a.wrapping_add(kk);
            self.advance(2);
        } else if family == 0x8 {
            match self.alu(x, y, n) {
                Ok(()) => {
                    self.advance(2);
                },
                Err(fault) => {
                    return Err(fault);
                },
            }
        } else if family == 0x9 {
            self.skip_if(a != b);
        } else if family == 0xA {
            self.i = nnn;
            self.advance(2);
        } else if family == 0xB {
            self.pc = nnn + self.vx[0] as u16;
        } else if family == 0xC {
            self.vx[x as usize] = random & kk;
            self.advance(2);
        } else if family == 0xD {
            match self.draw(x, y, n) {
                Ok(()) => {},
                Err(fault) => {
                    return Err(fault);
                },
            }
        } else if family == 0xE {
            let held = self.bus.keyboard.is_pressed(a);
            if kk == 0x9E {
                self.skip_if(held);
            } else if kk == 0xA1 {
                self.skip_if(!held);
            } else {
                return Err(Fault::DecodeFault);
            }
        } else {
            match self.misc(x, kk) {
                Ok(()) => {},
                Err(fault) => {
                    return Err(fault);
                },
            }
        }
        proof {
            assert(apply(before, instruction, random) is Ok);
            assert(self@ =~= apply(before, instruction, random)->Ok_0);
        }
        self.tick();
        Ok(())
    }

    /// Executes the instruction `instruction` and lets the timers tick once.
    /// An instruction of family `C` draws a byte from the random source; for
    /// every other one the outcome is fixed. On a fault the machine stays as
    /// it was.
    pub fn execute(&mut self, instruction: u16) -> (r: Result<(), Fault>)
        requires
            old(self).wf(),
        ensures
            final(self).wf(),
            op_family(instruction) != 0xC ==> final(self).source() == old(self).source(),
            exists|random: u8|
                outcome(
                    old(self)@,
                    #[trigger] crate::isa::execute(old(self)@, instruction, random),
                    final(self)@,
                    r,
                ),
            op_family(instruction) != 0xC ==> outcome(
                old(self)@,
                crate::isa::execute(old(self)@, instruction, 0),
                final(self)@,
                r,
            ),
    {
        let random: u8 = if decode_family(instruction) == 0xC {
            next_byte(&mut self.source)
        } else {
            0
        };
        self.execute_with(instruction, random)
    }
    /// One cycle: fetches the instruction at the program counter and executes
    /// it. On a fault the machine stays as it was.
    pub fn step(&mut self) -> (r: Result<(), Fault>)
        requires
            old(self).wf(),
        ensures
            final(self).wf(),
            match crate::isa::fetch(old(self)@) {
                Ok(instruction) => op_family(instruction) != 0xC ==> final(self).source() == old(
                    self,
                ).source(),
                Err(_) => final(self).source() == old(self).source(),
            },
            exists|random: u8|
                outcome(old(self)@, #[trigger] crate::isa::step(old(self)@, random), final(self)@, r),
    {
        let ghost before = self@;
        match self.fetch() {
            Ok(instruction) => {
                let r = self.execute(instruction);
                proof {
                    let random = choose|random: u8|
                        outcome(
                            before,
                            #[trigger] crate::isa::execute(before, instruction, random),
                            self@,
                            r,
                        );
                    assert(outcome(before, crate::isa::step(before, random), self@, r));
                }
                r
            },
            Err(fault) => {
                assert(outcome(before, crate::isa::step(before, 0u8), self@, Err::<(), Fault>(fault)));
                Err(fault)
            },
        }
    }

    /// One cycle with `random` as the byte that the random source hands out.
    /// On a fault the machine stays as it was.
    pub fn step_with(&mut self, random: u8) -> (r: Result<(), Fault>)
        requires
            old(self).wf(),
        ensures
            final(self).wf(),
            final(self).source() == old(self).source(),
            outcome(old(self)@, crate::isa::step(old(self)@, random), final(self)@, r),
    {
        match self.fetch() {
            Ok(instruction) => self.execute_with(instruction, random),
            Err(fault) => Err(fault),
        }
    }
}

} // verus!
