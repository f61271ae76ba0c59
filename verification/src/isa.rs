//! The instruction set as mathematics: the state of the machine, the fields
//! of an instruction word, and the state that each instruction leads to.

use vstd::prelude::*;
use crate::display::blank;
use crate::display::blit;
use crate::display::collides;
use crate::display::is_picture;
use crate::fault::Fault;
use crate::keyboard::first_pressed;
use crate::keyboard::pressed;
use crate::keyboard::KEY_COUNT;
use crate::memory::font;
use crate::memory::overlay;
use crate::memory::read_slice_spec;
use crate::memory::zeroed;
use crate::memory::write_slice_spec;
use crate::memory::MEMORY_SIZE;

verus! {

/// Address at which a program is loaded and at which execution starts.
pub const ENTRY_POINT: u16 = 0x200;

/// Everything an instruction can read or change.
#[verifier::ext_equal]
pub struct MachineState {
    /// Program counter.
    pub pc: u16,
    /// The sixteen general registers, `V0` to `VF`.
    pub v: Seq<u8>,
    /// The address register `I`.
    pub i: u16,
    /// Delay timer.
    pub dt: u8,
    /// Sound timer.
    pub st: u8,
    /// Return addresses, innermost call last.
    pub stack: Seq<u16>,
    /// The address space.
    pub memory: Seq<u8>,
    /// The framebuffer.
    pub pixels: Seq<u8>,
    /// For each key, whether it is held down.
    pub keys: Seq<bool>,
}

/// Whether the parts of `s` have the sizes of the machine and its framebuffer
/// is a picture.
pub open spec fn valid(s: MachineState) -> bool {
    &&& s.v.len() == 16
    &&& s.keys.len() == KEY_COUNT
    &&& s.memory.len() == MEMORY_SIZE
    &&& is_picture(s.pixels)
}

/// The machine as it is built and as a reset leaves it: registers, timers and
/// `I` zero, the stack empty, the program counter at the entry point, the
/// memory zero but for the font, the display dark and no key held down.
pub open spec fn initial() -> MachineState {
    MachineState {
        pc: ENTRY_POINT,
        v: Seq::new(16, |j: int| 0u8),
        i: 0,
        dt: 0,
        st: 0,
        stack: Seq::empty(),
        memory: overlay(zeroed(), 0, font()),
        pixels: blank(),
        keys: Seq::new(KEY_COUNT as nat, |j: int| false),
    }
}

/// The instruction's address operand: its low twelve bits.
pub open spec fn op_nnn(op: u16) -> u16 {
    op & 0x0FFF
}

/// The instruction's immediate byte: its low eight bits.
pub open spec fn op_kk(op: u16) -> u8 {
    (op & 0x00FF) as u8
}

/// The instruction's low nibble.
pub open spec fn op_n(op: u16) -> u8 {
    (op & 0x000F) as u8
}

/// The instruction's first register index: bits 8 to 11.
pub open spec fn op_x(op: u16) -> u8 {
    ((op & 0x0F00) >> 8) as u8
}

/// The instruction's second register index: bits 4 to 7.
pub open spec fn op_y(op: u16) -> u8 {
    ((op & 0x00F0) >> 4) as u8
}

/// The instruction's family: its top nibble.
pub open spec fn op_family(op: u16) -> u8 {
    ((op & 0xF000) >> 12) as u8
}

/// The address operand of `op`.
pub fn decode_nnn(op: u16) -> (nnn: u16)
    ensures
        nnn == op_nnn(op),
        nnn < 0x1000,
{
    assert((op & 0x0FFF) < 0x1000) by (bit_vector);
    op & 0x0FFF
}

/// The immediate byte of `op`.
pub fn decode_kk(op: u16) -> (kk: u8)
    ensures
        kk == op_kk(op),
{
    assert((op & 0x00FF) < 0x100) by (bit_vector);
    (op & 0x00FF) as u8
}

/// The low nibble of `op`.
pub fn decode_n(op: u16) -> (n: u8)
    ensures
        n == op_n(op),
        n < 16,
{
    assert((op & 0x000F) < 16) by (bit_vector);
    (op & 0x000F) as u8
}

/// The first register index of `op`.
pub fn decode_x(op: u16) -> (x: u8)
    ensures
        x == op_x(op),
        x < 16,
{
    assert(((op & 0x0F00) >> 8) < 16) by (bit_vector);
    ((op & 0x0F00) >> 8) as u8
}

/// The second register index of `op`.
pub fn decode_y(op: u16) -> (y: u8)
    ensures
        y == op_y(op),
        y < 16,
{
    assert(((op & 0x00F0) >> 4) < 16) by (bit_vector);
    ((op & 0x00F0) >> 4) as u8
}

/// The family of `op`.
pub fn decode_family(op: u16) -> (family: u8)
    ensures
        family == op_family(op),
        family < 16,
{
    assert(((op & 0xF000) >> 12) < 16) by (bit_vector);
    ((op & 0xF000) >> 12) as u8
}

/// 1 for true, 0 for false.
pub open spec fn flag(b: bool) -> u8 {
    if b {
        1u8
    } else {
        0u8
    }
}

/// The 16-bit word whose high byte is `high` and whose low byte is `low`.
pub open spec fn big_endian(high: u8, low: u8) -> u16 {
    (high * 256 + low) as u16
}

/// `pc` moved on by `by` bytes, wrapping at sixteen bits.
pub open spec fn moved(pc: u16, by: int) -> u16 {
    ((pc + by) % 0x10000) as u16
}

/// `s` with the program counter on the next instruction.
pub open spec fn advance(s: MachineState) -> MachineState {
    MachineState { pc: moved(s.pc, 2), ..s }
}

/// `s` with the program counter on the next instruction, or on the one after
/// it where `skip` holds.
pub open spec fn skip_if(s: MachineState, skip: bool) -> MachineState {
    MachineState { pc: moved(s.pc, if skip { 4 } else { 2 }), ..s }
}

/// `s` with `value` in register `x`.
pub open spec fn with_register(s: MachineState, x: int, value: u8) -> MachineState {
    MachineState { v: s.v.update(x, value), ..s }
}

/// The registers after the register-to-register instruction `n` on `Vx` and
/// `Vy`, or `None` where `n` names no such instruction. The flag goes to `VF`
/// first and the result to `Vx` after it, so with `x = 0xF` the result stays.
pub open spec fn alu(v: Seq<u8>, x: int, y: int, n: u8) -> Option<Seq<u8>> {
    let a = v[x];
    let b = v[y];
    if n == 0x0 {
        Some(v.update(x, b))
    } else if n == 0x1 {
        Some(v.update(x, a | b))
    } else if n == 0x2 {
        Some(v.update(x, a & b))
    } else if n == 0x3 {
        Some(v.update(x, a ^ b))
    } else if n == 0x4 {
        Some(v.update(0xF, flag(a + b > 255)).update(x, ((a + b) % 256) as u8))
    } else if n == 0x5 {
        Some(v.update(0xF, flag(a > b)).update(x, ((a - b) % 256) as u8))
    } else if n == 0x6 {
        Some(v.update(0xF, (a % 2) as u8).update(x, (a / 2) as u8))
    } else if n == 0x7 {
        Some(v.update(0xF, flag(b > a)).update(x, ((b - a) % 256) as u8))
    } else if n == 0xE {
        Some(v.update(0xF, (a / 128) as u8).update(x, ((a * 2) % 256) as u8))
    } else {
        None
    }
}

/// The three decimal digits of `value`, hundreds first.
pub open spec fn decimal_digits(value: u8) -> Seq<u8> {
    seq![((value / 100) % 10) as u8, ((value / 10) % 10) as u8, (value % 10) as u8]
}

/// The registers with `V0` to `Vx` replaced by `bytes`.
pub open spec fn with_loaded(v: Seq<u8>, x: int, bytes: Seq<u8>) -> Seq<u8> {
    Seq::new(v.len(), |j: int| if j <= x { bytes[j] } else { v[j] })
}

/// The state after the instruction of family `F` with byte `kk` on register
/// `x`, before the timers tick.
pub open spec fn misc(s: MachineState, x: int, kk: u8) -> Result<MachineState, Fault> {
    if kk == 0x07 {
        Ok(advance(with_register(s, x, s.dt)))
    } else if kk == 0x0A {
        match first_pressed(s.keys) {
            Some(key) => Ok(advance(with_register(s, x, key))),
            None => Ok(s),
        }
    } else if kk == 0x15 {
        Ok(advance(MachineState { dt: s.v[x], ..s }))
    } else if kk == 0x1E {
        Ok(advance(MachineState { i: ((s.i + s.v[x]) % 0x10000) as u16, ..s }))
    } else if kk == 0x29 {
        Ok(advance(MachineState { i: (s.v[x] * 5) as u16, ..s }))
    } else if kk == 0x33 {
        match write_slice_spec(s.memory, s.i as int, decimal_digits(s.v[x])) {
            Ok(memory) => Ok(advance(MachineState { memory, ..s })),
            Err(fault) => Err(fault),
        }
    } else if kk == 0x55 {
        match write_slice_spec(s.memory, s.i as int, s.v.take(x + 1)) {
            Ok(memory) => Ok(advance(MachineState { memory, ..s })),
            Err(fault) => Err(fault),
        }
    } else if kk == 0x65 {
        match read_slice_spec(s.memory, s.i as int, x + 1) {
            Ok(bytes) => Ok(advance(MachineState { v: with_loaded(s.v, x, bytes), ..s })),
            Err(fault) => Err(fault),
        }
    } else {
        Err(Fault::DecodeFault)
    }
}

/// The state after the sprite of `n` rows at address `I` is drawn at
/// `(Vx, Vy)`, before the timers tick.
pub open spec fn draw(s: MachineState, x: int, y: int, n: u8) -> Result<MachineState, Fault> {
    match read_slice_spec(s.memory, s.i as int, n as int) {
        Ok(sprite) => Ok(
            advance(
                MachineState {
                    pixels: blit(s.pixels, s.v[x] as int, s.v[y] as int, sprite),
                    v: s.v.update(0xF, flag(collides(s.pixels, s.v[x] as int, s.v[y] as int, sprite))),
                    ..s
                },
            ),
        ),
        Err(fault) => Err(fault),
    }
}

/// The state that the instruction `op` leads to from `s`, before the timers
/// tick, or the fault that it raises. `random` is the byte that the random
/// source hands out; only family `C` reads it.
pub open spec fn apply(s: MachineState, op: u16, random: u8) -> Result<MachineState, Fault> {
    let nnn = op_nnn(op);
    let kk = op_kk(op);
    let n = op_n(op);
    let x = op_x(op) as int;
    let y = op_y(op) as int;
    let family = op_family(op);
    if family == 0x0 {
        if kk == 0xE0 {
            Ok(advance(MachineState { pixels: blank(), ..s }))
        } else if kk == 0xEE {
            if s.stack.len() == 0 {
                Err(Fault::StackUnderflow)
            } else {
                Ok(MachineState { pc: s.stack.last(), stack: s.stack.drop_last(), ..s })
            }
        } else {
            Err(Fault::DecodeFault)
        }
    } else if family == 0x1 {
        Ok(MachineState { pc: nnn, ..s })
    } else if family == 0x2 {
        Ok(MachineState { pc: nnn, stack: s.stack.push(moved(s.pc, 2)), ..s })
    } else if family == 0x3 {
        Ok(skip_if(s, s.v[x] == kk))
    } else if family == 0x4 {
        Ok(skip_if(s, s.v[x] != kk))
    } else if family == 0x5 {
        Ok(skip_if(s, s.v[x] == s.v[y]))
    } else if family == 0x6 {
        Ok(advance(with_register(s, x, kk)))
    } else if family == 0x7 {
        Ok(advance(with_register(s, x, ((s.v[x] + kk) % 256) as u8)))
    } else if family == 0x8 {
        match alu(s.v, x, y, n) {
            Some(v) => Ok(advance(MachineState { v, ..s })),
            None => Err(Fault::DecodeFault),
        }
    } else if family == 0x9 {
        Ok(skip_if(s, s.v[x] != s.v[y]))
    } else if family == 0xA {
        Ok(advance(MachineState { i: nnn, ..s }))
    } else if family == 0xB {
        Ok(MachineState { pc: (nnn + s.v[0]) as u16, ..s })
    } else if family == 0xC {
        Ok(advance(with_register(s, x, random & kk)))
    } else if family == 0xD {
        draw(s, x, y, n)
    } else if family == 0xE {
        if kk == 0x9E {
            Ok(skip_if(s, pressed(s.keys, s.v[x] as int)))
        } else if kk == 0xA1 {
            Ok(skip_if(s, !pressed(s.keys, s.v[x] as int)))
        } else {
            Err(Fault::DecodeFault)
        }
    } else {
        misc(s, x, kk)
    }
}

/// `s` with each timer that is not zero one lower.
pub open spec fn tick(s: MachineState) -> MachineState {
    MachineState {
        dt: if s.dt > 0 { (s.dt - 1) as u8 } else { 0u8 },
        st: if s.st > 0 { (s.st - 1) as u8 } else { 0u8 },
        ..s
    }
}

/// The state after one executed instruction: what the instruction does, and
/// one tick of the timers after it. A fault leaves no successor state.
pub open spec fn execute(s: MachineState, op: u16, random: u8) -> Result<MachineState, Fault> {
    match apply(s, op, random) {
        Ok(next) => Ok(tick(next)),
        Err(fault) => Err(fault),
    }
}

/// The instruction word at the program counter, high byte first, or the fault
/// that reading it raises.
pub open spec fn fetch(s: MachineState) -> Result<u16, Fault> {
    match read_slice_spec(s.memory, s.pc as int, 2) {
        Ok(bytes) => Ok(big_endian(bytes[0], bytes[1])),
        Err(fault) => Err(fault),
    }
}

/// The state after one fetch and execute.
pub open spec fn step(s: MachineState, random: u8) -> Result<MachineState, Fault> {
    match fetch(s) {
        Ok(op) => execute(s, op, random),
        Err(fault) => Err(fault),
    }
}

/// Whether `steps` cycles of fetch and execute can lead from `start` to
/// `end`, whatever bytes the random source hands out on the way.
pub open spec fn runs_to(start: MachineState, end: MachineState, steps: nat) -> bool
    decreases steps,
{
    if steps == 0 {
        end == start
    } else {
        exists|middle: MachineState, random: u8|
            runs_to(start, middle, (steps - 1) as nat) && #[trigger] step(middle, random) == Ok::<
                MachineState,
                Fault,
            >(end)
    }
}

/// Whether an operation that went from `before` to `after` and answered
/// `answer` did what `expected` asks: on success the machine is in the
/// expected state; on a fault the fault is reported and the machine is as it
/// was.
pub open spec fn outcome(
    before: MachineState,
    expected: Result<MachineState, Fault>,
    after: MachineState,
    answer: Result<(), Fault>,
) -> bool {
    match expected {
        Ok(next) => answer is Ok && after == next,
        Err(fault) => answer == Err::<(), Fault>(fault) && after == before,
    }
}

/// A register index taken from an instruction is below sixteen.
pub proof fn lemma_register_indices(op: u16)
    ensures
        op_x(op) < 16,
        op_y(op) < 16,
        op_n(op) < 16,
        op_family(op) < 16,
        op_nnn(op) < 0x1000,
{
    assert(((op & 0x0F00) >> 8) < 16 && ((op & 0x00F0) >> 4) < 16 && (op & 0x000F) < 16 && ((op & 0xF000)
        >> 12) < 16 && (op & 0x0FFF) < 0x1000) by (bit_vector);
}

/// `ADD Vx, Vy` with `x` other than `F`: `VF` is 1 if the sum of the two
/// registers exceeds 255 and 0 if it does not, and `Vx` holds the low eight
/// bits of the sum.
pub proof fn law_add_sets_carry(s: MachineState, op: u16, random: u8)
    requires
        valid(s),
        op_family(op) == 0x8,
        op_n(op) == 0x4,
        op_x(op) != 0xF,
    ensures
        execute(s, op, random) is Ok,
        execute(s, op, random)->Ok_0.v[0xF] == flag(s.v[op_x(op) as int] + s.v[op_y(op) as int] > 255),
        execute(s, op, random)->Ok_0.v[op_x(op) as int] == (s.v[op_x(op) as int] + s.v[op_y(op) as int])
            % 256,
{
    lemma_register_indices(op);
}

/// `SUB Vx, Vy` with `x` other than `F`: `VF` is 1 if `Vx` was greater than
/// `Vy` and 0 if it was not, equal registers included, and `Vx` holds the
/// difference, which wraps where `Vx` was the smaller.
pub proof fn law_sub_sets_no_borrow(s: MachineState, op: u16, random: u8)
    requires
        valid(s),
        op_family(op) == 0x8,
        op_n(op) == 0x5,
        op_x(op) != 0xF,
    ensures
        execute(s, op, random) is Ok,
        execute(s, op, random)->Ok_0.v[0xF] == flag(s.v[op_x(op) as int] > s.v[op_y(op) as int]),
        s.v[op_x(op) as int] > s.v[op_y(op) as int] ==> execute(s, op, random)->Ok_0.v[op_x(op) as int]
            == s.v[op_x(op) as int] - s.v[op_y(op) as int],
        execute(s, op, random)->Ok_0.v[op_x(op) as int] == (s.v[op_x(op) as int] - s.v[op_y(
            op,
        ) as int]) % 256,
{
    lemma_register_indices(op);
}

/// A jump puts its address operand into the program counter and changes
/// nothing else but the timers, which tick; with both timers at zero nothing
/// else changes at all.
pub proof fn law_jump_moves_only_the_program_counter(s: MachineState, op: u16, random: u8)
    requires
        op_family(op) == 0x1,
    ensures
        execute(s, op, random) == Ok::<MachineState, Fault>(tick(MachineState { pc: op_nnn(op), ..s })),
        s.dt == 0 && s.st == 0 ==> execute(s, op, random) == Ok::<MachineState, Fault>(
            MachineState { pc: op_nnn(op), ..s },
        ),
{
}

/// A call pushes the address of the instruction after it and jumps to its
/// address operand; a return that follows pops that address into the program
/// counter and leaves the stack as it was before the call.
pub proof fn law_return_undoes_call(s: MachineState, call: u16, ret: u16, first: u8, second: u8)
    requires
        op_family(call) == 0x2,
        op_family(ret) == 0x0,
        op_kk(ret) == 0xEE,
    ensures
        execute(s, call, first) is Ok,
        execute(s, call, first)->Ok_0.pc == op_nnn(call),
        execute(s, call, first)->Ok_0.stack == s.stack.push(moved(s.pc, 2)),
        execute(execute(s, call, first)->Ok_0, ret, second) is Ok,
        execute(execute(s, call, first)->Ok_0, ret, second)->Ok_0.pc == moved(s.pc, 2),
        execute(execute(s, call, first)->Ok_0, ret, second)->Ok_0.stack == s.stack,
{
    let called = execute(s, call, first)->Ok_0;
    assert(called.stack.drop_last() =~= s.stack);
}

/// Only an instruction of family `C` reads the random byte.
pub proof fn law_random_only_in_family_c(s: MachineState, op: u16, first: u8, second: u8)
    requires
        op_family(op) != 0xC,
    ensures
        execute(s, op, first) == execute(s, op, second),
{
}

/// An executed instruction leaves a valid machine valid.
pub proof fn law_execute_keeps_valid(s: MachineState, op: u16, random: u8)
    requires
        valid(s),
        execute(s, op, random) is Ok,
    ensures
        valid(execute(s, op, random)->Ok_0),
{
    lemma_register_indices(op);
    let x = op_x(op) as int;
    let y = op_y(op) as int;
    if op_family(op) == 0xD {
        let sprite = read_slice_spec(s.memory, s.i as int, op_n(op) as int)->Ok_0;
        crate::display::lemma_blit_is_picture(s.pixels, s.v[x] as int, s.v[y] as int, sprite);
    }
}

/// Neither timer ever rises but by the instruction that sets it: after any
/// other instruction each timer is one lower, or zero as before.
pub proof fn law_timers_count_down(s: MachineState, op: u16, random: u8)
    requires
        execute(s, op, random) is Ok,
        !(op_family(op) == 0xF && op_kk(op) == 0x15),
    ensures
        execute(s, op, random)->Ok_0.dt == (if s.dt > 0 { s.dt - 1 } else { 0 }),
        execute(s, op, random)->Ok_0.st == (if s.st > 0 { s.st - 1 } else { 0 }),
{
    lemma_register_indices(op);
}

} // verus!
