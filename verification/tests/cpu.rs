use chip8_core::cpu::Cpu;
use chip8_core::fault::Fault;
use chip8_core::isa::decode_family;
use chip8_core::isa::decode_kk;
use chip8_core::isa::decode_n;
use chip8_core::isa::decode_nnn;
use chip8_core::isa::decode_x;
use chip8_core::isa::decode_y;
use chip8_core::isa::ENTRY_POINT;
use rand::rngs::StdRng;
use rand::SeedableRng;

fn registers(cpu: &Cpu) -> Vec<u8> {
    (0u8..16).map(|x| cpu.read_vx(x)).collect()
}

fn lit(cpu: &Cpu) -> Vec<usize> {
    cpu.display().get().iter().enumerate().filter(|(_, p)| **p != 0).map(|(i, _)| i).collect()
}

fn run(cpu: &mut Cpu, program: &[u16]) {
    for word in program {
        cpu.execute(*word).unwrap();
    }
}

#[test]
fn new_cpu_is_in_the_initial_state() {
    let cpu = Cpu::new().unwrap();
    assert_eq!(ENTRY_POINT, 0x200);
    assert_eq!(cpu.pc(), 0x200);
    assert_eq!(cpu.index(), 0);
    assert_eq!(cpu.delay_timer(), 0);
    assert_eq!(cpu.sound_timer(), 0);
    assert!(cpu.stack().is_empty());
    assert_eq!(registers(&cpu), vec![0; 16]);
    assert_eq!(cpu.memory().read_slice(0, 5).unwrap(), &[0xF0, 0x90, 0x90, 0x90, 0xF0]);
    assert!(cpu.memory().read_slice(80, 4016).unwrap().iter().all(|b| *b == 0));
    assert!(lit(&cpu).is_empty());
    assert_eq!(cpu.keyboard().get_pressed(), None);
}

#[test]
fn fields_are_cut_out_of_the_word() {
    assert_eq!(decode_family(0xD123), 0xD);
    assert_eq!(decode_x(0xD123), 0x1);
    assert_eq!(decode_y(0xD123), 0x2);
    assert_eq!(decode_n(0xD123), 0x3);
    assert_eq!(decode_kk(0xD123), 0x23);
    assert_eq!(decode_nnn(0xD123), 0x123);
    assert_eq!(decode_nnn(0xFFFF), 0xFFF);
}

#[test]
fn fetch_reads_the_high_byte_first() {
    let mut cpu = Cpu::new().unwrap();
    cpu.load(0x200, &[0x12, 0x34]).unwrap();
    assert_eq!(cpu.fetch(), Ok(0x1234));
    assert_eq!(cpu.pc(), 0x200);
    cpu.load(0x200, &[0x00, 0xE0]).unwrap();
    assert_eq!(cpu.fetch(), Ok(0x00E0));
}

#[test]
fn fetch_beyond_memory_faults() {
    let mut cpu = Cpu::new().unwrap();
    cpu.execute(0x1FFF).unwrap();
    assert_eq!(cpu.pc(), 0xFFF);
    assert_eq!(cpu.fetch(), Err(Fault::AddressFault));
    assert_eq!(cpu.step(), Err(Fault::AddressFault));
    assert_eq!(cpu.pc(), 0xFFF);
    cpu.execute(0x1FFE).unwrap();
    assert_eq!(cpu.fetch(), Ok(0));
}

#[test]
fn jump_sets_the_program_counter_and_nothing_else() {
    let mut cpu = Cpu::new().unwrap();
    cpu.load(0x200, &[0x13, 0x00]).unwrap();
    let memory_before = cpu.memory().read_slice(0, 4096).unwrap().to_vec();
    assert_eq!(cpu.step(), Ok(()));
    assert_eq!(cpu.pc(), 0x300);
    assert_eq!(cpu.index(), 0);
    assert_eq!(cpu.delay_timer(), 0);
    assert_eq!(cpu.sound_timer(), 0);
    assert!(cpu.stack().is_empty());
    assert_eq!(registers(&cpu), vec![0; 16]);
    assert_eq!(cpu.memory().read_slice(0, 4096).unwrap(), &memory_before[..]);
    assert!(lit(&cpu).is_empty());
}

#[test]
fn call_pushes_the_return_address_and_return_pops_it() {
    let mut cpu = Cpu::new().unwrap();
    assert_eq!(cpu.execute(0x2300), Ok(()));
    assert_eq!(cpu.pc(), 0x300);
    assert_eq!(cpu.stack(), &[0x202]);
    assert_eq!(cpu.execute(0x2400), Ok(()));
    assert_eq!(cpu.stack(), &[0x202, 0x302]);
    assert_eq!(cpu.execute(0x00EE), Ok(()));
    assert_eq!(cpu.pc(), 0x302);
    assert_eq!(cpu.execute(0x00EE), Ok(()));
    assert_eq!(cpu.pc(), 0x202);
    assert!(cpu.stack().is_empty());
}

#[test]
fn return_on_an_empty_stack_underflows() {
    let mut cpu = Cpu::new().unwrap();
    assert_eq!(cpu.execute(0x00EE), Err(Fault::StackUnderflow));
    assert_eq!(cpu.pc(), 0x200);
}

#[test]
fn unknown_words_are_decode_faults() {
    for word in [0x0000u16, 0x00E1, 0x8008, 0x800F, 0xE000, 0xE19F, 0xF000, 0xF018, 0xF0FF] {
        let mut cpu = Cpu::new().unwrap();
        cpu.execute(0x6A07).unwrap();
        cpu.execute(0xFA15).unwrap();
        assert_eq!(cpu.execute(word), Err(Fault::DecodeFault));
        assert_eq!(cpu.pc(), 0x204);
        assert_eq!(cpu.delay_timer(), 6);
        assert_eq!(cpu.read_vx(0xA), 7);
    }
}

#[test]
fn bcd_program_stores_three_digits() {
    let mut cpu = Cpu::new().unwrap();
    run(&mut cpu, &[0xA300, 0x1200]);
    assert_eq!(cpu.index(), 0x300);
    assert_eq!(cpu.pc(), 0x200);
    cpu.load(0x200, &[0x60, 0x05, 0x70, 0x03, 0xF0, 0x33]).unwrap();
    for _ in 0..3 {
        assert_eq!(cpu.step(), Ok(()));
    }
    assert_eq!(cpu.read_vx(0), 8);
    assert_eq!(cpu.pc(), 0x206);
    assert_eq!(cpu.memory().read_slice(0x300, 3).unwrap(), &[0, 0, 8]);
}

#[test]
fn bcd_splits_hundreds_tens_and_ones() {
    let mut cpu = Cpu::new().unwrap();
    run(&mut cpu, &[0xA400, 0x63FE, 0xF333]);
    assert_eq!(cpu.memory().read_slice(0x400, 3).unwrap(), &[2, 5, 4]);
    assert_eq!(cpu.index(), 0x400);
}

#[test]
fn skips_compare_register_and_byte() {
    let mut cpu = Cpu::new().unwrap();
    run(&mut cpu, &[0x6122]);
    cpu.execute(0x3122).unwrap();
    assert_eq!(cpu.pc(), 0x206);
    cpu.execute(0x3123).unwrap();
    assert_eq!(cpu.pc(), 0x208);
    cpu.execute(0x4122).unwrap();
    assert_eq!(cpu.pc(), 0x20A);
    cpu.execute(0x4123).unwrap();
    assert_eq!(cpu.pc(), 0x20E);
}

#[test]
fn skips_compare_two_registers() {
    let mut cpu = Cpu::new().unwrap();
    run(&mut cpu, &[0x6122, 0x6222, 0x6301]);
    cpu.execute(0x5120).unwrap();
    assert_eq!(cpu.pc(), 0x20A);
    cpu.execute(0x5130).unwrap();
    assert_eq!(cpu.pc(), 0x20C);
    cpu.execute(0x9120).unwrap();
    assert_eq!(cpu.pc(), 0x20E);
    cpu.execute(0x9130).unwrap();
    assert_eq!(cpu.pc(), 0x212);
}

#[test]
fn add_byte_wraps_without_a_flag() {
    let mut cpu = Cpu::new().unwrap();
    run(&mut cpu, &[0x61F0, 0x7120]);
    assert_eq!(cpu.read_vx(1), 0x10);
    assert_eq!(cpu.read_vx(0xF), 0);
}

#[test]
fn logic_instructions_combine_bits() {
    let mut cpu = Cpu::new().unwrap();
    run(&mut cpu, &[0x61CC, 0x62AA, 0x8310, 0x8321, 0x8410, 0x8422, 0x8510, 0x8523]);
    assert_eq!(cpu.read_vx(3), 0xEE);
    assert_eq!(cpu.read_vx(4), 0x88);
    assert_eq!(cpu.read_vx(5), 0x66);
    run(&mut cpu, &[0x8620]);
    assert_eq!(cpu.read_vx(6), 0xAA);
}

#[test]
fn add_sets_carry_when_the_sum_exceeds_a_byte() {
    let mut cpu = Cpu::new().unwrap();
    run(&mut cpu, &[0x61C8, 0x6264, 0x8124]);
    assert_eq!(cpu.read_vx(1), 44);
    assert_eq!(cpu.read_vx(0xF), 1);
    run(&mut cpu, &[0x6164, 0x629B, 0x8124]);
    assert_eq!(cpu.read_vx(1), 255);
    assert_eq!(cpu.read_vx(0xF), 0);
    run(&mut cpu, &[0x6201, 0x8124]);
    assert_eq!(cpu.read_vx(1), 0);
    assert_eq!(cpu.read_vx(0xF), 1);
}

#[test]
fn add_into_the_flag_register_keeps_the_sum() {
    let mut cpu = Cpu::new().unwrap();
    run(&mut cpu, &[0x6FC8, 0x6264, 0x8F24]);
    assert_eq!(cpu.read_vx(0xF), 44);
}

#[test]
fn sub_sets_the_flag_only_when_strictly_greater() {
    let mut cpu = Cpu::new().unwrap();
    run(&mut cpu, &[0x6105, 0x6203, 0x8125]);
    assert_eq!(cpu.read_vx(1), 2);
    assert_eq!(cpu.read_vx(0xF), 1);
    run(&mut cpu, &[0x6105, 0x6205, 0x8125]);
    assert_eq!(cpu.read_vx(1), 0);
    assert_eq!(cpu.read_vx(0xF), 0);
    run(&mut cpu, &[0x6103, 0x6205, 0x8125]);
    assert_eq!(cpu.read_vx(1), 254);
    assert_eq!(cpu.read_vx(0xF), 0);
}

#[test]
fn subn_subtracts_the_other_way_round() {
    let mut cpu = Cpu::new().unwrap();
    run(&mut cpu, &[0x6103, 0x6205, 0x8127]);
    assert_eq!(cpu.read_vx(1), 2);
    assert_eq!(cpu.read_vx(2), 5);
    assert_eq!(cpu.read_vx(0xF), 1);
    run(&mut cpu, &[0x6105, 0x6203, 0x8127]);
    assert_eq!(cpu.read_vx(1), 254);
    assert_eq!(cpu.read_vx(0xF), 0);
}

#[test]
fn shifts_move_the_lost_bit_into_the_flag() {
    let mut cpu = Cpu::new().unwrap();
    run(&mut cpu, &[0x6105, 0x62FF, 0x8126]);
    assert_eq!(cpu.read_vx(1), 2);
    assert_eq!(cpu.read_vx(2), 0xFF);
    assert_eq!(cpu.read_vx(0xF), 1);
    run(&mut cpu, &[0x8126]);
    assert_eq!(cpu.read_vx(1), 1);
    assert_eq!(cpu.read_vx(0xF), 0);
    run(&mut cpu, &[0x6181, 0x812E]);
    assert_eq!(cpu.read_vx(1), 0x02);
    assert_eq!(cpu.read_vx(0xF), 1);
    run(&mut cpu, &[0x812E]);
    assert_eq!(cpu.read_vx(1), 0x04);
    assert_eq!(cpu.read_vx(0xF), 0);
}

#[test]
fn jump_with_offset_adds_the_first_register() {
    let mut cpu = Cpu::new().unwrap();
    run(&mut cpu, &[0x6010, 0xB300]);
    assert_eq!(cpu.pc(), 0x310);
    run(&mut cpu, &[0x60FF, 0xBFFF]);
    assert_eq!(cpu.pc(), 0x10FE);
}

#[test]
fn random_byte_is_masked() {
    let mut cpu = Cpu::new().unwrap();
    for _ in 0..64 {
        cpu.execute(0xC10F).unwrap();
        assert_eq!(cpu.read_vx(1) & 0xF0, 0);
        cpu.execute(0xC200).unwrap();
        assert_eq!(cpu.read_vx(2), 0);
    }
    assert_eq!(cpu.pc(), 0x200 + 2 * 128);
}

#[test]
fn seeded_sources_repeat_themselves() {
    let mut first = Cpu::with_seed(42);
    let mut second = Cpu::with_seed(42);
    let mut seen = Vec::new();
    for _ in 0..32 {
        first.execute(0xC0FF).unwrap();
        second.execute(0xC0FF).unwrap();
        assert_eq!(first.read_vx(0), second.read_vx(0));
        seen.push(first.read_vx(0));
    }
    assert!(seen.iter().any(|b| *b != seen[0]));
}

#[test]
fn injected_random_byte_is_used() {
    let mut cpu = Cpu::new().unwrap();
    cpu.execute_with(0xC13C, 0xA5).unwrap();
    assert_eq!(cpu.read_vx(1), 0x24);
    assert_eq!(cpu.pc(), 0x202);
    cpu.execute_with(0x6277, 0xA5).unwrap();
    assert_eq!(cpu.read_vx(2), 0x77);
}

#[test]
fn draw_sets_the_flag_on_erasure() {
    let mut cpu = Cpu::new().unwrap();
    run(&mut cpu, &[0x6003, 0x6102, 0x6A00, 0xFA29, 0xD015]);
    assert_eq!(cpu.index(), 0);
    assert_eq!(cpu.read_vx(0xF), 0);
    assert_eq!(lit(&cpu).len(), 14);
    assert_eq!(lit(&cpu)[0], 2 * 64 + 3);
    run(&mut cpu, &[0xD015]);
    assert_eq!(cpu.read_vx(0xF), 1);
    assert!(lit(&cpu).is_empty());
    assert_eq!(cpu.pc(), 0x20C);
}

#[test]
fn draw_beyond_memory_faults() {
    let mut cpu = Cpu::new().unwrap();
    run(&mut cpu, &[0xAFFF]);
    assert_eq!(cpu.execute(0xD012), Err(Fault::AddressFault));
    assert_eq!(cpu.pc(), 0x202);
    assert_eq!(cpu.execute(0xD011), Ok(()));
    assert_eq!(cpu.pc(), 0x204);
}

#[test]
fn clear_screen_darkens_the_display() {
    let mut cpu = Cpu::new().unwrap();
    run(&mut cpu, &[0xD005]);
    assert!(!lit(&cpu).is_empty());
    run(&mut cpu, &[0x00E0]);
    assert!(lit(&cpu).is_empty());
    assert_eq!(cpu.pc(), 0x204);
}

#[test]
fn key_skips_follow_the_keypad() {
    let mut cpu = Cpu::new().unwrap();
    run(&mut cpu, &[0x6107]);
    cpu.execute(0xE19E).unwrap();
    assert_eq!(cpu.pc(), 0x204);
    cpu.execute(0xE1A1).unwrap();
    assert_eq!(cpu.pc(), 0x208);
    cpu.set_key_state(7, true);
    cpu.execute(0xE19E).unwrap();
    assert_eq!(cpu.pc(), 0x20C);
    cpu.execute(0xE1A1).unwrap();
    assert_eq!(cpu.pc(), 0x20E);
}

#[test]
fn key_skips_treat_large_numbers_as_no_key() {
    let mut cpu = Cpu::new().unwrap();
    cpu.update_keys(&[true; 16]);
    run(&mut cpu, &[0x6110]);
    cpu.execute(0xE19E).unwrap();
    assert_eq!(cpu.pc(), 0x204);
    cpu.execute(0xE1A1).unwrap();
    assert_eq!(cpu.pc(), 0x208);
}

#[test]
fn key_wait_holds_the_program_counter() {
    let mut cpu = Cpu::new().unwrap();
    run(&mut cpu, &[0x6305, 0xF315]);
    cpu.execute(0xF10A).unwrap();
    cpu.execute(0xF10A).unwrap();
    assert_eq!(cpu.pc(), 0x204);
    assert_eq!(cpu.delay_timer(), 2);
    assert_eq!(cpu.read_vx(1), 0);
    cpu.set_key_state(0xB, true);
    cpu.set_key_state(0xC, true);
    cpu.execute(0xF10A).unwrap();
    assert_eq!(cpu.pc(), 0x206);
    assert_eq!(cpu.read_vx(1), 0xB);
}

#[test]
fn delay_timer_counts_down_once_per_instruction() {
    let mut cpu = Cpu::new().unwrap();
    run(&mut cpu, &[0x6103, 0xF115]);
    assert_eq!(cpu.delay_timer(), 2);
    run(&mut cpu, &[0xF207]);
    assert_eq!(cpu.read_vx(2), 2);
    assert_eq!(cpu.delay_timer(), 1);
    run(&mut cpu, &[0x6000]);
    assert_eq!(cpu.delay_timer(), 0);
    run(&mut cpu, &[0x6000]);
    assert_eq!(cpu.delay_timer(), 0);
    assert_eq!(cpu.sound_timer(), 0);
}

#[test]
fn tick_lowers_a_running_timer() {
    let mut cpu = Cpu::new().unwrap();
    run(&mut cpu, &[0x6105, 0xF115]);
    cpu.tick();
    assert_eq!(cpu.delay_timer(), 3);
    assert_eq!(cpu.sound_timer(), 0);
    assert_eq!(cpu.pc(), 0x204);
}

#[test]
fn index_addition_wraps_at_sixteen_bits() {
    let mut cpu = Cpu::new().unwrap();
    run(&mut cpu, &[0xAFFF, 0x60FF]);
    for _ in 0..241 {
        cpu.execute(0xF01E).unwrap();
    }
    assert_eq!(cpu.index(), 14);
    run(&mut cpu, &[0x6003, 0xF01E]);
    assert_eq!(cpu.index(), 17);
}

#[test]
fn glyph_address_is_five_times_the_digit() {
    let mut cpu = Cpu::new().unwrap();
    run(&mut cpu, &[0x610A, 0xF129]);
    assert_eq!(cpu.index(), 50);
    run(&mut cpu, &[0x61FF, 0xF129]);
    assert_eq!(cpu.index(), 1275);
}

#[test]
fn registers_are_stored_and_loaded_in_a_block() {
    let mut cpu = Cpu::new().unwrap();
    run(&mut cpu, &[0x6011, 0x6122, 0x6233, 0x6344, 0xA300, 0xF255]);
    assert_eq!(cpu.memory().read_slice(0x300, 4).unwrap(), &[0x11, 0x22, 0x33, 0]);
    assert_eq!(cpu.index(), 0x300);
    run(&mut cpu, &[0x6000, 0x6100, 0x6200, 0x6300, 0xF165]);
    assert_eq!(&registers(&cpu)[..4], &[0x11, 0x22, 0, 0]);
    assert_eq!(cpu.index(), 0x300);
}

#[test]
fn block_store_beyond_memory_faults_and_stores_nothing() {
    let mut cpu = Cpu::new().unwrap();
    run(&mut cpu, &[0x6011, 0x6122, 0xAFFF]);
    assert_eq!(cpu.execute(0xF155), Err(Fault::AddressFault));
    assert_eq!(cpu.memory().read_byte(0xFFF), Ok(0));
    assert_eq!(cpu.execute(0xF165), Err(Fault::AddressFault));
    assert_eq!(cpu.execute(0xF033), Err(Fault::AddressFault));
    assert_eq!(cpu.pc(), 0x206);
    assert_eq!(cpu.execute(0xF055), Ok(()));
    assert_eq!(cpu.memory().read_byte(0xFFF), Ok(0x11));
}

#[test]
fn register_access_reads_what_was_written() {
    let mut cpu = Cpu::new().unwrap();
    cpu.write_vx(0xE, 0x5A);
    assert_eq!(cpu.read_vx(0xE), 0x5A);
    assert_eq!(cpu.read_vx(0xD), 0);
    assert_eq!(cpu.pc(), 0x200);
}

#[test]
fn step_with_runs_the_instruction_at_the_program_counter() {
    let mut cpu = Cpu::new().unwrap();
    cpu.load(0x200, &[0xC1, 0xF0, 0x12, 0x00]).unwrap();
    assert_eq!(cpu.step_with(0xFF), Ok(()));
    assert_eq!(cpu.read_vx(1), 0xF0);
    assert_eq!(cpu.step_with(0), Ok(()));
    assert_eq!(cpu.pc(), 0x200);
}

#[test]
fn reset_restores_the_initial_state() {
    let mut cpu = Cpu::new().unwrap();
    cpu.load(0x200, &[1, 2, 3]).unwrap();
    cpu.load(0, &[0; 80]).unwrap();
    cpu.set_key_state(3, true);
    run(&mut cpu, &[0x61FF, 0xF115, 0x2400, 0xA123, 0xD115]);
    cpu.reset();
    assert_eq!(cpu.pc(), 0x200);
    assert_eq!(cpu.index(), 0);
    assert_eq!(cpu.delay_timer(), 0);
    assert!(cpu.stack().is_empty());
    assert_eq!(registers(&cpu), vec![0; 16]);
    assert_eq!(cpu.memory().read_slice(0, 5).unwrap(), &[0xF0, 0x90, 0x90, 0x90, 0xF0]);
    assert_eq!(cpu.memory().read_slice(0x200, 3).unwrap(), &[0, 0, 0]);
    assert!(lit(&cpu).is_empty());
    assert_eq!(cpu.keyboard().get_pressed(), None);
}

#[test]
fn assembled_cpu_is_in_the_initial_state() {
    let cpu = Cpu::assemble(StdRng::seed_from_u64(1));
    assert_eq!(cpu.pc(), 0x200);
    assert_eq!(cpu.index(), 0);
    assert!(cpu.stack().is_empty());
    assert_eq!(registers(&cpu), vec![0; 16]);
    assert_eq!(cpu.memory().read_slice(0, 5).unwrap(), &[0xF0, 0x90, 0x90, 0x90, 0xF0]);
    assert!(lit(&cpu).is_empty());
}

#[test]
fn assembled_cpu_draws_from_the_source_it_was_given() {
    let mut source = StdRng::seed_from_u64(99);
    let expected: Vec<u8> = (0..32).map(|_| rand::Rng::gen_range(&mut source, 0..=255)).collect();
    let mut cpu = Cpu::assemble(StdRng::seed_from_u64(99));
    let mut drawn = Vec::new();
    for _ in 0..32 {
        cpu.execute(0xC0FF).unwrap();
        drawn.push(cpu.read_vx(0));
    }
    assert_eq!(drawn, expected);
}

#[test]
fn seed_decides_the_random_bytes() {
    let mut seeded = Cpu::with_seed(7);
    let mut given = Cpu::assemble(StdRng::seed_from_u64(7));
    let mut other = Cpu::with_seed(8);
    let mut first = Vec::new();
    let mut second = Vec::new();
    let mut third = Vec::new();
    for _ in 0..32 {
        seeded.execute(0xC0FF).unwrap();
        given.execute(0xC0FF).unwrap();
        other.execute(0xC0FF).unwrap();
        first.push(seeded.read_vx(0));
        second.push(given.read_vx(0));
        third.push(other.read_vx(0));
    }
    assert_eq!(first, second);
    assert_ne!(first, third);
}
