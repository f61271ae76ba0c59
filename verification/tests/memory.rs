use chip8_core::fault::Fault;
use chip8_core::memory::Memory;
use chip8_core::memory::MEMORY_SIZE;

#[test]
fn read_write() {
    let mut mem = Memory::new();

    mem.write_byte(0, 1).unwrap();
    mem.write_slice(2, &[1, 2, 3, 4, 5]).unwrap();
    mem.set(8, 4, 9).unwrap();

    assert_eq!(mem.read_slice(0, 12).unwrap(), &[1, 0, 1, 2, 3, 4, 5, 0, 9, 9, 9, 9]);
}

#[test]
fn new_memory_is_zero() {
    let mem = Memory::new();
    assert_eq!(MEMORY_SIZE, 4096);
    assert!(mem.read_slice(0, 4096).unwrap().iter().all(|b| *b == 0));
}

#[test]
fn byte_written_is_byte_read() {
    let mut mem = Memory::new();
    for address in [0usize, 1, 0x1FF, 0x200, 4095] {
        mem.write_byte(address, 0xAB).unwrap();
        assert_eq!(mem.read_byte(address), Ok(0xAB));
    }
    assert_eq!(mem.read_byte(2), Ok(0));
}

#[test]
fn access_beyond_the_end_faults() {
    let mut mem = Memory::new();
    assert_eq!(mem.read_byte(4096), Err(Fault::AddressFault));
    assert_eq!(mem.write_byte(4096, 1), Err(Fault::AddressFault));
    assert_eq!(mem.read_slice(4095, 2), Err(Fault::AddressFault));
    assert_eq!(mem.read_slice(4097, 0), Err(Fault::AddressFault));
    assert_eq!(mem.read_slice(usize::MAX, 2), Err(Fault::AddressFault));
    assert_eq!(mem.write_slice(4094, &[1, 2, 3]), Err(Fault::AddressFault));
    assert_eq!(mem.set(4000, 97, 7), Err(Fault::AddressFault));
    assert_eq!(mem.set(1, usize::MAX, 7), Err(Fault::AddressFault));
    assert!(mem.read_slice(0, 4096).unwrap().iter().all(|b| *b == 0));
}

#[test]
fn access_up_to_the_end_succeeds() {
    let mut mem = Memory::new();
    assert_eq!(mem.write_slice(4094, &[1, 2]), Ok(()));
    assert_eq!(mem.set(4092, 2, 7), Ok(()));
    assert_eq!(mem.read_slice(4092, 4).unwrap(), &[7, 7, 1, 2]);
    let empty: &[u8] = &[];
    assert_eq!(mem.read_slice(4096, 0).unwrap(), empty);
    assert_eq!(mem.write_slice(4096, &[]), Ok(()));
}

#[test]
fn font_fills_the_first_eighty_bytes() {
    let mut mem = Memory::new();
    mem.write_byte(80, 0x55).unwrap();
    mem.load_font();
    assert_eq!(mem.read_slice(0, 5).unwrap(), &[0xF0, 0x90, 0x90, 0x90, 0xF0]);
    assert_eq!(mem.read_slice(5, 5).unwrap(), &[0x20, 0x60, 0x20, 0x20, 0x70]);
    assert_eq!(mem.read_slice(50, 5).unwrap(), &[0xF0, 0x90, 0xF0, 0x90, 0x90]);
    assert_eq!(mem.read_slice(75, 5).unwrap(), &[0xF0, 0x80, 0xF0, 0x80, 0x80]);
    assert_eq!(mem.read_byte(80), Ok(0x55));
}

#[test]
fn default_memory_holds_the_font() {
    let mem = Memory::default();
    assert_eq!(mem.read_slice(0, 5).unwrap(), &[0xF0, 0x90, 0x90, 0x90, 0xF0]);
    assert!(mem.read_slice(80, 4016).unwrap().iter().all(|b| *b == 0));
}
