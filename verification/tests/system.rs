use chip8_core::fault::Fault;
use chip8_core::system::draw_screen;
use chip8_core::system::System;

#[test]
fn new_system_is_in_the_initial_state() {
    let system = System::new().unwrap();
    assert_eq!(system.cpu().pc(), 0x200);
    assert_eq!(system.get_screen().len(), 2048);
    assert!(system.get_screen().iter().all(|p| *p == 0));
}

#[test]
fn program_goes_to_the_entry_point() {
    let mut system = System::new().unwrap();
    assert_eq!(system.load_rom(&vec![0x61, 0x2A, 0x13, 0x00]), Ok(()));
    assert_eq!(system.cpu().memory().read_slice(0x200, 4).unwrap(), &[0x61, 0x2A, 0x13, 0x00]);
    assert_eq!(system.execute(), Ok(()));
    assert_eq!(system.cpu().read_vx(1), 0x2A);
    assert_eq!(system.execute(), Ok(()));
    assert_eq!(system.cpu().pc(), 0x300);
    assert_eq!(system.execute(), Err(Fault::DecodeFault));
}

#[test]
fn oversized_program_faults() {
    let mut system = System::new().unwrap();
    assert_eq!(system.load_rom(&vec![1u8; 3585]), Err(Fault::AddressFault));
    assert_eq!(system.cpu().memory().read_byte(0x200), Ok(0));
    assert_eq!(system.load_rom(&vec![1u8; 3584]), Ok(()));
}

#[test]
fn keys_are_replaced_at_once() {
    let mut system = System::new().unwrap();
    let mut held = [false; 16];
    held[0xC] = true;
    system.update_keys(&held);
    assert_eq!(system.cpu().keyboard().get_pressed(), Some(0xC));
    system.update_keys(&[false; 16]);
    assert_eq!(system.cpu().keyboard().get_pressed(), None);
}

#[test]
fn frame_gets_four_bytes_per_pixel() {
    let mut system = System::new().unwrap();
    system.load_rom(&vec![0xD0, 0x05]).unwrap();
    system.execute().unwrap();
    let mut frame = vec![0x77u8; 2048 * 4];
    draw_screen(&mut frame, &system);
    assert_eq!(&frame[..20], &[0xFF; 16].iter().chain([0u8; 4].iter()).copied().collect::<Vec<u8>>()[..]);
    assert_eq!(&frame[64 * 4..64 * 4 + 8], &[0xFF, 0xFF, 0xFF, 0xFF, 0, 0, 0, 0]);
    assert!(frame[5 * 64 * 4..].iter().all(|b| *b == 0));
}

#[test]
fn short_frame_keeps_its_odd_bytes() {
    let mut system = System::new().unwrap();
    system.load_rom(&vec![0xD0, 0x05]).unwrap();
    system.execute().unwrap();
    let mut frame = vec![0x77u8; 10];
    draw_screen(&mut frame, &system);
    assert_eq!(frame, vec![0xFF, 0xFF, 0xFF, 0xFF, 0xFF, 0xFF, 0xFF, 0xFF, 0x77, 0x77]);
}
