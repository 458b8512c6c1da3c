use chip8rs::vm::{VmError, VM};

fn pad_none() -> Vec<bool> {
    vec![false; 16]
}

fn pad_with(key: usize) -> Vec<bool> {
    let mut pad = vec![false; 16];
    pad[key] = true;
    pad
}

#[test]
fn test_new_reset_state() {
    let vm = VM::new();
    assert_eq!(vm.pc, 0x200);
    assert_eq!(vm.sp, 0);
    assert_eq!(vm.i, 0);
    assert_eq!(vm.ram.len(), 4096);
    assert_eq!(vm.vram.len(), 2048);
    assert!(vm.ram.iter().all(|&b| b == 0));
    assert!(vm.vram.iter().all(|&p| p == 0));
    assert!(vm.v.iter().all(|&r| r == 0));
    assert_eq!(vm.delay_timer, 0);
    assert_eq!(vm.sound_timer, 0);
    assert!(!vm.keypad_waiting);
    assert_eq!(vm.unknown_count, 0);
}

#[test]
fn test_add_with_carry() {
    let mut vm = VM::new();
    vm.v[0] = 0xFF;
    vm.v[1] = 0x01;
    assert!(vm.run_opcode(0x8014).is_ok());
    assert_eq!(vm.v[0], 0x00);
    assert_eq!(vm.v[15], 1);
    assert_eq!(vm.pc, 0x202);

    let mut vm2 = VM::new();
    vm2.v[0] = 0x10;
    vm2.v[1] = 0x20;
    assert!(vm2.run_opcode(0x8014).is_ok());
    assert_eq!(vm2.v[0], 0x30);
    assert_eq!(vm2.v[15], 0);
}

#[test]
fn test_sub_with_borrow() {
    let mut vm = VM::new();
    vm.v[0] = 0x01;
    vm.v[1] = 0x02;
    assert!(vm.run_opcode(0x8015).is_ok());
    assert_eq!(vm.v[0], 0xFF);
    assert_eq!(vm.v[15], 0);

    let mut vm2 = VM::new();
    vm2.v[0] = 0x05;
    vm2.v[1] = 0x02;
    assert!(vm2.run_opcode(0x8015).is_ok());
    assert_eq!(vm2.v[0], 0x03);
    assert_eq!(vm2.v[15], 1);
}

#[test]
fn test_sub_inv() {
    let mut vm = VM::new();
    vm.v[0] = 0x02;
    vm.v[1] = 0x05;
    assert!(vm.run_opcode(0x8017).is_ok());
    assert_eq!(vm.v[0], 0x03);
    assert_eq!(vm.v[15], 1);

    let mut vm2 = VM::new();
    vm2.v[0] = 0x05;
    vm2.v[1] = 0x02;
    assert!(vm2.run_opcode(0x8017).is_ok());
    assert_eq!(vm2.v[0], 0xFD);
    assert_eq!(vm2.v[15], 0);
}

#[test]
fn test_shifts_capture_bit_first() {
    let mut vm = VM::new();
    vm.v[3] = 0b0000_0101;
    assert!(vm.run_opcode(0x8306).is_ok());
    assert_eq!(vm.v[3], 0b0000_0010);
    assert_eq!(vm.v[15], 1);

    let mut vm2 = VM::new();
    vm2.v[3] = 0b1100_0000;
    assert!(vm2.run_opcode(0x830E).is_ok());
    assert_eq!(vm2.v[3], 0b1000_0000);
    assert_eq!(vm2.v[15], 1);
}

#[test]
fn test_bitwise_ops() {
    let mut vm = VM::new();
    vm.v[1] = 0b1010;
    vm.v[2] = 0b0110;
    assert!(vm.run_opcode(0x8121).is_ok());
    assert_eq!(vm.v[1], 0b1110);
    vm.v[1] = 0b1010;
    assert!(vm.run_opcode(0x8122).is_ok());
    assert_eq!(vm.v[1], 0b0010);
    vm.v[1] = 0b1010;
    assert!(vm.run_opcode(0x8123).is_ok());
    assert_eq!(vm.v[1], 0b1100);
}

#[test]
fn test_load_and_add_k() {
    let mut vm = VM::new();
    assert!(vm.run_opcode(0x60FE).is_ok());
    assert_eq!(vm.v[0], 0xFE);
    assert!(vm.run_opcode(0x7003).is_ok());
    // AddK wraps and leaves VF alone.
    assert_eq!(vm.v[0], 0x01);
    assert_eq!(vm.v[15], 0);
}

#[test]
fn test_skips() {
    let mut vm = VM::new();
    vm.v[4] = 7;
    assert!(vm.run_opcode(0x3407).is_ok());
    assert_eq!(vm.pc, 0x204);
    assert!(vm.run_opcode(0x3408).is_ok());
    assert_eq!(vm.pc, 0x206);
    assert!(vm.run_opcode(0x4408).is_ok());
    assert_eq!(vm.pc, 0x20A);
    vm.v[5] = 7;
    assert!(vm.run_opcode(0x5450).is_ok());
    assert_eq!(vm.pc, 0x20E);
    assert!(vm.run_opcode(0x9450).is_ok());
    assert_eq!(vm.pc, 0x210);
}

#[test]
fn test_jump_call_return() {
    let mut vm = VM::new();
    assert!(vm.run_opcode(0x1ABC).is_ok());
    assert_eq!(vm.pc, 0xABC);
    // Call pushes the address of the next instruction, not the call site.
    assert!(vm.run_opcode(0x2300).is_ok());
    assert_eq!(vm.pc, 0x300);
    assert_eq!(vm.sp, 1);
    assert_eq!(vm.stack[0], 0xABE);
    assert!(vm.run_opcode(0x00EE).is_ok());
    assert_eq!(vm.pc, 0xABE);
    assert_eq!(vm.sp, 0);
}

#[test]
fn test_long_jump() {
    let mut vm = VM::new();
    vm.v[0] = 0x10;
    assert!(vm.run_opcode(0xB200).is_ok());
    assert_eq!(vm.pc, 0x210);
}

#[test]
fn test_stack_underflow() {
    let mut vm = VM::new();
    let before_pc = vm.pc;
    assert_eq!(vm.run_opcode(0x00EE), Err(VmError::StackUnderflow));
    assert_eq!(vm.pc, before_pc);
}

#[test]
fn test_stack_overflow() {
    let mut vm = VM::new();
    for _ in 0..16 {
        assert!(vm.run_opcode(0x2200).is_ok());
    }
    assert_eq!(vm.sp, 16);
    assert_eq!(vm.run_opcode(0x2200), Err(VmError::StackOverflow));
    assert_eq!(vm.sp, 16);
}

#[test]
fn test_load_i_add_i_glyph() {
    let mut vm = VM::new();
    assert!(vm.run_opcode(0xA123).is_ok());
    assert_eq!(vm.i, 0x123);
    vm.v[2] = 0x10;
    assert!(vm.run_opcode(0xF21E).is_ok());
    assert_eq!(vm.i, 0x133);
    vm.v[3] = 0xA;
    assert!(vm.run_opcode(0xF329).is_ok());
    assert_eq!(vm.i, 50);
}

#[test]
fn test_timers_get_set() {
    let mut vm = VM::new();
    vm.v[1] = 42;
    assert!(vm.run_opcode(0xF115).is_ok());
    assert_eq!(vm.delay_timer, 42);
    assert!(vm.run_opcode(0xF215).is_ok());
    assert_eq!(vm.delay_timer, 0);
    vm.v[1] = 9;
    assert!(vm.run_opcode(0xF118).is_ok());
    assert_eq!(vm.sound_timer, 9);
    vm.delay_timer = 77;
    assert!(vm.run_opcode(0xF407).is_ok());
    assert_eq!(vm.v[4], 77);
}

#[test]
fn test_tick_timers_idempotent_at_zero() {
    let mut vm = VM::new();
    vm.delay_timer = 2;
    vm.sound_timer = 0;
    vm.tick_timers();
    assert_eq!(vm.delay_timer, 1);
    assert_eq!(vm.sound_timer, 0);
    vm.tick_timers();
    assert_eq!(vm.delay_timer, 0);
    assert_eq!(vm.sound_timer, 0);
    // A tick on an already-zero timer is a no-op and never underflows.
    vm.tick_timers();
    assert_eq!(vm.delay_timer, 0);
    assert_eq!(vm.sound_timer, 0);
}

#[test]
fn test_store_bcd() {
    let mut vm = VM::new();
    vm.v[0] = 234;
    assert!(vm.run_opcode(0xA300).is_ok());
    assert!(vm.run_opcode(0xF033).is_ok());
    assert_eq!(vm.ram[0x300], 2);
    assert_eq!(vm.ram[0x301], 3);
    assert_eq!(vm.ram[0x302], 4);
    assert_eq!(vm.i, 0x300);
}

#[test]
fn test_store_bcd_out_of_bounds() {
    let mut vm = VM::new();
    assert!(vm.run_opcode(0xAFFF).is_ok());
    assert_eq!(vm.run_opcode(0xF033), Err(VmError::MemoryOutOfBounds));
}

#[test]
fn test_store_and_load_registers_advance_i() {
    let mut vm = VM::new();
    for j in 0..4 {
        vm.v[j] = (10 + j) as u8;
    }
    assert!(vm.run_opcode(0xA400).is_ok());
    assert!(vm.run_opcode(0xF355).is_ok());
    assert_eq!(&vm.ram[0x400..0x404], &[10, 11, 12, 13]);
    // The deliberate quirk: I advances by x + 1 after the block transfer.
    assert_eq!(vm.i, 0x404);

    let mut vm2 = VM::new();
    vm2.ram[0x400] = 10;
    vm2.ram[0x401] = 11;
    vm2.ram[0x402] = 12;
    vm2.ram[0x403] = 13;
    vm2.v[3] = 99;
    assert!(vm2.run_opcode(0xA400).is_ok());
    assert!(vm2.run_opcode(0xF265).is_ok());
    assert_eq!(&vm2.v[0..3], &[10, 11, 12]);
    // V3 is past the inclusive range V0..=V2 and stays put.
    assert_eq!(vm2.v[3], 99);
    assert_eq!(vm2.i, 0x403);
}

#[test]
fn test_register_block_out_of_bounds() {
    let mut vm = VM::new();
    assert!(vm.run_opcode(0xAFFE).is_ok());
    assert_eq!(vm.run_opcode(0xF355), Err(VmError::MemoryOutOfBounds));
    assert_eq!(vm.run_opcode(0xF365), Err(VmError::MemoryOutOfBounds));
    // One register at 0xFFF still fits.
    assert!(vm.run_opcode(0xAFFF).is_ok());
    assert!(vm.run_opcode(0xF055).is_ok());
    assert_eq!(vm.i, 0x1000);
}

#[test]
fn test_rand_masks() {
    let mut vm = VM::new();
    assert!(vm.run_opcode(0xC0F0).is_ok());
    // Whatever byte came out of the generator, the mask holds.
    assert_eq!(vm.v[0] & 0x0F, 0);
    assert!(vm.run_opcode(0xC100).is_ok());
    assert_eq!(vm.v[1], 0);
}

#[test]
fn test_unknown_opcode_counted_and_skipped() {
    let mut vm = VM::new();
    assert!(vm.run_opcode(0x0123).is_ok());
    assert_eq!(vm.pc, 0x202);
    assert_eq!(vm.unknown_count, 1);
    assert!(vm.run_opcode(0xFFFF).is_ok());
    assert_eq!(vm.pc, 0x204);
    assert_eq!(vm.unknown_count, 2);
}

#[test]
fn test_load_round_trip() {
    let mut vm = VM::new();
    let rom: Vec<u8> = (0..200u16).map(|b| (b % 251) as u8).collect();
    vm.load(&rom);
    for j in 0..200 {
        assert_eq!(vm.ram[0x200 + j], rom[j]);
    }
    // Memory below the ROM base and past the ROM stays untouched.
    assert!(vm.ram[..0x200].iter().all(|&b| b == 0));
    assert!(vm.ram[0x200 + 200..].iter().all(|&b| b == 0));
}

#[test]
fn test_load_truncates_without_error() {
    let mut vm = VM::new();
    let rom: Vec<u8> = vec![0xAB; 4000];
    // Only 3584 bytes fit between the ROM base and the end of memory;
    // the rest is dropped silently, and low memory stays untouched.
    vm.load(&rom);
    assert!(vm.ram[..0x200].iter().all(|&b| b == 0));
    assert!(vm.ram[0x200..].iter().all(|&b| b == 0xAB));
    assert_eq!(vm.ram.len(), 4096);
}

#[test]
fn test_clear_screen() {
    let mut vm = VM::new();
    vm.vram[100] = 1;
    vm.vram[2047] = 1;
    assert!(vm.run_opcode(0x00E0).is_ok());
    assert!(vm.vram.iter().all(|&p| p == 0));
    assert!(vm.vram_changed);
}

#[test]
fn test_draw_wraparound() {
    let mut vm = VM::new();
    // An all-ones single-row sprite drawn at x = 63 sets pixel (63, y) and
    // wraps the remaining bits to columns 0..7 instead of clipping.
    vm.load(&[0xFF]);
    vm.v[0] = 63;
    vm.v[1] = 5;
    assert!(vm.run_opcode(0xA200).is_ok());
    assert!(vm.run_opcode(0xD011).is_ok());
    let y = 5;
    assert_eq!(vm.vram[y * 64 + 63], 1);
    for px in 0..7 {
        assert_eq!(vm.vram[y * 64 + px], 1);
    }
    for px in 7..63 {
        assert_eq!(vm.vram[y * 64 + px], 0);
    }
    assert_eq!(vm.v[15], 0);
    assert!(vm.vram_changed);
}

#[test]
fn test_draw_vertical_wrap_and_collision() {
    let mut vm = VM::new();
    vm.load(&[0x80, 0x80]);
    vm.v[0] = 0;
    vm.v[1] = 31;
    assert!(vm.run_opcode(0xA200).is_ok());
    assert!(vm.run_opcode(0xD012).is_ok());
    // Row 31 and, wrapped, row 0 are lit in column 0.
    assert_eq!(vm.vram[31 * 64], 1);
    assert_eq!(vm.vram[0], 1);
    assert_eq!(vm.v[15], 0);
    // Drawing the same sprite again turns those pixels off and reports the
    // collision in VF.
    assert!(vm.run_opcode(0xD012).is_ok());
    assert_eq!(vm.vram[31 * 64], 0);
    assert_eq!(vm.vram[0], 0);
    assert_eq!(vm.v[15], 1);
}

#[test]
fn test_draw_out_of_bounds() {
    let mut vm = VM::new();
    assert!(vm.run_opcode(0xAFFF).is_ok());
    assert_eq!(vm.run_opcode(0xD012), Err(VmError::MemoryOutOfBounds));
}

#[test]
fn test_step_fetch_execute() {
    let mut vm = VM::new();
    // 6005: V0 = 5, then 00E0: clear (raises the dirty flag).
    vm.load(&[0x60, 0x05, 0x00, 0xE0]);
    let r1 = vm.step(&pad_none());
    assert_eq!(r1, Ok(false));
    assert_eq!(vm.v[0], 5);
    assert_eq!(vm.pc, 0x202);
    let r2 = vm.step(&pad_none());
    assert_eq!(r2, Ok(true));
    assert_eq!(vm.pc, 0x204);
}

#[test]
fn test_step_fetch_out_of_bounds() {
    let mut vm = VM::new();
    assert!(vm.run_opcode(0x1FFF).is_ok());
    assert_eq!(vm.pc, 0xFFF);
    assert_eq!(vm.step(&pad_none()), Err(VmError::MemoryOutOfBounds));
}

#[test]
fn test_skip_pressed() {
    let mut vm = VM::new();
    // E19E at 0x200; key 3 pressed, V1 = 3: the skip is taken, over the
    // instruction at 0x202, landing on the E1A1 at 0x204.
    vm.load(&[0xE1, 0x9E, 0x00, 0x00, 0xE1, 0xA1]);
    vm.v[1] = 3;
    assert_eq!(vm.step(&pad_with(3)), Ok(false));
    assert_eq!(vm.pc, 0x204);
    // E1A1: key 3 still pressed, so the not-pressed skip is not taken.
    assert_eq!(vm.step(&pad_with(3)), Ok(false));
    assert_eq!(vm.pc, 0x206);
}

#[test]
fn test_wait_for_key() {
    let mut vm = VM::new();
    // F10A: wait for a key, storing it in V1.
    vm.load(&[0xF1, 0x0A]);
    assert_eq!(vm.step(&pad_none()), Ok(false));
    assert!(vm.keypad_waiting);
    // Execution is frozen at the waiting instruction.
    assert_eq!(vm.pc, 0x200);
    let v_before = vm.v.clone();
    for _ in 0..3 {
        assert_eq!(vm.step(&pad_none()), Ok(false));
        assert_eq!(vm.pc, 0x200);
        assert_eq!(vm.v, v_before);
        assert!(vm.keypad_waiting);
    }
    // The first snapshot with a pressed key stores its index and resumes
    // normal advancement on the next step.
    assert_eq!(vm.step(&pad_with(0xB)), Ok(false));
    assert_eq!(vm.v[1], 0xB);
    assert!(!vm.keypad_waiting);
    assert_eq!(vm.pc, 0x202);
}

#[test]
fn test_draw_zero_rows() {
    let mut vm = VM::new();
    vm.v[0] = 3;
    vm.v[1] = 4;
    assert!(vm.run_opcode(0xA200).is_ok());
    // A zero-row sprite touches no pixel but still raises the dirty flag.
    assert!(vm.run_opcode(0xD010).is_ok());
    assert!(vm.vram.iter().all(|&p| p == 0));
    assert!(vm.vram_changed);
    assert_eq!(vm.v[15], 0);
}

#[test]
fn test_load_empty_rom() {
    let mut vm = VM::new();
    vm.load(&[]);
    assert!(vm.ram.iter().all(|&b| b == 0));
}

#[test]
fn test_step_latches_keypad() {
    let mut vm = VM::new();
    vm.load(&[0x60, 0x01]);
    let pad = pad_with(7);
    assert_eq!(vm.step(&pad), Ok(false));
    assert_eq!(vm.keypad, pad);
}

#[test]
fn test_wait_for_key_lowest_index_wins() {
    let mut vm = VM::new();
    vm.load(&[0xF0, 0x0A]);
    assert_eq!(vm.step(&pad_none()), Ok(false));
    let mut pad = vec![false; 16];
    pad[9] = true;
    pad[4] = true;
    assert_eq!(vm.step(&pad), Ok(false));
    assert_eq!(vm.v[0], 4);
}
