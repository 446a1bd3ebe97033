use chip8::cpu::{Cpu, Fault, FaultKind, InputError, MAX_ROM_LEN};
use chip8::keypad::{Keypad, KeypadSetting};
use chip8::schedule::{remaining_budget, BASE_RATE_HZ, BASE_TICK_NS};

#[test]
fn new_machine_has_the_documented_initial_state() {
    let cpu = Cpu::new();
    assert_eq!(cpu.pc, 0x200);
    assert_eq!(cpu.i, 0);
    assert_eq!(cpu.sp, 0);
    assert_eq!(cpu.dt, 0);
    assert_eq!(cpu.st, 0);
    assert_eq!(cpu.memory.len(), 4096);
    assert_eq!(cpu.memory[0], 0xF0, "glyph 0 starts the font table");
    assert_eq!(cpu.memory[79], 0x80, "glyph F ends the font table");
    assert!(cpu.memory[80..].iter().all(|b| *b == 0));
    assert!(cpu.v.iter().all(|r| *r == 0));
    assert!(cpu.stack.iter().all(|s| *s == 0));
    assert!(cpu.gpu.graphics.memory.iter().all(|p| !p));
    assert!(!cpu.gpu.pending_draw);
    assert!(cpu.keypad.keys.iter().all(|k| !k));
}

#[test]
fn font_glyph_five_matches_its_documented_shape() {
    let cpu = Cpu::new();
    assert_eq!(cpu.memory[25..30].to_vec(), vec![0xF0, 0x80, 0xF0, 0x10, 0xF0]);
}

#[test]
fn reset_restores_the_initial_state() {
    let mut cpu = Cpu::new();
    cpu.load_rom(&[0x11, 0x22, 0x33]).unwrap();
    cpu.v[3] = 9;
    cpu.sp = 4;
    cpu.dt = 7;
    cpu.i = 0x321;
    cpu.pc = 0x300;
    cpu.gpu.draw(0, 0, vec![0xFF]);
    cpu.keypad.set_key(5, true);
    cpu.reset();
    assert_eq!(cpu.pc, 0x200);
    assert_eq!(cpu.i, 0);
    assert_eq!(cpu.sp, 0);
    assert_eq!(cpu.dt, 0);
    assert_eq!(cpu.memory[0x200], 0);
    assert_eq!(cpu.v[3], 0);
    assert!(cpu.gpu.graphics.memory.iter().all(|p| !p));
    assert!(cpu.gpu.pending_draw, "the cleared frame is owed to the renderer");
    assert!(!cpu.keypad.is_key_pressed(5));
    assert!(matches!(cpu.keypad.setting, KeypadSetting::QWERTY));
}

#[test]
fn load_rom_places_bytes_at_the_origin() {
    let mut cpu = Cpu::new();
    assert_eq!(cpu.load_rom(&[0xAA, 0xBB, 0xCC]), Ok(()));
    assert_eq!(cpu.memory[0x200], 0xAA);
    assert_eq!(cpu.memory[0x201], 0xBB);
    assert_eq!(cpu.memory[0x202], 0xCC);
    assert_eq!(cpu.memory[0x203], 0);
}

#[test]
fn load_rom_rejects_empty_and_oversized_images() {
    let mut cpu = Cpu::new();
    let before = cpu.memory.clone();
    assert_eq!(cpu.load_rom(&[]), Err(InputError::EmptyRom));
    assert_eq!(cpu.memory, before);

    let big = vec![0x55u8; MAX_ROM_LEN + 1];
    assert_eq!(cpu.load_rom(&big), Err(InputError::OversizedRom));
    assert_eq!(cpu.memory, before);

    let largest = vec![0x55u8; MAX_ROM_LEN];
    assert_eq!(cpu.load_rom(&largest), Ok(()));
    assert_eq!(cpu.memory[4095], 0x55);
}

#[test]
fn end_to_end_two_instruction_rom() {
    let mut cpu = Cpu::new();
    cpu.load_rom(&[0x6A, 0x05, 0x00, 0xE0]).unwrap();
    cpu.execute_cycle().unwrap();
    cpu.execute_cycle().unwrap();
    assert_eq!(cpu.v[0xA], 5);
    assert!(cpu.gpu.graphics.memory.iter().all(|p| !p));
    assert_eq!(cpu.pc, 0x204);
}

#[test]
fn call_and_ret_round_trip_at_every_depth() {
    // CALL 0x300 at the origin, RET at 0x300; at each nesting depth from 1
    // to 16 the return lands just after the call and restores the pointer.
    for depth in 1..=16u8 {
        let mut cpu = Cpu::new();
        cpu.load_rom(&[0x23, 0x00]).unwrap();
        cpu.memory[0x300] = 0x00;
        cpu.memory[0x301] = 0xEE;
        cpu.sp = depth - 1;
        cpu.execute_cycle().unwrap();
        assert_eq!(cpu.sp, depth);
        assert_eq!(cpu.pc, 0x300);
        assert_eq!(cpu.stack[depth as usize - 1], 0x202);
        cpu.execute_cycle().unwrap();
        assert_eq!(cpu.sp, depth - 1, "RET restores the stack pointer");
        assert_eq!(cpu.pc, 0x202, "RET lands just after the CALL");
    }
}

#[test]
fn seventeenth_nested_call_is_a_stack_overflow() {
    let mut cpu = Cpu::new();
    cpu.load_rom(&[0x23, 0x00]).unwrap();
    cpu.sp = 16;
    let fault = cpu.execute_cycle().unwrap_err();
    assert_eq!(
        fault,
        Fault { kind: FaultKind::StackOverflow, opcode: 0x2300, pc: 0x200 }
    );
    assert_eq!(cpu.sp, 16, "a faulting call changes nothing");
    assert_eq!(cpu.pc, 0x200);
}

#[test]
fn ret_on_an_empty_stack_is_a_stack_underflow() {
    let mut cpu = Cpu::new();
    cpu.load_rom(&[0x00, 0xEE]).unwrap();
    let fault = cpu.execute_cycle().unwrap_err();
    assert_eq!(
        fault,
        Fault { kind: FaultKind::StackUnderflow, opcode: 0x00EE, pc: 0x200 }
    );
}

#[test]
fn fetch_outside_memory_is_a_fault() {
    let mut cpu = Cpu::new();
    cpu.pc = 4095;
    let fault = cpu.execute_cycle().unwrap_err();
    assert_eq!(
        fault,
        Fault { kind: FaultKind::AddressOutOfRange, opcode: 0, pc: 4095 }
    );
}

#[test]
fn sprite_read_past_memory_end_is_a_fault() {
    let mut cpu = Cpu::new();
    cpu.load_rom(&[0xD0, 0x1F]).unwrap();
    cpu.i = 4090;
    let fault = cpu.execute_cycle().unwrap_err();
    assert_eq!(fault.kind, FaultKind::AddressOutOfRange);
    assert_eq!(fault.opcode, 0xD01F);
}

#[test]
fn bcd_write_past_memory_end_is_a_fault() {
    let mut cpu = Cpu::new();
    cpu.load_rom(&[0xF0, 0x33]).unwrap();
    cpu.i = 4094;
    let fault = cpu.execute_cycle().unwrap_err();
    assert_eq!(fault.kind, FaultKind::AddressOutOfRange);
}

#[test]
fn delay_timer_reaches_zero_and_stays_there() {
    let mut cpu = Cpu::new();
    cpu.load_rom(&[0x12, 0x00]).unwrap();
    cpu.dt = 5;
    for expected in [4, 3, 2, 1, 0] {
        cpu.execute_cycle().unwrap();
        assert_eq!(cpu.dt, expected);
    }
    for _ in 0..3 {
        cpu.execute_cycle().unwrap();
        assert_eq!(cpu.dt, 0, "a zero timer clamps instead of underflowing");
    }
}

#[test]
fn sound_timer_decays_and_signals_tone() {
    let mut cpu = Cpu::new();
    cpu.load_rom(&[0x12, 0x00]).unwrap();
    cpu.st = 2;
    assert!(cpu.tone_on());
    cpu.execute_cycle().unwrap();
    assert_eq!(cpu.st, 1);
    assert!(cpu.tone_on(), "tone is on while the sound timer is above zero");
    cpu.execute_cycle().unwrap();
    assert_eq!(cpu.st, 0);
    assert!(!cpu.tone_on());
}

#[test]
fn skp_uses_the_low_nibble_of_the_register() {
    let mut cpu = Cpu::new();
    cpu.load_rom(&[0xE2, 0x9E]).unwrap();
    cpu.v[2] = 0x17;
    cpu.keypad.set_key(7, true);
    cpu.execute_cycle().unwrap();
    assert_eq!(cpu.pc, 0x204, "key index 0x17 wraps to key 7");
}

#[test]
fn flag_output_wins_when_vf_is_the_target_register() {
    let mut cpu = Cpu::new();
    cpu.load_rom(&[0x8F, 0x14]).unwrap();
    cpu.v[0xF] = 0xFF;
    cpu.v[1] = 0x01;
    cpu.execute_cycle().unwrap();
    assert_eq!(cpu.v[0xF], 1, "after ADD VF, Vy the flag stands, not the sum");
}

#[test]
fn gpu_pixel_ops_track_the_pending_flag() {
    let mut cpu = Cpu::new();
    assert!(!cpu.gpu.toggle_pixel(70, 1, true), "no collision on a dark pixel");
    assert!(cpu.gpu.graphics.memory[64 + 6], "coordinates wrap");
    assert!(cpu.gpu.pending_draw);
    cpu.gpu.pending_draw = false;
    assert!(cpu.gpu.toggle_pixel(70, 1, true), "unsetting a lit pixel collides");
    cpu.gpu.pending_draw = false;
    cpu.gpu.set_pixel(5, 5, false);
    assert!(!cpu.gpu.pending_draw, "overwriting with the same value changes nothing");
    cpu.gpu.set_pixel(5, 5, true);
    assert!(cpu.gpu.pending_draw);
}

#[test]
fn draw_renders_a_font_glyph_and_flags_collisions() {
    let mut cpu = Cpu::new();
    cpu.load_rom(&[0xD0, 0x15, 0xD0, 0x15]).unwrap();
    cpu.i = 0;
    cpu.execute_cycle().unwrap();
    let grid = &cpu.gpu.graphics.memory;
    let glyph = [0xF0u8, 0x90, 0x90, 0x90, 0xF0];
    for (row, byte) in glyph.iter().enumerate() {
        for bit in 0..8 {
            let col = 7 - bit;
            let expected = (byte >> bit) & 1 == 1;
            assert_eq!(grid[row * 64 + col], expected, "pixel ({col}, {row})");
        }
    }
    assert_eq!(cpu.v[0xF], 0);
    assert!(cpu.gpu.pending_draw);
    cpu.execute_cycle().unwrap();
    assert_eq!(cpu.v[0xF], 1, "redrawing the glyph erases it and collides");
    assert!(cpu.gpu.graphics.memory.iter().all(|p| !p));
}

#[test]
fn skp_and_sknp_follow_the_keypad() {
    let mut cpu = Cpu::new();
    cpu.load_rom(&[0xE2, 0x9E]).unwrap();
    cpu.v[2] = 7;
    cpu.keypad.set_key(7, true);
    cpu.execute_cycle().unwrap();
    assert_eq!(cpu.pc, 0x204, "SKP skips while key 7 is down");

    let mut cpu = Cpu::new();
    cpu.load_rom(&[0xE2, 0xA1]).unwrap();
    cpu.v[2] = 7;
    cpu.execute_cycle().unwrap();
    assert_eq!(cpu.pc, 0x204, "SKNP skips while key 7 is up");
}

#[test]
fn wait_for_key_blocks_until_a_press() {
    let mut cpu = Cpu::new();
    cpu.load_rom(&[0xF5, 0x0A]).unwrap();
    cpu.dt = 3;
    cpu.execute_cycle().unwrap();
    assert_eq!(cpu.pc, 0x200, "no key pressed: the program counter holds");
    assert_eq!(cpu.dt, 2, "timers still decay while waiting");
    cpu.keypad.set_key(0xB, true);
    cpu.execute_cycle().unwrap();
    assert_eq!(cpu.pc, 0x202);
    assert_eq!(cpu.v[5], 0xB);
}

#[test]
fn wait_for_key_takes_the_lowest_pressed_index() {
    let mut cpu = Cpu::new();
    cpu.load_rom(&[0xF0, 0x0A]).unwrap();
    cpu.keypad.set_key(9, true);
    cpu.keypad.set_key(4, true);
    cpu.execute_cycle().unwrap();
    assert_eq!(cpu.v[0], 4);
}

#[test]
fn keypad_latch_set_clear_and_query() {
    let mut pad = Keypad::new(KeypadSetting::DVORAK);
    assert!(matches!(pad.setting, KeypadSetting::DVORAK));
    assert!(!pad.is_key_pressed(0));
    pad.set_key(0xF, true);
    assert!(pad.is_key_pressed(0xF));
    pad.set_key(0xF, false);
    assert!(!pad.is_key_pressed(0xF));
    pad.set_key(3, true);
    pad.clear();
    assert!(!pad.is_key_pressed(3));
}

#[test]
fn pacing_budget_never_goes_negative() {
    assert_eq!(BASE_RATE_HZ, 500);
    assert_eq!(BASE_TICK_NS, 2_000_000);
    assert_eq!(remaining_budget(2_000_000, 1_500_000), 500_000);
    assert_eq!(remaining_budget(2_000_000, 2_000_000), 0);
    assert_eq!(remaining_budget(2_000_000, 9_000_000), 0);
}
