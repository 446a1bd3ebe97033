use chip8::cpu::Cpu;

/// Writes `op` at the program counter and runs one cycle.
fn step(cpu: &mut Cpu, op: u16) {
    let pc = cpu.pc as usize;
    cpu.memory[pc] = (op >> 8) as u8;
    cpu.memory[pc + 1] = (op & 0xFF) as u8;
    cpu.execute_cycle().expect("cycle should complete");
}

#[test]
fn add_xy_sets_carry_flag() {
    let mut cpu = Cpu::new();
    cpu.v[1] = 0xFF;
    cpu.v[2] = 0x01;
    step(&mut cpu, 0x8124);
    assert_eq!(cpu.v[1], 0x00);
    assert_eq!(cpu.v[0xF], 1);

    let mut cpu = Cpu::new();
    cpu.v[1] = 0x01;
    cpu.v[2] = 0x01;
    step(&mut cpu, 0x8124);
    assert_eq!(cpu.v[1], 0x02);
    assert_eq!(cpu.v[0xF], 0);
}

#[test]
fn sub_xy_sets_not_borrow_flag() {
    let mut cpu = Cpu::new();
    cpu.v[1] = 0x05;
    cpu.v[2] = 0x0A;
    step(&mut cpu, 0x8125);
    assert_eq!(cpu.v[1], 0xFB);
    assert_eq!(cpu.v[0xF], 0);

    let mut cpu = Cpu::new();
    cpu.v[1] = 0x0A;
    cpu.v[2] = 0x05;
    step(&mut cpu, 0x8125);
    assert_eq!(cpu.v[1], 0x05);
    assert_eq!(cpu.v[0xF], 1);
}

#[test]
fn subn_swaps_the_operands() {
    let mut cpu = Cpu::new();
    cpu.v[1] = 0x05;
    cpu.v[2] = 0x0A;
    step(&mut cpu, 0x8127);
    assert_eq!(cpu.v[1], 0x05);
    assert_eq!(cpu.v[0xF], 1);
}

#[test]
fn bcd_writes_decimal_digits() {
    let mut cpu = Cpu::new();
    cpu.v[3] = 0x7B;
    cpu.i = 0x300;
    step(&mut cpu, 0xF333);
    assert_eq!(cpu.memory[0x300], 1);
    assert_eq!(cpu.memory[0x301], 2);
    assert_eq!(cpu.memory[0x302], 3);
    assert_eq!(cpu.pc, 0x202);
}

#[test]
fn ld_and_add_literals() {
    let mut cpu = Cpu::new();
    step(&mut cpu, 0x6442);
    assert_eq!(cpu.v[4], 0x42);
    step(&mut cpu, 0x74FF);
    assert_eq!(cpu.v[4], 0x41, "ADD Vx, kk wraps without a flag");
    assert_eq!(cpu.v[0xF], 0);
    assert_eq!(cpu.pc, 0x204);
}

#[test]
fn bitwise_ops_combine_registers() {
    let mut cpu = Cpu::new();
    cpu.v[1] = 0b1100;
    cpu.v[2] = 0b1010;
    step(&mut cpu, 0x8121);
    assert_eq!(cpu.v[1], 0b1110);

    cpu.v[1] = 0b1100;
    step(&mut cpu, 0x8122);
    assert_eq!(cpu.v[1], 0b1000);

    cpu.v[1] = 0b1100;
    step(&mut cpu, 0x8123);
    assert_eq!(cpu.v[1], 0b0110);
}

#[test]
fn shifts_capture_the_outgoing_bit() {
    let mut cpu = Cpu::new();
    cpu.v[6] = 0b1000_0101;
    step(&mut cpu, 0x8606);
    assert_eq!(cpu.v[6], 0b0100_0010);
    assert_eq!(cpu.v[0xF], 1);

    let mut cpu = Cpu::new();
    cpu.v[6] = 0b1000_0101;
    step(&mut cpu, 0x860E);
    assert_eq!(cpu.v[6], 0b0000_1010);
    assert_eq!(cpu.v[0xF], 1);
}

#[test]
fn skips_on_literal_equality() {
    let mut cpu = Cpu::new();
    cpu.v[2] = 7;
    step(&mut cpu, 0x3207);
    assert_eq!(cpu.pc, 0x204, "SE skips when Vx == kk");

    let mut cpu = Cpu::new();
    cpu.v[2] = 8;
    step(&mut cpu, 0x3207);
    assert_eq!(cpu.pc, 0x202, "SE advances normally when Vx != kk");

    let mut cpu = Cpu::new();
    cpu.v[2] = 8;
    step(&mut cpu, 0x4207);
    assert_eq!(cpu.pc, 0x204, "SNE skips when Vx != kk");
}

#[test]
fn skips_on_register_equality() {
    let mut cpu = Cpu::new();
    cpu.v[1] = 3;
    cpu.v[2] = 3;
    step(&mut cpu, 0x5120);
    assert_eq!(cpu.pc, 0x204);

    let mut cpu = Cpu::new();
    cpu.v[1] = 3;
    cpu.v[2] = 4;
    step(&mut cpu, 0x9120);
    assert_eq!(cpu.pc, 0x204);
}

#[test]
fn jumps_set_the_program_counter() {
    let mut cpu = Cpu::new();
    step(&mut cpu, 0x1ABC);
    assert_eq!(cpu.pc, 0xABC);

    let mut cpu = Cpu::new();
    cpu.v[0] = 0x10;
    step(&mut cpu, 0xB300);
    assert_eq!(cpu.pc, 0x310);
}

#[test]
fn ld_i_and_add_i() {
    let mut cpu = Cpu::new();
    step(&mut cpu, 0xA123);
    assert_eq!(cpu.i, 0x123);

    cpu.v[4] = 0x10;
    step(&mut cpu, 0xF41E);
    assert_eq!(cpu.i, 0x133);
    assert_eq!(cpu.v[0xF], 0);
}

#[test]
fn add_i_flags_addresses_past_0xfff() {
    let mut cpu = Cpu::new();
    cpu.i = 0xFFF;
    cpu.v[0] = 1;
    step(&mut cpu, 0xF01E);
    assert_eq!(cpu.i, 0x1000);
    assert_eq!(cpu.v[0xF], 1);
}

#[test]
fn ld_sprite_points_at_the_glyph() {
    let mut cpu = Cpu::new();
    cpu.v[2] = 0xA;
    step(&mut cpu, 0xF229);
    assert_eq!(cpu.i, 50);
}

#[test]
fn registers_round_trip_through_memory() {
    let mut cpu = Cpu::new();
    for k in 0..4 {
        cpu.v[k] = 10 + k as u8;
    }
    cpu.i = 0x400;
    step(&mut cpu, 0xF355);
    for k in 0..4 {
        assert_eq!(cpu.memory[0x400 + k], 10 + k as u8);
    }

    let mut cpu = Cpu::new();
    cpu.i = 0x400;
    for k in 0..4 {
        cpu.memory[0x400 + k] = 20 + k as u8;
    }
    step(&mut cpu, 0xF365);
    for k in 0..4 {
        assert_eq!(cpu.v[k], 20 + k as u8);
    }
    assert_eq!(cpu.v[4], 0, "registers past Vx stay untouched");
}

#[test]
fn timer_get_and_set() {
    let mut cpu = Cpu::new();
    cpu.v[0] = 5;
    step(&mut cpu, 0xF015);
    assert_eq!(cpu.dt, 4, "the set timer decays at the end of the same cycle");

    step(&mut cpu, 0xF107);
    assert_eq!(cpu.v[1], 4, "LD Vx, DT reads the value before this cycle's decay");
    assert_eq!(cpu.dt, 3);

    cpu.v[2] = 9;
    step(&mut cpu, 0xF218);
    assert_eq!(cpu.st, 8);
}

#[test]
fn rnd_masks_with_the_literal() {
    let mut cpu = Cpu::new();
    cpu.v[1] = 0xAB;
    step(&mut cpu, 0xC100);
    assert_eq!(cpu.v[1], 0, "RND Vx, 0x00 always stores zero");

    let mut cpu = Cpu::new();
    step(&mut cpu, 0xC20F);
    assert_eq!(cpu.v[2] & 0xF0, 0, "RND Vx, kk never sets bits outside the mask");
}

#[test]
fn unknown_opcode_is_a_noop_that_advances() {
    let mut cpu = Cpu::new();
    let before_regs = cpu.v.clone();
    step(&mut cpu, 0x0123);
    assert_eq!(cpu.pc, 0x202);
    assert_eq!(cpu.v, before_regs);
    step(&mut cpu, 0xE2FF);
    assert_eq!(cpu.pc, 0x204);
}

#[test]
fn last_opcode_is_latched() {
    let mut cpu = Cpu::new();
    step(&mut cpu, 0x6155);
    assert_eq!(cpu.last_opcode, 0x6155);
}
