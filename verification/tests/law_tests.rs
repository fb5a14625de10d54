use chip8::cpu::Cpu;

#[test]
fn call_then_ret_restores_pc_and_sp() {
    let mut cpu = Cpu::new();
    cpu.pc = 0x234;
    cpu.sp = 4;
    cpu.call(0x500);
    cpu.ret();
    assert_eq!(cpu.pc, 0x234);
    assert_eq!(cpu.sp, 4);
    assert_eq!(cpu.stack[5], 0x234);
}

#[test]
fn store_then_load_gives_registers_back() {
    let mut cpu = Cpu::new();
    cpu.i = 0x600;
    cpu.v = [9, 8, 7, 6, 5, 4, 3, 2, 1, 0, 11, 12, 13, 14, 15, 16];
    let saved = cpu.v;
    cpu.ld_i_v(15);
    cpu.v = [0; 16];
    cpu.i = 0x600;
    cpu.ld_v_i(15);
    assert_eq!(cpu.v, saved);
}

#[test]
fn drawing_twice_restores_display() {
    let mut cpu = Cpu::new();
    cpu.pc = 0x202;
    cpu.display.memory[3] = true;
    cpu.display.memory[100] = true;
    let before = cpu.display.memory;
    cpu.i = 0x10; // glyph 3
    cpu.v[4] = 1;
    cpu.v[5] = 1;
    cpu.drw(4, 5, 5);
    assert_ne!(cpu.display.memory, before);
    cpu.drw(4, 5, 5);
    assert_eq!(cpu.display.memory, before);
}

#[test]
fn add_keeps_sum_and_sub_keeps_difference() {
    let mut cpu = Cpu::new();
    cpu.v[1] = 250;
    cpu.v[2] = 10;
    cpu.add(1, 2);
    assert_eq!(cpu.v[1] as u16 + 256 * cpu.v[0xF] as u16, 260);
    cpu.v[1] = 3;
    cpu.v[2] = 10;
    cpu.sub(1, 2);
    assert_eq!(cpu.v[1] as i32 - 256 * (1 - cpu.v[0xF] as i32), -7);
}

#[test]
fn shifts_keep_the_bit_shifted_out() {
    let mut cpu = Cpu::new();
    cpu.v[2] = 0b1011_0101;
    cpu.shr(1, 2);
    assert_eq!(cpu.v[1] as u16 * 2 + cpu.v[0xF] as u16, 0b1011_0101);
    cpu.shl(1, 2);
    assert_eq!(cpu.v[0xF] as u16 * 256 + cpu.v[1] as u16, 0b1011_0101 * 2);
}

#[test]
fn arithmetic_leaves_display_and_memory_alone() {
    // 8124, 8126, 7105, A300
    let mut cpu = Cpu::new();
    cpu.load_game(&[0x81, 0x24, 0x81, 0x26, 0x71, 0x05, 0xA3, 0x00]);
    cpu.display.memory[7] = true;
    let display = cpu.display.memory;
    let memory = cpu.memory;
    for _ in 0..4 {
        assert!(!cpu.cycle_would_fault());
        cpu.execute_cycle();
    }
    assert_eq!(cpu.display.memory, display);
    assert_eq!(cpu.memory, memory);
}
