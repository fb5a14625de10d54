use chip8::cpu::{read_word, Cpu};
use chip8::peripherals::{Display, Keypad};

const FONT_ZERO: [u8; 5] = [0xF0, 0x90, 0x90, 0x90, 0xF0];

fn machine_with(program: &[u8]) -> Cpu {
    let mut cpu = Cpu::new();
    cpu.load_game(program);
    cpu
}

fn run(cpu: &mut Cpu, cycles: usize) {
    for _ in 0..cycles {
        assert!(!cpu.cycle_would_fault());
        cpu.execute_cycle();
    }
}

#[test]
fn new_machine_has_font_and_registers() {
    let cpu = Cpu::new();
    assert_eq!(&cpu.memory[0..5], &FONT_ZERO);
    assert_eq!(&cpu.memory[75..80], &[0xF0, 0x80, 0xF0, 0x80, 0x80]);
    assert!(cpu.memory[80..].iter().all(|b| *b == 0));
    assert_eq!(cpu.pc, 0x200);
    assert_eq!(cpu.i, 0x200);
    assert_eq!(cpu.sp, 0);
    assert_eq!(cpu.display_width, 64);
    assert_eq!(cpu.display_height, 32);
    assert!(!cpu.super_chip);
    assert!(cpu.display.memory.iter().all(|p| !*p));
    assert!(cpu.keypad.keys.iter().all(|k| !*k));
}

#[test]
fn keypad_and_display_start_blank() {
    assert!(Keypad::new().keys.iter().all(|k| !*k));
    let mut display = Display::new();
    assert!(display.memory.iter().all(|p| !*p));
    display.memory[5] = true;
    display.clear();
    assert!(display.memory.iter().all(|p| !*p));
}

#[test]
fn pressed_mask_sets_one_bit_per_key() {
    let mut keypad = Keypad::new();
    assert_eq!(keypad.pressed_mask(), 0);
    keypad.keys[0] = true;
    keypad.keys[3] = true;
    keypad.keys[15] = true;
    assert_eq!(keypad.pressed_mask(), 0b1000_0000_0000_1001);
}

#[test]
fn load_game_copies_at_program_start() {
    let cpu = machine_with(&[0x12, 0x34, 0x56]);
    assert_eq!(&cpu.memory[0x200..0x203], &[0x12, 0x34, 0x56]);
    assert_eq!(cpu.memory[0x203], 0);
    assert_eq!(&cpu.memory[0..5], &FONT_ZERO);
}

#[test]
fn load_game_truncates_what_does_not_fit() {
    let game = vec![0xAB; 5000];
    let cpu = machine_with(&game);
    assert_eq!(cpu.memory[0x1FF], 0);
    assert_eq!(cpu.memory[0x200], 0xAB);
    assert_eq!(cpu.memory[4095], 0xAB);
}

#[test]
fn read_word_is_big_endian() {
    let mut memory = [0u8; 4096];
    memory[10] = 0xA2;
    memory[11] = 0xF0;
    assert_eq!(read_word(&memory, 10), 0xA2F0);
}

#[test]
fn current_opcode_reads_at_pc() {
    let mut cpu = machine_with(&[0x61, 0x2A]);
    assert_eq!(cpu.current_opcode(), Some(0x612A));
    cpu.pc = 4094;
    assert_eq!(cpu.current_opcode(), Some(0x0000));
    cpu.pc = 4095;
    assert_eq!(cpu.current_opcode(), None);
    cpu.pc = 5000;
    assert_eq!(cpu.current_opcode(), None);
}

#[test]
fn split_u4_gives_nibbles() {
    let mut cpu = Cpu::new();
    assert_eq!(cpu.split_u4(0xABCD), vec![0xA, 0xB, 0xC, 0xD]);
    assert_eq!(cpu.split_u4(0x00E0), vec![0, 0, 0xE, 0]);
}

#[test]
fn tick_counts_timers_down_to_zero() {
    let mut cpu = Cpu::new();
    cpu.dt = 2;
    cpu.st = 0;
    cpu.tick();
    assert_eq!((cpu.dt, cpu.st), (1, 0));
    cpu.tick();
    cpu.tick();
    assert_eq!((cpu.dt, cpu.st), (0, 0));
}

#[test]
fn timers_tick_every_ninth_cycle() {
    // 1200: jump to itself.
    let mut cpu = machine_with(&[0x12, 0x00]);
    cpu.dt = 5;
    run(&mut cpu, 8);
    assert_eq!(cpu.dt, 5);
    assert_eq!(cpu.tick_divider_counter, 8);
    run(&mut cpu, 1);
    assert_eq!(cpu.dt, 4);
    assert_eq!(cpu.tick_divider_counter, 0);
}

#[test]
fn load_and_add_byte_wraps_without_flag() {
    // 60FF, 7002, 6F07
    let mut cpu = machine_with(&[0x6F, 0x07, 0x60, 0xFF, 0x70, 0x02]);
    run(&mut cpu, 3);
    assert_eq!(cpu.v[0], 0x01);
    assert_eq!(cpu.v[0xF], 0x07);
    assert_eq!(cpu.pc, 0x206);
}

#[test]
fn add_registers_sets_carry() {
    let mut cpu = Cpu::new();
    cpu.v[1] = 200;
    cpu.v[2] = 100;
    cpu.add(1, 2);
    assert_eq!(cpu.v[1], 44);
    assert_eq!(cpu.v[0xF], 1);
    cpu.v[3] = 1;
    cpu.v[4] = 2;
    cpu.add(3, 4);
    assert_eq!(cpu.v[3], 3);
    assert_eq!(cpu.v[0xF], 0);
}

#[test]
fn sub_and_subn_set_not_borrow() {
    let mut cpu = Cpu::new();
    cpu.v[1] = 5;
    cpu.v[2] = 7;
    cpu.sub(1, 2);
    assert_eq!(cpu.v[1], 254);
    assert_eq!(cpu.v[0xF], 0);
    cpu.v[1] = 7;
    cpu.v[2] = 7;
    cpu.sub(1, 2);
    assert_eq!(cpu.v[1], 0);
    assert_eq!(cpu.v[0xF], 1);
    cpu.v[1] = 3;
    cpu.v[2] = 10;
    cpu.subn(1, 2);
    assert_eq!(cpu.v[1], 7);
    assert_eq!(cpu.v[0xF], 1);
}

#[test]
fn logic_ops_clear_vf() {
    let mut cpu = Cpu::new();
    cpu.v[0xF] = 9;
    cpu.v[1] = 0b1100;
    cpu.v[2] = 0b1010;
    cpu.or(1, 2);
    assert_eq!(cpu.v[1], 0b1110);
    assert_eq!(cpu.v[0xF], 0);
    cpu.v[0xF] = 9;
    cpu.and(1, 2);
    assert_eq!(cpu.v[1], 0b1010);
    assert_eq!(cpu.v[0xF], 0);
    cpu.v[0xF] = 9;
    cpu.xor(1, 2);
    assert_eq!(cpu.v[1], 0);
    assert_eq!(cpu.v[0xF], 0);
}

#[test]
fn shifts_use_vy_unless_super_chip() {
    let mut cpu = Cpu::new();
    cpu.v[1] = 0;
    cpu.v[2] = 0b1000_0011;
    cpu.shr(1, 2);
    assert_eq!(cpu.v[1], 0b0100_0001);
    assert_eq!(cpu.v[0xF], 1);
    cpu.shl(1, 2);
    assert_eq!(cpu.v[1], 0b0000_0110);
    assert_eq!(cpu.v[0xF], 1);
    cpu.super_chip = true;
    cpu.v[1] = 0b0000_0010;
    cpu.shr(1, 2);
    assert_eq!(cpu.v[1], 1);
    assert_eq!(cpu.v[0xF], 0);
    cpu.v[1] = 0b0100_0000;
    cpu.shl(1, 2);
    assert_eq!(cpu.v[1], 0b1000_0000);
    assert_eq!(cpu.v[0xF], 0);
}

#[test]
fn skips_compare_registers_and_bytes() {
    let mut cpu = Cpu::new();
    cpu.v[3] = 0x42;
    cpu.v[4] = 0x42;
    cpu.se(3, 0x42);
    assert_eq!(cpu.pc, 0x202);
    cpu.sen(3, 0x42);
    assert_eq!(cpu.pc, 0x202);
    cpu.sen(3, 0x41);
    assert_eq!(cpu.pc, 0x204);
    cpu.sexy(3, 4);
    assert_eq!(cpu.pc, 0x206);
    cpu.sne(3, 4);
    assert_eq!(cpu.pc, 0x206);
    cpu.v[4] = 0;
    cpu.sne(3, 4);
    assert_eq!(cpu.pc, 0x208);
}

#[test]
fn call_and_ret_use_the_stack() {
    // 2300: call 0x300; at 0x300: 00EE
    let mut program = vec![0u8; 0x102];
    program[0] = 0x23;
    program[1] = 0x00;
    program[0x100] = 0x00;
    program[0x101] = 0xEE;
    let mut cpu = machine_with(&program);
    run(&mut cpu, 1);
    assert_eq!(cpu.pc, 0x300);
    assert_eq!(cpu.sp, 1);
    assert_eq!(cpu.stack[1], 0x202);
    run(&mut cpu, 1);
    assert_eq!(cpu.pc, 0x202);
    assert_eq!(cpu.sp, 0);
}

#[test]
fn jumps_and_index() {
    let mut cpu = Cpu::new();
    cpu.jp(0x345);
    assert_eq!(cpu.pc, 0x345);
    cpu.v[0] = 0x10;
    cpu.jpv0(0x300);
    assert_eq!(cpu.pc, 0x310);
    cpu.ldi(0xABC);
    assert_eq!(cpu.i, 0xABC);
    cpu.v[2] = 0x11;
    cpu.add_i(2);
    assert_eq!(cpu.i, 0xACD);
    cpu.v[2] = 0xA;
    cpu.ld_f(2);
    assert_eq!(cpu.i, 50);
}

#[test]
fn registers_copy_and_timers() {
    let mut cpu = Cpu::new();
    cpu.ldxkk(5, 0x77);
    cpu.ldxy(6, 5);
    assert_eq!(cpu.v[6], 0x77);
    cpu.ld_dt_v(6);
    cpu.ld_st(5);
    assert_eq!((cpu.dt, cpu.st), (0x77, 0x77));
    cpu.dt = 3;
    cpu.ld_v_dt(0);
    assert_eq!(cpu.v[0], 3);
}

#[test]
fn bcd_stores_decimal_digits() {
    let mut cpu = Cpu::new();
    cpu.i = 0x300;
    cpu.v[7] = 254;
    cpu.ld_b(7);
    assert_eq!(&cpu.memory[0x300..0x303], &[2, 5, 4]);
    cpu.v[7] = 7;
    cpu.ld_b(7);
    assert_eq!(&cpu.memory[0x300..0x303], &[0, 0, 7]);
}

#[test]
fn store_and_load_registers() {
    let mut cpu = Cpu::new();
    cpu.i = 0x400;
    for k in 0..16 {
        cpu.v[k] = (k as u8) * 3;
    }
    cpu.ld_i_v(3);
    assert_eq!(&cpu.memory[0x400..0x405], &[0, 3, 6, 9, 0]);
    assert_eq!(cpu.i, 0x404);
    cpu.v = [0; 16];
    cpu.i = 0x400;
    cpu.ld_v_i(2);
    assert_eq!(&cpu.v[0..4], &[0, 3, 6, 0]);
    assert_eq!(cpu.i, 0x403);
}

#[test]
fn key_skips() {
    let mut cpu = Cpu::new();
    cpu.v[1] = 0xA;
    cpu.keypad.keys[0xA] = true;
    cpu.skp(1);
    assert_eq!(cpu.pc, 0x202);
    cpu.sknp(1);
    assert_eq!(cpu.pc, 0x202);
    cpu.keypad.keys[0xA] = false;
    cpu.sknp(1);
    assert_eq!(cpu.pc, 0x204);
}

#[test]
fn wait_for_key_press() {
    let mut cpu = Cpu::new();
    cpu.pc = 0x202;
    // Nothing pressed: the instruction repeats.
    cpu.ld_k(3);
    assert_eq!(cpu.pc, 0x200);
    assert_eq!(cpu.v[3], 0);
    // Key 5 down: stored in V3, a short beep, execution goes on.
    cpu.pc = 0x202;
    cpu.keypad.keys[5] = true;
    cpu.ld_k(3);
    assert_eq!(cpu.v[3], 5);
    assert_eq!(cpu.st, 4);
    assert_eq!(cpu.pc, 0x202);
}

#[test]
fn wait_for_key_takes_lowest_key_including_zero() {
    let mut cpu = Cpu::new();
    cpu.pc = 0x202;
    cpu.v[1] = 9;
    cpu.keypad.keys[0] = true;
    cpu.keypad.keys[7] = true;
    cpu.ld_k(1);
    assert_eq!(cpu.v[1], 0);
    assert_eq!(cpu.pc, 0x202);

    let mut cpu = Cpu::new();
    cpu.pc = 0x202;
    cpu.keypad.keys[3] = true;
    cpu.ld_k(5);
    assert_eq!(cpu.v[5], 3);
}

#[test]
fn cls_clears_display() {
    let mut cpu = Cpu::new();
    cpu.display.memory[100] = true;
    cpu.cls();
    assert!(cpu.display.memory.iter().all(|p| !*p));
}

#[test]
fn draw_font_glyph_and_collision() {
    let mut cpu = Cpu::new();
    cpu.pc = 0x202;
    cpu.i = 0; // glyph 0
    cpu.v[1] = 0;
    cpu.v[2] = 0;
    cpu.drw(1, 2, 5);
    assert_eq!(cpu.v[0xF], 0);
    // Row 0 is 0xF0: pixels 0..4 lit.
    assert_eq!(&cpu.display.memory[0..8], &[true, true, true, true, false, false, false, false]);
    // Row 1 is 0x90.
    assert_eq!(&cpu.display.memory[64..68], &[true, false, false, true]);
    // Drawing again erases it and reports the collision.
    cpu.drw(1, 2, 5);
    assert_eq!(cpu.v[0xF], 1);
    assert!(cpu.display.memory.iter().all(|p| !*p));
}

#[test]
fn draw_wraps_round_the_edges() {
    let mut cpu = Cpu::new();
    cpu.pc = 0x202;
    cpu.i = 0; // glyph 0
    cpu.v[0] = 62;
    cpu.v[1] = 31;
    cpu.drw(0, 1, 5);
    let lit: Vec<usize> = (0..2048).filter(|k| cpu.display.memory[*k]).collect();
    let mut expected = vec![
        2046, 2047, 1984, 1985, 62, 1, 126, 65, 190, 129, 254, 255, 192, 193,
    ];
    expected.sort();
    assert_eq!(lit, expected);
    assert_eq!(cpu.v[0xF], 0);
}

#[test]
fn draw_start_wraps_too() {
    let mut cpu = Cpu::new();
    cpu.pc = 0x202;
    cpu.i = 0x300;
    cpu.memory[0x300] = 0x80;
    cpu.v[1] = 64 + 3;
    cpu.v[2] = 32 + 2;
    cpu.drw(1, 2, 1);
    let lit: Vec<usize> = (0..2048).filter(|k| cpu.display.memory[*k]).collect();
    assert_eq!(lit, vec![2 * 64 + 3]);
}

#[test]
fn draw_waits_late_in_timer_period() {
    let mut cpu = Cpu::new();
    cpu.pc = 0x202;
    cpu.tick_divider_counter = 4;
    cpu.drw(0, 0, 5);
    assert_eq!(cpu.pc, 0x200);
    assert!(cpu.display.memory.iter().all(|p| !*p));
}

#[test]
fn random_with_zero_mask_is_zero() {
    let mut cpu = Cpu::new();
    cpu.v[4] = 0xFF;
    cpu.rnd(4, 0x00);
    assert_eq!(cpu.v[4], 0);
    cpu.apply_rnd(4, 0x0F, 0xAB);
    assert_eq!(cpu.v[4], 0x0B);
    cpu.apply_rnd(4, 0xF0, 0xAB);
    assert_eq!(cpu.v[4], 0xA0);
}

#[test]
fn random_instruction_through_cycle_masks_byte() {
    // C30F
    let mut cpu = machine_with(&[0xC3, 0x0F]);
    run(&mut cpu, 1);
    assert!(cpu.v[3] <= 0x0F);
}

#[test]
fn unknown_instruction_is_reported_and_skipped() {
    let mut cpu = machine_with(&[0x5A, 0xB1, 0x8A, 0xB8]);
    let before = cpu;
    assert_eq!(cpu.execute_cycle(), Some(0x5AB1));
    assert_eq!(cpu.pc, 0x202);
    assert_eq!(cpu.v, before.v);
    assert_eq!(cpu.execute_cycle(), Some(0x8AB8));
    assert_eq!(cpu.pc, 0x204);
}

#[test]
fn known_instruction_reports_none() {
    let mut cpu = machine_with(&[0x00, 0xE0]);
    assert_eq!(cpu.execute_cycle(), None);
}

#[test]
fn cycle_past_memory_does_nothing() {
    let mut cpu = Cpu::new();
    cpu.pc = 5000;
    assert!(!cpu.cycle_would_fault());
    assert_eq!(cpu.execute_cycle(), None);
    assert_eq!(cpu.pc, 5000);
    assert_eq!(cpu.tick_divider_counter, 0);
}

#[test]
fn faults_are_detected() {
    let mut cpu = Cpu::new();
    cpu.pc = 4095;
    assert!(cpu.cycle_would_fault());

    // RET with an empty-looking stack pointer beyond the stack.
    let mut cpu = machine_with(&[0x00, 0xEE]);
    cpu.sp = 16;
    assert!(cpu.cycle_would_fault());
    cpu.sp = 3;
    assert!(!cpu.cycle_would_fault());

    // CALL with a full stack.
    let mut cpu = machine_with(&[0x23, 0x00]);
    cpu.sp = 15;
    assert!(cpu.cycle_would_fault());
    cpu.sp = 255;
    assert!(!cpu.cycle_would_fault());

    // SKP with a key number above 15.
    let mut cpu = machine_with(&[0xE1, 0x9E]);
    cpu.v[1] = 16;
    assert!(cpu.cycle_would_fault());

    // LD F with a value whose glyph address overflows a byte.
    let mut cpu = machine_with(&[0xF1, 0x29]);
    cpu.v[1] = 52;
    assert!(cpu.cycle_would_fault());
    cpu.v[1] = 51;
    assert!(!cpu.cycle_would_fault());

    // ADD I past 0xFFFF.
    let mut cpu = machine_with(&[0xF1, 0x1E]);
    cpu.i = 0xFFFF;
    cpu.v[1] = 1;
    assert!(cpu.cycle_would_fault());

    // LD B at the end of memory.
    let mut cpu = machine_with(&[0xF1, 0x33]);
    cpu.i = 4094;
    assert!(cpu.cycle_would_fault());
    cpu.i = 4093;
    assert!(!cpu.cycle_would_fault());

    // Store registers past the end of memory.
    let mut cpu = machine_with(&[0xF3, 0x55]);
    cpu.i = 4093;
    assert!(cpu.cycle_would_fault());
    cpu.i = 4092;
    assert!(!cpu.cycle_would_fault());

    // Drawing a sprite that would be read past the end of memory.
    let mut cpu = machine_with(&[0xD0, 0x15]);
    cpu.i = 4093;
    assert!(cpu.cycle_would_fault());
    cpu.i = 4091;
    assert!(!cpu.cycle_would_fault());
}

#[test]
fn instruction_faults_checks_the_state_given() {
    let mut cpu = Cpu::new();
    cpu.sp = 16;
    assert!(cpu.instruction_faults(0x00EE));
    assert!(!cpu.instruction_faults(0x00E0));
    cpu.display_height = 0;
    assert!(cpu.instruction_faults(0xD001));
    assert!(!cpu.instruction_faults(0xD000));

    // A display geometry larger than the buffer faults only where a lit
    // sprite pixel lands past the buffer.
    let mut cpu = Cpu::new();
    cpu.display_height = 64;
    cpu.i = 0;
    cpu.v[1] = 0;
    cpu.v[2] = 40;
    assert!(cpu.instruction_faults(0xD125));
    cpu.v[2] = 0;
    assert!(!cpu.instruction_faults(0xD125));
    cpu.pc = 0x202;
    cpu.drw(1, 2, 5);
    assert_eq!(&cpu.display.memory[0..4], &[true, true, true, true]);
    // A blank sprite row past the buffer touches nothing.
    cpu.i = 0x300;
    cpu.v[2] = 40;
    assert!(!cpu.instruction_faults(0xD121));
}

#[test]
fn sys_changes_nothing() {
    let mut cpu = Cpu::new();
    cpu.sys();
    assert_eq!(cpu.pc, 0x200);
}

#[test]
fn keypad_toggle_set_and_release() {
    let mut keypad = Keypad::new();
    keypad.toggle(4);
    assert!(keypad.keys[4]);
    keypad.toggle(4);
    assert!(!keypad.keys[4]);
    keypad.set(9, true);
    keypad.set(2, true);
    keypad.set(2, false);
    assert_eq!(keypad.pressed_mask(), 1 << 9);
    keypad.release_all();
    assert_eq!(keypad.pressed_mask(), 0);
}

#[test]
fn instruction_faults_only_where_pc_moves_out_of_range() {
    let mut cpu = Cpu::new();
    cpu.pc = 0;
    // A jump, a load or a clear at pc 0 is fine.
    assert!(!cpu.instruction_faults(0x1234));
    assert!(!cpu.instruction_faults(0x6105));
    assert!(!cpu.instruction_faults(0x00E0));
    // Waiting steps pc back by two.
    assert!(cpu.instruction_faults(0xF10A));
    cpu.tick_divider_counter = 4;
    assert!(cpu.instruction_faults(0xD001));
    cpu.keypad.keys[2] = true;
    assert!(!cpu.instruction_faults(0xF10A));
    // A skip taken at the top of the address space.
    cpu.pc = 0xFFFE;
    cpu.v[1] = 5;
    assert!(cpu.instruction_faults(0x3105));
    assert!(!cpu.instruction_faults(0x3106));
    assert!(cpu.instruction_faults(0x4106));
    cpu.v[2] = 2;
    assert!(cpu.instruction_faults(0xE29E));
    assert!(!cpu.instruction_faults(0xE2A1));
}
