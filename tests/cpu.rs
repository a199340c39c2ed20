use chip8::model::CpuError;
use chip8::processor::CPU;

const NO_KEYS: [bool; 16] = [false; 16];

fn machine(program: &[u8]) -> CPU {
    let mut cpu = CPU::new();
    cpu.load(program);
    cpu
}

fn run(cpu: &mut CPU, cycles: usize) {
    for _ in 0..cycles {
        cpu.step(NO_KEYS, 0).unwrap();
    }
}

#[test]
fn fields_are_second_and_third_nibbles() {
    let mut cpu = CPU::new();
    cpu.opcode = 0x8AB4;
    assert_eq!(cpu.op_x(), 0xA);
    assert_eq!(cpu.op_y(), 0xB);
    cpu.opcode = 0xD123;
    assert_eq!(cpu.op_x(), 1);
    assert_eq!(cpu.op_y(), 2);
    cpu.opcode = 0x0F00;
    assert_eq!(cpu.op_x(), 0xF);
    assert_eq!(cpu.op_y(), 0);
}

#[test]
fn get_opcode_is_big_endian() {
    let mut cpu = machine(&[0xAB, 0xCD]);
    cpu.get_opcode();
    assert_eq!(cpu.opcode, 0xABCD);
}

#[test]
fn new_machine_holds_font_and_zeros() {
    let cpu = CPU::new();
    assert_eq!(cpu.pc, 0x200);
    assert_eq!(&cpu.memory[0..5], &[0xF0, 0x90, 0x90, 0x90, 0xF0]);
    assert_eq!(&cpu.memory[75..80], &[0xF0, 0x80, 0xF0, 0x80, 0x80]);
    assert!(cpu.memory[80..].iter().all(|&b| b == 0));
    assert_eq!(cpu.v, [0; 16]);
    assert_eq!(cpu.sp, 0);
    assert!(!cpu.draw_flag);
    assert!(!cpu.keypad_waiting);
    let ram = CPU::init_ram();
    assert_eq!(ram, cpu.memory);
}

#[test]
fn load_short_program_leaves_rest_zero() {
    let cpu = machine(&[1, 2, 3]);
    assert_eq!(&cpu.memory[0x200..0x203], &[1, 2, 3]);
    assert!(cpu.memory[0x203..].iter().all(|&b| b == 0));
    assert_eq!(cpu.memory[0], 0xF0);
}

#[test]
fn load_long_program_truncates() {
    let program: Vec<u8> = (0..5000u32).map(|k| (k % 251) as u8 + 1).collect();
    let cpu = machine(&program);
    assert_eq!(cpu.memory[0x200], 1);
    assert_eq!(cpu.memory[0xFFF], program[0xFFF - 0x200]);
    assert_eq!(cpu.memory[0x1FF], 0);
}

#[test]
fn end_to_end_scenario() {
    let mut cpu = machine(&[0x60, 0x05, 0x61, 0x03, 0x80, 0x14, 0x00, 0xE0]);
    run(&mut cpu, 4);
    assert_eq!(cpu.v[0], 8);
    assert_eq!(cpu.v[1], 3);
    assert_eq!(cpu.v[0xF], 0);
    assert!(cpu.gfx.iter().all(|row| row.iter().all(|&p| p == 0)));
    assert!(cpu.draw_flag);
    assert_eq!(cpu.pc, 0x208);
}

#[test]
fn add_immediate_wraps_without_flag() {
    let mut cpu = machine(&[0x60, 0xFF, 0x6F, 0x07, 0x70, 0x02]);
    run(&mut cpu, 3);
    assert_eq!(cpu.v[0], 1);
    assert_eq!(cpu.v[0xF], 7);
    assert_eq!(cpu.pc, 0x206);
}

#[test]
fn add_registers_sets_carry() {
    let mut cpu = machine(&[0x60, 0xFF, 0x61, 0x02, 0x80, 0x14]);
    run(&mut cpu, 3);
    assert_eq!(cpu.v[0], 1);
    assert_eq!(cpu.v[0xF], 1);
    let mut cpu = machine(&[0x60, 0xFD, 0x61, 0x02, 0x80, 0x14]);
    run(&mut cpu, 3);
    assert_eq!(cpu.v[0], 0xFF);
    assert_eq!(cpu.v[0xF], 0);
}

#[test]
fn subtract_sets_no_borrow_flag() {
    let mut cpu = machine(&[0x60, 0x05, 0x61, 0x03, 0x80, 0x15]);
    run(&mut cpu, 3);
    assert_eq!((cpu.v[0], cpu.v[0xF]), (2, 1));
    let mut cpu = machine(&[0x60, 0x03, 0x61, 0x05, 0x80, 0x15]);
    run(&mut cpu, 3);
    assert_eq!((cpu.v[0], cpu.v[0xF]), (254, 0));
    let mut cpu = machine(&[0x60, 0x04, 0x61, 0x04, 0x80, 0x15]);
    run(&mut cpu, 3);
    assert_eq!((cpu.v[0], cpu.v[0xF]), (0, 1));
}

#[test]
fn reverse_subtract_sets_no_borrow_flag() {
    let mut cpu = machine(&[0x60, 0x03, 0x61, 0x05, 0x80, 0x17]);
    run(&mut cpu, 3);
    assert_eq!((cpu.v[0], cpu.v[0xF]), (2, 1));
    let mut cpu = machine(&[0x60, 0x05, 0x61, 0x03, 0x80, 0x17]);
    run(&mut cpu, 3);
    assert_eq!((cpu.v[0], cpu.v[0xF]), (254, 0));
}

#[test]
fn shifts_keep_prior_bit_in_flag() {
    let mut cpu = machine(&[0x60, 0x81, 0x80, 0x06]);
    run(&mut cpu, 2);
    assert_eq!((cpu.v[0], cpu.v[0xF]), (0x40, 1));
    let mut cpu = machine(&[0x60, 0x81, 0x80, 0x0E]);
    run(&mut cpu, 2);
    assert_eq!((cpu.v[0], cpu.v[0xF]), (0x02, 1));
    let mut cpu = machine(&[0x60, 0x40, 0x80, 0x0E]);
    run(&mut cpu, 2);
    assert_eq!((cpu.v[0], cpu.v[0xF]), (0x80, 0));
}

#[test]
fn bitwise_and_copy() {
    let mut cpu = machine(&[0x60, 0x0C, 0x61, 0x0A, 0x82, 0x00, 0x82, 0x11, 0x83, 0x00, 0x83, 0x12, 0x84, 0x00, 0x84, 0x13]);
    run(&mut cpu, 8);
    assert_eq!(cpu.v[2], 0x0E);
    assert_eq!(cpu.v[3], 0x08);
    assert_eq!(cpu.v[4], 0x06);
}

#[test]
fn skips_and_jumps() {
    let mut cpu = machine(&[0x60, 0x07, 0x30, 0x07]);
    run(&mut cpu, 2);
    assert_eq!(cpu.pc, 0x206);
    let mut cpu = machine(&[0x60, 0x07, 0x30, 0x08]);
    run(&mut cpu, 2);
    assert_eq!(cpu.pc, 0x204);
    let mut cpu = machine(&[0x60, 0x07, 0x90, 0x10]);
    run(&mut cpu, 2);
    assert_eq!(cpu.pc, 0x206);
    let mut cpu = machine(&[0x90, 0x10]);
    run(&mut cpu, 1);
    assert_eq!(cpu.pc, 0x202);
    let mut cpu = machine(&[0x13, 0x45]);
    run(&mut cpu, 1);
    assert_eq!(cpu.pc, 0x345);
    let mut cpu = machine(&[0x60, 0x10, 0xB3, 0x00]);
    run(&mut cpu, 2);
    assert_eq!(cpu.pc, 0x310);
}

#[test]
fn call_then_return_resumes_after_call() {
    let mut cpu = machine(&[0x22, 0x06, 0x00, 0x00, 0x00, 0x00, 0x00, 0xEE]);
    run(&mut cpu, 1);
    assert_eq!(cpu.pc, 0x206);
    assert_eq!(cpu.sp, 1);
    assert_eq!(cpu.stack[0], 0x202);
    run(&mut cpu, 1);
    assert_eq!(cpu.pc, 0x202);
    assert_eq!(cpu.sp, 0);
}

#[test]
fn index_and_random_mask() {
    let mut cpu = machine(&[0xAF, 0xFE, 0xC0, 0x0F]);
    run(&mut cpu, 1);
    assert_eq!(cpu.i, 0xFFE);
    cpu.step(NO_KEYS, 0xAB).unwrap();
    assert_eq!(cpu.v[0], 0x0B);
    let mut cpu = machine(&[0xC0, 0xF0]);
    cpu.cycle(NO_KEYS).unwrap();
    assert_eq!(cpu.v[0] & 0x0F, 0);
    assert_eq!(cpu.pc, 0x202);
}

#[test]
fn timers_count_down_and_beep() {
    let mut cpu = machine(&[0x60, 0x02, 0xF0, 0x15, 0xF0, 0x18, 0xF1, 0x07, 0x00, 0xE0]);
    assert_eq!(cpu.step(NO_KEYS, 0), Ok(false));
    assert_eq!(cpu.step(NO_KEYS, 0), Ok(false));
    assert_eq!(cpu.delay_timer, 2);
    assert_eq!(cpu.step(NO_KEYS, 0), Ok(false));
    assert_eq!(cpu.delay_timer, 1);
    assert_eq!(cpu.sound_timer, 2);
    assert_eq!(cpu.step(NO_KEYS, 0), Ok(true));
    assert_eq!(cpu.delay_timer, 0);
    assert_eq!(cpu.v[1], 0);
    assert_eq!(cpu.sound_timer, 1);
    assert_eq!(cpu.step(NO_KEYS, 0), Ok(true));
    assert_eq!(cpu.sound_timer, 0);
}

#[test]
fn index_arithmetic_and_font_address() {
    let mut cpu = machine(&[0xA1, 0x00, 0x60, 0x20, 0xF0, 0x1E, 0x61, 0x1B, 0xF1, 0x29]);
    run(&mut cpu, 3);
    assert_eq!(cpu.i, 0x120);
    run(&mut cpu, 2);
    assert_eq!(cpu.i, 0xB * 5);
}

#[test]
fn decimal_digits_and_register_blocks() {
    let mut cpu = machine(&[0x60, 0xFE, 0xA3, 0x00, 0xF0, 0x33, 0xF2, 0x65]);
    run(&mut cpu, 4);
    assert_eq!(&cpu.memory[0x300..0x303], &[2, 5, 4]);
    assert_eq!(&cpu.v[0..4], &[2, 5, 4, 0]);
    let mut cpu = machine(&[0x60, 0x11, 0x61, 0x22, 0x62, 0x33, 0xA3, 0x00, 0xF1, 0x55]);
    run(&mut cpu, 5);
    assert_eq!(&cpu.memory[0x300..0x303], &[0x11, 0x22, 0]);
    assert_eq!(cpu.i, 0x300);
}

#[test]
fn draw_xors_and_reports_collision() {
    // glyph 0 at (0, 0), then again: the second draw erases it
    let mut cpu = machine(&[0xA0, 0x00, 0xD0, 0x05, 0xD0, 0x05]);
    run(&mut cpu, 2);
    assert_eq!(cpu.gfx[0][0..8], [1, 1, 1, 1, 0, 0, 0, 0]);
    assert_eq!(cpu.gfx[1][0..8], [1, 0, 0, 1, 0, 0, 0, 0]);
    assert_eq!(cpu.gfx[5][0..8], [0; 8]);
    assert_eq!(cpu.v[0xF], 0);
    assert!(cpu.draw_flag);
    run(&mut cpu, 1);
    assert_eq!(cpu.v[0xF], 1);
    assert!(cpu.gfx.iter().all(|row| row.iter().all(|&p| p == 0)));
    assert_eq!(cpu.pc, 0x206);
}

#[test]
fn draw_without_overlap_clears_flag() {
    let mut cpu = machine(&[0x6F, 0x01, 0xA0, 0x00, 0xD0, 0x01]);
    run(&mut cpu, 3);
    assert_eq!(cpu.v[0xF], 0);
}

#[test]
fn draw_wraps_at_screen_edges() {
    let mut cpu = machine(&[0x60, 0x3E, 0x61, 0x1F, 0xA0, 0x00, 0xD0, 0x12]);
    run(&mut cpu, 4);
    // row 0xF0 at x = 62: columns 62, 63, 0, 1 on row 31
    assert_eq!(cpu.gfx[31][62], 1);
    assert_eq!(cpu.gfx[31][63], 1);
    assert_eq!(cpu.gfx[31][0], 1);
    assert_eq!(cpu.gfx[31][1], 1);
    assert_eq!(cpu.gfx[31][2], 0);
    // row 0x90 wraps to row 0
    assert_eq!(cpu.gfx[0][62], 1);
    assert_eq!(cpu.gfx[0][63], 0);
    assert_eq!(cpu.gfx[0][1], 1);
}

#[test]
fn key_wait_takes_lowest_pressed_key() {
    let mut cpu = machine(&[0x65, 0x09, 0xF5, 0x0A, 0x00, 0xE0]);
    run(&mut cpu, 2);
    assert!(cpu.keypad_waiting);
    assert_eq!(cpu.pc, 0x202);
    run(&mut cpu, 3);
    assert!(cpu.keypad_waiting);
    assert_eq!(cpu.pc, 0x202);
    assert_eq!(cpu.v[5], 9);
    let mut keys = [false; 16];
    keys[7] = true;
    keys[3] = true;
    keys[12] = true;
    assert_eq!(cpu.step(keys, 0), Ok(false));
    assert!(!cpu.keypad_waiting);
    assert_eq!(cpu.v[5], 3);
    assert_eq!(cpu.pc, 0x204);
    assert_eq!(cpu.keypad, keys);
}

#[test]
fn key_wait_holds_timers() {
    let mut cpu = machine(&[0x60, 0x05, 0xF0, 0x15, 0xF1, 0x0A]);
    run(&mut cpu, 3);
    assert_eq!(cpu.delay_timer, 4);
    run(&mut cpu, 3);
    assert_eq!(cpu.delay_timer, 4);
}

#[test]
fn unknown_opcode_is_reported() {
    let mut cpu = machine(&[0xE0, 0x9E]);
    assert_eq!(cpu.step(NO_KEYS, 0), Err(CpuError::UnknownOpcode { opcode: 0xE09E, pc: 0x200 }));
    let mut cpu = machine(&[0x80, 0x18]);
    assert_eq!(cpu.step(NO_KEYS, 0), Err(CpuError::UnknownOpcode { opcode: 0x8018, pc: 0x200 }));
    let mut cpu = machine(&[0xF0, 0x99]);
    assert_eq!(cpu.step(NO_KEYS, 0), Err(CpuError::UnknownOpcode { opcode: 0xF099, pc: 0x200 }));
    assert_eq!(cpu.pc, 0x200);
}

#[test]
fn return_on_empty_stack_underflows() {
    let mut cpu = machine(&[0x00, 0xEE]);
    assert_eq!(cpu.step(NO_KEYS, 0), Err(CpuError::StackUnderflow { pc: 0x200 }));
}

#[test]
fn deep_calls_overflow() {
    let mut cpu = machine(&[0x22, 0x00]);
    run(&mut cpu, 16);
    assert_eq!(cpu.sp, 16);
    assert_eq!(cpu.step(NO_KEYS, 0), Err(CpuError::StackOverflow { pc: 0x200, sp: 16 }));
}

#[test]
fn pc_past_memory_is_reported() {
    let mut cpu = machine(&[0x1F, 0xFF]);
    run(&mut cpu, 1);
    assert_eq!(cpu.step(NO_KEYS, 0), Err(CpuError::PcOutOfRange { pc: 0xFFF }));
}

#[test]
fn block_past_memory_is_reported() {
    let mut cpu = machine(&[0xAF, 0xFE, 0xF0, 0x33]);
    run(&mut cpu, 1);
    assert_eq!(
        cpu.step(NO_KEYS, 0),
        Err(CpuError::AddressOutOfRange { opcode: 0xF033, pc: 0x202, index: 0xFFE })
    );
    let mut cpu = machine(&[0xAF, 0xFE, 0xD0, 0x03]);
    run(&mut cpu, 1);
    assert_eq!(
        cpu.step(NO_KEYS, 0),
        Err(CpuError::AddressOutOfRange { opcode: 0xD003, pc: 0x202, index: 0xFFE })
    );
}

#[test]
fn run_opcode_executes_current_instruction() {
    let mut cpu = CPU::new();
    cpu.opcode = 0x6A42;
    assert_eq!(cpu.run_opcode(0), Ok(()));
    assert_eq!(cpu.v[0xA], 0x42);
    assert_eq!(cpu.pc, 0x202);
}
