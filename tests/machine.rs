use chip8_core::cpu::{Chip8Error, CPU, PROGRAM_OFFSET};
use chip8_core::display::{Display, HEIGHT, WIDTH};
use chip8_core::opcodes::OpCode;

fn cpu_with(program: &[u8]) -> CPU {
    CPU::new(program)
}

fn exec(cpu: &mut CPU, op: OpCode) {
    assert_eq!(cpu.run_instruction(op, 0), Ok(()));
}

#[test]
fn new_loads_font_and_program() {
    let cpu = cpu_with(&[0x12, 0x34, 0x56]);
    assert_eq!(cpu.memory_at(0), 0xF0);
    assert_eq!(cpu.memory_at(5), 0x20);
    assert_eq!(cpu.memory_at(79), 0x80);
    assert_eq!(cpu.memory_at(80), 0);
    assert_eq!(cpu.memory_at(PROGRAM_OFFSET), 0x12);
    assert_eq!(cpu.memory_at(PROGRAM_OFFSET + 2), 0x56);
    assert_eq!(cpu.memory_at(PROGRAM_OFFSET + 3), 0);
    assert_eq!(cpu.pc(), 0x200);
    assert_eq!(cpu.index(), 0);
    assert_eq!(cpu.stack_depth(), 0);
    assert_eq!(cpu.waiting_for_key(), None);
    for r in 0..16u8 {
        assert_eq!(cpu.read_reg(r), 0);
    }
}

#[test]
fn add_without_carry() {
    let mut cpu = cpu_with(&[]);
    exec(&mut cpu, OpCode::LoadByte(1, 100));
    exec(&mut cpu, OpCode::LoadByte(2, 55));
    exec(&mut cpu, OpCode::LoadByte(0xF, 7));
    exec(&mut cpu, OpCode::Add(1, 2));
    assert_eq!(cpu.read_reg(1), 155);
    assert_eq!(cpu.read_reg(0xF), 0);
}

#[test]
fn add_with_carry() {
    let mut cpu = cpu_with(&[]);
    exec(&mut cpu, OpCode::LoadByte(1, 250));
    exec(&mut cpu, OpCode::LoadByte(2, 10));
    exec(&mut cpu, OpCode::Add(1, 2));
    assert_eq!(cpu.read_reg(1), 4);
    assert_eq!(cpu.read_reg(0xF), 1);
    assert_eq!(cpu.read_reg(2), 10);
}

#[test]
fn sub_sets_flag_when_greater() {
    let mut cpu = cpu_with(&[]);
    exec(&mut cpu, OpCode::LoadByte(1, 5));
    exec(&mut cpu, OpCode::LoadByte(2, 3));
    exec(&mut cpu, OpCode::Sub(1, 2));
    assert_eq!(cpu.read_reg(1), 2);
    assert_eq!(cpu.read_reg(0xF), 1);
}

#[test]
fn sub_wraps_when_smaller() {
    let mut cpu = cpu_with(&[]);
    exec(&mut cpu, OpCode::LoadByte(1, 3));
    exec(&mut cpu, OpCode::LoadByte(2, 5));
    exec(&mut cpu, OpCode::Sub(1, 2));
    assert_eq!(cpu.read_reg(1), 254);
    assert_eq!(cpu.read_reg(0xF), 0);
}

#[test]
fn sub_of_equal_values_clears_flag() {
    let mut cpu = cpu_with(&[]);
    exec(&mut cpu, OpCode::LoadByte(1, 9));
    exec(&mut cpu, OpCode::LoadByte(2, 9));
    exec(&mut cpu, OpCode::Sub(1, 2));
    assert_eq!(cpu.read_reg(1), 0);
    assert_eq!(cpu.read_reg(0xF), 0);
}

#[test]
fn reverse_sub() {
    let mut cpu = cpu_with(&[]);
    exec(&mut cpu, OpCode::LoadByte(1, 3));
    exec(&mut cpu, OpCode::LoadByte(2, 5));
    exec(&mut cpu, OpCode::ReverseSub(1, 2));
    assert_eq!(cpu.read_reg(1), 2);
    assert_eq!(cpu.read_reg(0xF), 1);
}

#[test]
fn shifts_and_their_flags() {
    let mut cpu = cpu_with(&[]);
    exec(&mut cpu, OpCode::LoadByte(1, 0x81));
    exec(&mut cpu, OpCode::ShiftLeft(1));
    assert_eq!(cpu.read_reg(1), 0x02);
    assert_eq!(cpu.read_reg(0xF), 0x80);
    exec(&mut cpu, OpCode::LoadByte(2, 0x05));
    exec(&mut cpu, OpCode::ShiftRight(2));
    assert_eq!(cpu.read_reg(2), 0x02);
    assert_eq!(cpu.read_reg(0xF), 1);
}

#[test]
fn logic_and_immediate_add() {
    let mut cpu = cpu_with(&[]);
    exec(&mut cpu, OpCode::LoadByte(1, 0b1100));
    exec(&mut cpu, OpCode::LoadByte(2, 0b1010));
    exec(&mut cpu, OpCode::Move(3, 1));
    exec(&mut cpu, OpCode::Or(3, 2));
    assert_eq!(cpu.read_reg(3), 0b1110);
    exec(&mut cpu, OpCode::Move(3, 1));
    exec(&mut cpu, OpCode::And(3, 2));
    assert_eq!(cpu.read_reg(3), 0b1000);
    exec(&mut cpu, OpCode::Move(3, 1));
    exec(&mut cpu, OpCode::XOr(3, 2));
    assert_eq!(cpu.read_reg(3), 0b0110);
    exec(&mut cpu, OpCode::LoadByte(4, 250));
    exec(&mut cpu, OpCode::LoadByte(0xF, 9));
    exec(&mut cpu, OpCode::AddByte(4, 10));
    assert_eq!(cpu.read_reg(4), 4);
    assert_eq!(cpu.read_reg(0xF), 9);
}

#[test]
fn skips_and_jumps() {
    let mut cpu = cpu_with(&[]);
    exec(&mut cpu, OpCode::LoadByte(1, 7));
    let pc = cpu.pc();
    exec(&mut cpu, OpCode::SkipIfEqualsByte(1, 7));
    assert_eq!(cpu.pc(), pc + 4);
    exec(&mut cpu, OpCode::SkipIfNotEqualsByte(1, 7));
    assert_eq!(cpu.pc(), pc + 6);
    exec(&mut cpu, OpCode::SkipIfEquals(1, 2));
    assert_eq!(cpu.pc(), pc + 8);
    exec(&mut cpu, OpCode::SkipIfNotEquals(1, 2));
    assert_eq!(cpu.pc(), pc + 12);
    exec(&mut cpu, OpCode::JumpTo(0x300));
    assert_eq!(cpu.pc(), 0x300);
    exec(&mut cpu, OpCode::LoadByte(0, 0x10));
    exec(&mut cpu, OpCode::JumpPlus(0x400));
    assert_eq!(cpu.pc(), 0x410);
}

#[test]
fn call_and_return() {
    let mut cpu = cpu_with(&[]);
    exec(&mut cpu, OpCode::Call(0x400));
    assert_eq!(cpu.pc(), 0x400);
    assert_eq!(cpu.stack_depth(), 1);
    exec(&mut cpu, OpCode::Return);
    assert_eq!(cpu.pc(), 0x202);
    assert_eq!(cpu.stack_depth(), 0);
}

#[test]
fn return_on_empty_stack_fails() {
    let mut cpu = cpu_with(&[]);
    assert_eq!(cpu.run_instruction(OpCode::Return, 0), Err(Chip8Error::StackUnderflow));
    assert_eq!(cpu.pc(), 0x200);
}

#[test]
fn seventeenth_call_overflows() {
    let mut cpu = cpu_with(&[]);
    for _ in 0..16 {
        exec(&mut cpu, OpCode::Call(0x200));
    }
    assert_eq!(cpu.run_instruction(OpCode::Call(0x200), 0), Err(Chip8Error::StackOverflow));
    assert_eq!(cpu.stack_depth(), 16);
}

#[test]
fn draw_collision() {
    let mut cpu = cpu_with(&[]);
    exec(&mut cpu, OpCode::LoadByte(0, 0));
    exec(&mut cpu, OpCode::LoadSprite(0));
    exec(&mut cpu, OpCode::Draw(1, 2, 5));
    assert_eq!(cpu.read_reg(0xF), 0);
    assert!(cpu.gfx.get_pixel(0, 0));
    assert!(cpu.gfx.get_pixel(0, 3));
    assert!(!cpu.gfx.get_pixel(0, 4));
    assert!(cpu.gfx.get_pixel(1, 0));
    assert!(!cpu.gfx.get_pixel(1, 1));
    exec(&mut cpu, OpCode::Draw(1, 2, 5));
    assert_eq!(cpu.read_reg(0xF), 1);
    for row in 0..HEIGHT {
        for col in 0..WIDTH {
            assert!(!cpu.gfx.get_pixel(row, col));
        }
    }
}

#[test]
fn draw_wraps_around_edges() {
    let mut display = Display::new();
    let collision = display.draw(62, 31, &[0xFF, 0x80]);
    assert!(!collision);
    assert!(display.get_pixel(31, 62));
    assert!(display.get_pixel(31, 63));
    assert!(display.get_pixel(31, 0));
    assert!(display.get_pixel(31, 5));
    assert!(!display.get_pixel(31, 6));
    assert!(display.get_pixel(0, 62));
    assert!(!display.get_pixel(0, 63));
    display.clear();
    assert!(!display.get_pixel(31, 62));
}

#[test]
fn clear_screen_instruction() {
    let mut cpu = cpu_with(&[]);
    exec(&mut cpu, OpCode::Draw(0, 0, 5));
    assert!(cpu.gfx.get_pixel(0, 0));
    exec(&mut cpu, OpCode::ClearScreen);
    assert!(!cpu.gfx.get_pixel(0, 0));
}

#[test]
fn draw_past_memory_fails() {
    let mut cpu = cpu_with(&[]);
    exec(&mut cpu, OpCode::LoadIReg(0xFFD));
    assert_eq!(cpu.run_instruction(OpCode::Draw(0, 0, 5), 0), Err(Chip8Error::AddressOutOfRange));
}

#[test]
fn dump_then_load_round_trip() {
    let mut cpu = cpu_with(&[]);
    for r in 0..16u8 {
        exec(&mut cpu, OpCode::LoadByte(r, r * 3 + 1));
    }
    exec(&mut cpu, OpCode::LoadIReg(0x300));
    exec(&mut cpu, OpCode::RegDump(0xF));
    for r in 0..16usize {
        assert_eq!(cpu.memory_at(0x300 + r), r as u8 * 3 + 1);
    }
    for r in 0..16u8 {
        exec(&mut cpu, OpCode::LoadByte(r, 0));
    }
    exec(&mut cpu, OpCode::RegLoad(0xF));
    for r in 0..16u8 {
        assert_eq!(cpu.read_reg(r), r * 3 + 1);
    }
    assert_eq!(cpu.index(), 0x300);
}

#[test]
fn dump_is_inclusive_of_its_register() {
    let mut cpu = cpu_with(&[]);
    exec(&mut cpu, OpCode::LoadByte(0, 1));
    exec(&mut cpu, OpCode::LoadByte(1, 2));
    exec(&mut cpu, OpCode::LoadByte(2, 3));
    exec(&mut cpu, OpCode::LoadIReg(0x300));
    exec(&mut cpu, OpCode::RegDump(1));
    assert_eq!(cpu.memory_at(0x300), 1);
    assert_eq!(cpu.memory_at(0x301), 2);
    assert_eq!(cpu.memory_at(0x302), 0);
}

#[test]
fn bcd_of_234() {
    let mut cpu = cpu_with(&[]);
    exec(&mut cpu, OpCode::LoadByte(5, 234));
    exec(&mut cpu, OpCode::LoadIReg(0x300));
    exec(&mut cpu, OpCode::StoreBCD(5));
    assert_eq!(cpu.memory_at(0x300), 2);
    assert_eq!(cpu.memory_at(0x301), 3);
    assert_eq!(cpu.memory_at(0x302), 4);
}

#[test]
fn bcd_past_memory_fails() {
    let mut cpu = cpu_with(&[]);
    exec(&mut cpu, OpCode::LoadIReg(0xFFE));
    assert_eq!(cpu.run_instruction(OpCode::StoreBCD(0), 0), Err(Chip8Error::AddressOutOfRange));
}

#[test]
fn index_register_instructions() {
    let mut cpu = cpu_with(&[]);
    exec(&mut cpu, OpCode::LoadByte(3, 0xA));
    exec(&mut cpu, OpCode::LoadSprite(3));
    assert_eq!(cpu.index(), 50);
    exec(&mut cpu, OpCode::AddToIReg(3));
    assert_eq!(cpu.index(), 60);
}

#[test]
fn random_load_masks_the_byte() {
    let mut cpu = cpu_with(&[]);
    assert_eq!(cpu.run_instruction(OpCode::LoadRand(1, 0x0F), 0xAB), Ok(()));
    assert_eq!(cpu.read_reg(1), 0x0B);
}

#[test]
fn timers_decay_and_clamp() {
    // V0 = 3; delay = V0; sound = V0; then jump to itself.
    let mut cpu = cpu_with(&[0x60, 0x03, 0xF0, 0x15, 0xF0, 0x18, 0x12, 0x06]);
    assert_eq!(cpu.run_steps(&[0, 0, 0]), Ok(()));
    assert_eq!(cpu.delay_timer(), 2);
    assert_eq!(cpu.sound_timer(), 3);
    assert_eq!(cpu.run_steps(&[0]), Ok(()));
    assert_eq!(cpu.delay_timer(), 1);
    assert_eq!(cpu.sound_timer(), 2);
    assert_eq!(cpu.run_steps(&[0, 0, 0, 0, 0]), Ok(()));
    assert_eq!(cpu.delay_timer(), 0);
    assert_eq!(cpu.sound_timer(), 0);
    assert_eq!(cpu.pc(), 0x206);
}

#[test]
fn load_delay_reads_timer() {
    let mut cpu = cpu_with(&[]);
    exec(&mut cpu, OpCode::LoadByte(2, 40));
    exec(&mut cpu, OpCode::SetDelay(2));
    exec(&mut cpu, OpCode::LoadDelay(7));
    assert_eq!(cpu.read_reg(7), 40);
}

#[test]
fn key_wait_blocks_until_press() {
    // delay = 10 via V0; wait for a key into V5; then V6 = 1.
    let mut cpu = cpu_with(&[0x60, 0x0A, 0xF0, 0x15, 0xF5, 0x0A, 0x66, 0x01]);
    assert_eq!(cpu.run_steps(&[0, 0, 0]), Ok(()));
    assert_eq!(cpu.waiting_for_key(), Some(5));
    let pc = cpu.pc();
    assert_eq!(cpu.run_cycle(4), Ok(()));
    assert_eq!(cpu.pc(), pc);
    assert_eq!(cpu.read_reg(6), 0);
    assert_eq!(cpu.delay_timer(), 5);
    cpu.key_press(0xC);
    assert_eq!(cpu.read_reg(5), 0xC);
    assert_eq!(cpu.waiting_for_key(), None);
    assert_eq!(cpu.run_steps(&[0]), Ok(()));
    assert_eq!(cpu.read_reg(6), 1);
    assert_eq!(cpu.pc(), pc + 2);
}

#[test]
fn key_state_skips() {
    let mut cpu = cpu_with(&[]);
    exec(&mut cpu, OpCode::LoadByte(1, 4));
    cpu.key_press(4);
    let pc = cpu.pc();
    exec(&mut cpu, OpCode::SkipPressed(1));
    assert_eq!(cpu.pc(), pc + 4);
    exec(&mut cpu, OpCode::SkipNotPressed(1));
    assert_eq!(cpu.pc(), pc + 6);
    cpu.key_release(4);
    exec(&mut cpu, OpCode::SkipNotPressed(1));
    assert_eq!(cpu.pc(), pc + 10);
}

#[test]
fn key_test_out_of_range_fails() {
    let mut cpu = cpu_with(&[]);
    exec(&mut cpu, OpCode::LoadByte(1, 16));
    assert_eq!(cpu.run_instruction(OpCode::SkipPressed(1), 0), Err(Chip8Error::KeyOutOfRange));
}

#[test]
fn bad_instruction_stops_the_machine() {
    let mut cpu = cpu_with(&[0x00, 0x00]);
    assert_eq!(cpu.run_steps(&[0, 0]), Err(Chip8Error::BadInstruction(0x0000)));
    assert_eq!(cpu.pc(), 0x200);
}

#[test]
fn fetch_past_memory_fails() {
    let mut cpu = cpu_with(&[0x1F, 0xFF]);
    assert_eq!(cpu.run_steps(&[0, 0]), Err(Chip8Error::AddressOutOfRange));
}

#[test]
fn run_cycle_runs_the_given_number_of_steps() {
    // V1 += 1, jump back.
    let mut cpu = cpu_with(&[0x71, 0x01, 0x12, 0x00]);
    assert_eq!(cpu.run_cycle(10), Ok(()));
    assert_eq!(cpu.read_reg(1), 5);
    assert_eq!(cpu.run_cycle(0), Ok(()));
    assert_eq!(cpu.read_reg(1), 5);
}
