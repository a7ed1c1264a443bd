use chip8::emulator::Emulator;
use chip8::machine::{EmuError, StepOutcome};
use chip8::opcode::Opcode;

fn exec(emu: &mut Emulator, op: Opcode) -> Result<StepOutcome, EmuError> {
    emu.execute(op, None, 0)
}

fn with_regs(a: u8, b: u8) -> Emulator {
    let mut emu = Emulator::new();
    exec(&mut emu, Opcode::SetReg(1, a)).unwrap();
    exec(&mut emu, Opcode::SetReg(2, b)).unwrap();
    emu
}

#[test]
fn new_holds_font() {
    let emu = Emulator::new();
    let font = Emulator::get_fontset();
    for k in 0..80 {
        assert_eq!(emu.memory_at(0x50 + k), font[k]);
    }
    assert_eq!(emu.memory_at(0x4F), 0);
    assert_eq!(emu.memory_at(0xA0), 0);
    assert_eq!(font[0], 0xF0);
    assert_eq!(font[79], 0x80);
}

#[test]
fn add_with_carry() {
    let mut emu = with_regs(250, 10);
    exec(&mut emu, Opcode::AddReg(1, 2)).unwrap();
    assert_eq!(emu.register(1), 4);
    assert_eq!(emu.register(15), 1);
}

#[test]
fn add_without_carry() {
    let mut emu = with_regs(1, 2);
    exec(&mut emu, Opcode::SetReg(15, 9)).unwrap();
    exec(&mut emu, Opcode::AddReg(1, 2)).unwrap();
    assert_eq!(emu.register(1), 3);
    assert_eq!(emu.register(15), 0);
}

#[test]
fn add_255_plus_1() {
    let mut emu = with_regs(255, 1);
    exec(&mut emu, Opcode::AddReg(1, 2)).unwrap();
    assert_eq!(emu.register(1), 0);
    assert_eq!(emu.register(15), 1);
}

#[test]
fn subtract_no_borrow() {
    let mut emu = with_regs(5, 3);
    exec(&mut emu, Opcode::SubtractReg(1, 2)).unwrap();
    assert_eq!(emu.register(1), 2);
    assert_eq!(emu.register(15), 1);
}

#[test]
fn subtract_with_borrow() {
    let mut emu = with_regs(3, 5);
    exec(&mut emu, Opcode::SubtractReg(1, 2)).unwrap();
    assert_eq!(emu.register(1), 254);
    assert_eq!(emu.register(15), 0);
}

#[test]
fn shift_right_captures_lsb() {
    let mut emu = with_regs(0b0000_0011, 0);
    exec(&mut emu, Opcode::BitwiseRight(1, 2)).unwrap();
    assert_eq!(emu.register(1), 0b0000_0001);
    assert_eq!(emu.register(15), 1);
}

#[test]
fn shift_left_captures_msb() {
    let mut emu = with_regs(0b1000_0001, 0);
    exec(&mut emu, Opcode::BitwiseLeft(1, 2)).unwrap();
    assert_eq!(emu.register(1), 0b0000_0010);
    assert_eq!(emu.register(15), 1);
}

#[test]
fn reverse_subtract_both_paths() {
    let mut emu = with_regs(3, 10);
    exec(&mut emu, Opcode::NegativeSubtractReg(1, 2)).unwrap();
    assert_eq!(emu.register(1), 7);
    assert_eq!(emu.register(15), 1);
    let mut emu = with_regs(10, 3);
    exec(&mut emu, Opcode::NegativeSubtractReg(1, 2)).unwrap();
    assert_eq!(emu.register(1), 10);
    assert_eq!(emu.register(15), 0);
}

#[test]
fn logic_and_increment() {
    let mut emu = with_regs(0b1100, 0b1010);
    exec(&mut emu, Opcode::BitwiseOr(1, 2)).unwrap();
    assert_eq!(emu.register(1), 0b1110);
    exec(&mut emu, Opcode::BitwiseAnd(1, 2)).unwrap();
    assert_eq!(emu.register(1), 0b1010);
    exec(&mut emu, Opcode::BitwiseXor(1, 2)).unwrap();
    assert_eq!(emu.register(1), 0);
    exec(&mut emu, Opcode::IncrementReg(1, 255)).unwrap();
    exec(&mut emu, Opcode::IncrementReg(1, 3)).unwrap();
    assert_eq!(emu.register(1), 2);
    exec(&mut emu, Opcode::CopyReg(3, 2)).unwrap();
    assert_eq!(emu.register(3), 0b1010);
}

#[test]
fn binary_coded_decimal() {
    let mut emu = Emulator::new();
    exec(&mut emu, Opcode::SetReg(4, 205)).unwrap();
    exec(&mut emu, Opcode::SetI(0x300)).unwrap();
    exec(&mut emu, Opcode::BinaryCodeI(4)).unwrap();
    assert_eq!(emu.memory_at(0x300), 2);
    assert_eq!(emu.memory_at(0x301), 0);
    assert_eq!(emu.memory_at(0x302), 5);
}

#[test]
fn binary_coded_decimal_out_of_bounds() {
    let mut emu = Emulator::new();
    exec(&mut emu, Opcode::SetI(0xFFE)).unwrap();
    assert_eq!(
        exec(&mut emu, Opcode::BinaryCodeI(0)),
        Err(EmuError::MemoryBounds { address: 0xFFE })
    );
}

#[test]
fn registers_round_trip_through_memory() {
    let mut emu = Emulator::new();
    for r in 0..6u8 {
        exec(&mut emu, Opcode::SetReg(r, 10 * r + 7)).unwrap();
    }
    exec(&mut emu, Opcode::SetReg(6, 99)).unwrap();
    exec(&mut emu, Opcode::SetI(0x400)).unwrap();
    exec(&mut emu, Opcode::CopyRegistersToI(5)).unwrap();
    for r in 0..6usize {
        assert_eq!(emu.memory_at(0x400 + r), 10 * r as u8 + 7);
    }
    assert_eq!(emu.memory_at(0x406), 0);
    for r in 0..7u8 {
        exec(&mut emu, Opcode::SetReg(r, 0)).unwrap();
    }
    exec(&mut emu, Opcode::CopyIToRegisters(5)).unwrap();
    for r in 0..6usize {
        assert_eq!(emu.register(r), 10 * r as u8 + 7);
    }
    assert_eq!(emu.register(6), 0);
}

#[test]
fn end_to_end_font_glyph() {
    let mut emu = Emulator::new();
    let prog = vec![0x00, 0xE0, 0x60, 0x0A, 0xA0, 0x50, 0xD0, 0x15, 0x00, 0x00];
    emu.load(prog).unwrap();
    assert_eq!(emu.pc(), 0x200);
    assert_eq!(emu.run(None, 100), Ok(StepOutcome::FrameReady));
    assert_eq!(emu.run(None, 100), Ok(StepOutcome::FrameReady));
    assert_eq!(emu.run(None, 100), Ok(StepOutcome::Halted));
    let glyph = [0xF0u8, 0x90, 0x90, 0x90, 0xF0];
    let d = emu.display();
    for y in 0..32usize {
        for x in 0..64usize {
            let expected = y < 5 && (10..18).contains(&x) && (glyph[y] >> (7 - (x - 10))) & 1 == 1;
            assert_eq!(d.pixel(x, y), expected, "pixel {} {}", x, y);
        }
    }
    assert_eq!(emu.register(15), 0);
}

#[test]
fn draw_twice_sets_collision_flag() {
    let mut emu = Emulator::new();
    exec(&mut emu, Opcode::SetI(0x50)).unwrap();
    assert_eq!(exec(&mut emu, Opcode::Draw(1, 2, 5)), Ok(StepOutcome::FrameReady));
    assert_eq!(emu.register(15), 0);
    assert!(emu.display().pixel(0, 0));
    exec(&mut emu, Opcode::Draw(1, 2, 5)).unwrap();
    assert_eq!(emu.register(15), 1);
    for y in 0..32 {
        for x in 0..64 {
            assert!(!emu.display().pixel(x, y));
        }
    }
}

#[test]
fn draw_wraps_horizontally() {
    let mut emu = Emulator::new();
    exec(&mut emu, Opcode::SetReg(0, 60)).unwrap();
    exec(&mut emu, Opcode::SetReg(1, 0)).unwrap();
    exec(&mut emu, Opcode::SetI(0x300)).unwrap();
    exec(&mut emu, Opcode::SetReg(2, 0xFF)).unwrap();
    exec(&mut emu, Opcode::CopyRegistersToI(2)).unwrap();
    exec(&mut emu, Opcode::SetI(0x302)).unwrap();
    exec(&mut emu, Opcode::Draw(0, 1, 1)).unwrap();
    for x in [60usize, 61, 62, 63, 0, 1, 2, 3] {
        assert!(emu.display().pixel(x, 0));
    }
    assert!(!emu.display().pixel(4, 0));
    assert!(!emu.display().pixel(59, 0));
}

#[test]
fn draw_out_of_bounds() {
    let mut emu = Emulator::new();
    exec(&mut emu, Opcode::SetI(0xFFE)).unwrap();
    assert_eq!(
        exec(&mut emu, Opcode::Draw(0, 0, 5)),
        Err(EmuError::MemoryBounds { address: 0xFFE })
    );
    assert!(!emu.display().pixel(0, 0));
}

#[test]
fn timers_saturate() {
    let mut emu = Emulator::new();
    emu.tick_timers();
    assert_eq!(emu.delay_timer(), 0);
    assert_eq!(emu.sound_timer(), 0);
    exec(&mut emu, Opcode::SetReg(3, 2)).unwrap();
    exec(&mut emu, Opcode::SetDelayFromReg(3)).unwrap();
    exec(&mut emu, Opcode::SetSoundFromReg(3)).unwrap();
    emu.tick_timers();
    assert_eq!(emu.delay_timer(), 1);
    emu.tick_timers();
    emu.tick_timers();
    assert_eq!(emu.delay_timer(), 0);
    assert_eq!(emu.sound_timer(), 0);
    exec(&mut emu, Opcode::CopyDelayToReg(4)).unwrap();
    assert_eq!(emu.register(4), 0);
}

#[test]
fn return_on_empty_stack_underflows() {
    let mut emu = Emulator::new();
    assert_eq!(exec(&mut emu, Opcode::Return), Err(EmuError::StackUnderflow));
}

#[test]
fn call_and_return() {
    let mut emu = Emulator::new();
    emu.load(vec![0x23, 0x00]).unwrap();
    assert_eq!(emu.step_with(None, 0), Ok(StepOutcome::Running));
    assert_eq!(emu.pc(), 0x300);
    assert_eq!(emu.stack_depth(), 1);
    exec(&mut emu, Opcode::Return).unwrap();
    assert_eq!(emu.pc(), 0x202);
    assert_eq!(emu.stack_depth(), 0);
}

#[test]
fn jumps_and_skips() {
    let mut emu = Emulator::new();
    exec(&mut emu, Opcode::Jump(0x400)).unwrap();
    assert_eq!(emu.pc(), 0x400);
    exec(&mut emu, Opcode::SetReg(1, 5)).unwrap();
    exec(&mut emu, Opcode::Skip(1, 5)).unwrap();
    assert_eq!(emu.pc(), 0x402);
    exec(&mut emu, Opcode::Skip(1, 6)).unwrap();
    assert_eq!(emu.pc(), 0x402);
    exec(&mut emu, Opcode::SkipNotEqual(1, 6)).unwrap();
    assert_eq!(emu.pc(), 0x404);
    exec(&mut emu, Opcode::SkipRegEqual(1, 2)).unwrap();
    assert_eq!(emu.pc(), 0x404);
    exec(&mut emu, Opcode::SkipRegNotEqual(1, 2)).unwrap();
    assert_eq!(emu.pc(), 0x406);
    exec(&mut emu, Opcode::SetReg(0, 0x10)).unwrap();
    exec(&mut emu, Opcode::JumpOffset(0x300)).unwrap();
    assert_eq!(emu.pc(), 0x310);
}

#[test]
fn key_skips() {
    let mut emu = Emulator::new();
    exec(&mut emu, Opcode::SetReg(1, 7)).unwrap();
    emu.execute(Opcode::SkipKeyPressed(1), Some(7), 0).unwrap();
    assert_eq!(emu.pc(), 2);
    emu.execute(Opcode::SkipKeyPressed(1), Some(6), 0).unwrap();
    emu.execute(Opcode::SkipKeyPressed(1), None, 0).unwrap();
    assert_eq!(emu.pc(), 2);
    emu.execute(Opcode::SkipKeyNotPressed(1), Some(7), 0).unwrap();
    assert_eq!(emu.pc(), 2);
    emu.execute(Opcode::SkipKeyNotPressed(1), Some(6), 0).unwrap();
    assert_eq!(emu.pc(), 4);
    emu.execute(Opcode::SkipKeyNotPressed(1), None, 0).unwrap();
    assert_eq!(emu.pc(), 6);
}

#[test]
fn wait_for_key_stays_until_pressed() {
    let mut emu = Emulator::new();
    emu.load(vec![0xF3, 0x0A, 0x64, 0x01]).unwrap();
    exec(&mut emu, Opcode::SetReg(3, 9)).unwrap();
    assert!(emu.needs_key());
    assert_eq!(emu.step_with(None, 0), Ok(StepOutcome::WaitingForKey));
    assert_eq!(emu.pc(), 0x202);
    assert_eq!(emu.register(3), 9);
    assert!(emu.needs_key());
    assert_eq!(emu.step_with(None, 0), Ok(StepOutcome::WaitingForKey));
    assert_eq!(emu.pc(), 0x202);
    assert_eq!(emu.register(3), 9);
    assert_eq!(emu.step_with(Some(0xB), 0), Ok(StepOutcome::Running));
    assert_eq!(emu.pc(), 0x202);
    assert_eq!(emu.register(3), 0xB);
    assert!(!emu.needs_key());
    assert_eq!(emu.step_with(None, 0), Ok(StepOutcome::Running));
    assert_eq!(emu.pc(), 0x204);
    assert_eq!(emu.register(4), 1);
}

#[test]
fn run_waits_past_key_instruction() {
    let mut emu = Emulator::new();
    emu.load(vec![0xF5, 0x0A, 0x00, 0x00]).unwrap();
    assert_eq!(emu.run(None, 1), Ok(StepOutcome::WaitingForKey));
    assert_eq!(emu.pc(), 0x202);
    assert_eq!(emu.run(None, 5), Ok(StepOutcome::WaitingForKey));
    assert_eq!(emu.pc(), 0x202);
    assert_eq!(emu.register(5), 0);
    assert_eq!(emu.index(), 0);
    assert_eq!(emu.run(Some(6), 5), Ok(StepOutcome::Halted));
    assert_eq!(emu.register(5), 6);
    assert_eq!(emu.pc(), 0x204);
}

#[test]
fn wait_with_key_already_pressed() {
    let mut emu = Emulator::new();
    emu.load(vec![0xF2, 0x0A]).unwrap();
    assert_eq!(emu.step_with(Some(4), 0), Ok(StepOutcome::Running));
    assert_eq!(emu.register(2), 4);
    assert_eq!(emu.pc(), 0x202);
}

#[test]
fn random_and_masks() {
    let mut emu = Emulator::new();
    emu.load(vec![0xC2, 0x0F, 0xC3, 0x00]).unwrap();
    emu.step_with(None, 0xAB).unwrap();
    assert_eq!(emu.register(2), 0x0B);
    emu.step(None).unwrap();
    assert_eq!(emu.register(3), 0);
}

#[test]
fn index_register_ops() {
    let mut emu = Emulator::new();
    exec(&mut emu, Opcode::SetReg(2, 2)).unwrap();
    exec(&mut emu, Opcode::SetIToFontDigit(2)).unwrap();
    assert_eq!(emu.index(), 0x50 + 10);
    exec(&mut emu, Opcode::AddI(2)).unwrap();
    assert_eq!(emu.index(), 0x50 + 12);
}

#[test]
fn decode_error_leaves_pc() {
    let mut emu = Emulator::new();
    emu.load(vec![0x50, 0x01]).unwrap();
    assert_eq!(
        emu.step_with(None, 0),
        Err(EmuError::Decode { word: 0x5001, pc: 0x200 })
    );
    assert_eq!(emu.pc(), 0x200);
}

#[test]
fn fetch_past_end_of_memory() {
    let mut emu = Emulator::new();
    exec(&mut emu, Opcode::Jump(0xFFF)).unwrap();
    assert_eq!(
        emu.step_with(None, 0),
        Err(EmuError::MemoryBounds { address: 0xFFF })
    );
}

#[test]
fn load_too_large_is_refused() {
    let mut emu = Emulator::new();
    assert_eq!(
        emu.load(vec![1u8; 4096 - 0x200 + 1]),
        Err(EmuError::LoadTooLarge { len: 4096 - 0x200 + 1 })
    );
    assert_eq!(emu.pc(), 0);
    assert_eq!(emu.load(vec![1u8; 4096 - 0x200]), Ok(()));
    assert_eq!(emu.memory_at(4095), 1);
}

#[test]
fn zero_word_halts() {
    let mut emu = Emulator::new();
    emu.load(vec![0x00, 0x00]).unwrap();
    assert_eq!(emu.step_with(None, 0), Ok(StepOutcome::Halted));
}

#[test]
fn run_stops_after_budget() {
    let mut emu = Emulator::new();
    emu.load(vec![0x12, 0x00]).unwrap();
    assert_eq!(emu.run(None, 10), Ok(StepOutcome::Running));
    assert_eq!(emu.pc(), 0x200);
}

#[test]
fn needs_key_only_for_key_instructions() {
    let mut emu = Emulator::new();
    emu.load(vec![0xE1, 0x9E, 0xE1, 0xA1, 0xF1, 0x0A, 0x61, 0x00]).unwrap();
    assert!(emu.needs_key());
    exec(&mut emu, Opcode::Jump(0x202)).unwrap();
    assert!(emu.needs_key());
    exec(&mut emu, Opcode::Jump(0x204)).unwrap();
    assert!(emu.needs_key());
    exec(&mut emu, Opcode::Jump(0x206)).unwrap();
    assert!(!emu.needs_key());
}
