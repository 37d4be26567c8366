use chipkit::chip8::backend::StreamRng;
use chipkit::chip8::data::{Address, Nibble};
use chipkit::chip8::error::VmError;
use chipkit::chip8::image::MemoryImage;
use chipkit::chip8::managed_interpreter::ManagedInterpreter;

fn machine(words: &[u16]) -> ManagedInterpreter<StreamRng> {
    machine_with_rng(words, Vec::new())
}

fn machine_with_rng(words: &[u16], rng: Vec<u8>) -> ManagedInterpreter<StreamRng> {
    let mut payload = Vec::new();
    for w in words {
        payload.push((w >> 8) as u8);
        payload.push((w & 0xFF) as u8);
    }
    let image = MemoryImage::new(Address::new(0x200), payload);
    ManagedInterpreter::new(image, StreamRng::new(rng))
}

fn reg(m: &ManagedInterpreter<StreamRng>, x: u8) -> u8 {
    m.register(Nibble::new(x))
}

#[test]
fn clear_screen_advances_and_blanks() {
    // End-to-end: memory holds a single clear instruction at the entry.
    let mut m = machine(&[0x00E0]);
    assert_eq!(m.program_counter(), 0x200);
    m.simulate_one_instruction().unwrap();
    assert_eq!(m.program_counter(), 0x202);
    let fb = m.frame_buffer();
    for y in 0..32 {
        for x in 0..64 {
            assert!(!fb.pixel(x, y));
        }
    }
}

#[test]
fn set_then_add_immediate() {
    // End-to-end: set register A to 2, then add 5.
    let mut m = machine(&[0x6A02, 0x7A05]);
    m.simulate_one_instruction().unwrap();
    m.simulate_one_instruction().unwrap();
    assert_eq!(reg(&m, 0xA), 7);
    assert_eq!(m.program_counter(), 0x204);
}

#[test]
fn add_registers_wraps_and_sets_flag() {
    // End-to-end: VA = 0xFF, VB = 1, ADD VA,VB.
    let mut m = machine(&[0x6AFF, 0x6B01, 0x8AB4]);
    for _ in 0..3 {
        m.simulate_one_instruction().unwrap();
    }
    assert_eq!(reg(&m, 0xA), 0);
    assert_eq!(reg(&m, 0xF), 1);
}

#[test]
fn add_registers_without_overflow_clears_flag() {
    let mut m = machine(&[0x6A20, 0x6B15, 0x8AB4]);
    for _ in 0..3 {
        m.simulate_one_instruction().unwrap();
    }
    assert_eq!(reg(&m, 0xA), 0x35);
    assert_eq!(reg(&m, 0xF), 0);
}

#[test]
fn subtract_flags_follow_no_borrow_convention() {
    // 7 - 3: no borrow, flag 1.
    let mut m = machine(&[0x6A07, 0x6B03, 0x8AB5]);
    for _ in 0..3 {
        m.simulate_one_instruction().unwrap();
    }
    assert_eq!(reg(&m, 0xA), 4);
    assert_eq!(reg(&m, 0xF), 1);

    // 3 - 7: borrow, wrapped result, flag 0.
    let mut m = machine(&[0x6A03, 0x6B07, 0x8AB5]);
    for _ in 0..3 {
        m.simulate_one_instruction().unwrap();
    }
    assert_eq!(reg(&m, 0xA), 0xFC);
    assert_eq!(reg(&m, 0xF), 0);

    // Reversed subtract computes VB - VA.
    let mut m = machine(&[0x6A03, 0x6B07, 0x8AB7]);
    for _ in 0..3 {
        m.simulate_one_instruction().unwrap();
    }
    assert_eq!(reg(&m, 0xA), 4);
    assert_eq!(reg(&m, 0xF), 1);
}

#[test]
fn bitwise_ops_clear_flag() {
    let mut m = machine(&[0x6A0F, 0x6BF0, 0x6F07, 0x8AB1]);
    for _ in 0..4 {
        m.simulate_one_instruction().unwrap();
    }
    assert_eq!(reg(&m, 0xA), 0xFF);
    assert_eq!(reg(&m, 0xF), 0);
}

#[test]
fn shift_aliasing_reads_source_before_writing() {
    // SHR VA,VA with VA = 5.
    let mut m1 = machine(&[0x6A05, 0x8AA6]);
    m1.simulate_one_instruction().unwrap();
    m1.simulate_one_instruction().unwrap();
    // SHR VA,VB with VB holding the same initial value.
    let mut m2 = machine(&[0x6A05, 0x6B05, 0x8AB6]);
    for _ in 0..3 {
        m2.simulate_one_instruction().unwrap();
    }
    assert_eq!(reg(&m1, 0xA), reg(&m2, 0xA));
    assert_eq!(reg(&m1, 0xF), reg(&m2, 0xF));
    assert_eq!(reg(&m1, 0xA), 2);
    assert_eq!(reg(&m1, 0xF), 1);
}

#[test]
fn shift_left_takes_high_bit_from_source() {
    let mut m = machine(&[0x6A81, 0x8AAE]);
    m.simulate_one_instruction().unwrap();
    m.simulate_one_instruction().unwrap();
    assert_eq!(reg(&m, 0xA), 0x02);
    assert_eq!(reg(&m, 0xF), 1);
}

#[test]
fn skip_family() {
    // SE matches: skip.
    let mut m = machine(&[0x6A07, 0x3A07]);
    m.simulate_one_instruction().unwrap();
    m.simulate_one_instruction().unwrap();
    assert_eq!(m.program_counter(), 0x206);
    // SNE does not match: fall through.
    let mut m = machine(&[0x6A07, 0x4A07]);
    m.simulate_one_instruction().unwrap();
    m.simulate_one_instruction().unwrap();
    assert_eq!(m.program_counter(), 0x204);
}

#[test]
fn sixteen_calls_succeed_then_overflow() {
    // Seventeen consecutive calls, each to the next instruction.
    let mut words = Vec::new();
    for i in 0..17u16 {
        let target = 0x202 + 2 * i;
        words.push(0x2000 | target);
    }
    let mut m = machine(&words);
    for i in 0..16 {
        m.simulate_one_instruction().unwrap();
        assert_eq!(m.stack_depth(), i + 1);
    }
    assert_eq!(m.program_counter(), 0x220);
    assert_eq!(m.simulate_one_instruction(), Err(VmError::StackOverflow));
    assert_eq!(m.stack_depth(), 16);
}

#[test]
fn call_then_return_lands_after_the_call() {
    let mut m = machine(&[0x2204, 0x0000, 0x00EE]);
    m.simulate_one_instruction().unwrap();
    assert_eq!(m.program_counter(), 0x204);
    assert_eq!(m.stack_depth(), 1);
    m.simulate_one_instruction().unwrap();
    assert_eq!(m.program_counter(), 0x202);
    assert_eq!(m.stack_depth(), 0);
}

#[test]
fn return_with_empty_stack_underflows() {
    let mut m = machine(&[0x00EE]);
    assert_eq!(m.simulate_one_instruction(), Err(VmError::StackUnderflow));
}

#[test]
fn unknown_opcode_carries_the_word() {
    let mut m = machine(&[0xFFFF]);
    match m.simulate_one_instruction() {
        Err(VmError::UnknownOpCode(code)) => assert_eq!(code.as_u16(), 0xFFFF),
        other => panic!("unexpected: {other:?}"),
    }
}

#[test]
fn key_test_with_raw_value_above_fifteen_is_invalid() {
    let mut m = machine(&[0x6AFF, 0xEA9E]);
    m.simulate_one_instruction().unwrap();
    assert_eq!(m.simulate_one_instruction(), Err(VmError::InvalidKey(0xFF)));
}

#[test]
fn key_tests_skip_on_state() {
    let mut m = machine(&[0x6A05, 0xEA9E]);
    m.set_key_down(Nibble::new(5), true);
    m.simulate_one_instruction().unwrap();
    m.simulate_one_instruction().unwrap();
    assert_eq!(m.program_counter(), 0x206);

    let mut m = machine(&[0x6A05, 0xEAA1]);
    m.simulate_one_instruction().unwrap();
    m.simulate_one_instruction().unwrap();
    assert_eq!(m.program_counter(), 0x206);
}

#[test]
fn wait_for_key_busy_waits_and_highest_index_wins() {
    let mut m = machine(&[0xFA0A]);
    // No key pressed: the program counter stays put.
    m.simulate_one_instruction().unwrap();
    assert_eq!(m.program_counter(), 0x200);
    // Two keys pressed at once: the highest scanned index is recorded.
    m.set_key_down(Nibble::new(4), true);
    m.set_key_down(Nibble::new(9), true);
    m.simulate_one_instruction().unwrap();
    assert_eq!(m.program_counter(), 0x202);
    assert_eq!(reg(&m, 0xA), 9);
}

#[test]
fn jump_and_jump_with_offset() {
    let mut m = machine(&[0x1208]);
    m.simulate_one_instruction().unwrap();
    assert_eq!(m.program_counter(), 0x208);

    let mut m = machine(&[0x6004, 0xB208]);
    m.simulate_one_instruction().unwrap();
    m.simulate_one_instruction().unwrap();
    assert_eq!(m.program_counter(), 0x20C);
}

#[test]
fn bcd_and_memory_block_transfer() {
    // V0 = 159, write its decimal digits at I = 0x300.
    let mut m = machine(&[0x609F, 0xA300, 0xF033]);
    for _ in 0..3 {
        m.simulate_one_instruction().unwrap();
    }
    assert_eq!(m.memory_byte(Address::new(0x300)), 1);
    assert_eq!(m.memory_byte(Address::new(0x301)), 5);
    assert_eq!(m.memory_byte(Address::new(0x302)), 9);

    // Store V0..=V1 at I, then read them back into registers.
    let mut m = machine(&[0x6011, 0x6122, 0xA300, 0xF155, 0xA300, 0xF165]);
    for _ in 0..6 {
        m.simulate_one_instruction().unwrap();
    }
    assert_eq!(reg(&m, 0x0), 0x11);
    assert_eq!(reg(&m, 0x1), 0x22);
    // Both block operations advance the index register by x + 1.
    assert_eq!(m.index_register(), 0x302);
}

#[test]
fn font_sprite_address_uses_stride_five() {
    let mut m = machine(&[0x6A07, 0xFA29]);
    m.simulate_one_instruction().unwrap();
    m.simulate_one_instruction().unwrap();
    assert_eq!(m.index_register(), 35);
}

#[test]
fn random_draws_from_the_stream_and_masks() {
    let mut m = machine_with_rng(&[0xCAFF, 0xCA0F], vec![0xAB, 0xCD]);
    m.simulate_one_instruction().unwrap();
    assert_eq!(reg(&m, 0xA), 0xAB);
    m.simulate_one_instruction().unwrap();
    assert_eq!(reg(&m, 0xA), 0x0D);
}

#[test]
fn timers_read_and_write_register_values() {
    let mut m = machine(&[0x6A3C, 0xFA15, 0x6B00, 0xFB07, 0x6C09, 0xFC18]);
    for _ in 0..6 {
        m.simulate_one_instruction().unwrap();
    }
    assert_eq!(m.delay_timer(), 0x3C);
    assert_eq!(reg(&m, 0xB), 0x3C);
    assert_eq!(m.sound_timer(), 9);
}
