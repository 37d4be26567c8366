use chipkit::chip8::backend::StreamRng;
use chipkit::chip8::data::Address;
use chipkit::chip8::image::MemoryImage;
use chipkit::chip8::managed_interpreter::ManagedInterpreter;

fn machine_with(
    words: &[u16],
    rng: Vec<u8>,
    op: u64,
    delay: u64,
    sound: u64,
) -> ManagedInterpreter<StreamRng> {
    let mut payload = Vec::new();
    for w in words {
        payload.push((w >> 8) as u8);
        payload.push((w & 0xFF) as u8);
    }
    let image = MemoryImage::new(Address::new(0x200), payload);
    ManagedInterpreter::new_with_durations(image, StreamRng::new(rng), op, delay, sound)
}

fn lit_pixels(m: &ManagedInterpreter<StreamRng>) -> Vec<(usize, usize)> {
    let fb = m.frame_buffer();
    let mut lit = Vec::new();
    for y in 0..32 {
        for x in 0..64 {
            if fb.pixel(x, y) {
                lit.push((x, y));
            }
        }
    }
    lit
}

#[test]
fn drawing_twice_erases_and_reports_collision_the_second_time() {
    // I points at an 0xFF sprite row inside the program image; draw it
    // twice at (V0, V1) = (0, 0).
    let words = [0xA206u16, 0xD011, 0xD011, 0xFFFF];
    let mut m = machine_with(&words, Vec::new(), 1, 1 << 40, 1 << 40);
    m.simulate_one_instruction().unwrap();
    m.simulate_one_instruction().unwrap();
    // First draw on a cleared screen: pixels lit, no collision.
    assert_eq!(m.register(chipkit::chip8::data::Nibble::new(0xF)), 0);
    assert_eq!(lit_pixels(&m), vec![(0, 0), (1, 0), (2, 0), (3, 0), (4, 0), (5, 0), (6, 0), (7, 0)]);
    m.simulate_one_instruction().unwrap();
    // Second draw at the same spot: everything off again, collision set.
    assert_eq!(m.register(chipkit::chip8::data::Nibble::new(0xF)), 1);
    assert_eq!(lit_pixels(&m), Vec::new());
}

#[test]
fn draw_origin_wraps_at_screen_width() {
    // Draw at x = 64: identical to drawing at x = 0.
    let at_wrapped = [0x6040u16, 0xA204, 0xD015, 0x8041];
    let mut m1 = machine_with(&at_wrapped, Vec::new(), 1, 1 << 40, 1 << 40);
    for _ in 0..3 {
        m1.simulate_one_instruction().unwrap();
    }
    let at_zero = [0x6000u16, 0xA204, 0xD015, 0x8041];
    let mut m2 = machine_with(&at_zero, Vec::new(), 1, 1 << 40, 1 << 40);
    for _ in 0..3 {
        m2.simulate_one_instruction().unwrap();
    }
    assert_eq!(lit_pixels(&m1), lit_pixels(&m2));
    assert!(!lit_pixels(&m1).is_empty());
}

#[test]
fn sprite_rows_falling_off_the_screen_are_skipped() {
    // Origin (0, 30) with a 4-row sprite: only the two rows on screen land.
    let words = [0x6000u16, 0x611E, 0xA20A, 0xD014, 0xC0C0, 0xC0C0];
    let mut m = machine_with(&words, Vec::new(), 1, 1 << 40, 1 << 40);
    for _ in 0..4 {
        m.simulate_one_instruction().unwrap();
    }
    assert_eq!(lit_pixels(&m), vec![(0, 30), (1, 30), (0, 31), (1, 31)]);
}

#[test]
fn split_advance_reaches_the_same_state() {
    // A program that keeps counting and redrawing from its random stream.
    let words = [0x6A00u16, 0x7A01, 0xC0FF, 0x1202];
    let rng: Vec<u8> = (0u16..200).map(|i| (i * 7 % 251) as u8).collect();
    let mut one = machine_with(&words, rng.clone(), 3, 7, 11);
    let mut two = machine_with(&words, rng, 3, 7, 11);

    one.simulate_duration(1000).unwrap();

    two.simulate_duration(1).unwrap();
    two.simulate_duration(420).unwrap();
    two.simulate_duration(0).unwrap();
    two.simulate_duration(579).unwrap();

    for r in 0..16u8 {
        let x = chipkit::chip8::data::Nibble::new(r);
        assert_eq!(one.register(x), two.register(x));
    }
    assert_eq!(one.program_counter(), two.program_counter());
    assert_eq!(one.delay_timer(), two.delay_timer());
    assert_eq!(one.sound_timer(), two.sound_timer());
    assert_eq!(lit_pixels(&one), lit_pixels(&two));
}

#[test]
fn timers_tick_at_their_own_cadence_and_floor_at_zero() {
    // Set the delay timer to 5, then loop in place.
    let words = [0x6A05u16, 0xFA15, 0x1204];
    let mut m = machine_with(&words, Vec::new(), 2, 10, 1 << 40);
    // Two instructions have run after 4 time units; no delay tick yet.
    m.simulate_duration(4).unwrap();
    assert_eq!(m.delay_timer(), 5);
    // After 100 units in total, ten delay ticks have fired; the timer
    // floors at zero rather than wrapping.
    m.simulate_duration(96).unwrap();
    assert_eq!(m.delay_timer(), 0);
}

#[test]
fn leftover_countdown_carries_across_calls() {
    let words = [0x7A01u16, 0x1200];
    let mut m = machine_with(&words, Vec::new(), 10, 1 << 40, 1 << 40);
    // Nine units: no instruction fired yet.
    m.simulate_duration(9).unwrap();
    assert_eq!(m.register(chipkit::chip8::data::Nibble::new(0xA)), 0);
    // One more unit completes the first cadence.
    m.simulate_duration(1).unwrap();
    assert_eq!(m.register(chipkit::chip8::data::Nibble::new(0xA)), 1);
}
