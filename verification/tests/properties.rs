//! Scenario checks for the interpreter's documented behaviour: draw
//! cancellation and wrap-around, the key-wait busy loop, nested
//! call/return round trips, timer floors, and reset idempotence.

use chip8_rs::chip8::Chip8;

const START: u16 = 0x200;

#[test]
fn drawing_the_same_sprite_twice_restores_the_screen() {
    let mut c = Chip8::new();
    assert!(c.execute(0xA000, 0).is_ok());
    assert!(c.execute(0xD015, 0).is_ok());
    assert!(c.get_screen().iter().any(|&p| p));
    assert!(c.execute(0xD015, 0).is_ok());
    assert!(c.get_screen().iter().all(|&p| !p));
    // every cell the first draw turned on was on, so the second draw collides
    assert_eq!(c.get_register(15), 1);
}

#[test]
fn draw_wraps_columns_past_the_right_edge() {
    let mut c = Chip8::new();
    c.load_rom(&[0xFF]);
    assert!(c.execute(0xA200, 0).is_ok());
    assert!(c.execute(0x603C, 0).is_ok()); // x-coordinate 60
    assert!(c.execute(0xD011, 0).is_ok()); // one row at (60, 0)
    let s = c.get_screen();
    for col in [60usize, 61, 62, 63, 0, 1, 2, 3] {
        assert!(s[col], "column {} should be on", col);
    }
    for col in [4usize, 5, 59] {
        assert!(!s[col], "column {} should be off", col);
    }
}

#[test]
fn draw_wraps_rows_past_the_bottom_edge() {
    let mut c = Chip8::new();
    c.load_rom(&[0x80, 0x80, 0x80]);
    assert!(c.execute(0xA200, 0).is_ok());
    assert!(c.execute(0x611E, 0).is_ok()); // y-coordinate 30
    assert!(c.execute(0xD013, 0).is_ok()); // three rows at (0, 30)
    let s = c.get_screen();
    assert!(s[30 * 64]);
    assert!(s[31 * 64]);
    assert!(s[0]);
    assert!(!s[1 * 64]);
}

#[test]
fn wait_for_key_spins_until_a_key_is_held() {
    let mut c = Chip8::new();
    c.load_rom(&[0xF1, 0x0A]);
    assert_eq!(c.get_pc(), START);
    assert!(c.cpu_tick().is_ok());
    // no key held: net program-counter advance is zero
    assert_eq!(c.get_pc(), START);
    assert!(c.cpu_tick().is_ok());
    assert_eq!(c.get_pc(), START);
    // the lowest held key wins
    c.keypress(9, true);
    c.keypress(7, true);
    assert!(c.cpu_tick().is_ok());
    assert_eq!(c.get_pc(), START + 2);
    assert_eq!(c.get_register(1), 7);
}

#[test]
fn nested_calls_round_trip_through_the_stack() {
    let mut c = Chip8::new();
    assert!(c.execute(0x2300, 0).is_ok());
    assert!(c.execute(0x2400, 0).is_ok());
    assert!(c.execute(0x2500, 0).is_ok());
    assert_eq!(c.get_pc(), 0x500);
    assert_eq!(c.get_stack_depth(), 3);
    assert!(c.execute(0x00EE, 0).is_ok());
    assert_eq!(c.get_pc(), 0x400);
    assert!(c.execute(0x00EE, 0).is_ok());
    assert_eq!(c.get_pc(), 0x300);
    assert!(c.execute(0x00EE, 0).is_ok());
    assert_eq!(c.get_pc(), START);
    assert_eq!(c.get_stack_depth(), 0);
}

#[test]
fn call_and_ret_through_whole_steps_restore_the_counter() {
    // at 0x200: call 0x300; at 0x300: return
    let mut rom = vec![0x23, 0x00];
    rom.extend(std::iter::repeat(0).take(0x100 - 2));
    rom.extend([0x00, 0xEE]);
    let mut c = Chip8::new();
    c.load_rom(&rom);
    assert!(c.cpu_tick().is_ok());
    assert_eq!(c.get_pc(), 0x300);
    assert_eq!(c.get_stack_depth(), 1);
    assert!(c.cpu_tick().is_ok());
    // the counter saved at call time was 0x202, the address after the call
    assert_eq!(c.get_pc(), 0x202);
    assert_eq!(c.get_stack_depth(), 0);
}

#[test]
fn ticking_zero_timers_never_underflows() {
    let mut c = Chip8::new();
    assert!(c.execute(0x6202, 0).is_ok());
    assert!(c.execute(0xF215, 0).is_ok()); // delay := 2
    assert!(c.execute(0x6201, 0).is_ok());
    assert!(c.execute(0xF218, 0).is_ok()); // sound := 1
    c.timers_tick();
    assert_eq!(c.get_delay_timer(), 1);
    assert_eq!(c.get_sound_timer(), 0);
    c.timers_tick();
    assert_eq!(c.get_delay_timer(), 0);
    assert_eq!(c.get_sound_timer(), 0);
    c.timers_tick();
    c.timers_tick();
    assert_eq!(c.get_delay_timer(), 0);
    assert_eq!(c.get_sound_timer(), 0);
}

fn observable_state(c: &Chip8) -> (Vec<u8>, u16, u16, usize, u8, u8, Vec<bool>, Vec<u8>) {
    let regs: Vec<u8> = (0..16u8).map(|x| c.get_register(x)).collect();
    let screen: Vec<bool> = c.get_screen().to_vec();
    let mem: Vec<u8> = (0..4096u16).map(|a| c.read_memory(a)).collect();
    (
        regs,
        c.get_pc(),
        c.get_index(),
        c.get_stack_depth(),
        c.get_delay_timer(),
        c.get_sound_timer(),
        screen,
        mem,
    )
}

#[test]
fn resetting_twice_equals_resetting_once() {
    let mut c = Chip8::new();
    // disturb every component first
    c.load_rom(&[0x12, 0x34, 0x56]);
    assert!(c.execute(0x6177, 0).is_ok());
    assert!(c.execute(0x2456, 0).is_ok());
    assert!(c.execute(0xA000, 0).is_ok());
    assert!(c.execute(0xD015, 0).is_ok());
    assert!(c.execute(0x6205, 0).is_ok());
    assert!(c.execute(0xF215, 0).is_ok());
    c.keypress(3, true);
    c.reset();
    let once = observable_state(&c);
    c.reset();
    let twice = observable_state(&c);
    assert_eq!(once, twice);
    // and the reset state is the freshly constructed one
    let fresh = Chip8::new();
    assert_eq!(once, observable_state(&fresh));
    // registers zero, counter at the start address, stack empty, timers
    // zero, display clear, glyph table present
    assert!(once.0.iter().all(|&r| r == 0));
    assert_eq!(once.1, START);
    assert_eq!(once.3, 0);
    assert_eq!(once.4, 0);
    assert_eq!(once.5, 0);
    assert!(once.6.iter().all(|&p| !p));
    assert_eq!(c.read_memory(0), 0xF0);
    assert_eq!(c.read_memory(4), 0xF0);
    assert_eq!(c.read_memory(79), 0x80);
    assert_eq!(c.read_memory(80), 0x00);
}

#[test]
fn random_with_zero_mask_always_clears_the_register() {
    // through whole steps, whatever the randomness source returns
    let mut c = Chip8::new();
    c.load_rom(&[0x61, 0xFF, 0xC1, 0x00]);
    assert!(c.cpu_tick().is_ok());
    assert_eq!(c.get_register(1), 0xFF);
    assert!(c.cpu_tick().is_ok());
    assert_eq!(c.get_register(1), 0x00);
}
