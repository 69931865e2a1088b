//! One representative opcode per row of the instruction table, checked
//! for the exact specified state mutation. `execute` runs the
//! decode/execute stage directly with a chosen random byte, so every
//! outcome here is deterministic.

use chip8_rs::chip8::Chip8;
use chip8_rs::chip8::Chip8Error;

const START: u16 = 0x200;

fn machine() -> Chip8 {
    Chip8::new()
}

#[test]
fn nop_changes_nothing() {
    let mut c = machine();
    let r = c.execute(0x0000, 0);
    assert!(r.is_ok());
    assert_eq!(c.get_pc(), START);
    for x in 0..16u8 {
        assert_eq!(c.get_register(x), 0);
    }
}

#[test]
fn clear_screen_turns_every_cell_off() {
    let mut c = machine();
    // glyph 0 at address 0: draw it, then clear
    assert!(c.execute(0xA000, 0).is_ok());
    assert!(c.execute(0xD015, 0).is_ok());
    assert!(c.get_screen().iter().any(|&p| p));
    assert!(c.execute(0x00E0, 0).is_ok());
    assert!(c.get_screen().iter().all(|&p| !p));
}

#[test]
fn ret_pops_the_saved_address() {
    let mut c = machine();
    assert!(c.execute(0x2ABC, 0).is_ok());
    assert_eq!(c.get_pc(), 0xABC);
    assert_eq!(c.get_stack_depth(), 1);
    assert!(c.execute(0x00EE, 0).is_ok());
    assert_eq!(c.get_pc(), START);
    assert_eq!(c.get_stack_depth(), 0);
}

#[test]
fn ret_on_empty_stack_is_a_stack_underflow() {
    let mut c = machine();
    let r = c.execute(0x00EE, 0);
    assert_eq!(
        r,
        Err(Chip8Error::StackUnderflow { pc: START.wrapping_sub(2), opcode: 0x00EE })
    );
    assert_eq!(c.get_pc(), START);
    assert_eq!(c.get_stack_depth(), 0);
}

#[test]
fn jump_sets_the_program_counter() {
    let mut c = machine();
    assert!(c.execute(0x1456, 0).is_ok());
    assert_eq!(c.get_pc(), 0x456);
}

#[test]
fn call_pushes_and_jumps() {
    let mut c = machine();
    assert!(c.execute(0x2300, 0).is_ok());
    assert_eq!(c.get_pc(), 0x300);
    assert_eq!(c.get_stack_depth(), 1);
}

#[test]
fn skip_if_equal_immediate() {
    let mut c = machine();
    assert!(c.execute(0x6103, 0).is_ok());
    assert!(c.execute(0x3103, 0).is_ok());
    assert_eq!(c.get_pc(), START + 2);
    assert!(c.execute(0x3104, 0).is_ok());
    assert_eq!(c.get_pc(), START + 2);
}

#[test]
fn skip_if_not_equal_immediate() {
    let mut c = machine();
    assert!(c.execute(0x6103, 0).is_ok());
    assert!(c.execute(0x4103, 0).is_ok());
    assert_eq!(c.get_pc(), START);
    assert!(c.execute(0x4104, 0).is_ok());
    assert_eq!(c.get_pc(), START + 2);
}

#[test]
fn skip_if_registers_equal() {
    let mut c = machine();
    assert!(c.execute(0x6107, 0).is_ok());
    assert!(c.execute(0x6207, 0).is_ok());
    assert!(c.execute(0x5120, 0).is_ok());
    assert_eq!(c.get_pc(), START + 2);
    assert!(c.execute(0x6208, 0).is_ok());
    assert!(c.execute(0x5120, 0).is_ok());
    assert_eq!(c.get_pc(), START + 2);
}

#[test]
fn set_immediate() {
    let mut c = machine();
    assert!(c.execute(0x610A, 0).is_ok());
    assert_eq!(c.get_register(1), 0x0A);
}

#[test]
fn add_immediate_wraps_without_touching_the_flag() {
    let mut c = machine();
    assert!(c.execute(0x6F05, 0).is_ok());
    assert!(c.execute(0x61FF, 0).is_ok());
    assert!(c.execute(0x7101, 0).is_ok());
    assert_eq!(c.get_register(1), 0x00);
    assert_eq!(c.get_register(15), 0x05);
}

#[test]
fn mov_copies_the_register() {
    let mut c = machine();
    assert!(c.execute(0x6205, 0).is_ok());
    assert!(c.execute(0x8120, 0).is_ok());
    assert_eq!(c.get_register(1), 5);
}

#[test]
fn bitwise_or_and_xor() {
    let mut c = machine();
    assert!(c.execute(0x610C, 0).is_ok());
    assert!(c.execute(0x620A, 0).is_ok());
    assert!(c.execute(0x8121, 0).is_ok());
    assert_eq!(c.get_register(1), 0x0E);
    assert!(c.execute(0x610C, 0).is_ok());
    assert!(c.execute(0x8122, 0).is_ok());
    assert_eq!(c.get_register(1), 0x08);
    assert!(c.execute(0x610C, 0).is_ok());
    assert!(c.execute(0x8123, 0).is_ok());
    assert_eq!(c.get_register(1), 0x06);
}

#[test]
fn add_registers_sets_the_carry() {
    let mut c = machine();
    assert!(c.execute(0x61FF, 0).is_ok());
    assert!(c.execute(0x6201, 0).is_ok());
    assert!(c.execute(0x8124, 0).is_ok());
    assert_eq!(c.get_register(1), 0x00);
    assert_eq!(c.get_register(15), 1);
    assert!(c.execute(0x6110, 0).is_ok());
    assert!(c.execute(0x8124, 0).is_ok());
    assert_eq!(c.get_register(1), 0x11);
    assert_eq!(c.get_register(15), 0);
}

#[test]
fn sub_registers_sets_the_borrow_flag() {
    let mut c = machine();
    assert!(c.execute(0x6101, 0).is_ok());
    assert!(c.execute(0x6202, 0).is_ok());
    assert!(c.execute(0x8125, 0).is_ok());
    assert_eq!(c.get_register(1), 0xFF);
    assert_eq!(c.get_register(15), 0);
    assert!(c.execute(0x6105, 0).is_ok());
    assert!(c.execute(0x8125, 0).is_ok());
    assert_eq!(c.get_register(1), 0x03);
    assert_eq!(c.get_register(15), 1);
}

#[test]
fn shift_right_keeps_the_low_bit() {
    let mut c = machine();
    assert!(c.execute(0x6105, 0).is_ok());
    assert!(c.execute(0x8106, 0).is_ok());
    assert_eq!(c.get_register(1), 2);
    assert_eq!(c.get_register(15), 1);
}

#[test]
fn sub_reversed_sets_the_borrow_flag() {
    let mut c = machine();
    assert!(c.execute(0x6102, 0).is_ok());
    assert!(c.execute(0x6205, 0).is_ok());
    assert!(c.execute(0x8127, 0).is_ok());
    assert_eq!(c.get_register(1), 3);
    assert_eq!(c.get_register(15), 1);
    assert!(c.execute(0x6109, 0).is_ok());
    assert!(c.execute(0x8127, 0).is_ok());
    assert_eq!(c.get_register(1), 0xFC);
    assert_eq!(c.get_register(15), 0);
}

#[test]
fn shift_left_keeps_the_high_bit() {
    let mut c = machine();
    assert!(c.execute(0x6181, 0).is_ok());
    assert!(c.execute(0x810E, 0).is_ok());
    assert_eq!(c.get_register(1), 0x02);
    assert_eq!(c.get_register(15), 1);
}

#[test]
fn skip_if_registers_differ() {
    let mut c = machine();
    assert!(c.execute(0x6107, 0).is_ok());
    assert!(c.execute(0x6207, 0).is_ok());
    assert!(c.execute(0x9120, 0).is_ok());
    assert_eq!(c.get_pc(), START);
    assert!(c.execute(0x6208, 0).is_ok());
    assert!(c.execute(0x9120, 0).is_ok());
    assert_eq!(c.get_pc(), START + 2);
}

#[test]
fn set_index_register() {
    let mut c = machine();
    assert!(c.execute(0xA123, 0).is_ok());
    assert_eq!(c.get_index(), 0x123);
}

#[test]
fn jump_with_offset_adds_register_zero() {
    let mut c = machine();
    assert!(c.execute(0x6005, 0).is_ok());
    assert!(c.execute(0xB300, 0).is_ok());
    assert_eq!(c.get_pc(), 0x305);
}

#[test]
fn random_is_masked_by_the_immediate() {
    let mut c = machine();
    assert!(c.execute(0xC1F0, 0xAB).is_ok());
    assert_eq!(c.get_register(1), 0xA0);
    assert!(c.execute(0xC10F, 0xAB).is_ok());
    assert_eq!(c.get_register(1), 0x0B);
}

#[test]
fn draw_renders_a_glyph_and_reports_no_collision_on_blank() {
    let mut c = machine();
    assert!(c.execute(0xA000, 0).is_ok());
    assert!(c.execute(0xD015, 0).is_ok());
    let s = c.get_screen();
    // glyph 0, first row 0xF0: columns 0 through 3 on, 4 through 7 off
    assert!(s[0] && s[1] && s[2] && s[3]);
    assert!(!s[4] && !s[5] && !s[6] && !s[7]);
    // second row 0x90: columns 0 and 3 on, 1 and 2 off
    assert!(s[64] && !s[65] && !s[66] && s[67]);
    assert_eq!(c.get_register(15), 0);
}

#[test]
fn skip_on_key_held_and_not_held() {
    let mut c = machine();
    c.keypress(5, true);
    assert!(c.execute(0x6105, 0).is_ok());
    assert!(c.execute(0xE19E, 0).is_ok());
    assert_eq!(c.get_pc(), START + 2);
    assert!(c.execute(0xE1A1, 0).is_ok());
    assert_eq!(c.get_pc(), START + 2);
    c.keypress(5, false);
    assert!(c.execute(0xE19E, 0).is_ok());
    assert_eq!(c.get_pc(), START + 2);
    assert!(c.execute(0xE1A1, 0).is_ok());
    assert_eq!(c.get_pc(), START + 4);
}

#[test]
fn timer_transfers() {
    let mut c = machine();
    assert!(c.execute(0x6230, 0).is_ok());
    assert!(c.execute(0xF215, 0).is_ok());
    assert_eq!(c.get_delay_timer(), 0x30);
    assert!(c.execute(0xF107, 0).is_ok());
    assert_eq!(c.get_register(1), 0x30);
    assert!(c.execute(0xF218, 0).is_ok());
    assert_eq!(c.get_sound_timer(), 0x30);
}

#[test]
fn add_register_to_index() {
    let mut c = machine();
    assert!(c.execute(0xA100, 0).is_ok());
    assert!(c.execute(0x6110, 0).is_ok());
    assert!(c.execute(0xF11E, 0).is_ok());
    assert_eq!(c.get_index(), 0x110);
}

#[test]
fn font_points_the_index_at_the_glyph() {
    let mut c = machine();
    assert!(c.execute(0x610A, 0).is_ok());
    assert!(c.execute(0xF129, 0).is_ok());
    assert_eq!(c.get_index(), 50);
}

#[test]
fn bcd_stores_the_decimal_digits() {
    let mut c = machine();
    assert!(c.execute(0x61EA, 0).is_ok());
    assert!(c.execute(0xA300, 0).is_ok());
    assert!(c.execute(0xF133, 0).is_ok());
    assert_eq!(c.read_memory(0x300), 2);
    assert_eq!(c.read_memory(0x301), 3);
    assert_eq!(c.read_memory(0x302), 4);
}

#[test]
fn store_and_load_registers_round_trip() {
    let mut c = machine();
    assert!(c.execute(0x6001, 0).is_ok());
    assert!(c.execute(0x6102, 0).is_ok());
    assert!(c.execute(0x6203, 0).is_ok());
    assert!(c.execute(0x6304, 0).is_ok());
    assert!(c.execute(0xA400, 0).is_ok());
    assert!(c.execute(0xF355, 0).is_ok());
    assert_eq!(c.read_memory(0x400), 1);
    assert_eq!(c.read_memory(0x401), 2);
    assert_eq!(c.read_memory(0x402), 3);
    assert_eq!(c.read_memory(0x403), 4);
    assert!(c.execute(0x6009, 0).is_ok());
    assert!(c.execute(0x6109, 0).is_ok());
    assert!(c.execute(0x6209, 0).is_ok());
    assert!(c.execute(0x6309, 0).is_ok());
    assert!(c.execute(0xF365, 0).is_ok());
    assert_eq!(c.get_register(0), 1);
    assert_eq!(c.get_register(1), 2);
    assert_eq!(c.get_register(2), 3);
    assert_eq!(c.get_register(3), 4);
}

#[test]
fn unrecognized_opcodes_are_fatal_and_change_nothing() {
    for op in [0x5001u16, 0x8FF8, 0x8009, 0x9005, 0xE100, 0x00E1, 0xF101, 0xFFFF] {
        let mut c = machine();
        let r = c.execute(op, 0);
        assert_eq!(
            r,
            Err(Chip8Error::UnknownOpcode { pc: START.wrapping_sub(2), opcode: op })
        );
        assert_eq!(c.get_pc(), START);
        for x in 0..16u8 {
            assert_eq!(c.get_register(x), 0);
        }
    }
}
