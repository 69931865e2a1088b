//! Lifecycle and component checks: program loading, fetch byte order,
//! and the display, key-state and memory components on their own.

use chip8_rs::chip8::Chip8;
use chip8_rs::keyboard::Keyboard;
use chip8_rs::memory::Endianness;
use chip8_rs::memory::Memory;
use chip8_rs::screen::Screen;

const START: u16 = 0x200;

#[test]
fn load_rom_places_the_program_at_the_start_address() {
    let mut c = Chip8::new();
    c.load_rom(&[1, 2, 3]);
    assert_eq!(c.read_memory(START), 1);
    assert_eq!(c.read_memory(START + 1), 2);
    assert_eq!(c.read_memory(START + 2), 3);
    assert_eq!(c.read_memory(START + 3), 0);
}

#[test]
fn the_glyph_table_is_seeded_at_construction() {
    let c = Chip8::new();
    let glyph_zero = [0xF0, 0x90, 0x90, 0x90, 0xF0];
    for (k, &b) in glyph_zero.iter().enumerate() {
        assert_eq!(c.read_memory(k as u16), b);
    }
    // glyph F: last of the sixteen
    assert_eq!(c.read_memory(75), 0xF0);
    assert_eq!(c.read_memory(79), 0x80);
}

#[test]
fn fetch_uses_the_active_byte_order() {
    let mut c = Chip8::new();
    c.load_rom(&[0x12, 0x34]);
    assert!(c.cpu_tick().is_ok());
    // big-endian fetch reads 0x1234: a jump
    assert_eq!(c.get_pc(), 0x234);

    let mut c = Chip8::new();
    c.set_endianness(Endianness::LITTLE);
    c.load_rom(&[0x12, 0x34]);
    assert!(c.cpu_tick().is_ok());
    // little-endian fetch reads 0x3412: skip if register 4 equals 0x12
    assert_eq!(c.get_pc(), START + 2);
}

#[test]
fn screen_cells_set_and_get() {
    let mut s = Screen::new();
    assert!(!s.get_pixel(10, 20));
    s.set_pixel(10, 20, true);
    assert!(s.get_pixel(10, 20));
    assert!(s.get_screen()[10 + 20 * 64]);
    s.clear();
    assert!(!s.get_pixel(10, 20));
}

#[test]
fn keyboard_flags_set_reset_and_query() {
    let mut k = Keyboard::new();
    assert!(!k.is_pressed(4));
    k.keypress(4, true);
    assert!(k.is_pressed(4));
    k.keypress(4, false);
    assert!(!k.is_pressed(4));
    k.keypress(15, true);
    k.reset();
    assert!(!k.is_pressed(15));
}

#[test]
fn memory_single_byte_access() {
    let mut m = Memory::new();
    assert_eq!(m.read_u8(0x123), 0);
    m.write_u8(0x123, 0xAB);
    assert_eq!(m.read_u8(0x123), 0xAB);
    m.reset();
    assert_eq!(m.read_u8(0x123), 0);
}

#[test]
fn memory_reset_reseeds_the_glyph_table() {
    let mut m = Memory::new();
    // seeded at construction: glyph 0 starts with 0xF0, glyph F ends with 0x80
    assert_eq!(m.read_u8(0), 0xF0);
    assert_eq!(m.read_u8(79), 0x80);
    assert_eq!(m.read_u8(80), 0x00);
    // overwrite the table and the area above it, then reset
    m.write_u8(0, 0x55);
    m.write_u8(79, 0x55);
    m.write_u8(80, 0x55);
    m.set_endianness(Endianness::LITTLE);
    m.reset();
    // the table is re-written identically; everything else is zero again
    assert_eq!(m.read_u8(0), 0xF0);
    assert_eq!(m.read_u8(4), 0xF0);
    assert_eq!(m.read_u8(79), 0x80);
    assert_eq!(m.read_u8(80), 0x00);
    // and the default byte order is restored
    m.write_u16(0x100, 0x1234);
    assert_eq!(m.read_u8(0x100), 0x12);
    assert_eq!(m.read_u8(0x101), 0x34);
}

#[test]
fn memory_sixteen_bit_access_per_byte_order() {
    let mut m = Memory::new();
    m.write_u16(0x100, 0xBEEF);
    assert_eq!(m.read_u8(0x100), 0xBE);
    assert_eq!(m.read_u8(0x101), 0xEF);
    assert_eq!(m.read_u16(0x100), 0xBEEF);
    m.set_endianness(Endianness::LITTLE);
    m.write_u16(0x200, 0xBEEF);
    assert_eq!(m.read_u8(0x200), 0xEF);
    assert_eq!(m.read_u8(0x201), 0xBE);
    assert_eq!(m.read_u16(0x200), 0xBEEF);
    // bytes written little-endian read back swapped under big-endian
    m.set_endianness(Endianness::BIG);
    assert_eq!(m.read_u16(0x200), 0xEFBE);
}

#[test]
fn memory_bulk_copy_in_and_out() {
    let mut m = Memory::new();
    m.write_data(&[9, 8, 7, 6], 0x300);
    assert_eq!(m.read_u8(0x300), 9);
    assert_eq!(m.read_u8(0x303), 6);
    let mut buffer = vec![0u8; 3];
    m.read_data(&mut buffer, 0x300, 3);
    assert_eq!(buffer, vec![9, 8, 7]);
    // a request longer than the buffer is truncated to the buffer
    let mut small = vec![0u8; 2];
    m.read_data(&mut small, 0x300, 4);
    assert_eq!(small, vec![9, 8]);
}
