//! XOR-sprite drawing: an 8-bit-wide, `n`-row bit pattern read from memory
//! is composited onto the display by toggling cells; coordinates wrap
//! modulo the display width and height.
//!
//! The specification is per cell: a cell is toggled exactly when some
//! sprite bit maps onto it, and a collision is reported exactly when a
//! toggled cell was already on. Because a sprite is at most 15 rows of 8
//! columns, no two sprite bits map onto the same cell, which is what makes
//! the per-cell reading (and the double-draw cancellation law) true.

use vstd::prelude::*;

verus! {

use crate::memory::Memory;
use crate::memory::mem_addr;
use crate::screen::Screen;
use crate::screen::SCREEN_CELLS;

/// The sprite row byte for row `r`: read from memory at the index
/// register plus `r`, the address reduced modulo the memory size.
pub open spec fn sprite_row_byte(mem: Seq<u8>, i: u16, r: int) -> u8 {
    mem[mem_addr(i as int + r)]
}

/// Whether bit `c` (most-significant first) of sprite row `r` is set.
pub open spec fn sprite_bit(mem: Seq<u8>, i: u16, r: int, c: int) -> bool {
    (sprite_row_byte(mem, i, r) >> ((7 - c) as u8)) & 1 == 1
}

/// The display-buffer index of the cell that sprite bit (`r`, `c`) maps
/// onto when the sprite is drawn at coordinates (`vx`, `vy`): columns wrap
/// modulo the width, rows modulo the height.
pub open spec fn draw_cell(vx: u8, vy: u8, r: int, c: int) -> int {
    ((vx + c) % 64) + 64 * ((vy + r) % 32)
}

/// Strict ordering of sprite bits in drawing order: row-major,
/// most-significant bit first.
pub open spec fn pair_before(r1: int, c1: int, r2: int, c2: int) -> bool {
    r1 < r2 || (r1 == r2 && c1 < c2)
}

/// Whether some set sprite bit strictly before position (`row`, `col`) in
/// drawing order maps onto cell `idx`.
pub open spec fn cell_toggled_upto(
    mem: Seq<u8>,
    i: u16,
    vx: u8,
    vy: u8,
    row: int,
    col: int,
    idx: int,
) -> bool {
    exists|r: int, c: int|
        0 <= r && 0 <= c < 8 && pair_before(r, c, row, col) && #[trigger] sprite_bit(mem, i, r, c)
            && idx == draw_cell(vx, vy, r, c)
}

/// Whether drawing an `n`-row sprite toggles cell `idx`.
pub open spec fn cell_toggled(mem: Seq<u8>, i: u16, vx: u8, vy: u8, n: u8, idx: int) -> bool {
    cell_toggled_upto(mem, i, vx, vy, n as int, 0, idx)
}

/// The display contents after drawing an `n`-row sprite at (`vx`, `vy`):
/// every cell some sprite bit maps onto is toggled, every other cell keeps
/// its state.
pub open spec fn draw_screen_spec(
    sc: Seq<bool>,
    mem: Seq<u8>,
    i: u16,
    vx: u8,
    vy: u8,
    n: u8,
) -> Seq<bool> {
    Seq::new(sc.len(), |idx: int| sc[idx] != cell_toggled(mem, i, vx, vy, n, idx))
}

/// Whether the draw reports a collision: some toggled cell was already on.
pub open spec fn draw_collision_spec(
    sc: Seq<bool>,
    mem: Seq<u8>,
    i: u16,
    vx: u8,
    vy: u8,
    n: u8,
) -> bool {
    exists|idx: int|
        0 <= idx < sc.len() && #[trigger] cell_toggled(mem, i, vx, vy, n, idx) && sc[idx]
}

/// No two sprite bits of an at-most-32-row sprite map onto the same cell:
/// distinct columns land in distinct display columns and distinct rows in
/// distinct display rows, because both offsets are smaller than the
/// respective modulus.
pub proof fn lemma_draw_cell_injective(vx: u8, vy: u8, r1: int, c1: int, r2: int, c2: int)
    requires
        0 <= r1 < 32,
        0 <= c1 < 8,
        0 <= r2 < 32,
        0 <= c2 < 8,
        !(r1 == r2 && c1 == c2),
    ensures
        draw_cell(vx, vy, r1, c1) != draw_cell(vx, vy, r2, c2),
{
    let px1 = (vx + c1) % 64;
    let py1 = (vy + r1) % 32;
    let px2 = (vx + c2) % 64;
    let py2 = (vy + r2) % 32;
    assert(0 <= px1 < 64 && 0 <= px2 < 64 && 0 <= py1 < 32 && 0 <= py2 < 32);
    if c1 != c2 {
        assert(px1 != px2) by {
            assert((vx + c1) - 64 * ((vx + c1) / 64) == px1);
            assert((vx + c2) - 64 * ((vx + c2) / 64) == px2);
            if px1 == px2 {
                assert((vx + c1) - (vx + c2) == 64 * ((vx + c1) / 64 - (vx + c2) / 64));
            }
        }
    } else {
        assert(py1 != py2) by {
            assert((vy + r1) - 32 * ((vy + r1) / 32) == py1);
            assert((vy + r2) - 32 * ((vy + r2) / 32) == py2);
            if py1 == py2 {
                assert((vy + r1) - (vy + r2) == 32 * ((vy + r1) / 32 - (vy + r2) / 32));
            }
        }
    }
}

/// Draws an `n`-row sprite at display coordinates (`vx`, `vy`), reading
/// its rows from memory at the index register `i` onward, and reports
/// whether any toggled cell was already on.
pub fn draw_sprite(screen: &mut Screen, memory: &Memory, i: u16, vx: u8, vy: u8, n: u8) -> (collision:
    bool)
    requires
        old(screen).wf(),
        memory.wf(),
        n < 16,
    ensures
        final(screen).wf(),
        final(screen)@ == draw_screen_spec(old(screen)@, memory@.bytes, i, vx, vy, n),
        collision == draw_collision_spec(old(screen)@, memory@.bytes, i, vx, vy, n),
{
    let ghost sc0 = screen@;
    let ghost mem = memory@.bytes;
    let mut collision = false;
    let mut row: usize = 0;
    while row < n as usize
        invariant
            row <= n as int,
            n < 16,
            memory.wf(),
            mem == memory@.bytes,
            sc0.len() == SCREEN_CELLS,
            screen@.len() == SCREEN_CELLS,
            forall|idx: int|
                0 <= idx < SCREEN_CELLS ==> screen@[idx] == (sc0[idx] != cell_toggled_upto(
                    mem,
                    i,
                    vx,
                    vy,
                    row as int,
                    0,
                    idx,
                )),
            collision == exists|idx: int|
                0 <= idx < SCREEN_CELLS && #[trigger] cell_toggled_upto(
                    mem,
                    i,
                    vx,
                    vy,
                    row as int,
                    0,
                    idx,
                ) && sc0[idx],
        decreases n as int - row,
    {
        let addr = ((i as usize) + row) % 4096;
        let byte = memory.read_u8(addr as u16);
        proof {
            assert(mem_addr(addr as int) == addr as int);
            assert(byte == sprite_row_byte(mem, i, row as int));
        }
        let mut col: usize = 0;
        while col < 8
            invariant
                col <= 8,
                row < n as int,
                n < 16,
                memory.wf(),
                mem == memory@.bytes,
                byte == sprite_row_byte(mem, i, row as int),
                sc0.len() == SCREEN_CELLS,
                screen@.len() == SCREEN_CELLS,
                forall|idx: int|
                    0 <= idx < SCREEN_CELLS ==> screen@[idx] == (sc0[idx] != cell_toggled_upto(
                        mem,
                        i,
                        vx,
                        vy,
                        row as int,
                        col as int,
                        idx,
                    )),
                collision == exists|idx: int|
                    0 <= idx < SCREEN_CELLS && #[trigger] cell_toggled_upto(
                        mem,
                        i,
                        vx,
                        vy,
                        row as int,
                        col as int,
                        idx,
                    ) && sc0[idx],
            decreases 8 - col,
        {
            let shift: u8 = (7 - col) as u8;
            let bit_set = ((byte >> shift) & 1) == 1;
            proof {
                assert(bit_set == sprite_bit(mem, i, row as int, col as int));
            }
            if bit_set {
                let x_pixel = ((vx as usize) + col) % 64;
                let y_pixel = ((vy as usize) + row) % 32;
                let pixel_on = screen.get_pixel(x_pixel, y_pixel);
                collision = collision || pixel_on;
                screen.set_pixel(x_pixel, y_pixel, !pixel_on);
                proof {
                    let m = draw_cell(vx, vy, row as int, col as int);
                    assert(m == x_pixel + y_pixel * 64);
                    assert(!cell_toggled_upto(mem, i, vx, vy, row as int, col as int, m)) by {
                        if cell_toggled_upto(mem, i, vx, vy, row as int, col as int, m) {
                            let (r, c) = choose|r: int, c: int|
                                0 <= r && 0 <= c < 8 && pair_before(r, c, row as int, col as int)
                                    && #[trigger] sprite_bit(mem, i, r, c) && m == draw_cell(
                                    vx,
                                    vy,
                                    r,
                                    c,
                                );
                            lemma_draw_cell_injective(vx, vy, r, c, row as int, col as int);
                        }
                    }
                    assert(pixel_on == sc0[m]);
                    assert forall|idx: int| 0 <= idx < SCREEN_CELLS implies cell_toggled_upto(
                        mem,
                        i,
                        vx,
                        vy,
                        row as int,
                        col as int + 1,
                        idx,
                    ) == (cell_toggled_upto(mem, i, vx, vy, row as int, col as int, idx) || idx
                        == m) by {
                        if cell_toggled_upto(mem, i, vx, vy, row as int, col as int + 1, idx) {
                            let (r, c) = choose|r: int, c: int|
                                0 <= r && 0 <= c < 8 && pair_before(
                                    r,
                                    c,
                                    row as int,
                                    col as int + 1,
                                ) && #[trigger] sprite_bit(mem, i, r, c) && idx == draw_cell(
                                    vx,
                                    vy,
                                    r,
                                    c,
                                );
                            if r == row as int && c == col as int {
                                assert(idx == m);
                            } else {
                                assert(pair_before(r, c, row as int, col as int));
                                assert(cell_toggled_upto(
                                    mem,
                                    i,
                                    vx,
                                    vy,
                                    row as int,
                                    col as int,
                                    idx,
                                ));
                            }
                        }
                        if cell_toggled_upto(mem, i, vx, vy, row as int, col as int, idx) {
                            let (r, c) = choose|r: int, c: int|
                                0 <= r && 0 <= c < 8 && pair_before(r, c, row as int, col as int)
                                    && #[trigger] sprite_bit(mem, i, r, c) && idx == draw_cell(
                                    vx,
                                    vy,
                                    r,
                                    c,
                                );
                            assert(pair_before(r, c, row as int, col as int + 1));
                            assert(cell_toggled_upto(
                                mem,
                                i,
                                vx,
                                vy,
                                row as int,
                                col as int + 1,
                                idx,
                            ));
                        }
                        if idx == m {
                            assert(sprite_bit(mem, i, row as int, col as int));
                            assert(pair_before(row as int, col as int, row as int, col as int + 1));
                            assert(cell_toggled_upto(
                                mem,
                                i,
                                vx,
                                vy,
                                row as int,
                                col as int + 1,
                                idx,
                            ));
                        }
                    }
                }
            } else {
                proof {
                    assert forall|idx: int| 0 <= idx < SCREEN_CELLS implies cell_toggled_upto(
                        mem,
                        i,
                        vx,
                        vy,
                        row as int,
                        col as int + 1,
                        idx,
                    ) == cell_toggled_upto(mem, i, vx, vy, row as int, col as int, idx) by {
                        if cell_toggled_upto(mem, i, vx, vy, row as int, col as int + 1, idx) {
                            let (r, c) = choose|r: int, c: int|
                                0 <= r && 0 <= c < 8 && pair_before(
                                    r,
                                    c,
                                    row as int,
                                    col as int + 1,
                                ) && #[trigger] sprite_bit(mem, i, r, c) && idx == draw_cell(
                                    vx,
                                    vy,
                                    r,
                                    c,
                                );
                            assert(!(r == row as int && c == col as int));
                            assert(pair_before(r, c, row as int, col as int));
                            assert(cell_toggled_upto(mem, i, vx, vy, row as int, col as int, idx));
                        }
                        if cell_toggled_upto(mem, i, vx, vy, row as int, col as int, idx) {
                            let (r, c) = choose|r: int, c: int|
                                0 <= r && 0 <= c < 8 && pair_before(r, c, row as int, col as int)
                                    && #[trigger] sprite_bit(mem, i, r, c) && idx == draw_cell(
                                    vx,
                                    vy,
                                    r,
                                    c,
                                );
                            assert(pair_before(r, c, row as int, col as int + 1));
                            assert(cell_toggled_upto(
                                mem,
                                i,
                                vx,
                                vy,
                                row as int,
                                col as int + 1,
                                idx,
                            ));
                        }
                    }
                }
            }
            col = col + 1;
        }
        proof {
            assert forall|idx: int| 0 <= idx < SCREEN_CELLS implies cell_toggled_upto(
                mem,
                i,
                vx,
                vy,
                row as int,
                8,
                idx,
            ) == cell_toggled_upto(mem, i, vx, vy, row as int + 1, 0, idx) by {
                if cell_toggled_upto(mem, i, vx, vy, row as int, 8, idx) {
                    let (r, c) = choose|r: int, c: int|
                        0 <= r && 0 <= c < 8 && pair_before(r, c, row as int, 8)
                            && #[trigger] sprite_bit(mem, i, r, c) && idx == draw_cell(vx, vy, r, c);
                    assert(pair_before(r, c, row as int + 1, 0));
                    assert(cell_toggled_upto(mem, i, vx, vy, row as int + 1, 0, idx));
                }
                if cell_toggled_upto(mem, i, vx, vy, row as int + 1, 0, idx) {
                    let (r, c) = choose|r: int, c: int|
                        0 <= r && 0 <= c < 8 && pair_before(r, c, row as int + 1, 0)
                            && #[trigger] sprite_bit(mem, i, r, c) && idx == draw_cell(vx, vy, r, c);
                    assert(pair_before(r, c, row as int, 8));
                    assert(cell_toggled_upto(mem, i, vx, vy, row as int, 8, idx));
                }
            }
        }
        row = row + 1;
    }
    proof {
        assert(final(screen)@ =~= draw_screen_spec(sc0, mem, i, vx, vy, n));
    }
    collision
}

/// Double-XOR cancellation: drawing the identical sprite at the identical
/// position twice in succession restores every cell to its pre-draw state.
pub proof fn lemma_draw_twice_restores(sc: Seq<bool>, mem: Seq<u8>, i: u16, vx: u8, vy: u8, n: u8)
    ensures
        draw_screen_spec(draw_screen_spec(sc, mem, i, vx, vy, n), mem, i, vx, vy, n) == sc,
{
    let sc1 = draw_screen_spec(sc, mem, i, vx, vy, n);
    let sc2 = draw_screen_spec(sc1, mem, i, vx, vy, n);
    assert forall|idx: int| 0 <= idx < sc.len() implies sc2[idx] == sc[idx] by {
        assert(sc1[idx] == (sc[idx] != cell_toggled(mem, i, vx, vy, n, idx)));
    }
    assert(sc2 =~= sc);
}

/// The second of two identical draws reports a collision exactly when some
/// cell was turned on by the first draw, that is, when some sprite bit
/// maps onto a cell that was off beforehand.
pub proof fn lemma_second_draw_collision(sc: Seq<bool>, mem: Seq<u8>, i: u16, vx: u8, vy: u8, n: u8)
    ensures
        draw_collision_spec(draw_screen_spec(sc, mem, i, vx, vy, n), mem, i, vx, vy, n) == (
        exists|idx: int|
            0 <= idx < sc.len() && #[trigger] cell_toggled(mem, i, vx, vy, n, idx) && !sc[idx]),
{
    let sc1 = draw_screen_spec(sc, mem, i, vx, vy, n);
    assert(sc1.len() == sc.len());
    if draw_collision_spec(sc1, mem, i, vx, vy, n) {
        let idx = choose|idx: int|
            0 <= idx < sc1.len() && #[trigger] cell_toggled(mem, i, vx, vy, n, idx) && sc1[idx];
        assert(sc1[idx] == (sc[idx] != cell_toggled(mem, i, vx, vy, n, idx)));
        assert(cell_toggled(mem, i, vx, vy, n, idx) && !sc[idx]);
    }
    if exists|idx: int|
        0 <= idx < sc.len() && #[trigger] cell_toggled(mem, i, vx, vy, n, idx) && !sc[idx] {
        let idx = choose|idx: int|
            0 <= idx < sc.len() && #[trigger] cell_toggled(mem, i, vx, vy, n, idx) && !sc[idx];
        assert(sc1[idx] == (sc[idx] != cell_toggled(mem, i, vx, vy, n, idx)));
        assert(cell_toggled(mem, i, vx, vy, n, idx) && sc1[idx]);
    }
}

} // verus!
