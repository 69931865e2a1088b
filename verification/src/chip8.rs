//! The machine state and the fetch-decode-execute cycle.
//!
//! `MachineView` is the mathematical model of the whole machine, and
//! `spec_execute` is the specification-level transition function: given
//! the post-fetch state, the fetched opcode and the byte a randomness
//! source produced, it yields either the exact next state or the fatal
//! condition (stack underflow on return, or an unrecognized opcode) that
//! the step surfaces.

use vstd::prelude::*;

verus! {

use crate::decode::Instr;
use crate::decode::decode;
use crate::decode::spec_decode;
use crate::draw::draw_collision_spec;
use crate::draw::draw_screen_spec;
use crate::draw::draw_sprite;
use crate::keyboard::Keyboard;
use crate::keyboard::NUM_KEYS;
use crate::memory::Endianness;
use crate::memory::Memory;
use crate::memory::RAM_SIZE;
use crate::memory::mem_addr;
use crate::memory::spec_read_u16;
use crate::memory::spec_seeded_bytes;
use crate::screen::SCREEN_CELLS;
use crate::screen::Screen;

/// Number of general-purpose registers.
pub const NUM_REGS: usize = 16;

/// The address programs are loaded at and the program counter starts at.
pub const START_ADDRESS: u16 = 0x200;

/// The instruction-set variant. Only the base variant is implemented; the
/// others are retained as a forward-compatibility hook.
#[derive(Clone, Copy, Debug, PartialEq, Eq, Structural)]
pub enum C8Type {
    CHIP8,
    SUPER,
    CHIP8C,
}

/// A fatal condition surfaced by one interpreter step, identifying the
/// failing instruction and the address it was fetched from.
#[derive(Clone, Copy, Debug, PartialEq, Eq, Structural)]
pub enum Chip8Error {
    /// A return was executed with an empty call stack.
    StackUnderflow { pc: u16, opcode: u16 },
    /// The fetched word matches no row of the instruction table.
    UnknownOpcode { pc: u16, opcode: u16 },
}

/// The mathematical content of the whole machine.
#[verifier::ext_equal]
pub ghost struct MachineView {
    /// Display cells, row-major.
    pub screen: Seq<bool>,
    /// General-purpose registers; register 15 doubles as the flag output.
    pub v: Seq<u8>,
    /// Program counter.
    pub pc: u16,
    /// Index register.
    pub i: u16,
    /// Call stack of return addresses, most recent last.
    pub stack: Seq<u16>,
    /// Memory bytes.
    pub mem: Seq<u8>,
    /// Byte order for 16-bit memory accesses.
    pub endianness: Endianness,
    /// Key flags, one per logical key.
    pub keys: Seq<bool>,
    /// Delay timer.
    pub delay_timer: u8,
    /// Sound timer.
    pub sound_timer: u8,
}

impl MachineView {
    /// A machine view is well formed when every component holds exactly
    /// its fixed number of cells, registers, bytes and key flags.
    pub open spec fn wf(self) -> bool {
        &&& self.screen.len() == SCREEN_CELLS
        &&& self.v.len() == NUM_REGS
        &&& self.mem.len() == RAM_SIZE
        &&& self.keys.len() == NUM_KEYS
    }
}

/// The freshly constructed (and freshly reset) machine: everything
/// zeroed, the program counter at the start address, big-endian fetches,
/// and the glyph table seeded at the lowest memory addresses.
pub open spec fn spec_initial() -> MachineView {
    MachineView {
        screen: Seq::new(SCREEN_CELLS as nat, |idx: int| false),
        v: Seq::new(NUM_REGS as nat, |idx: int| 0u8),
        pc: START_ADDRESS,
        i: 0,
        stack: Seq::empty(),
        mem: spec_seeded_bytes(),
        endianness: Endianness::BIG,
        keys: Seq::new(NUM_KEYS as nat, |idx: int| false),
        delay_timer: 0,
        sound_timer: 0,
    }
}

/// The opcode that a step starting in state `s` fetches: the 16-bit word
/// at the program counter, per the active byte order.
pub open spec fn fetched_op(s: MachineView) -> u16 {
    spec_read_u16(s.mem, s.endianness, s.pc)
}

/// The state after the fetch stage: the program counter advanced past the
/// fetched word.
pub open spec fn after_fetch(s: MachineView) -> MachineView {
    MachineView { pc: s.pc.wrapping_add(2), ..s }
}

/// The state with the next instruction skipped when `cond` holds.
pub open spec fn skip_if(s: MachineView, cond: bool) -> MachineView {
    if cond {
        MachineView { pc: s.pc.wrapping_add(2), ..s }
    } else {
        s
    }
}

/// The state with register `x` set to `val`.
pub open spec fn set_reg(s: MachineView, x: u8, val: u8) -> MachineView {
    MachineView { v: s.v.update(x as int, val), ..s }
}

/// The lowest held key at or above index `k`, or 16 when none is held.
pub open spec fn first_pressed_from(keys: Seq<bool>, k: int) -> int
    decreases 16 - k,
{
    if k < 0 || k >= 16 {
        16
    } else if keys[k] {
        k
    } else {
        first_pressed_from(keys, k + 1)
    }
}

/// The memory after storing registers 0 through `k` at the index register
/// onward, one byte per register, addresses reduced modulo the memory
/// size.
pub open spec fn store_regs_seq(mem: Seq<u8>, v: Seq<u8>, i: u16, k: int) -> Seq<u8>
    decreases k + 1,
{
    if k < 0 {
        mem
    } else {
        store_regs_seq(mem, v, i, k - 1).update(mem_addr(i as int + k), v[k])
    }
}

/// The registers after loading registers 0 through `k` from the index
/// register onward.
pub open spec fn load_regs_seq(mem: Seq<u8>, v: Seq<u8>, i: u16, k: int) -> Seq<u8>
    decreases k + 1,
{
    if k < 0 {
        v
    } else {
        load_regs_seq(mem, v, i, k - 1).update(k, mem[mem_addr(i as int + k)])
    }
}

/// The decode/execute stage as a transition function. `s` is the
/// post-fetch state (the program counter already advanced past the
/// opcode), `op` the fetched word and `rnd` the byte the randomness
/// source produced; the masked-random instruction is the only one that
/// reads `rnd`. Yields the exact next state, or the fatal condition the
/// step surfaces, with the machine left in the post-fetch state.
pub open spec fn spec_execute(s: MachineView, op: u16, rnd: u8) -> Result<
    MachineView,
    Chip8Error,
> {
    spec_step_instr(s, spec_decode(op), op, rnd)
}

/// The effect of one decoded operation `instr` on the post-fetch state
/// `s`; `op` only feeds the diagnostic payload of a fatal condition and
/// `rnd` the masked-random instruction.
pub open spec fn spec_step_instr(s: MachineView, instr: Instr, op: u16, rnd: u8) -> Result<
    MachineView,
    Chip8Error,
> {
    match instr {
        Instr::Nop => Ok(s),
        Instr::ClearScreen => Ok(
            MachineView { screen: Seq::new(SCREEN_CELLS as nat, |idx: int| false), ..s },
        ),
        Instr::Ret => if s.stack.len() == 0 {
            Err(Chip8Error::StackUnderflow { pc: s.pc.wrapping_sub(2), opcode: op })
        } else {
            Ok(MachineView { pc: s.stack.last(), stack: s.stack.drop_last(), ..s })
        },
        Instr::Jump { nnn } => Ok(MachineView { pc: nnn, ..s }),
        Instr::Call { nnn } => Ok(MachineView { stack: s.stack.push(s.pc), pc: nnn, ..s }),
        Instr::SkipEqImm { x, nn } => Ok(skip_if(s, s.v[x as int] == nn)),
        Instr::SkipNeImm { x, nn } => Ok(skip_if(s, s.v[x as int] != nn)),
        Instr::SkipEqReg { x, y } => Ok(skip_if(s, s.v[x as int] == s.v[y as int])),
        Instr::SetImm { x, nn } => Ok(set_reg(s, x, nn)),
        Instr::AddImm { x, nn } => Ok(set_reg(s, x, s.v[x as int].wrapping_add(nn))),
        Instr::Mov { x, y } => Ok(set_reg(s, x, s.v[y as int])),
        Instr::Or { x, y } => Ok(set_reg(s, x, s.v[x as int] | s.v[y as int])),
        Instr::And { x, y } => Ok(set_reg(s, x, s.v[x as int] & s.v[y as int])),
        Instr::Xor { x, y } => Ok(set_reg(s, x, s.v[x as int] ^ s.v[y as int])),
        Instr::AddReg { x, y } => Ok(
            MachineView {
                v: s.v.update(x as int, s.v[x as int].wrapping_add(s.v[y as int])).update(
                    15,
                    if s.v[x as int] + s.v[y as int] > 255 {
                        1u8
                    } else {
                        0u8
                    },
                ),
                ..s
            },
        ),
        Instr::SubReg { x, y } => Ok(
            MachineView {
                v: s.v.update(x as int, s.v[x as int].wrapping_sub(s.v[y as int])).update(
                    15,
                    if s.v[x as int] < s.v[y as int] {
                        0u8
                    } else {
                        1u8
                    },
                ),
                ..s
            },
        ),
        Instr::Shr { x, y } => Ok(
            {
                let v1 = s.v.update(15, (s.v[x as int] % 2) as u8);
                MachineView { v: v1.update(x as int, (v1[x as int] / 2) as u8), ..s }
            },
        ),
        Instr::SubN { x, y } => Ok(
            MachineView {
                v: s.v.update(x as int, s.v[y as int].wrapping_sub(s.v[x as int])).update(
                    15,
                    if s.v[y as int] < s.v[x as int] {
                        0u8
                    } else {
                        1u8
                    },
                ),
                ..s
            },
        ),
        Instr::Shl { x, y } => Ok(
            {
                let v1 = s.v.update(15, (s.v[x as int] / 128) as u8);
                MachineView { v: v1.update(x as int, v1[x as int].wrapping_add(v1[x as int])), ..s }
            },
        ),
        Instr::SkipNeReg { x, y } => Ok(skip_if(s, s.v[x as int] != s.v[y as int])),
        Instr::SetIndex { nnn } => Ok(MachineView { i: nnn, ..s }),
        Instr::JumpV0 { nnn } => Ok(MachineView { pc: (s.v[0] + nnn) as u16, ..s }),
        Instr::Rand { x, nn } => Ok(set_reg(s, x, rnd & nn)),
        Instr::Draw { x, y, n } => Ok(
            MachineView {
                screen: draw_screen_spec(s.screen, s.mem, s.i, s.v[x as int], s.v[y as int], n),
                v: s.v.update(
                    15,
                    if draw_collision_spec(s.screen, s.mem, s.i, s.v[x as int], s.v[y as int], n) {
                        1u8
                    } else {
                        0u8
                    },
                ),
                ..s
            },
        ),
        Instr::SkipKey { x } => Ok(skip_if(s, s.keys[s.v[x as int] as int % 16])),
        Instr::SkipNoKey { x } => Ok(skip_if(s, !s.keys[s.v[x as int] as int % 16])),
        Instr::GetDelay { x } => Ok(set_reg(s, x, s.delay_timer)),
        Instr::WaitKey { x } => Ok(
            {
                let j = first_pressed_from(s.keys, 0);
                if j < 16 {
                    set_reg(s, x, j as u8)
                } else {
                    MachineView { pc: s.pc.wrapping_sub(2), ..s }
                }
            },
        ),
        Instr::SetDelay { x } => Ok(MachineView { delay_timer: s.v[x as int], ..s }),
        Instr::SetSound { x } => Ok(MachineView { sound_timer: s.v[x as int], ..s }),
        Instr::AddIndex { x } => Ok(MachineView { i: s.i.wrapping_add(s.v[x as int] as u16), ..s }),
        Instr::Font { x } => Ok(MachineView { i: (s.v[x as int] * 5) as u16, ..s }),
        Instr::Bcd { x } => Ok(
            MachineView {
                mem: s.mem.update(mem_addr(s.i as int), (s.v[x as int] / 100) as u8).update(
                    mem_addr(s.i as int + 1),
                    ((s.v[x as int] / 10) % 10) as u8,
                ).update(mem_addr(s.i as int + 2), (s.v[x as int] % 10) as u8),
                ..s
            },
        ),
        Instr::StoreRegs { x } => Ok(
            MachineView { mem: store_regs_seq(s.mem, s.v, s.i, x as int), ..s },
        ),
        Instr::LoadRegs { x } => Ok(
            MachineView { v: load_regs_seq(s.mem, s.v, s.i, x as int), ..s },
        ),
        Instr::Unknown => Err(
            Chip8Error::UnknownOpcode { pc: s.pc.wrapping_sub(2), opcode: op },
        ),
    }
}

/// One whole interpreter step from state `s` with random byte `rnd`:
/// fetch the word at the program counter, advance it, then decode and
/// execute.
pub open spec fn spec_cpu_tick(s: MachineView, rnd: u8) -> Result<MachineView, Chip8Error> {
    spec_execute(after_fetch(s), fetched_op(s), rnd)
}

/// How one executed step relates the machine before it, the machine after
/// it and the step's outcome, for the random byte `rnd`: on success the
/// machine is the transition function's next state; on a fatal condition
/// the reported error is the transition function's and the machine is
/// left in the post-fetch state.
pub open spec fn cpu_tick_matches(
    pre: MachineView,
    post: MachineView,
    r: Result<(), Chip8Error>,
    rnd: u8,
) -> bool {
    &&& (r is Ok ==> spec_cpu_tick(pre, rnd) == Ok::<MachineView, Chip8Error>(post))
    &&& (r is Err ==> spec_cpu_tick(pre, rnd) == Err::<MachineView, Chip8Error>(r->Err_0) && post
        == after_fetch(pre))
}

/// The machine: registers, program counter, index register, call stack,
/// timers, and the display, key and memory components it owns.
pub struct Chip8 {
    screen: Screen,
    v: Vec<u8>,
    pc: u16,
    i: u16,
    stack: Vec<u16>,
    memory: Memory,
    keyboard: Keyboard,
    delay_timer: u8,
    sound_timer: u8,
}

impl View for Chip8 {
    type V = MachineView;

    closed spec fn view(&self) -> MachineView {
        MachineView {
            screen: self.screen@,
            v: self.v@,
            pc: self.pc,
            i: self.i,
            stack: self.stack@,
            mem: self.memory@.bytes,
            endianness: self.memory@.endianness,
            keys: self.keyboard@,
            delay_timer: self.delay_timer,
            sound_timer: self.sound_timer,
        }
    }
}

/// Sixteen zeroed registers.
fn zero_regs() -> (r: Vec<u8>)
    ensures
        r@ == Seq::new(NUM_REGS as nat, |idx: int| 0u8),
{
    let mut r: Vec<u8> = Vec::new();
    let mut k: usize = 0;
    while k < NUM_REGS
        invariant
            k <= NUM_REGS,
            r@.len() == k,
            forall|j: int| 0 <= j < k ==> r@[j] == 0u8,
        decreases NUM_REGS - k,
    {
        r.push(0);
        k = k + 1;
    }
    proof {
        assert(r@ =~= Seq::new(NUM_REGS as nat, |idx: int| 0u8));
    }
    r
}

impl Chip8 {
    /// A machine is well formed when its view is.
    pub open spec fn wf(&self) -> bool {
        self@.wf()
    }

    /// Constructs the machine in its initial state; the memory comes with
    /// the glyph table seeded.
    pub fn new() -> (c: Chip8)
        ensures
            c.wf(),
            c@ == spec_initial(),
    {
        let chip8 = Chip8 {
            screen: Screen::new(),
            v: zero_regs(),
            pc: START_ADDRESS,
            i: 0,
            stack: Vec::new(),
            memory: Memory::new(),
            keyboard: Keyboard::new(),
            delay_timer: 0,
            sound_timer: 0,
        };
        proof {
            assert(chip8@ == spec_initial());
        }
        chip8
    }

    /// Restores the exact initial state: registers, counters, stack,
    /// timers, display and keys cleared, memory zeroed with the glyph
    /// table re-seeded. The outcome does not depend on the prior state,
    /// so resetting twice is indistinguishable from resetting once.
    pub fn reset(&mut self)
        requires
            old(self).wf(),
        ensures
            final(self).wf(),
            final(self)@ == spec_initial(),
    {
        self.screen.clear();
        self.v = zero_regs();
        self.pc = START_ADDRESS;
        self.i = 0;
        self.stack = Vec::new();
        self.memory.reset();
        self.keyboard.reset();
        self.delay_timer = 0;
        self.sound_timer = 0;
        proof {
            assert(self@ == spec_initial());
        }
    }

    /// Switches the byte order used by instruction fetch, a
    /// forward-compatibility hook for instruction-set variants.
    pub fn set_endianness(&mut self, endianness: Endianness)
        requires
            old(self).wf(),
        ensures
            final(self).wf(),
            final(self)@ == (MachineView { endianness, ..old(self)@ }),
    {
        self.memory.set_endianness(endianness);
    }

    /// Records a key transition reported by the input collaborator. The
    /// caller guarantees the index is in range.
    pub fn keypress(&mut self, key: usize, pressed: bool)
        requires
            old(self).wf(),
            key < NUM_KEYS,
        ensures
            final(self).wf(),
            final(self)@ == (MachineView {
                keys: old(self)@.keys.update(key as int, pressed),
                ..old(self)@
            }),
    {
        self.keyboard.keypress(key, pressed);
    }

    /// Exposes the display cells, row-major, for presentation.
    pub fn get_screen(&self) -> (r: &[bool])
        ensures
            r@ == self@.screen,
    {
        self.screen.get_screen()
    }

    /// Copies a program into memory starting at the start address. The
    /// caller guarantees it fits below the memory's upper bound.
    pub fn load_rom(&mut self, data: &[u8])
        requires
            old(self).wf(),
            data@.len() <= RAM_SIZE - START_ADDRESS as int,
        ensures
            final(self).wf(),
            final(self)@.mem.len() == RAM_SIZE,
            forall|a: int| 0 <= a < RAM_SIZE ==> final(self)@.mem[a] == (
                if START_ADDRESS as int <= a < START_ADDRESS as int + data@.len() {
                    data@[a - START_ADDRESS as int]
                } else {
                    old(self)@.mem[a]
                }
            ),
            final(self)@ == (MachineView { mem: final(self)@.mem, ..old(self)@ }),
    {
        self.memory.write_data(data, START_ADDRESS);
    }

    /// Decrements each timer toward zero if it is nonzero; a timer that is
    /// already zero stays zero, so ticking never underflows. The sound
    /// timer's transition to exactly zero is the external audio
    /// collaborator's signal to stop sounding.
    pub fn timers_tick(&mut self)
        requires
            old(self).wf(),
        ensures
            final(self).wf(),
            final(self)@ == (MachineView {
                delay_timer: if old(self)@.delay_timer > 0 {
                    (old(self)@.delay_timer - 1) as u8
                } else {
                    0u8
                },
                sound_timer: if old(self)@.sound_timer > 0 {
                    (old(self)@.sound_timer - 1) as u8
                } else {
                    0u8
                },
                ..old(self)@
            }),
    {
        if self.delay_timer > 0 {
            self.delay_timer = self.delay_timer - 1;
        }
        if self.sound_timer > 0 {
            self.sound_timer = self.sound_timer - 1;
        }
    }

    /// Fetch stage: reads the 16-bit word at the program counter and
    /// advances the counter past it.
    fn fetch_opcode(&mut self) -> (op: u16)
        requires
            old(self).wf(),
        ensures
            final(self).wf(),
            op == fetched_op(old(self)@),
            final(self)@ == after_fetch(old(self)@),
    {
        let op = self.memory.read_u16(self.pc);
        self.pc = self.pc.wrapping_add(2);
        op
    }

    /// Reads register `x`. The caller guarantees the index is in range.
    pub fn get_register(&self, x: u8) -> (r: u8)
        requires
            self.wf(),
            x < 16,
        ensures
            r == self@.v[x as int],
    {
        self.v[x as usize]
    }

    /// The current program counter.
    pub fn get_pc(&self) -> (r: u16)
        ensures
            r == self@.pc,
    {
        self.pc
    }

    /// The current index register.
    pub fn get_index(&self) -> (r: u16)
        ensures
            r == self@.i,
    {
        self.i
    }

    /// The current call-stack depth.
    pub fn get_stack_depth(&self) -> (r: usize)
        ensures
            r == self@.stack.len(),
    {
        self.stack.len()
    }

    /// The current delay timer.
    pub fn get_delay_timer(&self) -> (r: u8)
        ensures
            r == self@.delay_timer,
    {
        self.delay_timer
    }

    /// The current sound timer.
    pub fn get_sound_timer(&self) -> (r: u8)
        ensures
            r == self@.sound_timer,
    {
        self.sound_timer
    }

    /// Reads the memory byte at `address`, the address reduced modulo the
    /// memory size.
    pub fn read_memory(&self, address: u16) -> (r: u8)
        requires
            self.wf(),
        ensures
            r == self@.mem[mem_addr(address as int)],
    {
        self.memory.read_u8(address)
    }

    /// Decode/execute stage: performs exactly the operation the opcode
    /// selects, with `rnd` standing in for the randomness source, and
    /// reports a fatal condition without further state change. Driving
    /// this directly with a chosen `rnd` makes the interpreter fully
    /// deterministic, which the whole-step `cpu_tick` wraps with a real
    /// randomness source.
    #[verifier::rlimit(100)]
    #[verifier::spinoff_prover]
    pub fn execute(&mut self, opcode: u16, rnd: u8) -> (r: Result<(), Chip8Error>)
        requires
            old(self).wf(),
        ensures
            final(self).wf(),
            r is Ok ==> spec_execute(old(self)@, opcode, rnd) == Ok::<MachineView, Chip8Error>(
                final(self)@,
            ),
            r is Err ==> spec_execute(old(self)@, opcode, rnd) == Err::<MachineView, Chip8Error>(
                r->Err_0,
            ) && final(self)@ == old(self)@,
    {
        let ghost s0 = self@;
        let instr = decode(opcode);
        match instr {
            Instr::Nop => Ok(()),
            Instr::ClearScreen => {
                self.screen.clear();
                proof {
                    assert(spec_step_instr(s0, instr, opcode, rnd)->Ok_0 =~= self@);
                }
                Ok(())
            },
            Instr::Ret => {
                match self.stack.pop() {
                    Some(addr) => {
                        self.pc = addr;
                        proof {
                            assert(spec_step_instr(s0, instr, opcode, rnd)->Ok_0 =~= self@);
                        }
                        Ok(())
                    },
                    None => Err(
                        Chip8Error::StackUnderflow { pc: self.pc.wrapping_sub(2), opcode },
                    ),
                }
            },
            Instr::Jump { nnn } => {
                self.pc = nnn;
                proof {
                    assert(spec_step_instr(s0, instr, opcode, rnd)->Ok_0 =~= self@);
                }
                Ok(())
            },
            Instr::Call { nnn } => {
                self.stack.push(self.pc);
                self.pc = nnn;
                proof {
                    assert(spec_step_instr(s0, instr, opcode, rnd)->Ok_0 =~= self@);
                }
                Ok(())
            },
            Instr::SkipEqImm { x, nn } => {
                if self.v[x as usize] == nn {
                    self.pc = self.pc.wrapping_add(2);
                }
                proof {
                    assert(spec_step_instr(s0, instr, opcode, rnd)->Ok_0 =~= self@);
                }
                Ok(())
            },
            Instr::SkipNeImm { x, nn } => {
                if self.v[x as usize] != nn {
                    self.pc = self.pc.wrapping_add(2);
                }
                proof {
                    assert(spec_step_instr(s0, instr, opcode, rnd)->Ok_0 =~= self@);
                }
                Ok(())
            },
            Instr::SkipEqReg { x, y } => {
                if self.v[x as usize] == self.v[y as usize] {
                    self.pc = self.pc.wrapping_add(2);
                }
                proof {
                    assert(spec_step_instr(s0, instr, opcode, rnd)->Ok_0 =~= self@);
                }
                Ok(())
            },
            Instr::SetImm { x, nn } => {
                self.v.set(x as usize, nn);
                proof {
                    assert(spec_step_instr(s0, instr, opcode, rnd)->Ok_0 =~= self@);
                }
                Ok(())
            },
            Instr::AddImm { x, nn } => {
                let vx = self.v[x as usize];
                self.v.set(x as usize, vx.wrapping_add(nn));
                proof {
                    assert(spec_step_instr(s0, instr, opcode, rnd)->Ok_0 =~= self@);
                }
                Ok(())
            },
            Instr::Mov { x, y } => {
                let vy = self.v[y as usize];
                self.v.set(x as usize, vy);
                proof {
                    assert(spec_step_instr(s0, instr, opcode, rnd)->Ok_0 =~= self@);
                }
                Ok(())
            },
            Instr::Or { x, y } => {
                let vx = self.v[x as usize];
                let vy = self.v[y as usize];
                self.v.set(x as usize, vx | vy);
                proof {
                    assert(spec_step_instr(s0, instr, opcode, rnd)->Ok_0 =~= self@);
                }
                Ok(())
            },
            Instr::And { x, y } => {
                let vx = self.v[x as usize];
                let vy = self.v[y as usize];
                self.v.set(x as usize, vx & vy);
                proof {
                    assert(spec_step_instr(s0, instr, opcode, rnd)->Ok_0 =~= self@);
                }
                Ok(())
            },
            Instr::Xor { x, y } => {
                let vx = self.v[x as usize];
                let vy = self.v[y as usize];
                self.v.set(x as usize, vx ^ vy);
                proof {
                    assert(spec_step_instr(s0, instr, opcode, rnd)->Ok_0 =~= self@);
                }
                Ok(())
            },
            Instr::AddReg { x, y } => {
                let vx = self.v[x as usize];
                let vy = self.v[y as usize];
                let carry = (vx as u16) + (vy as u16) > 255;
                self.v.set(x as usize, vx.wrapping_add(vy));
                self.v.set(15, if carry { 1 } else { 0 });
                proof {
                    assert(spec_step_instr(s0, instr, opcode, rnd)->Ok_0 =~= self@);
                }
                Ok(())
            },
            Instr::SubReg { x, y } => {
                let vx = self.v[x as usize];
                let vy = self.v[y as usize];
                let borrow = vx < vy;
                self.v.set(x as usize, vx.wrapping_sub(vy));
                self.v.set(15, if borrow { 0 } else { 1 });
                proof {
                    assert(spec_step_instr(s0, instr, opcode, rnd)->Ok_0 =~= self@);
                }
                Ok(())
            },
            Instr::Shr { x, .. } => {
                let lsb = self.v[x as usize] % 2;
                self.v.set(15, lsb);
                let vx = self.v[x as usize];
                self.v.set(x as usize, vx / 2);
                proof {
                    assert(spec_step_instr(s0, instr, opcode, rnd)->Ok_0 =~= self@);
                }
                Ok(())
            },
            Instr::SubN { x, y } => {
                let vx = self.v[x as usize];
                let vy = self.v[y as usize];
                let borrow = vy < vx;
                self.v.set(x as usize, vy.wrapping_sub(vx));
                self.v.set(15, if borrow { 0 } else { 1 });
                proof {
                    assert(spec_step_instr(s0, instr, opcode, rnd)->Ok_0 =~= self@);
                }
                Ok(())
            },
            Instr::Shl { x, .. } => {
                let hi = self.v[x as usize] / 128;
                self.v.set(15, hi);
                let vx = self.v[x as usize];
                self.v.set(x as usize, vx.wrapping_add(vx));
                proof {
                    assert(spec_step_instr(s0, instr, opcode, rnd)->Ok_0 =~= self@);
                }
                Ok(())
            },
            Instr::SkipNeReg { x, y } => {
                if self.v[x as usize] != self.v[y as usize] {
                    self.pc = self.pc.wrapping_add(2);
                }
                proof {
                    assert(spec_step_instr(s0, instr, opcode, rnd)->Ok_0 =~= self@);
                }
                Ok(())
            },
            Instr::SetIndex { nnn } => {
                self.i = nnn;
                proof {
                    assert(spec_step_instr(s0, instr, opcode, rnd)->Ok_0 =~= self@);
                }
                Ok(())
            },
            Instr::JumpV0 { nnn } => {
                self.pc = (self.v[0] as u16) + nnn;
                proof {
                    assert(spec_step_instr(s0, instr, opcode, rnd)->Ok_0 =~= self@);
                }
                Ok(())
            },
            Instr::Rand { x, nn } => {
                self.v.set(x as usize, rnd & nn);
                proof {
                    assert(spec_step_instr(s0, instr, opcode, rnd)->Ok_0 =~= self@);
                }
                Ok(())
            },
            Instr::Draw { x, y, n } => {
                let vx = self.v[x as usize];
                let vy = self.v[y as usize];
                let collision = draw_sprite(&mut self.screen, &self.memory, self.i, vx, vy, n);
                self.v.set(15, if collision { 1 } else { 0 });
                proof {
                    assert(spec_step_instr(s0, instr, opcode, rnd)->Ok_0 =~= self@);
                }
                Ok(())
            },
            Instr::SkipKey { x } => {
                let key = self.v[x as usize] % 16;
                if self.keyboard.is_pressed(key) {
                    self.pc = self.pc.wrapping_add(2);
                }
                proof {
                    assert(spec_step_instr(s0, instr, opcode, rnd)->Ok_0 =~= self@);
                }
                Ok(())
            },
            Instr::SkipNoKey { x } => {
                let key = self.v[x as usize] % 16;
                if !self.keyboard.is_pressed(key) {
                    self.pc = self.pc.wrapping_add(2);
                }
                proof {
                    assert(spec_step_instr(s0, instr, opcode, rnd)->Ok_0 =~= self@);
                }
                Ok(())
            },
            Instr::GetDelay { x } => {
                let t = self.delay_timer;
                self.v.set(x as usize, t);
                proof {
                    assert(spec_step_instr(s0, instr, opcode, rnd)->Ok_0 =~= self@);
                }
                Ok(())
            },
            Instr::WaitKey { x } => {
                let mut k: u8 = 0;
                while k < 16 && !self.keyboard.is_pressed(k)
                    invariant
                        k <= 16,
                        s0.wf(),
                        self@ == s0,
                        forall|j: int| 0 <= j < k ==> !s0.keys[j],
                    decreases 16 - k,
                {
                    k = k + 1;
                }
                if k < 16 {
                    proof {
                        lemma_first_pressed_from_found(s0.keys, 0, k as int);
                    }
                    self.v.set(x as usize, k);
                } else {
                    proof {
                        lemma_first_pressed_from_none(s0.keys, 0);
                    }
                    self.pc = self.pc.wrapping_sub(2);
                }
                proof {
                    assert(spec_step_instr(s0, instr, opcode, rnd)->Ok_0 =~= self@);
                }
                Ok(())
            },
            Instr::SetDelay { x } => {
                self.delay_timer = self.v[x as usize];
                proof {
                    assert(spec_step_instr(s0, instr, opcode, rnd)->Ok_0 =~= self@);
                }
                Ok(())
            },
            Instr::SetSound { x } => {
                self.sound_timer = self.v[x as usize];
                proof {
                    assert(spec_step_instr(s0, instr, opcode, rnd)->Ok_0 =~= self@);
                }
                Ok(())
            },
            Instr::AddIndex { x } => {
                let vx = self.v[x as usize];
                self.i = self.i.wrapping_add(vx as u16);
                proof {
                    assert(spec_step_instr(s0, instr, opcode, rnd)->Ok_0 =~= self@);
                }
                Ok(())
            },
            Instr::Font { x } => {
                let vx = self.v[x as usize];
                self.i = (vx as u16) * 5;
                proof {
                    assert(spec_step_instr(s0, instr, opcode, rnd)->Ok_0 =~= self@);
                }
                Ok(())
            },
            Instr::Bcd { x } => {
                let vx = self.v[x as usize];
                let base = self.i as usize;
                self.memory.write_u8((base % RAM_SIZE) as u16, vx / 100);
                self.memory.write_u8(((base + 1) % RAM_SIZE) as u16, (vx / 10) % 10);
                self.memory.write_u8(((base + 2) % RAM_SIZE) as u16, vx % 10);
                proof {
                    assert(spec_step_instr(s0, instr, opcode, rnd)->Ok_0 =~= self@);
                }
                Ok(())
            },
            Instr::StoreRegs { x } => {
                let mut k: usize = 0;
                while k <= x as usize
                    invariant
                        x < 16,
                        k <= x as int + 1,
                        s0.wf(),
                        self.memory.wf(),
                        self@ =~= (MachineView {
                            mem: store_regs_seq(s0.mem, s0.v, s0.i, k as int - 1),
                            ..s0
                        }),
                    decreases x as int + 1 - k,
                {
                    let addr = ((self.i as usize) + k) % RAM_SIZE;
                    let val = self.v[k];
                    self.memory.write_u8(addr as u16, val);
                    proof {
                        assert(mem_addr(addr as int) == mem_addr(s0.i as int + k));
                        assert(self@.mem =~= store_regs_seq(s0.mem, s0.v, s0.i, k as int));
                    }
                    k = k + 1;
                }
                proof {
                    assert(spec_step_instr(s0, instr, opcode, rnd)->Ok_0 =~= self@);
                }
                Ok(())
            },
            Instr::LoadRegs { x } => {
                let mut k: usize = 0;
                while k <= x as usize
                    invariant
                        x < 16,
                        k <= x as int + 1,
                        s0.wf(),
                        self.v@.len() == NUM_REGS,
                        self.memory.wf(),
                        self@ =~= (MachineView {
                            v: load_regs_seq(s0.mem, s0.v, s0.i, k as int - 1),
                            ..s0
                        }),
                    decreases x as int + 1 - k,
                {
                    let addr = ((self.i as usize) + k) % RAM_SIZE;
                    let b = self.memory.read_u8(addr as u16);
                    self.v.set(k, b);
                    proof {
                        assert(mem_addr(addr as int) == mem_addr(s0.i as int + k));
                        assert(self@.v =~= load_regs_seq(s0.mem, s0.v, s0.i, k as int));
                    }
                    k = k + 1;
                }
                proof {
                    assert(spec_step_instr(s0, instr, opcode, rnd)->Ok_0 =~= self@);
                }
                Ok(())
            },
            Instr::Unknown => Err(Chip8Error::UnknownOpcode { pc: self.pc.wrapping_sub(2), opcode }),
        }
    }

    /// One whole interpreter step: fetch the word at the program counter
    /// (advancing it), then decode and execute it. Exactly one operation
    /// of the table runs; a fatal condition is reported with the machine
    /// left in the post-fetch state. The random byte the masked-random
    /// instruction consumes is drawn here, so the step is related to the
    /// transition function for some byte.
    pub fn cpu_tick(&mut self) -> (r: Result<(), Chip8Error>)
        requires
            old(self).wf(),
        ensures
            final(self).wf(),
            exists|rnd: u8| cpu_tick_matches(old(self)@, final(self)@, r, rnd),
    {
        let ghost s0 = self@;
        let opcode = self.fetch_opcode();
        let rnd = rand::random::<u8>();
        let r = self.execute(opcode, rnd);
        proof {
            assert(cpu_tick_matches(s0, self@, r, rnd));
        }
        r
    }
}

/// The masked-random instruction is the only operation that reads the
/// randomness source: for an opcode decoding to anything else, the step
/// does not depend on the byte the source produced.
pub proof fn lemma_step_ignores_random(s: MachineView, op: u16, rnd1: u8, rnd2: u8)
    requires
        !(spec_decode(op) is Rand),
    ensures
        spec_execute(s, op, rnd1) == spec_execute(s, op, rnd2),
{
}

/// A successful step preserves the machine's well-formedness: the
/// display, register file, memory and key state keep their fixed sizes.
pub proof fn lemma_step_preserves_wf(s: MachineView, op: u16, rnd: u8)
    requires
        s.wf(),
        spec_execute(s, op, rnd) is Ok,
    ensures
        spec_execute(s, op, rnd)->Ok_0.wf(),
{
    crate::decode::lemma_decode_fields_wf(op);
    match spec_decode(op) {
        Instr::StoreRegs { x } => lemma_store_regs_seq_len(s.mem, s.v, s.i, x as int),
        Instr::LoadRegs { x } => lemma_load_regs_seq_len(s.mem, s.v, s.i, x as int),
        _ => {},
    }
}

/// Storing any register prefix leaves the memory's size unchanged.
proof fn lemma_store_regs_seq_len(mem: Seq<u8>, v: Seq<u8>, i: u16, k: int)
    requires
        mem.len() == RAM_SIZE,
    ensures
        store_regs_seq(mem, v, i, k).len() == mem.len(),
    decreases k + 1,
{
    if k >= 0 {
        lemma_store_regs_seq_len(mem, v, i, k - 1);
    }
}

/// Loading a register prefix that fits the register file leaves its size
/// unchanged.
proof fn lemma_load_regs_seq_len(mem: Seq<u8>, v: Seq<u8>, i: u16, k: int)
    requires
        v.len() == NUM_REGS,
        k < NUM_REGS,
    ensures
        load_regs_seq(mem, v, i, k).len() == v.len(),
    decreases k + 1,
{
    if k >= 0 {
        lemma_load_regs_seq_len(mem, v, i, k - 1);
    }
}

/// Call/return round trip: executing a call pushes the post-fetch
/// program counter, and a later return, executed in any state whose
/// stack has been restored to the call's result, pops exactly that
/// address back into the program counter and leaves the stack as it was
/// before the call. Repeated nested calls round-trip by applying this
/// once per level, innermost first.
pub proof fn lemma_call_ret_round_trip(s: MachineView, op: u16, mid: MachineView, r1: u8, r2: u8)
    requires
        spec_decode(op) is Call,
        spec_execute(s, op, r1) is Ok,
        mid.stack == spec_execute(s, op, r1)->Ok_0.stack,
    ensures
        spec_execute(mid, 0x00EE, r2) is Ok,
        spec_execute(mid, 0x00EE, r2)->Ok_0.pc == s.pc,
        spec_execute(mid, 0x00EE, r2)->Ok_0.stack == s.stack,
{
    assert(spec_decode(0x00EE) == Instr::Ret);
    assert(mid.stack == s.stack.push(s.pc));
    assert(mid.stack.last() == s.pc);
    assert(mid.stack.drop_last() =~= s.stack);
}

/// Key-wait busy loop, blocked case: a whole step that fetches the
/// wait-for-key instruction while no key is held leaves the machine
/// exactly as it was, the program counter pointing at the same
/// instruction, so the next step re-executes it.
pub proof fn lemma_wait_key_blocks(s: MachineView, rnd: u8)
    requires
        s.wf(),
        spec_decode(fetched_op(s)) is WaitKey,
        forall|k: int| 0 <= k < 16 ==> !s.keys[k],
    ensures
        spec_cpu_tick(s, rnd) == Ok::<MachineView, Chip8Error>(s),
{
    lemma_first_pressed_from_none(s.keys, 0);
    assert(s.pc.wrapping_add(2).wrapping_sub(2) == s.pc);
    assert(spec_cpu_tick(s, rnd)->Ok_0 =~= s);
}

/// Key-wait busy loop, released case: once a key is held, a whole step
/// that fetches the wait-for-key instruction advances the program
/// counter normally and stores the lowest-indexed held key into the
/// instruction's register.
pub proof fn lemma_wait_key_proceeds(s: MachineView, rnd: u8, x: u8, j: int)
    requires
        s.wf(),
        spec_decode(fetched_op(s)) == (Instr::WaitKey { x }),
        0 <= j < 16,
        s.keys[j],
        forall|m: int| 0 <= m < j ==> !s.keys[m],
    ensures
        spec_cpu_tick(s, rnd) == Ok::<MachineView, Chip8Error>(
            MachineView {
                pc: s.pc.wrapping_add(2),
                v: s.v.update(x as int, j as u8),
                ..s
            },
        ),
{
    lemma_first_pressed_from_found(s.keys, 0, j);
    assert(spec_cpu_tick(s, rnd)->Ok_0 =~= (MachineView {
        pc: s.pc.wrapping_add(2),
        v: s.v.update(x as int, j as u8),
        ..s
    }));
}

/// The lowest held key found by a scan that saw no held key below `j` and
/// a held key at `j` is `j` itself.
proof fn lemma_first_pressed_from_found(keys: Seq<bool>, k: int, j: int)
    requires
        0 <= k <= j < 16,
        keys[j],
        forall|m: int| k <= m < j ==> !keys[m],
    ensures
        first_pressed_from(keys, k) == j,
    decreases j - k,
{
    if k < j {
        lemma_first_pressed_from_found(keys, k + 1, j);
    }
}

/// A scan that saw no held key at all reports that none is held.
proof fn lemma_first_pressed_from_none(keys: Seq<bool>, k: int)
    requires
        0 <= k <= 16,
        forall|m: int| k <= m < 16 ==> !keys[m],
    ensures
        first_pressed_from(keys, k) == 16,
    decreases 16 - k,
{
    if k < 16 {
        lemma_first_pressed_from_none(keys, k + 1);
    }
}

} // verus!
