use vstd::prelude::*;

use crate::instruction::{spec_decode, Instruction};

verus! {

/// Number of addressable memory bytes.
pub const CHIP8_RAM: usize = 4096;

/// Framebuffer width in pixels.
pub const CHIP8_WIDTH: usize = 64;

/// Framebuffer height in pixels.
pub const CHIP8_HEIGHT: usize = 32;

/// Size of one instruction in bytes.
pub const OPCODE_SIZE: u16 = 2;

/// Offset at which program ROMs are loaded; memory below it is reserved.
pub const ROM_BASE: usize = 0x200;

/// Fatal conditions: a corrupt ROM or a decoding bug has driven the machine
/// against its bounds, and execution must not silently continue.
#[derive(PartialEq, Eq, Structural, Debug, Clone, Copy)]
pub enum VmError {
    /// `Call` with all 16 stack slots in use.
    StackOverflow,
    /// `Return` with an empty call stack.
    StackUnderflow,
    /// A sprite fetch, BCD store, register block transfer, or opcode fetch
    /// that would touch memory at or beyond 4096.
    MemoryOutOfBounds,
}

/// Directive a handler returns to say where the program counter goes next.
pub enum ProgramCounter {
    Next,
    Skip,
    Jump(u16),
}

/// The machine as mathematics: every component of the state as a sequence or
/// an integer, so that contracts can say exactly what each instruction does.
#[verifier::ext_equal]
pub struct VmView {
    /// 4096 bytes of addressable memory.
    pub ram: Seq<u8>,
    /// 64x32 framebuffer, row-major, one byte per pixel, each 0 or 1.
    pub vram: Seq<u8>,
    /// Whether the framebuffer changed during the current step.
    pub vram_changed: bool,
    /// 16 return-address slots.
    pub stack: Seq<u16>,
    /// Number of stack slots in use.
    pub sp: int,
    /// The 16 general-purpose registers V0..VF.
    pub v: Seq<u8>,
    /// The index register I.
    pub i: u16,
    /// The program counter.
    pub pc: u16,
    pub delay_timer: u8,
    pub sound_timer: u8,
    /// The keypad latch: 16 key states, refreshed once per step.
    pub keypad: Seq<bool>,
    /// Whether the machine is suspended waiting for a key press.
    pub keypad_waiting: bool,
    /// Target register of the pending wait-for-key instruction.
    pub keypad_register: int,
    /// How many unknown opcodes have been executed (and skipped) so far.
    pub unknown_count: u64,
}

impl VmView {
    /// Structural well-formedness: fixed component sizes, the stack pointer
    /// and wait target in range, and every pixel 0 or 1.
    pub open spec fn wf(self) -> bool {
        &&& self.ram.len() == 4096
        &&& self.vram.len() == 2048
        &&& self.stack.len() == 16
        &&& self.v.len() == 16
        &&& self.keypad.len() == 16
        &&& 0 <= self.sp <= 16
        &&& 0 <= self.keypad_register < 16
        &&& forall|j: int| 0 <= j < 2048 ==> self.vram[j] <= 1
    }
}

/// The CHIP-8 virtual machine: memory, registers, stack, timers, keypad
/// latch and framebuffer, mutated in place by `step` and `tick_timers`.
pub struct VM {
    pub ram: Vec<u8>,
    pub vram: Vec<u8>,
    pub vram_changed: bool,
    pub stack: Vec<u16>,
    pub sp: usize,
    pub v: Vec<u8>,
    pub i: u16,
    pub pc: u16,
    pub delay_timer: u8,
    pub sound_timer: u8,
    pub keypad: Vec<bool>,
    pub keypad_waiting: bool,
    pub keypad_register: u8,
    pub unknown_count: u64,
}

impl View for VM {
    type V = VmView;

    open spec fn view(&self) -> VmView {
        VmView {
            ram: self.ram@,
            vram: self.vram@,
            vram_changed: self.vram_changed,
            stack: self.stack@,
            sp: self.sp as int,
            v: self.v@,
            i: self.i,
            pc: self.pc,
            delay_timer: self.delay_timer,
            sound_timer: self.sound_timer,
            keypad: self.keypad@,
            keypad_waiting: self.keypad_waiting,
            keypad_register: self.keypad_register as int,
            unknown_count: self.unknown_count,
        }
    }
}

impl VM {
    /// The machine is well formed when its view is.
    pub open spec fn wf(self) -> bool {
        self@.wf()
    }
}

/// An 8-bit value reduced modulo 256.
pub open spec fn wrap8(x: int) -> u8 {
    (x % 256) as u8
}

/// A 16-bit value reduced modulo 65536.
pub open spec fn wrap16(x: int) -> u16 {
    (x % 0x10000) as u16
}

/// The machine's reset state: zeroed memory, registers and timers, an empty
/// stack, a dark screen, and the program counter at the ROM base.
pub open spec fn reset_view() -> VmView {
    VmView {
        ram: Seq::new(4096, |j: int| 0u8),
        vram: Seq::new(2048, |j: int| 0u8),
        vram_changed: false,
        stack: Seq::new(16, |j: int| 0u16),
        sp: 0,
        v: Seq::new(16, |j: int| 0u8),
        i: 0,
        pc: 0x200,
        delay_timer: 0,
        sound_timer: 0,
        keypad: Seq::new(16, |j: int| false),
        keypad_waiting: false,
        keypad_register: 0,
        unknown_count: 0,
    }
}

/// The state with register `x` set to `val`.
pub open spec fn spec_set_reg(s: VmView, x: int, val: u8) -> VmView {
    VmView { v: s.v.update(x, val), ..s }
}

/// 6xkk: `Vx` becomes `kk`.
pub open spec fn spec_load_k(s: VmView, x: int, k: u8) -> VmView {
    spec_set_reg(s, x, k)
}

/// 7xkk: `Vx` becomes `Vx + kk` modulo 256; `VF` is not touched.
pub open spec fn spec_add_k(s: VmView, x: int, k: u8) -> VmView {
    spec_set_reg(s, x, wrap8(s.v[x] + k))
}

/// 8xy0: `Vx` becomes `Vy`.
pub open spec fn spec_set(s: VmView, x: int, y: int) -> VmView {
    spec_set_reg(s, x, s.v[y])
}

/// 8xy1: `Vx` becomes `Vx | Vy`.
pub open spec fn spec_or(s: VmView, x: int, y: int) -> VmView {
    spec_set_reg(s, x, s.v[x] | s.v[y])
}

/// 8xy2: `Vx` becomes `Vx & Vy`.
pub open spec fn spec_and(s: VmView, x: int, y: int) -> VmView {
    spec_set_reg(s, x, s.v[x] & s.v[y])
}

/// 8xy3: `Vx` becomes `Vx ^ Vy`.
pub open spec fn spec_xor(s: VmView, x: int, y: int) -> VmView {
    spec_set_reg(s, x, s.v[x] ^ s.v[y])
}

/// 8xy4: `Vx` becomes the wrapped sum, then `VF` reports whether the true
/// sum exceeded 255.
pub open spec fn spec_add(s: VmView, x: int, y: int) -> VmView {
    let sum = s.v[x] + s.v[y];
    let s1 = spec_set_reg(s, x, wrap8(sum));
    spec_set_reg(s1, 15, if sum > 255 { 1u8 } else { 0u8 })
}

/// 8xy5: `VF` first reports `Vx > Vy`, then `Vx` becomes the wrapped
/// difference of the registers as they stand after the flag write.
pub open spec fn spec_sub(s: VmView, x: int, y: int) -> VmView {
    let s1 = spec_set_reg(s, 15, if s.v[x] > s.v[y] { 1u8 } else { 0u8 });
    spec_set_reg(s1, x, wrap8(s1.v[x] - s1.v[y]))
}

/// 8xy7: the mirror of `Sub`, with the operands swapped.
pub open spec fn spec_sub_inv(s: VmView, x: int, y: int) -> VmView {
    let s1 = spec_set_reg(s, 15, if s.v[y] > s.v[x] { 1u8 } else { 0u8 });
    spec_set_reg(s1, x, wrap8(s1.v[y] - s1.v[x]))
}

/// 8xy6: `VF` first captures the bit about to be shifted out, then `Vx` is
/// halved.
pub open spec fn spec_shift_right(s: VmView, x: int) -> VmView {
    let s1 = spec_set_reg(s, 15, s.v[x] & 1);
    spec_set_reg(s1, x, s1.v[x] / 2)
}

/// 8xyE: `VF` first captures the bit about to be shifted out, then `Vx` is
/// doubled modulo 256.
pub open spec fn spec_shift_left(s: VmView, x: int) -> VmView {
    let s1 = spec_set_reg(s, 15, (s.v[x] & 0x80) / 0x80);
    spec_set_reg(s1, x, wrap8(s1.v[x] * 2))
}

impl ProgramCounter {
    /// `Skip` when the condition holds, `Next` otherwise.
    pub fn skip_if(cond: bool) -> (d: ProgramCounter)
        ensures
            d == (if cond {
                ProgramCounter::Skip
            } else {
                ProgramCounter::Next
            }),
    {
        if cond {
            ProgramCounter::Skip
        } else {
            ProgramCounter::Next
        }
    }
}

impl VM {
    /// A machine in its reset state.
    pub fn new() -> (vm: Self)
        ensures
            vm.wf(),
            vm@ == reset_view(),
    {
        let vm = Self {
            ram: vec![0u8; CHIP8_RAM],
            vram: vec![0u8; CHIP8_WIDTH * CHIP8_HEIGHT],
            vram_changed: false,
            stack: vec![0u16; 16],
            sp: 0,
            v: vec![0u8; 16],
            i: 0,
            pc: 0x200,
            delay_timer: 0,
            sound_timer: 0,
            keypad: vec![false; 16],
            keypad_waiting: false,
            keypad_register: 0,
            unknown_count: 0,
        };
        proof {
            assert(vm@.ram =~= reset_view().ram);
            assert(vm@.vram =~= reset_view().vram);
            assert(vm@.stack =~= reset_view().stack);
            assert(vm@.v =~= reset_view().v);
            assert(vm@.keypad =~= reset_view().keypad);
            assert(vm@ =~= reset_view());
        }
        vm
    }

    fn op_load_k(&mut self, x: usize, k: u8) -> (d: ProgramCounter)
        requires
            old(self).wf(),
            x < 16,
        ensures
            final(self).wf(),
            final(self)@ == spec_load_k(old(self)@, x as int, k),
            d is Next,
    {
        self.v[x] = k;
        ProgramCounter::Next
    }

    fn op_add_k(&mut self, x: usize, k: u8) -> (d: ProgramCounter)
        requires
            old(self).wf(),
            x < 16,
        ensures
            final(self).wf(),
            final(self)@ == spec_add_k(old(self)@, x as int, k),
            d is Next,
    {
        self.v[x] = self.v[x].wrapping_add(k);
        ProgramCounter::Next
    }

    fn op_set(&mut self, x: usize, y: usize) -> (d: ProgramCounter)
        requires
            old(self).wf(),
            x < 16,
            y < 16,
        ensures
            final(self).wf(),
            final(self)@ == spec_set(old(self)@, x as int, y as int),
            d is Next,
    {
        self.v[x] = self.v[y];
        ProgramCounter::Next
    }

    fn op_or(&mut self, x: usize, y: usize) -> (d: ProgramCounter)
        requires
            old(self).wf(),
            x < 16,
            y < 16,
        ensures
            final(self).wf(),
            final(self)@ == spec_or(old(self)@, x as int, y as int),
            d is Next,
    {
        self.v[x] = self.v[x] | self.v[y];
        ProgramCounter::Next
    }

    fn op_and(&mut self, x: usize, y: usize) -> (d: ProgramCounter)
        requires
            old(self).wf(),
            x < 16,
            y < 16,
        ensures
            final(self).wf(),
            final(self)@ == spec_and(old(self)@, x as int, y as int),
            d is Next,
    {
        self.v[x] = self.v[x] & self.v[y];
        ProgramCounter::Next
    }

    fn op_xor(&mut self, x: usize, y: usize) -> (d: ProgramCounter)
        requires
            old(self).wf(),
            x < 16,
            y < 16,
        ensures
            final(self).wf(),
            final(self)@ == spec_xor(old(self)@, x as int, y as int),
            d is Next,
    {
        self.v[x] = self.v[x] ^ self.v[y];
        ProgramCounter::Next
    }

    fn op_add(&mut self, x: usize, y: usize) -> (d: ProgramCounter)
        requires
            old(self).wf(),
            x < 16,
            y < 16,
        ensures
            final(self).wf(),
            final(self)@ == spec_add(old(self)@, x as int, y as int),
            d is Next,
    {
        let r: u16 = (self.v[x] as u16) + (self.v[y] as u16);
        self.v[x] = (r % 256) as u8;
        self.v[15] = if r > 0xff {
            1
        } else {
            0
        };
        ProgramCounter::Next
    }

    fn op_sub(&mut self, x: usize, y: usize) -> (d: ProgramCounter)
        requires
            old(self).wf(),
            x < 16,
            y < 16,
        ensures
            final(self).wf(),
            final(self)@ == spec_sub(old(self)@, x as int, y as int),
            d is Next,
    {
        self.v[15] = if self.v[x] > self.v[y] {
            1
        } else {
            0
        };
        self.v[x] = self.v[x].wrapping_sub(self.v[y]);
        ProgramCounter::Next
    }

    fn op_sub_inv(&mut self, x: usize, y: usize) -> (d: ProgramCounter)
        requires
            old(self).wf(),
            x < 16,
            y < 16,
        ensures
            final(self).wf(),
            final(self)@ == spec_sub_inv(old(self)@, x as int, y as int),
            d is Next,
    {
        self.v[15] = if self.v[y] > self.v[x] {
            1
        } else {
            0
        };
        self.v[x] = self.v[y].wrapping_sub(self.v[x]);
        ProgramCounter::Next
    }

    fn op_shift_right(&mut self, x: usize) -> (d: ProgramCounter)
        requires
            old(self).wf(),
            x < 16,
        ensures
            final(self).wf(),
            final(self)@ == spec_shift_right(old(self)@, x as int),
            d is Next,
    {
        self.v[15] = self.v[x] & 1;
        self.v[x] = self.v[x] / 2;
        ProgramCounter::Next
    }

    fn op_shift_left(&mut self, x: usize) -> (d: ProgramCounter)
        requires
            old(self).wf(),
            x < 16,
        ensures
            final(self).wf(),
            final(self)@ == spec_shift_left(old(self)@, x as int),
            d is Next,
    {
        self.v[15] = (self.v[x] & 0x80) / 0x80;
        self.v[x] = self.v[x].wrapping_mul(2);
        ProgramCounter::Next
    }

    fn op_skip_equal_k(&mut self, x: usize, k: u8) -> (d: ProgramCounter)
        requires
            old(self).wf(),
            x < 16,
        ensures
            final(self)@ == old(self)@,
            d == ProgramCounter::skip_if_spec(old(self)@.v[x as int] == k),
    {
        ProgramCounter::skip_if(self.v[x] == k)
    }

    fn op_skip_not_equal_k(&mut self, x: usize, k: u8) -> (d: ProgramCounter)
        requires
            old(self).wf(),
            x < 16,
        ensures
            final(self)@ == old(self)@,
            d == ProgramCounter::skip_if_spec(old(self)@.v[x as int] != k),
    {
        ProgramCounter::skip_if(self.v[x] != k)
    }

    fn op_skip_equal(&mut self, x: usize, y: usize) -> (d: ProgramCounter)
        requires
            old(self).wf(),
            x < 16,
            y < 16,
        ensures
            final(self)@ == old(self)@,
            d == ProgramCounter::skip_if_spec(old(self)@.v[x as int] == old(self)@.v[y as int]),
    {
        ProgramCounter::skip_if(self.v[x] == self.v[y])
    }

    fn op_skip_not_equal(&mut self, x: usize, y: usize) -> (d: ProgramCounter)
        requires
            old(self).wf(),
            x < 16,
            y < 16,
        ensures
            final(self)@ == old(self)@,
            d == ProgramCounter::skip_if_spec(old(self)@.v[x as int] != old(self)@.v[y as int]),
    {
        ProgramCounter::skip_if(self.v[x] != self.v[y])
    }
}

impl ProgramCounter {
    /// What `skip_if` returns.
    pub open spec fn skip_if_spec(cond: bool) -> ProgramCounter {
        if cond {
            ProgramCounter::Skip
        } else {
            ProgramCounter::Next
        }
    }
}

/// 00E0: every pixel goes dark and the dirty flag is raised.
pub open spec fn spec_clear(s: VmView) -> VmView {
    VmView { vram: Seq::new(2048, |j: int| 0u8), vram_changed: true, ..s }
}

/// 2nnn: the address of the instruction after the call site is pushed.
pub open spec fn spec_call_push(s: VmView) -> VmView {
    VmView { stack: s.stack.update(s.sp, wrap16(s.pc + 2)), sp: s.sp + 1, ..s }
}

/// 00EE: one return address is popped.
pub open spec fn spec_return_pop(s: VmView) -> VmView {
    VmView { sp: s.sp - 1, ..s }
}

/// Annn: `I` becomes the address.
pub open spec fn spec_load_i(s: VmView, addr: u16) -> VmView {
    VmView { i: addr, ..s }
}

/// Fx1E: `Vx` is added to `I` modulo 65536.
pub open spec fn spec_add_i(s: VmView, x: int) -> VmView {
    VmView { i: wrap16(s.i + s.v[x]), ..s }
}

/// Fx29: `I` becomes the address of the built-in glyph for digit `Vx`,
/// five bytes per glyph from the bottom of memory.
pub open spec fn spec_load_hex_glyph(s: VmView, x: int) -> VmView {
    VmView { i: (s.v[x] * 5) as u16, ..s }
}

/// Fx07: `Vx` becomes the delay timer.
pub open spec fn spec_get_timer(s: VmView, x: int) -> VmView {
    spec_set_reg(s, x, s.delay_timer)
}

/// Fx15: the delay timer becomes `Vx`.
pub open spec fn spec_set_timer(s: VmView, x: int) -> VmView {
    VmView { delay_timer: s.v[x], ..s }
}

/// Fx18: the sound timer becomes `Vx`.
pub open spec fn spec_set_sound_timer(s: VmView, x: int) -> VmView {
    VmView { sound_timer: s.v[x], ..s }
}

/// Fx0A: the machine enters wait-for-key mode with `Vx` as the target;
/// the program counter is left at the waiting instruction.
pub open spec fn spec_wait_key(s: VmView, x: int) -> VmView {
    VmView { keypad_waiting: true, keypad_register: x, ..s }
}

/// Cxkk: `Vx` becomes a byte `b` from the generator, masked with `kk`.
pub open spec fn spec_rand(s: VmView, x: int, k: u8, b: u8) -> VmView {
    spec_set_reg(s, x, b & k)
}

/// Fx33: the decimal digits of `Vx`, most significant first, land at
/// addresses `I`, `I+1`, `I+2`.
pub open spec fn spec_store_bcd(s: VmView, x: int) -> VmView {
    let val = s.v[x];
    VmView {
        ram: s.ram.update(s.i as int, val / 100).update(s.i + 1, (val / 10) % 10).update(
            s.i + 2,
            val % 10,
        ),
        ..s
    }
}

/// Fx55: `V0..=Vx` land at addresses `I..=I+x`, then `I` advances past the
/// block (a documented quirk of the original instruction set).
pub open spec fn spec_store_registers(s: VmView, x: int) -> VmView {
    VmView {
        ram: Seq::new(
            4096,
            |a: int|
                if s.i <= a <= s.i + x {
                    s.v[a - s.i]
                } else {
                    s.ram[a]
                },
        ),
        i: (s.i + x + 1) as u16,
        ..s
    }
}

/// Fx65: `V0..=Vx` are read from addresses `I..=I+x`, then `I` advances past
/// the block (the same documented quirk).
pub open spec fn spec_load_registers(s: VmView, x: int) -> VmView {
    VmView {
        v: Seq::new(
            16,
            |j: int|
                if 0 <= j <= x {
                    s.ram[s.i + j]
                } else {
                    s.v[j]
                },
        ),
        i: (s.i + x + 1) as u16,
        ..s
    }
}

/// A ROM lands at the ROM base; bytes that would fall at or past the end of
/// memory are silently dropped, and memory below the base is untouched.
pub open spec fn spec_load(s: VmView, data: Seq<u8>) -> VmView {
    VmView {
        ram: Seq::new(
            4096,
            |a: int|
                if 0x200 <= a && a - 0x200 < data.len() {
                    data[a - 0x200]
                } else {
                    s.ram[a]
                },
        ),
        ..s
    }
}

/// One 60Hz tick: each timer that is above zero goes down by one; a timer
/// at zero stays at zero.
pub open spec fn spec_tick(s: VmView) -> VmView {
    VmView {
        delay_timer: if s.delay_timer > 0 {
            (s.delay_timer - 1) as u8
        } else {
            0u8
        },
        sound_timer: if s.sound_timer > 0 {
            (s.sound_timer - 1) as u8
        } else {
            0u8
        },
        ..s
    }
}

/// Bit `b` of a sprite row, counted from the left (bit 0 is the leftmost
/// pixel of the row).
pub open spec fn sprite_bit(row: u8, b: int) -> u8 {
    (row >> ((7 - b) as u8)) & 1
}

/// Which sprite row lands on screen row `py` when the sprite's top row is at
/// `vy` and rows wrap around the 32-row screen.
pub open spec fn hit_row(vy: u8, py: int) -> int {
    (py - vy) % 32
}

/// Which sprite column lands on screen column `px` when the sprite's left
/// edge is at `vx` and columns wrap around the 64-column screen.
pub open spec fn hit_col(vx: u8, px: int) -> int {
    (px - vx) % 64
}

/// Flat framebuffer index where sprite pixel (row `r`, bit `b`) lands,
/// with toroidal wrap on both axes.
pub open spec fn target_index(vx: u8, vy: u8, r: int, b: int) -> int {
    ((vy + r) % 32) * 64 + ((vx + b) % 64)
}

/// The framebuffer after XOR-drawing the sprite pixels that precede position
/// (`pr`, `pb`) in row-major sprite order. A screen pixel is hit by at most
/// one sprite pixel, the one whose wrapped row and column land on it.
pub open spec fn draw_vram_partial(
    vram: Seq<u8>,
    ram: Seq<u8>,
    i: int,
    vx: u8,
    vy: u8,
    n: int,
    pr: int,
    pb: int,
) -> Seq<u8> {
    Seq::new(
        2048,
        |idx: int|
            {
                let r = hit_row(vy, idx / 64);
                let b = hit_col(vx, idx % 64);
                if 0 <= r < n && 0 <= b < 8 && (r < pr || (r == pr && b < pb)) {
                    vram[idx] ^ sprite_bit(ram[i + r], b)
                } else {
                    vram[idx]
                }
            },
    )
}

/// The framebuffer after XOR-drawing the whole `n`-row sprite at `I`.
pub open spec fn draw_vram(vram: Seq<u8>, ram: Seq<u8>, i: int, vx: u8, vy: u8, n: int) -> Seq<
    u8,
> {
    draw_vram_partial(vram, ram, i, vx, vy, n, n, 0)
}

/// Whether some sprite pixel before position (`pr`, `pb`) turned a lit
/// screen pixel off: both the screen pixel and the sprite bit were 1.
pub open spec fn draw_collision_partial(
    vram: Seq<u8>,
    ram: Seq<u8>,
    i: int,
    vx: u8,
    vy: u8,
    n: int,
    pr: int,
    pb: int,
) -> bool {
    exists|r: int, b: int|
        #![trigger target_index(vx, vy, r, b)]
        {
            &&& 0 <= r < n
            &&& 0 <= b < 8
            &&& r < pr || (r == pr && b < pb)
            &&& vram[target_index(vx, vy, r, b)] == 1
            &&& sprite_bit(ram[i + r], b) == 1
        }
}

/// Whether drawing the whole sprite turned any lit pixel off.
pub open spec fn draw_collision(vram: Seq<u8>, ram: Seq<u8>, i: int, vx: u8, vy: u8, n: int) -> bool {
    draw_collision_partial(vram, ram, i, vx, vy, n, n, 0)
}

/// Dxyn: the `n`-row sprite at `I` is XOR-drawn at `(Vx, Vy)` with toroidal
/// wrap; `VF` reports whether any lit pixel went dark; the dirty flag is
/// raised. A sprite fetch that would read at or past the end of memory is
/// fatal and leaves the machine untouched.
pub open spec fn spec_draw(s: VmView, x: int, y: int, n: int) -> Result<VmView, VmError> {
    if s.i + n > 4096 {
        Err(VmError::MemoryOutOfBounds)
    } else {
        let vx = s.v[x];
        let vy = s.v[y];
        Ok(
            VmView {
                vram: draw_vram(s.vram, s.ram, s.i as int, vx, vy, n),
                vram_changed: true,
                v: s.v.update(
                    15,
                    if draw_collision(s.vram, s.ram, s.i as int, vx, vy, n) {
                        1u8
                    } else {
                        0u8
                    },
                ),
                ..s
            },
        )
    }
}

/// Adding `k` rows and then measuring the wrapped offset from `v` gives `k`
/// back, and a screen position is pinned down by its wrapped offset: adding
/// the offset back to the sprite origin lands on the same position.
proof fn lemma_wrap_32(v: int, k: int, p: int)
    requires
        0 <= v,
        0 <= k < 32,
        0 <= p < 32,
    ensures
        ((v + k) % 32 - v) % 32 == k,
        (v + ((p - v) % 32)) % 32 == p,
{
    vstd::arithmetic::div_mod::lemma_fundamental_div_mod(v + k, 32);
    let q = (v + k) / 32;
    vstd::arithmetic::div_mod::lemma_mod_multiples_vanish(-q, k, 32);
    vstd::arithmetic::div_mod::lemma_small_mod(k as nat, 32);
    vstd::arithmetic::div_mod::lemma_fundamental_div_mod(p - v, 32);
    let q2 = (p - v) / 32;
    vstd::arithmetic::div_mod::lemma_mod_multiples_vanish(-q2, p, 32);
    vstd::arithmetic::div_mod::lemma_small_mod(p as nat, 32);
}

/// The same two wraparound facts for the 64-column axis.
proof fn lemma_wrap_64(v: int, k: int, p: int)
    requires
        0 <= v,
        0 <= k < 64,
        0 <= p < 64,
    ensures
        ((v + k) % 64 - v) % 64 == k,
        (v + ((p - v) % 64)) % 64 == p,
{
    vstd::arithmetic::div_mod::lemma_fundamental_div_mod(v + k, 64);
    let q = (v + k) / 64;
    vstd::arithmetic::div_mod::lemma_mod_multiples_vanish(-q, k, 64);
    vstd::arithmetic::div_mod::lemma_small_mod(k as nat, 64);
    vstd::arithmetic::div_mod::lemma_fundamental_div_mod(p - v, 64);
    let q2 = (p - v) / 64;
    vstd::arithmetic::div_mod::lemma_mod_multiples_vanish(-q2, p, 64);
    vstd::arithmetic::div_mod::lemma_small_mod(p as nat, 64);
}

/// Relies on rand::random: one byte from the thread-local generator.
/// Nothing is promised of its value; callers must hold for every byte.
#[verifier::external_body]
fn random_byte() -> u8 {
    rand::random()
}

/// The program counter after a handler's directive: one instruction ahead,
/// two ahead for a skip, or exactly the jump target, wrapping at 16 bits.
pub open spec fn apply_pc(s: VmView, d: ProgramCounter) -> VmView {
    match d {
        ProgramCounter::Next => VmView { pc: wrap16(s.pc + 2), ..s },
        ProgramCounter::Skip => VmView { pc: wrap16(s.pc + 4), ..s },
        ProgramCounter::Jump(a) => VmView { pc: a, ..s },
    }
}

/// An opcode the instruction set does not define: the unknown-opcode counter
/// goes up (wrapping) and execution moves on.
pub open spec fn spec_unknown(s: VmView) -> VmView {
    VmView {
        unknown_count: if s.unknown_count == u64::MAX {
            0u64
        } else {
            (s.unknown_count + 1) as u64
        },
        ..s
    }
}

/// What executing one decoded instruction does to the machine, including the
/// program-counter move. `rb` stands for the byte the random generator hands
/// the `Rand` instruction; no other instruction reads it. `Err` means a fatal
/// bounds violation that leaves the machine untouched.
pub open spec fn exec_inst(s: VmView, inst: Instruction, rb: u8) -> Result<VmView, VmError> {
    match inst {
        Instruction::Clear => Ok(apply_pc(spec_clear(s), ProgramCounter::Next)),
        Instruction::Return => if s.sp == 0 {
            Err(VmError::StackUnderflow)
        } else {
            Ok(apply_pc(spec_return_pop(s), ProgramCounter::Jump(s.stack[s.sp - 1])))
        },
        Instruction::Sys(_) => Ok(apply_pc(s, ProgramCounter::Next)),
        Instruction::Jump(a) => Ok(apply_pc(s, ProgramCounter::Jump(a))),
        Instruction::Call(a) => if s.sp == 16 {
            Err(VmError::StackOverflow)
        } else {
            Ok(apply_pc(spec_call_push(s), ProgramCounter::Jump(a)))
        },
        Instruction::SkipEqualK(x, k) => Ok(
            apply_pc(s, ProgramCounter::skip_if_spec(s.v[x as int] == k)),
        ),
        Instruction::SkipNotEqualK(x, k) => Ok(
            apply_pc(s, ProgramCounter::skip_if_spec(s.v[x as int] != k)),
        ),
        Instruction::SkipEqual(x, y) => Ok(
            apply_pc(s, ProgramCounter::skip_if_spec(s.v[x as int] == s.v[y as int])),
        ),
        Instruction::LoadK(x, k) => Ok(apply_pc(spec_load_k(s, x as int, k), ProgramCounter::Next)),
        Instruction::AddK(x, k) => Ok(apply_pc(spec_add_k(s, x as int, k), ProgramCounter::Next)),
        Instruction::SetReg(x, y) => Ok(
            apply_pc(spec_set(s, x as int, y as int), ProgramCounter::Next),
        ),
        Instruction::Or(x, y) => Ok(apply_pc(spec_or(s, x as int, y as int), ProgramCounter::Next)),
        Instruction::And(x, y) => Ok(
            apply_pc(spec_and(s, x as int, y as int), ProgramCounter::Next),
        ),
        Instruction::Xor(x, y) => Ok(
            apply_pc(spec_xor(s, x as int, y as int), ProgramCounter::Next),
        ),
        Instruction::Add(x, y) => Ok(
            apply_pc(spec_add(s, x as int, y as int), ProgramCounter::Next),
        ),
        Instruction::Sub(x, y) => Ok(
            apply_pc(spec_sub(s, x as int, y as int), ProgramCounter::Next),
        ),
        Instruction::ShiftRight(x) => Ok(
            apply_pc(spec_shift_right(s, x as int), ProgramCounter::Next),
        ),
        Instruction::SubInv(x, y) => Ok(
            apply_pc(spec_sub_inv(s, x as int, y as int), ProgramCounter::Next),
        ),
        Instruction::ShiftLeft(x) => Ok(
            apply_pc(spec_shift_left(s, x as int), ProgramCounter::Next),
        ),
        Instruction::SkipNotEqual(x, y) => Ok(
            apply_pc(s, ProgramCounter::skip_if_spec(s.v[x as int] != s.v[y as int])),
        ),
        Instruction::LoadI(a) => Ok(apply_pc(spec_load_i(s, a), ProgramCounter::Next)),
        Instruction::LongJump(a) => Ok(
            apply_pc(s, ProgramCounter::Jump(wrap16(a + s.v[0]))),
        ),
        Instruction::Rand(x, k) => Ok(
            apply_pc(spec_rand(s, x as int, k, rb), ProgramCounter::Next),
        ),
        Instruction::Draw(x, y, n) => match spec_draw(s, x as int, y as int, n as int) {
            Ok(s2) => Ok(apply_pc(s2, ProgramCounter::Next)),
            Err(e) => Err(e),
        },
        Instruction::SkipPressed(x) => Ok(
            apply_pc(s, ProgramCounter::skip_if_spec(s.keypad[(s.v[x as int] & 0xF) as int])),
        ),
        Instruction::SkipNotPressed(x) => Ok(
            apply_pc(s, ProgramCounter::skip_if_spec(!s.keypad[(s.v[x as int] & 0xF) as int])),
        ),
        Instruction::GetTimer(x) => Ok(
            apply_pc(spec_get_timer(s, x as int), ProgramCounter::Next),
        ),
        Instruction::WaitKey(x) => Ok(
            apply_pc(spec_wait_key(s, x as int), ProgramCounter::Jump(s.pc)),
        ),
        Instruction::SetTimer(x) => Ok(
            apply_pc(spec_set_timer(s, x as int), ProgramCounter::Next),
        ),
        Instruction::SetSoundTimer(x) => Ok(
            apply_pc(spec_set_sound_timer(s, x as int), ProgramCounter::Next),
        ),
        Instruction::AddI(x) => Ok(apply_pc(spec_add_i(s, x as int), ProgramCounter::Next)),
        Instruction::LoadHexGlyph(x) => Ok(
            apply_pc(spec_load_hex_glyph(s, x as int), ProgramCounter::Next),
        ),
        Instruction::StoreBCD(x) => if s.i + 3 > 4096 {
            Err(VmError::MemoryOutOfBounds)
        } else {
            Ok(apply_pc(spec_store_bcd(s, x as int), ProgramCounter::Next))
        },
        Instruction::StoreRegisters(x) => if s.i + x + 1 > 4096 {
            Err(VmError::MemoryOutOfBounds)
        } else {
            Ok(apply_pc(spec_store_registers(s, x as int), ProgramCounter::Next))
        },
        Instruction::LoadRegisters(x) => if s.i + x + 1 > 4096 {
            Err(VmError::MemoryOutOfBounds)
        } else {
            Ok(apply_pc(spec_load_registers(s, x as int), ProgramCounter::Next))
        },
        Instruction::Unknown => Ok(apply_pc(spec_unknown(s), ProgramCounter::Next)),
    }
}

/// The machine with a fresh keypad snapshot latched and the dirty flag
/// lowered: what every step does before it acts.
pub open spec fn spec_latch(s: VmView, pad: Seq<bool>) -> VmView {
    VmView { keypad: pad, vram_changed: false, ..s }
}

/// Whether any of the 16 keys is pressed.
pub open spec fn any_pressed(pad: Seq<bool>) -> bool {
    exists|j: int| 0 <= j < 16 && pad[j]
}

/// The lowest index of a pressed key at or after `j`; 16 when none is.
pub open spec fn first_pressed_from(pad: Seq<bool>, j: int) -> int
    decreases 16 - j,
{
    if j < 0 || j >= 16 {
        16
    } else if pad[j] {
        j
    } else {
        first_pressed_from(pad, j + 1)
    }
}

/// The lowest index of a pressed key; 16 when none is.
pub open spec fn first_pressed(pad: Seq<bool>) -> int {
    first_pressed_from(pad, 0)
}

/// A waiting machine that sees a pressed key: the lowest pressed index lands
/// in the target register, wait mode ends, and the program counter moves
/// past the waiting instruction.
pub open spec fn spec_key_capture(s: VmView) -> VmView {
    VmView {
        v: s.v.update(s.keypad_register, first_pressed(s.keypad) as u8),
        keypad_waiting: false,
        pc: wrap16(s.pc + 2),
        ..s
    }
}

/// The big-endian 16-bit opcode at the program counter.
pub open spec fn spec_fetch(s: VmView) -> u16 {
    (s.ram[s.pc as int] * 256 + s.ram[s.pc + 1]) as u16
}

/// A linear scan that saw only released keys up to `t` and a pressed key at
/// `t` (if `t` is in range) has found the lowest pressed index.
proof fn lemma_first_scan(pad: Seq<bool>, j: int, t: int)
    requires
        0 <= j <= t <= 16,
        forall|u: int| j <= u < t ==> !pad[u],
        t < 16 ==> pad[t],
    ensures
        first_pressed_from(pad, j) == (if t < 16 {
            t
        } else {
            16int
        }),
    decreases t - j,
{
    if j < t {
        lemma_first_scan(pad, j + 1, t);
    }
}

impl VM {
    fn op_clear(&mut self) -> (d: ProgramCounter)
        requires
            old(self).wf(),
        ensures
            final(self).wf(),
            final(self)@ == spec_clear(old(self)@),
            d is Next,
    {
        let mut idx: usize = 0;
        while idx < 2048
            invariant
                self.wf(),
                idx <= 2048,
                self@ == (VmView { vram: self@.vram, vram_changed: self@.vram_changed, ..old(
                    self,
                )@ }),
                forall|j: int| 0 <= j < idx ==> self.vram@[j] == 0,
            decreases 2048 - idx,
        {
            self.vram[idx] = 0;
            idx = idx + 1;
        }
        self.vram_changed = true;
        proof {
            assert(self@.vram =~= spec_clear(old(self)@).vram);
            assert(self@ =~= spec_clear(old(self)@));
        }
        ProgramCounter::Next
    }

    fn op_return(&mut self) -> (r: Result<ProgramCounter, VmError>)
        requires
            old(self).wf(),
        ensures
            final(self).wf(),
            old(self)@.sp == 0 ==> r == Err::<ProgramCounter, VmError>(VmError::StackUnderflow)
                && final(self)@ == old(self)@,
            old(self)@.sp > 0 ==> r == Ok::<ProgramCounter, VmError>(
                ProgramCounter::Jump(old(self)@.stack[old(self)@.sp - 1]),
            ) && final(self)@ == spec_return_pop(old(self)@),
    {
        if self.sp == 0 {
            return Err(VmError::StackUnderflow);
        }
        self.sp = self.sp - 1;
        Ok(ProgramCounter::Jump(self.stack[self.sp]))
    }

    fn op_jump(&mut self, addr: u16) -> (d: ProgramCounter)
        requires
            old(self).wf(),
        ensures
            final(self)@ == old(self)@,
            d == ProgramCounter::Jump(addr),
    {
        ProgramCounter::Jump(addr)
    }

    fn op_long_jump(&mut self, addr: u16) -> (d: ProgramCounter)
        requires
            old(self).wf(),
            addr < 0x1000,
        ensures
            final(self)@ == old(self)@,
            d == ProgramCounter::Jump((addr + old(self)@.v[0]) as u16),
    {
        ProgramCounter::Jump(addr + (self.v[0] as u16))
    }

    fn op_call(&mut self, addr: u16) -> (r: Result<ProgramCounter, VmError>)
        requires
            old(self).wf(),
        ensures
            final(self).wf(),
            old(self)@.sp == 16 ==> r == Err::<ProgramCounter, VmError>(VmError::StackOverflow)
                && final(self)@ == old(self)@,
            old(self)@.sp < 16 ==> r == Ok::<ProgramCounter, VmError>(ProgramCounter::Jump(addr))
                && final(self)@ == spec_call_push(old(self)@),
    {
        if self.sp >= 16 {
            return Err(VmError::StackOverflow);
        }
        self.stack[self.sp] = self.pc.wrapping_add(2);
        self.sp = self.sp + 1;
        Ok(ProgramCounter::Jump(addr))
    }

    fn op_load_i(&mut self, addr: u16) -> (d: ProgramCounter)
        requires
            old(self).wf(),
        ensures
            final(self).wf(),
            final(self)@ == spec_load_i(old(self)@, addr),
            d is Next,
    {
        self.i = addr;
        ProgramCounter::Next
    }

    fn op_add_i(&mut self, x: usize) -> (d: ProgramCounter)
        requires
            old(self).wf(),
            x < 16,
        ensures
            final(self).wf(),
            final(self)@ == spec_add_i(old(self)@, x as int),
            d is Next,
    {
        self.i = self.i.wrapping_add(self.v[x] as u16);
        ProgramCounter::Next
    }

    fn op_load_hex_glyph(&mut self, x: usize) -> (d: ProgramCounter)
        requires
            old(self).wf(),
            x < 16,
        ensures
            final(self).wf(),
            final(self)@ == spec_load_hex_glyph(old(self)@, x as int),
            d is Next,
    {
        self.i = (self.v[x] as u16) * 5;
        ProgramCounter::Next
    }

    fn op_get_timer(&mut self, x: usize) -> (d: ProgramCounter)
        requires
            old(self).wf(),
            x < 16,
        ensures
            final(self).wf(),
            final(self)@ == spec_get_timer(old(self)@, x as int),
            d is Next,
    {
        self.v[x] = self.delay_timer;
        ProgramCounter::Next
    }

    fn op_set_timer(&mut self, x: usize) -> (d: ProgramCounter)
        requires
            old(self).wf(),
            x < 16,
        ensures
            final(self).wf(),
            final(self)@ == spec_set_timer(old(self)@, x as int),
            d is Next,
    {
        self.delay_timer = self.v[x];
        ProgramCounter::Next
    }

    fn op_set_sound_timer(&mut self, x: usize) -> (d: ProgramCounter)
        requires
            old(self).wf(),
            x < 16,
        ensures
            final(self).wf(),
            final(self)@ == spec_set_sound_timer(old(self)@, x as int),
            d is Next,
    {
        self.sound_timer = self.v[x];
        ProgramCounter::Next
    }

    fn op_wait_key(&mut self, x: usize) -> (d: ProgramCounter)
        requires
            old(self).wf(),
            x < 16,
        ensures
            final(self).wf(),
            final(self)@ == spec_wait_key(old(self)@, x as int),
            d == ProgramCounter::Jump(old(self)@.pc),
    {
        self.keypad_waiting = true;
        self.keypad_register = x as u8;
        ProgramCounter::Jump(self.pc)
    }

    /// Key values are hex digits, so only the low nibble of `Vx` selects a
    /// key; higher bits are ignored rather than read out of bounds.
    fn op_skip_pressed(&mut self, x: usize) -> (d: ProgramCounter)
        requires
            old(self).wf(),
            x < 16,
        ensures
            final(self)@ == old(self)@,
            d == ProgramCounter::skip_if_spec(
                old(self)@.keypad[(old(self)@.v[x as int] & 0xF) as int],
            ),
    {
        let key = self.v[x] & 0x0F;
        proof {
            let k = self.v@[x as int];
            assert((k & 0x0F) < 16) by (bit_vector);
        }
        ProgramCounter::skip_if(self.keypad[key as usize])
    }

    fn op_skip_not_pressed(&mut self, x: usize) -> (d: ProgramCounter)
        requires
            old(self).wf(),
            x < 16,
        ensures
            final(self)@ == old(self)@,
            d == ProgramCounter::skip_if_spec(
                !old(self)@.keypad[(old(self)@.v[x as int] & 0xF) as int],
            ),
    {
        let key = self.v[x] & 0x0F;
        proof {
            let k = self.v@[x as int];
            assert((k & 0x0F) < 16) by (bit_vector);
        }
        ProgramCounter::skip_if(!self.keypad[key as usize])
    }

    fn op_rand(&mut self, x: usize, k: u8) -> (d: ProgramCounter)
        requires
            old(self).wf(),
            x < 16,
        ensures
            final(self).wf(),
            exists|b: u8| final(self)@ == spec_rand(old(self)@, x as int, k, b),
            d is Next,
    {
        let b = random_byte();
        self.v[x] = b & k;
        proof {
            assert(final(self)@ == spec_rand(old(self)@, x as int, k, b));
        }
        ProgramCounter::Next
    }

    fn op_draw(&mut self, x: usize, y: usize, n: usize) -> (r: Result<ProgramCounter, VmError>)
        requires
            old(self).wf(),
            x < 16,
            y < 16,
            n < 16,
        ensures
            final(self).wf(),
            old(self)@.i + n > 4096 ==> r == Err::<ProgramCounter, VmError>(
                VmError::MemoryOutOfBounds,
            ) && final(self)@ == old(self)@,
            old(self)@.i + n <= 4096 ==> r == Ok::<ProgramCounter, VmError>(ProgramCounter::Next)
                && Ok::<VmView, VmError>(final(self)@) == spec_draw(
                old(self)@,
                x as int,
                y as int,
                n as int,
            ),
    {
        let base = self.i as usize;
        if base + n > 4096 {
            return Err(VmError::MemoryOutOfBounds);
        }
        let vx = self.v[x];
        let vy = self.v[y];
        let ghost pre = self@;
        let mut collision: bool = false;
        let mut rr: usize = 0;
        proof {
            assert(pre.vram =~= draw_vram_partial(
                pre.vram,
                pre.ram,
                base as int,
                vx,
                vy,
                n as int,
                0,
                0,
            ));
        }
        while rr < n
            invariant
                old(self).wf(),
                x < 16,
                y < 16,
                n < 16,
                rr <= n,
                base == old(self)@.i,
                base + n <= 4096,
                pre == old(self)@,
                vx == pre.v[x as int],
                vy == pre.v[y as int],
                self.wf(),
                self@ == (VmView { vram: self@.vram, ..pre }),
                self.vram@ == draw_vram_partial(
                    pre.vram,
                    pre.ram,
                    base as int,
                    vx,
                    vy,
                    n as int,
                    rr as int,
                    0,
                ),
                collision == draw_collision_partial(
                    pre.vram,
                    pre.ram,
                    base as int,
                    vx,
                    vy,
                    n as int,
                    rr as int,
                    0,
                ),
            decreases n - rr,
        {
            let row = self.ram[base + rr];
            let mut bb: usize = 0;
            while bb < 8
                invariant
                    old(self).wf(),
                    x < 16,
                    y < 16,
                    n < 16,
                    rr < n,
                    bb <= 8,
                    base == old(self)@.i,
                    base + n <= 4096,
                    pre == old(self)@,
                    vx == pre.v[x as int],
                    vy == pre.v[y as int],
                    row == pre.ram[base + rr],
                    self.wf(),
                    self@ == (VmView { vram: self@.vram, ..pre }),
                    self.vram@ == draw_vram_partial(
                        pre.vram,
                        pre.ram,
                        base as int,
                        vx,
                        vy,
                        n as int,
                        rr as int,
                        bb as int,
                    ),
                    collision == draw_collision_partial(
                        pre.vram,
                        pre.ram,
                        base as int,
                        vx,
                        vy,
                        n as int,
                        rr as int,
                        bb as int,
                    ),
                decreases 8 - bb,
            {
                let px = ((vx as usize) + bb) % 64;
                let py = ((vy as usize) + rr) % 32;
                let idx = py * 64 + px;
                let sh = (7 - bb) as u8;
                let bit = (row >> sh) & 1;
                let old_pix = self.vram[idx];
                proof {
                    lemma_wrap_32(vy as int, rr as int, 0);
                    lemma_wrap_64(vx as int, bb as int, 0);
                    assert(idx == target_index(vx, vy, rr as int, bb as int));
                    assert(hit_row(vy, idx as int / 64) == rr as int);
                    assert(hit_col(vx, idx as int % 64) == bb as int);
                    assert(old_pix == pre.vram[idx as int]);
                    assert(bit == sprite_bit(pre.ram[base + rr], bb as int));
                    assert(bit <= 1) by (bit_vector)
                        requires
                            bit == (row >> sh) & 1,
                    ;
                    assert(old_pix <= 1);
                }
                if bit == 1 && old_pix == 1 {
                    collision = true;
                }
                let new_pix = old_pix ^ bit;
                proof {
                    assert(new_pix <= 1) by (bit_vector)
                        requires
                            new_pix == old_pix ^ bit,
                            old_pix <= 1,
                            bit <= 1,
                    ;
                }
                self.vram[idx] = new_pix;
                proof {
                    let mid = draw_vram_partial(
                        pre.vram,
                        pre.ram,
                        base as int,
                        vx,
                        vy,
                        n as int,
                        rr as int,
                        bb as int,
                    );
                    let stepped = draw_vram_partial(
                        pre.vram,
                        pre.ram,
                        base as int,
                        vx,
                        vy,
                        n as int,
                        rr as int,
                        bb + 1,
                    );
                    assert forall|jdx: int| 0 <= jdx < 2048 implies self.vram@[jdx] == stepped[jdx] by {
                        let pyj = jdx / 64;
                        let pxj = jdx % 64;
                        let rj = hit_row(vy, pyj);
                        let bj = hit_col(vx, pxj);
                        if jdx == idx {
                            assert(self.vram@[jdx] == new_pix);
                        } else {
                            if rj == rr as int && bj == bb as int {
                                lemma_wrap_32(vy as int, 0, pyj);
                                lemma_wrap_64(vx as int, 0, pxj);
                                assert(pyj == (vy + rr) % 32);
                                assert(pxj == (vx + bb) % 64);
                                assert(jdx == idx);
                            }
                            assert(self.vram@[jdx] == mid[jdx]);
                        }
                    }
                    assert(self.vram@ =~= stepped);
                    // The collision flag tracks the same region.
                    let coll_new = draw_collision_partial(
                        pre.vram,
                        pre.ram,
                        base as int,
                        vx,
                        vy,
                        n as int,
                        rr as int,
                        bb + 1,
                    );
                    if bit == 1 && old_pix == 1 {
                        assert(pre.vram[target_index(vx, vy, rr as int, bb as int)] == 1);
                        assert(coll_new);
                        assert(collision);
                    } else {
                        if coll_new {
                            let (cr, cb) = choose|cr: int, cb: int|
                                #![trigger target_index(vx, vy, cr, cb)]
                                {
                                    &&& 0 <= cr < n
                                    &&& 0 <= cb < 8
                                    &&& cr < rr as int || (cr == rr as int && cb < bb + 1)
                                    &&& pre.vram[target_index(vx, vy, cr, cb)] == 1
                                    &&& sprite_bit(pre.ram[base + cr], cb) == 1
                                };
                            if cr == rr as int && cb == bb as int {
                                assert(pre.vram[idx as int] == 1 && sprite_bit(
                                    pre.ram[base + rr],
                                    bb as int,
                                ) == 1);
                                assert(false);
                            } else {
                                assert(draw_collision_partial(
                                    pre.vram,
                                    pre.ram,
                                    base as int,
                                    vx,
                                    vy,
                                    n as int,
                                    rr as int,
                                    bb as int,
                                ));
                            }
                        }
                        if collision {
                            assert(coll_new);
                        }
                        assert(collision == coll_new);
                    }
                }
                bb = bb + 1;
            }
            proof {
                let after_row = draw_vram_partial(
                    pre.vram,
                    pre.ram,
                    base as int,
                    vx,
                    vy,
                    n as int,
                    rr as int,
                    8,
                );
                let next_row = draw_vram_partial(
                    pre.vram,
                    pre.ram,
                    base as int,
                    vx,
                    vy,
                    n as int,
                    rr + 1,
                    0,
                );
                assert(self.vram@ =~= next_row);
                if draw_collision_partial(
                    pre.vram,
                    pre.ram,
                    base as int,
                    vx,
                    vy,
                    n as int,
                    rr + 1,
                    0,
                ) {
                    let (cr, cb) = choose|cr: int, cb: int|
                        #![trigger target_index(vx, vy, cr, cb)]
                        {
                            &&& 0 <= cr < n
                            &&& 0 <= cb < 8
                            &&& cr < rr + 1 || (cr == rr + 1 && cb < 0)
                            &&& pre.vram[target_index(vx, vy, cr, cb)] == 1
                            &&& sprite_bit(pre.ram[base + cr], cb) == 1
                        };
                    assert(cr < rr as int || (cr == rr as int && cb < 8));
                    assert(draw_collision_partial(
                        pre.vram,
                        pre.ram,
                        base as int,
                        vx,
                        vy,
                        n as int,
                        rr as int,
                        8,
                    ));
                }
                if draw_collision_partial(
                    pre.vram,
                    pre.ram,
                    base as int,
                    vx,
                    vy,
                    n as int,
                    rr as int,
                    8,
                ) {
                    let (cr, cb) = choose|cr: int, cb: int|
                        #![trigger target_index(vx, vy, cr, cb)]
                        {
                            &&& 0 <= cr < n
                            &&& 0 <= cb < 8
                            &&& cr < rr as int || (cr == rr as int && cb < 8)
                            &&& pre.vram[target_index(vx, vy, cr, cb)] == 1
                            &&& sprite_bit(pre.ram[base + cr], cb) == 1
                        };
                    assert(cr < rr + 1 || (cr == rr + 1 && cb < 0));
                    assert(draw_collision_partial(
                        pre.vram,
                        pre.ram,
                        base as int,
                        vx,
                        vy,
                        n as int,
                        rr + 1,
                        0,
                    ));
                }
            }
            rr = rr + 1;
        }
        self.v[15] = if collision {
            1
        } else {
            0
        };
        self.vram_changed = true;
        proof {
            assert(final(self)@ =~= spec_draw(old(self)@, x as int, y as int, n as int)->Ok_0);
        }
        Ok(ProgramCounter::Next)
    }

    fn op_store_bcd(&mut self, x: usize) -> (r: Result<ProgramCounter, VmError>)
        requires
            old(self).wf(),
            x < 16,
        ensures
            final(self).wf(),
            old(self)@.i + 3 > 4096 ==> r == Err::<ProgramCounter, VmError>(
                VmError::MemoryOutOfBounds,
            ) && final(self)@ == old(self)@,
            old(self)@.i + 3 <= 4096 ==> r == Ok::<ProgramCounter, VmError>(ProgramCounter::Next)
                && final(self)@ == spec_store_bcd(old(self)@, x as int),
    {
        let base = self.i as usize;
        if base > 4093 {
            return Err(VmError::MemoryOutOfBounds);
        }
        let val = self.v[x];
        self.ram[base] = val / 100;
        self.ram[base + 1] = (val / 10) % 10;
        self.ram[base + 2] = val % 10;
        Ok(ProgramCounter::Next)
    }

    fn op_store_registers(&mut self, x: usize) -> (r: Result<ProgramCounter, VmError>)
        requires
            old(self).wf(),
            x < 16,
        ensures
            final(self).wf(),
            old(self)@.i + x + 1 > 4096 ==> r == Err::<ProgramCounter, VmError>(
                VmError::MemoryOutOfBounds,
            ) && final(self)@ == old(self)@,
            old(self)@.i + x + 1 <= 4096 ==> r == Ok::<ProgramCounter, VmError>(
                ProgramCounter::Next,
            ) && final(self)@ == spec_store_registers(old(self)@, x as int),
    {
        let base = self.i as usize;
        if base + x + 1 > 4096 {
            return Err(VmError::MemoryOutOfBounds);
        }
        let mut j: usize = 0;
        while j <= x
            invariant
                self.wf(),
                x < 16,
                j <= x + 1,
                base == old(self)@.i,
                base + x + 1 <= 4096,
                self@ == (VmView { ram: self@.ram, ..old(self)@ }),
                forall|a: int|
                    base <= a < base + j ==> self.ram@[a] == old(self)@.v[a - base],
                forall|a: int|
                    0 <= a < 4096 && !(base <= a < base + j) ==> self.ram@[a] == old(self)@.ram[a],
            decreases x + 1 - j,
        {
            self.ram[base + j] = self.v[j];
            j = j + 1;
        }
        self.i = self.i + (x as u16) + 1;
        proof {
            assert(self@.ram =~= spec_store_registers(old(self)@, x as int).ram);
            assert(self@ =~= spec_store_registers(old(self)@, x as int));
        }
        Ok(ProgramCounter::Next)
    }

    fn op_load_registers(&mut self, x: usize) -> (r: Result<ProgramCounter, VmError>)
        requires
            old(self).wf(),
            x < 16,
        ensures
            final(self).wf(),
            old(self)@.i + x + 1 > 4096 ==> r == Err::<ProgramCounter, VmError>(
                VmError::MemoryOutOfBounds,
            ) && final(self)@ == old(self)@,
            old(self)@.i + x + 1 <= 4096 ==> r == Ok::<ProgramCounter, VmError>(
                ProgramCounter::Next,
            ) && final(self)@ == spec_load_registers(old(self)@, x as int),
    {
        let base = self.i as usize;
        if base + x + 1 > 4096 {
            return Err(VmError::MemoryOutOfBounds);
        }
        let mut j: usize = 0;
        while j <= x
            invariant
                self.wf(),
                x < 16,
                j <= x + 1,
                base == old(self)@.i,
                base + x + 1 <= 4096,
                self@ == (VmView { v: self@.v, ..old(self)@ }),
                forall|jj: int| 0 <= jj < j ==> self.v@[jj] == old(self)@.ram[base + jj],
                forall|jj: int| j <= jj < 16 ==> self.v@[jj] == old(self)@.v[jj],
            decreases x + 1 - j,
        {
            self.v[j] = self.ram[base + j];
            j = j + 1;
        }
        self.i = self.i + (x as u16) + 1;
        proof {
            assert(self@.v =~= spec_load_registers(old(self)@, x as int).v);
            assert(self@ =~= spec_load_registers(old(self)@, x as int));
        }
        Ok(ProgramCounter::Next)
    }

    /// Latches a fresh keypad snapshot and lowers the dirty flag, then either
    /// keeps waiting for a key, captures one, or fetches, decodes and
    /// executes the instruction at the program counter. Returns whether the
    /// framebuffer changed during this step.
    pub fn step(&mut self, keypad: &Vec<bool>) -> (r: Result<bool, VmError>)
        requires
            old(self).wf(),
            keypad@.len() == 16,
        ensures
            final(self).wf(),
            ({
                let l = spec_latch(old(self)@, keypad@);
                if old(self)@.keypad_waiting {
                    &&& !any_pressed(keypad@) ==> r == Ok::<bool, VmError>(false) && final(self)@
                        == l
                    &&& any_pressed(keypad@) ==> r == Ok::<bool, VmError>(false) && final(self)@
                        == spec_key_capture(l)
                } else if old(self)@.pc + 1 >= 4096 {
                    r == Err::<bool, VmError>(VmError::MemoryOutOfBounds) && final(self)@ == l
                } else {
                    let inst = spec_decode(spec_fetch(l));
                    if inst is Rand {
                        &&& r == Ok::<bool, VmError>(final(self)@.vram_changed)
                        &&& exists|b: u8|
                            Ok::<VmView, VmError>(final(self)@) == exec_inst(l, inst, b)
                    } else {
                        match exec_inst(l, inst, 0) {
                            Ok(s2) => final(self)@ == s2 && r == Ok::<bool, VmError>(
                                s2.vram_changed,
                            ),
                            Err(e) => r == Err::<bool, VmError>(e) && final(self)@ == l,
                        }
                    }
                }
            }),
    {
        let mut j: usize = 0;
        while j < 16
            invariant
                old(self).wf(),
                keypad@.len() == 16,
                j <= 16,
                self.wf(),
                self@ == (VmView { keypad: self@.keypad, ..old(self)@ }),
                forall|t: int| 0 <= t < j ==> self.keypad@[t] == keypad@[t],
            decreases 16 - j,
        {
            self.keypad[j] = keypad[j];
            j = j + 1;
        }
        self.vram_changed = false;
        proof {
            assert(self.keypad@ =~= keypad@);
            assert(self@ =~= spec_latch(old(self)@, keypad@));
        }
        let ghost l = self@;
        if self.keypad_waiting {
            let mut t: usize = 0;
            while t < 16 && !self.keypad[t]
                invariant
                    self.wf(),
                    self@ == l,
                    t <= 16,
                    self.keypad@.len() == 16,
                    forall|u: int| 0 <= u < t ==> !self.keypad@[u],
                decreases 16 - t,
            {
                t = t + 1;
            }
            proof {
                lemma_first_scan(self.keypad@, 0, t as int);
            }
            if t == 16 {
                proof {
                    assert(!any_pressed(keypad@));
                }
                return Ok(false);
            }
            proof {
                assert(keypad@[t as int]);
                assert(any_pressed(keypad@));
            }
            let reg = self.keypad_register as usize;
            self.v[reg] = t as u8;
            self.keypad_waiting = false;
            self.pc = self.pc.wrapping_add(2);
            proof {
                assert(self@ =~= spec_key_capture(l));
            }
            return Ok(false);
        }
        if self.pc >= 4095 {
            return Err(VmError::MemoryOutOfBounds);
        }
        let hi = self.ram[self.pc as usize];
        let lo = self.ram[(self.pc + 1) as usize];
        let opcode = (hi as u16) * 256 + (lo as u16);
        proof {
            assert(opcode == spec_fetch(l));
        }
        match self.run_opcode(opcode) {
            Ok(_) => Ok(self.vram_changed),
            Err(e) => Err(e),
        }
    }

    /// Decodes one opcode and executes it: the matching handler mutates the
    /// state and the returned directive moves the program counter. A fatal
    /// bounds violation is reported and leaves the machine untouched; an
    /// unknown opcode is counted and skipped, never fatal.
    pub fn run_opcode(&mut self, opcode: u16) -> (r: Result<(), VmError>)
        requires
            old(self).wf(),
        ensures
            final(self).wf(),
            !(spec_decode(opcode) is Rand) ==> (match exec_inst(old(self)@, spec_decode(opcode), 0)
                {
                Ok(s2) => r is Ok && final(self)@ == s2,
                Err(e) => r == Err::<(), VmError>(e) && final(self)@ == old(self)@,
            }),
            spec_decode(opcode) is Rand ==> r is Ok && (exists|b: u8|
                Ok::<VmView, VmError>(final(self)@) == exec_inst(
                    old(self)@,
                    spec_decode(opcode),
                    b,
                )),
    {
        let ghost pre = self@;
        let inst = Instruction::decode(opcode);
        let pc_res: Result<ProgramCounter, VmError> = match inst {
            Instruction::Clear => Ok(self.op_clear()),
            Instruction::Return => self.op_return(),
            Instruction::Sys(_) => Ok(ProgramCounter::Next),
            Instruction::Jump(a) => Ok(self.op_jump(a)),
            Instruction::Call(a) => self.op_call(a),
            Instruction::SkipEqualK(x, k) => Ok(self.op_skip_equal_k(x as usize, k)),
            Instruction::SkipNotEqualK(x, k) => Ok(self.op_skip_not_equal_k(x as usize, k)),
            Instruction::SkipEqual(x, y) => Ok(self.op_skip_equal(x as usize, y as usize)),
            Instruction::LoadK(x, k) => Ok(self.op_load_k(x as usize, k)),
            Instruction::AddK(x, k) => Ok(self.op_add_k(x as usize, k)),
            Instruction::SetReg(x, y) => Ok(self.op_set(x as usize, y as usize)),
            Instruction::Or(x, y) => Ok(self.op_or(x as usize, y as usize)),
            Instruction::And(x, y) => Ok(self.op_and(x as usize, y as usize)),
            Instruction::Xor(x, y) => Ok(self.op_xor(x as usize, y as usize)),
            Instruction::Add(x, y) => Ok(self.op_add(x as usize, y as usize)),
            Instruction::Sub(x, y) => Ok(self.op_sub(x as usize, y as usize)),
            Instruction::ShiftRight(x) => Ok(self.op_shift_right(x as usize)),
            Instruction::SubInv(x, y) => Ok(self.op_sub_inv(x as usize, y as usize)),
            Instruction::ShiftLeft(x) => Ok(self.op_shift_left(x as usize)),
            Instruction::SkipNotEqual(x, y) => Ok(self.op_skip_not_equal(x as usize, y as usize)),
            Instruction::LoadI(a) => Ok(self.op_load_i(a)),
            Instruction::LongJump(a) => Ok(self.op_long_jump(a)),
            Instruction::Rand(x, k) => Ok(self.op_rand(x as usize, k)),
            Instruction::Draw(x, y, n) => self.op_draw(x as usize, y as usize, n as usize),
            Instruction::SkipPressed(x) => Ok(self.op_skip_pressed(x as usize)),
            Instruction::SkipNotPressed(x) => Ok(self.op_skip_not_pressed(x as usize)),
            Instruction::GetTimer(x) => Ok(self.op_get_timer(x as usize)),
            Instruction::WaitKey(x) => Ok(self.op_wait_key(x as usize)),
            Instruction::SetTimer(x) => Ok(self.op_set_timer(x as usize)),
            Instruction::SetSoundTimer(x) => Ok(self.op_set_sound_timer(x as usize)),
            Instruction::AddI(x) => Ok(self.op_add_i(x as usize)),
            Instruction::LoadHexGlyph(x) => Ok(self.op_load_hex_glyph(x as usize)),
            Instruction::StoreBCD(x) => self.op_store_bcd(x as usize),
            Instruction::StoreRegisters(x) => self.op_store_registers(x as usize),
            Instruction::LoadRegisters(x) => self.op_load_registers(x as usize),
            Instruction::Unknown => {
                self.unknown_count = self.unknown_count.wrapping_add(1);
                Ok(ProgramCounter::Next)
            },
        };
        let ghost mid = self@;
        match pc_res {
            Err(e) => Err(e),
            Ok(d) => {
                match d {
                    ProgramCounter::Next => {
                        self.pc = self.pc.wrapping_add(OPCODE_SIZE);
                    },
                    ProgramCounter::Skip => {
                        self.pc = self.pc.wrapping_add(2 * OPCODE_SIZE);
                    },
                    ProgramCounter::Jump(a) => {
                        self.pc = a;
                    },
                }
                proof {
                    assert(self@ =~= apply_pc(mid, d));
                    match inst {
                        Instruction::Rand(x, k) => {
                            let b = choose|b: u8| mid == spec_rand(pre, x as int, k, b);
                            assert(Ok::<VmView, VmError>(self@) == exec_inst(pre, inst, b));
                        },
                        _ => {},
                    }
                }
                Ok(())
            },
        }
    }

    /// Copies a ROM into memory starting at the ROM base, silently dropping
    /// any bytes that would fall at or past the end of memory.
    pub fn load(&mut self, data: &[u8])
        requires
            old(self).wf(),
        ensures
            final(self).wf(),
            final(self)@ == spec_load(old(self)@, data@),
    {
        let count = if data.len() > CHIP8_RAM - ROM_BASE {
            CHIP8_RAM - ROM_BASE
        } else {
            data.len()
        };
        let mut j: usize = 0;
        while j < count
            invariant
                self.wf(),
                j <= count,
                count <= data.len(),
                count <= 3584,
                count == (if data.len() > 3584 {
                    3584int
                } else {
                    data.len() as int
                }),
                self@ == (VmView { ram: self@.ram, ..old(self)@ }),
                forall|jj: int| 0 <= jj < j ==> self.ram@[0x200 + jj] == data@[jj],
                forall|a: int|
                    0 <= a < 4096 && !(0x200 <= a < 0x200 + j) ==> self.ram@[a] == old(
                        self,
                    )@.ram[a],
            decreases count - j,
        {
            self.ram[ROM_BASE + j] = data[j];
            j = j + 1;
        }
        proof {
            assert(self@.ram =~= spec_load(old(self)@, data@).ram);
            assert(self@ =~= spec_load(old(self)@, data@));
        }
    }

    /// One tick of the 60Hz timer clock: each timer above zero goes down by
    /// one, and a timer already at zero stays there.
    pub fn tick_timers(&mut self)
        requires
            old(self).wf(),
        ensures
            final(self).wf(),
            final(self)@ == spec_tick(old(self)@),
    {
        if self.delay_timer > 0 {
            self.delay_timer = self.delay_timer - 1;
        }
        if self.sound_timer > 0 {
            self.sound_timer = self.sound_timer - 1;
        }
    }
}

/// When some key at or after `j` is pressed, the scan from `j` lands on a
/// pressed key in range.
proof fn lemma_first_pressed_finds(pad: Seq<bool>, j: int)
    requires
        0 <= j <= 16,
        pad.len() == 16,
        exists|u: int| j <= u < 16 && pad[u],
    ensures
        j <= first_pressed_from(pad, j) < 16,
        pad[first_pressed_from(pad, j)],
    decreases 16 - j,
{
    if !pad[j] {
        let u = choose|u: int| j <= u < 16 && pad[u];
        assert(j + 1 <= u < 16 && pad[u]);
        lemma_first_pressed_finds(pad, j + 1);
    }
}

/// Law: loading a ROM of `N` bytes and then reading memory from the ROM base
/// reproduces the ROM's first `N` bytes, up to the 3584-byte capacity above
/// the base; bytes past the capacity are dropped without error; and loading
/// never touches memory below the base nor past the stored range.
pub proof fn lemma_load_round_trip(s: VmView, data: Seq<u8>)
    requires
        s.wf(),
    ensures
        spec_load(s, data).ram.len() == 4096,
        forall|j: int|
            0 <= j < data.len() && j < 3584 ==> spec_load(s, data).ram[0x200 + j] == data[j],
        forall|a: int| 0 <= a < 0x200 ==> spec_load(s, data).ram[a] == s.ram[a],
        forall|a: int| 0x200 + data.len() <= a < 4096 ==> spec_load(s, data).ram[a] == s.ram[a],
{
}

/// Law: while the machine waits for a key, a step with an all-released
/// keypad leaves everything but the keypad latch and dirty flag untouched —
/// the program counter, registers, memory, screen and wait mode stay put.
/// The first snapshot with a pressed key stores the lowest pressed index in
/// the target register, ends wait mode, and moves the program counter one
/// instruction on, so that normal execution resumes on the next step.
pub proof fn lemma_wait_for_key(s: VmView, pad: Seq<bool>)
    requires
        s.wf(),
        s.keypad_waiting,
        pad.len() == 16,
    ensures
        !any_pressed(pad) ==> {
            let l = spec_latch(s, pad);
            &&& l.pc == s.pc
            &&& l.v == s.v
            &&& l.ram == s.ram
            &&& l.vram == s.vram
            &&& l.stack == s.stack
            &&& l.sp == s.sp
            &&& l.i == s.i
            &&& l.keypad_waiting
            &&& l.keypad_register == s.keypad_register
        },
        any_pressed(pad) ==> {
            let c = spec_key_capture(spec_latch(s, pad));
            &&& 0 <= first_pressed(pad) < 16
            &&& pad[first_pressed(pad)]
            &&& c.v == s.v.update(s.keypad_register, first_pressed(pad) as u8)
            &&& !c.keypad_waiting
            &&& c.pc == wrap16(s.pc + 2)
            &&& c.ram == s.ram
            &&& c.vram == s.vram
        },
{
    if any_pressed(pad) {
        lemma_first_pressed_finds(pad, 0);
    }
}

/// Law: a timer tick never underflows — a timer already at zero stays at
/// zero, and when both timers are zero a tick changes nothing at all.
pub proof fn lemma_tick_zero_noop(s: VmView)
    ensures
        s.delay_timer == 0 ==> spec_tick(s).delay_timer == 0,
        s.sound_timer == 0 ==> spec_tick(s).sound_timer == 0,
        s.delay_timer == 0 && s.sound_timer == 0 ==> spec_tick(s) == s,
{
    if s.delay_timer == 0 && s.sound_timer == 0 {
        assert(spec_tick(s) =~= s);
    }
}

} // verus!
