//! The machine itself: its state, the accessors the host uses, and the
//! execution engine.
use crate::decode::{_get_kk, _get_last, _get_nnn, _get_x, _get_y, lemma_operand_ranges};
use crate::semantics::{
    agrees, alu_step, collides, covers_index, cycle_step, draw_frame, fetch, first_key_from, font,
    initial_state, loaded_registers, misc_step, pixel_index, set_v, set_v_flag, skip_if, sprite_at,
    step, stored_registers, wrap_addr, Fault, Progress, State, GLYPH_HEIGHT, MEMORY_SIZE,
    PROGRAM_START, SCREEN_HEIGHT, SCREEN_PIXELS, SCREEN_WIDTH, STACK_DEPTH,
};
use vstd::prelude::*;

verus! {

/// The complete state of one machine.
pub struct Chip8 {
    memory: [u8; 4096],
    /// Row by row: pixel `(x, y)` is at `y * 64 + x`.
    pixels: [bool; 2048],
    keyboard: [bool; 16],
    /// The built-in hex glyphs, as copied into low memory at creation.
    pub DefaultCharset: [u8; 80],
    /// Active return addresses, oldest first.
    stack: Vec<u16>,
    V: [u8; 16],
    I: u16,
    DT: u8,
    ST: u8,
    PC: u16,
}

impl View for Chip8 {
    type V = State;

    closed spec fn view(&self) -> State {
        State {
            memory: self.memory@,
            frame: self.pixels@,
            keys: self.keyboard@,
            v: self.V@,
            stack: self.stack@,
            i: self.I,
            pc: self.PC,
            dt: self.DT,
            st: self.ST,
        }
    }
}

impl Default for Chip8 {
    /// A fresh machine: the glyphs at address 0, the program counter at the
    /// program start, everything else zero, off or empty.
    fn default() -> (r: Chip8)
        ensures
            r.wf(),
            r@ == initial_state(),
            r.charset() == font(),
    {
        let charset: [u8; 80] = [
            0xF0, 0x90, 0x90, 0x90, 0xF0,
            0x20, 0x60, 0x20, 0x20, 0x70,
            0xF0, 0x10, 0xF0, 0x80, 0xF0,
            0xF0, 0x10, 0xF0, 0x10, 0xF0,
            0x90, 0x90, 0xF0, 0x10, 0x10,
            0xF0, 0x80, 0xF0, 0x10, 0xF0,
            0xF0, 0x80, 0xF0, 0x90, 0xF0,
            0xF0, 0x10, 0x20, 0x40, 0x40,
            0xF0, 0x90, 0xF0, 0x90, 0xF0,
            0xF0, 0x90, 0xF0, 0x10, 0xF0,
            0xF0, 0x90, 0xF0, 0x90, 0x90,
            0xE0, 0x90, 0xE0, 0x90, 0xE0,
            0xF0, 0x80, 0x80, 0x80, 0xF0,
            0xE0, 0x90, 0x90, 0x90, 0xE0,
            0xF0, 0x80, 0xF0, 0x80, 0xF0,
            0xF0, 0x80, 0xF0, 0x80, 0x80,
        ];
        assert(charset@ =~= font());
        let mut memory: [u8; 4096] = [0u8; 4096];
        let mut a: usize = 0;
        while a < 80
            invariant
                a <= 80,
                charset@ == font(),
                memory@.len() == MEMORY_SIZE,
                forall|b: int| 0 <= b < MEMORY_SIZE ==> #[trigger] memory@[b] == if b < a { font()[b] } else { 0u8 },
            decreases 80 - a,
        {
            memory[a] = charset[a];
            a += 1;
        }
        let r = Chip8 {
            memory,
            pixels: [false; 2048],
            keyboard: [false; 16],
            DefaultCharset: charset,
            stack: Vec::new(),
            V: [0u8; 16],
            I: 0,
            DT: 0,
            ST: 0,
            PC: PROGRAM_START,
        };
        assert(r@.memory =~= initial_state().memory);
        assert(r@.frame =~= initial_state().frame);
        assert(r@.keys =~= initial_state().keys);
        assert(r@.v =~= initial_state().v);
        assert(r@.stack =~= initial_state().stack);
        r
    }
}

/// The sprite bits handled so far by a row-major walk that has finished the
/// rows before `r` and the columns before `c` of row `r`.
spec fn drawn_so_far(x: int, y: int, sprite: Seq<u8>, k: int, r: int, c: int) -> bool {
    let col = sprite_col(x, k);
    let row = sprite_row(y, k);
    covers_index(x, y, sprite, k) && (row < r || (row == r && col < c))
}

/// The sprite column that lands on the pixel at index `k`.
spec fn sprite_col(x: int, k: int) -> int {
    (k % 64 - x) % 64
}

/// The sprite row that lands on the pixel at index `k`.
spec fn sprite_row(y: int, k: int) -> int {
    (k / 64 - y) % 32
}

/// The pixel that sprite row `r`, column `c` lands on, and the fact that no
/// other pixel takes that row and column.
proof fn lemma_sprite_slot(x: int, y: int, r: int, c: int, px: int, py: int)
    requires
        0 <= x,
        0 <= y,
        0 <= c < 8,
        0 <= r < 16,
        px == if x % 64 + c < 64 { x % 64 + c } else { x % 64 + c - 64 },
        py == if y % 32 + r < 32 { y % 32 + r } else { y % 32 + r - 32 },
    ensures
        0 <= px < 64,
        0 <= py < 32,
        0 <= py * 64 + px < 2048,
        (py * 64 + px) % 64 == px,
        (py * 64 + px) / 64 == py,
        (px - x) % 64 == c,
        (py - y) % 32 == r,
        forall|k: int|
            0 <= k < 2048 && #[trigger] sprite_col(x, k) == c && sprite_row(y, k) == r ==> k == py * 64 + px,
{
    assert((py * 64 + px) % 64 == px) by (nonlinear_arith)
        requires 0 <= px < 64, 0 <= py;
    assert((py * 64 + px) / 64 == py) by (nonlinear_arith)
        requires 0 <= px < 64, 0 <= py;
    assert forall|k: int|
        0 <= k < 2048 && #[trigger] sprite_col(x, k) == c && sprite_row(y, k) == r implies k == py * 64 + px by {
        assert(k == (k / 64) * 64 + k % 64) by (nonlinear_arith)
            requires 0 <= k;
        assert(0 <= k / 64 < 32) by (nonlinear_arith)
            requires 0 <= k < 2048;
        assert(0 <= k % 64 < 64) by (nonlinear_arith)
            requires 0 <= k;
    }
}

impl Chip8 {
    /// The machine's state is consistent: the stack within its depth, the
    /// index register and program counter inside memory.
    pub open spec fn wf(&self) -> bool {
        self@.wf()
    }

    /// The glyph table held in the public field.
    pub closed spec fn charset(&self) -> Seq<u8> {
        self.DefaultCharset@
    }

    /// Writes one byte of memory.
    pub fn MemorySet(&mut self, index: usize, val: u8)
        requires
            old(self).wf(),
            index < MEMORY_SIZE,
        ensures
            final(self).wf(),
            final(self)@ == (State { memory: old(self)@.memory.update(index as int, val), ..old(self)@ }),
    {
        self.memory[index] = val;
    }

    /// Reads one byte of memory.
    pub fn MemoryGet(&self, index: usize) -> (r: u8)
        requires
            self.wf(),
            index < MEMORY_SIZE,
        ensures
            r == self@.memory[index as int],
    {
        self.memory[index]
    }

    /// Reads the big-endian 16-bit word at `index` and `index + 1`.
    pub fn MemoryGetShort(&self, index: usize) -> (r: u16)
        requires
            self.wf(),
            index + 1 < MEMORY_SIZE,
        ensures
            r == self@.memory[index as int] * 256 + self@.memory[index + 1],
    {
        let hi = self.MemoryGet(index) as u16;
        let lo = self.MemoryGet(index + 1) as u16;
        hi * 256 + lo
    }

    /// Turns pixel `(x, y)` on.
    pub fn PixelSet(&mut self, x: usize, y: usize)
        requires
            old(self).wf(),
            x < SCREEN_WIDTH,
            y < SCREEN_HEIGHT,
        ensures
            final(self).wf(),
            final(self)@ == (State { frame: old(self)@.frame.update(pixel_index(x as int, y as int), true), ..old(self)@ }),
    {
        self.pixels[y * SCREEN_WIDTH + x] = true;
    }

    /// Whether pixel `(x, y)` is on.
    pub fn PixelIsSet(&self, x: usize, y: usize) -> (r: bool)
        requires
            self.wf(),
            x < SCREEN_WIDTH,
            y < SCREEN_HEIGHT,
        ensures
            r == self@.pixel(x as int, y as int),
    {
        self.pixels[y * SCREEN_WIDTH + x]
    }

    /// XOR-draws the first `num` rows of `sprite`, top-left corner at
    /// `(x, y)`, each byte a row of eight pixels, most significant bit
    /// leftmost; both axes wrap. Returns whether a lit pixel went dark.
    pub fn DrawSprite(&mut self, x: usize, y: usize, sprite: &[u8], num: usize) -> (collision: bool)
        requires
            old(self).wf(),
            num <= sprite@.len(),
            num < 16,
        ensures
            final(self).wf(),
            final(self)@ == (State {
                frame: draw_frame(old(self)@.frame, x as int, y as int, sprite@.subrange(0, num as int)),
                ..old(self)@
            }),
            collision == collides(old(self)@.frame, x as int, y as int, sprite@.subrange(0, num as int)),
    {
        let ghost rows = sprite@.subrange(0, num as int);
        let ghost before = self@.frame;
        let ghost (xi, yi) = (x as int, y as int);
        let x0 = x % SCREEN_WIDTH;
        let y0 = y % SCREEN_HEIGHT;
        let mut collision = false;
        let mut r: usize = 0;
        while r < num
            invariant
                r <= num,
                num <= sprite@.len(),
                num < 16,
                rows == sprite@.subrange(0, num as int),
                x0 == x % 64,
                y0 == y % 32,
                xi == x as int,
                yi == y as int,
                self.wf(),
                self@ == (State { frame: self@.frame, ..old(self)@ }),
                before == old(self)@.frame,
                forall|k: int| 0 <= k < 2048 ==> #[trigger] self@.frame[k] == (before[k] != drawn_so_far(xi, yi, rows, k, r as int, 0)),
                collision == exists|k: int| 0 <= k < 2048 && #[trigger] before[k] && drawn_so_far(xi, yi, rows, k, r as int, 0),
            decreases num - r,
        {
            let py = if y0 + r < SCREEN_HEIGHT { y0 + r } else { y0 + r - SCREEN_HEIGHT };
            let bits = sprite[r];
            let mut c: usize = 0;
            while c < 8
                invariant
                    r < num,
                    num <= sprite@.len(),
                    num < 16,
                    rows == sprite@.subrange(0, num as int),
                    bits == rows[r as int],
                    x0 == x % 64,
                    y0 == y % 32,
                    xi == x as int,
                    yi == y as int,
                    py == if y % 32 + r < 32 { y % 32 + r } else { y % 32 + r - 32 },
                    c <= 8,
                    self.wf(),
                    self@ == (State { frame: self@.frame, ..old(self)@ }),
                    before == old(self)@.frame,
                    forall|k: int| 0 <= k < 2048 ==> #[trigger] self@.frame[k] == (before[k] != drawn_so_far(xi, yi, rows, k, r as int, c as int)),
                    collision == exists|k: int| 0 <= k < 2048 && #[trigger] before[k] && drawn_so_far(xi, yi, rows, k, r as int, c as int),
                decreases 8 - c,
            {
                let px = if x0 + c < SCREEN_WIDTH { x0 + c } else { x0 + c - SCREEN_WIDTH };
                let ghost old_frame = self@.frame;
                let ghost old_collision = collision;
                proof {
                    lemma_sprite_slot(xi, yi, r as int, c as int, px as int, py as int);
                }
                let ghost idx = py * 64 + px;
                if (bits >> ((7 - c) as u8)) & 1u8 == 1u8 {
                    let idx = py * SCREEN_WIDTH + px;
                    assert(covers_index(xi, yi, rows, idx as int));
                    assert(!drawn_so_far(xi, yi, rows, idx as int, r as int, c as int));
                    if self.pixels[idx] {
                        collision = true;
                    }
                    self.pixels[idx] = !self.pixels[idx];
                    assert forall|k: int| 0 <= k < 2048 && k != idx implies
                        drawn_so_far(xi, yi, rows, k, r as int, c + 1) == drawn_so_far(xi, yi, rows, k, r as int, c as int) by {}
                    assert forall|k: int| 0 <= k < 2048 implies #[trigger] self@.frame[k] == (before[k] != drawn_so_far(xi, yi, rows, k, r as int, c + 1)) by {
                        if k != idx {
                            assert(self@.frame[k] == old_frame[k]);
                        }
                    }
                    proof {
                        if collision {
                            if old_collision {
                                let k0 = choose|k: int| 0 <= k < 2048 && #[trigger] before[k] && drawn_so_far(xi, yi, rows, k, r as int, c as int);
                                assert(drawn_so_far(xi, yi, rows, k0, r as int, c + 1));
                            } else {
                                assert(before[idx as int] && drawn_so_far(xi, yi, rows, idx as int, r as int, c + 1));
                            }
                        } else {
                            assert forall|k: int| 0 <= k < 2048 && #[trigger] before[k] implies !drawn_so_far(xi, yi, rows, k, r as int, c + 1) by {
                                if k != idx {
                                    assert(!drawn_so_far(xi, yi, rows, k, r as int, c as int));
                                }
                            }
                        }
                    }
                } else {
                    assert forall|k: int| 0 <= k < 2048 implies
                        drawn_so_far(xi, yi, rows, k, r as int, c + 1) == drawn_so_far(xi, yi, rows, k, r as int, c as int) by {}
                    assert forall|k: int| 0 <= k < 2048 implies #[trigger] self@.frame[k] == (before[k] != drawn_so_far(xi, yi, rows, k, r as int, c + 1)) by {
                        assert(drawn_so_far(xi, yi, rows, k, r as int, c + 1) == drawn_so_far(xi, yi, rows, k, r as int, c as int));
                    }
                    proof {
                        if collision {
                            let k0 = choose|k: int| 0 <= k < 2048 && #[trigger] before[k] && drawn_so_far(xi, yi, rows, k, r as int, c as int);
                            assert(drawn_so_far(xi, yi, rows, k0, r as int, c + 1));
                        } else {
                            assert forall|k: int| 0 <= k < 2048 && #[trigger] before[k] implies !drawn_so_far(xi, yi, rows, k, r as int, c + 1) by {
                                assert(drawn_so_far(xi, yi, rows, k, r as int, c + 1) == drawn_so_far(xi, yi, rows, k, r as int, c as int));
                            }
                        }
                    }
                }
                c += 1;
            }
            assert forall|k: int| 0 <= k < 2048 implies
                drawn_so_far(xi, yi, rows, k, r + 1, 0) == drawn_so_far(xi, yi, rows, k, r as int, 8) by {}
            assert forall|k: int| 0 <= k < 2048 implies #[trigger] self@.frame[k] == (before[k] != drawn_so_far(xi, yi, rows, k, r + 1, 0)) by {
                assert(drawn_so_far(xi, yi, rows, k, r + 1, 0) == drawn_so_far(xi, yi, rows, k, r as int, 8));
            }
            proof {
                if collision {
                    let k0 = choose|k: int| 0 <= k < 2048 && #[trigger] before[k] && drawn_so_far(xi, yi, rows, k, r as int, 8);
                    assert(drawn_so_far(xi, yi, rows, k0, r + 1, 0));
                } else {
                    assert forall|k: int| 0 <= k < 2048 && #[trigger] before[k] implies !drawn_so_far(xi, yi, rows, k, r + 1, 0) by {
                        assert(drawn_so_far(xi, yi, rows, k, r + 1, 0) == drawn_so_far(xi, yi, rows, k, r as int, 8));
                    }
                }
            }
            r += 1;
        }
        assert forall|k: int| 0 <= k < 2048 implies
            drawn_so_far(xi, yi, rows, k, num as int, 0) == covers_index(xi, yi, rows, k) by {}
        assert(self@.frame =~= draw_frame(before, xi, yi, rows));
        proof {
            if collision {
                let k0 = choose|k: int| 0 <= k < 2048 && #[trigger] before[k] && drawn_so_far(xi, yi, rows, k, num as int, 0);
                assert(before[k0] && covers_index(xi, yi, rows, k0));
            } else {
                assert forall|k: int| 0 <= k < 2048 && #[trigger] before[k] implies !covers_index(xi, yi, rows, k) by {
                    assert(drawn_so_far(xi, yi, rows, k, num as int, 0) == covers_index(xi, yi, rows, k));
                }
            }
        }
        collision
    }

    /// Turns every pixel off.
    pub fn DisplayClear(&mut self)
        requires
            old(self).wf(),
        ensures
            final(self).wf(),
            final(self)@ == (State { frame: Seq::new(SCREEN_PIXELS as nat, |k: int| false), ..old(self)@ }),
    {
        self.pixels = [false; 2048];
        assert(self@.frame =~= Seq::new(SCREEN_PIXELS as nat, |k: int| false));
    }

    /// Flips the state of hex key `key`.
    pub fn KeyboardSwitchState(&mut self, key: usize)
        requires
            old(self).wf(),
            key < 16,
        ensures
            final(self).wf(),
            final(self)@ == (State { keys: old(self)@.keys.update(key as int, !old(self)@.keys[key as int]), ..old(self)@ }),
    {
        self.keyboard[key] = !self.keyboard[key];
    }

    /// Records hex key `key` as down or up.
    pub fn set_key_state(&mut self, key: usize, down: bool)
        requires
            old(self).wf(),
            key < 16,
        ensures
            final(self).wf(),
            final(self)@ == (State { keys: old(self)@.keys.update(key as int, down), ..old(self)@ }),
    {
        self.keyboard[key] = down;
    }

    /// Whether hex key `key` is down.
    pub fn KeyboardIsDown(&self, key: usize) -> (r: bool)
        requires
            self.wf(),
            key < 16,
        ensures
            r == self@.keys[key as int],
    {
        self.keyboard[key]
    }

    /// Pushes a return address; with all sixteen slots in use it refuses and
    /// changes nothing.
    pub fn StackPush(&mut self, val: u16) -> (r: Result<(), Fault>)
        requires
            old(self).wf(),
        ensures
            final(self).wf(),
            old(self)@.stack.len() < STACK_DEPTH ==> r == Ok::<(), Fault>(()) && final(self)@ == (State { stack: old(self)@.stack.push(val), ..old(self)@ }),
            old(self)@.stack.len() >= STACK_DEPTH ==> r == Err::<(), Fault>(Fault::StackOverflow) && final(self)@ == old(self)@,
    {
        if self.stack.len() >= STACK_DEPTH {
            Err(Fault::StackOverflow)
        } else {
            self.stack.push(val);
            Ok(())
        }
    }

    /// Pops the latest return address; with the stack empty it refuses and
    /// changes nothing.
    pub fn StackPop(&mut self) -> (r: Result<u16, Fault>)
        requires
            old(self).wf(),
        ensures
            final(self).wf(),
            old(self)@.stack.len() > 0 ==> r == Ok::<u16, Fault>(old(self)@.stack.last()) && final(self)@ == (State { stack: old(self)@.stack.drop_last(), ..old(self)@ }),
            old(self)@.stack.len() == 0 ==> r == Err::<u16, Fault>(Fault::StackUnderflow) && final(self)@ == old(self)@,
    {
        match self.stack.pop() {
            Some(val) => Ok(val),
            None => Err(Fault::StackUnderflow),
        }
    }
}

/// Relies on rand::random::<u8>: a byte from the thread-local generator.
/// Nothing is known of its value.
#[verifier::external_body]
fn random_byte() -> (r: u8) {
    rand::random::<u8>()
}

impl Chip8 {
    /// Writes an instruction's result to `V[x]`, then its status flag to
    /// `VF`; all flag writes go through here, after the operands were read.
    fn set_with_flag(&mut self, x: usize, val: u8, flag: u8)
        requires
            old(self).wf(),
            x < 16,
        ensures
            final(self).wf(),
            final(self)@ == set_v_flag(old(self)@, x as int, val as int, flag as int),
    {
        self.V[x] = val;
        self.V[15] = flag;
    }

    /// The register-to-register group `8xyN`.
    #[verifier::spinoff_prover]
    fn _0x8(&mut self, opcode: u16) -> (r: Result<Progress, Fault>)
        requires
            old(self).wf(),
        ensures
            final(self).wf(),
            agrees(old(self)@, final(self)@, r, alu_step(old(self)@, opcode)),
    {
        let x = _get_x(opcode) as usize;
        let y = _get_y(opcode) as usize;
        let last = _get_last(opcode);
        let vx = self.V[x];
        let vy = self.V[y];
        let ghost s = self@;
        if last == 0x0 {
            self.V[x] = vy;
            assert(self@ == set_v(s, x as int, vy));
        } else if last == 0x1 {
            self.V[x] = vx | vy;
            assert(self@ == set_v(s, x as int, vx | vy));
        } else if last == 0x2 {
            self.V[x] = vx & vy;
            assert(self@ == set_v(s, x as int, vx & vy));
        } else if last == 0x3 {
            self.V[x] = vx ^ vy;
            assert(self@ == set_v(s, x as int, vx ^ vy));
        } else if last == 0x4 {
            let sum = vx as u16 + vy as u16;
            self.set_with_flag(x, (sum % 256) as u8, if sum > 255 { 1 } else { 0 });
        } else if last == 0x5 {
            let diff = (vx as u16 + 256 - vy as u16) % 256;
            assert(diff as int == (vx - vy) % 256);
            self.set_with_flag(x, diff as u8, if vx >= vy { 1 } else { 0 });
        } else if last == 0x6 {
            self.set_with_flag(x, vx / 2, vx % 2);
        } else if last == 0x7 {
            let diff = (vy as u16 + 256 - vx as u16) % 256;
            assert(diff as int == (vy - vx) % 256);
            self.set_with_flag(x, diff as u8, if vy >= vx { 1 } else { 0 });
        } else if last == 0xE {
            self.set_with_flag(x, ((vx as u16 * 2) % 256) as u8, vx / 128);
        } else {
            return Err(Fault::UnknownOpcode(opcode));
        }
        Ok(Progress::Executed)
    }

    /// The lowest key that is down, or 16 if none is.
    fn first_key_down(&self) -> (k: usize)
        requires
            self.wf(),
        ensures
            k as int == first_key_from(self@.keys, 0),
    {
        let mut k: usize = 0;
        while k < 16 && !self.keyboard[k]
            invariant
                k <= 16,
                self.wf(),
                first_key_from(self@.keys, 0) == first_key_from(self@.keys, k as int),
            decreases 16 - k,
        {
            k += 1;
        }
        k
    }

    /// Stores `V0..=Vx` from address `I` on, wrapping at the end of memory.
    fn store_registers(&mut self, x: usize)
        requires
            old(self).wf(),
            x < 16,
        ensures
            final(self).wf(),
            final(self)@ == (State { memory: stored_registers(old(self)@, x as int), ..old(self)@ }),
    {
        let ghost s = self@;
        let base = self.I as usize;
        let mut k: usize = 0;
        while k <= x
            invariant
                k <= x + 1,
                x < 16,
                base == s.i,
                self.wf(),
                s.wf(),
                self@ == (State { memory: self@.memory, ..s }),
                forall|a: int| 0 <= a < 4096 ==> #[trigger] self@.memory[a] == if wrap_addr(a - s.i) < k { s.v[wrap_addr(a - s.i)] } else { s.memory[a] },
            decreases x + 1 - k,
        {
            let addr = (base + k) % MEMORY_SIZE;
            self.memory[addr] = self.V[k];
            k += 1;
        }
        assert(self@.memory =~= stored_registers(s, x as int));
    }

    /// Loads `V0..=Vx` from address `I` on, wrapping at the end of memory.
    fn load_registers(&mut self, x: usize)
        requires
            old(self).wf(),
            x < 16,
        ensures
            final(self).wf(),
            final(self)@ == (State { v: loaded_registers(old(self)@, x as int), ..old(self)@ }),
    {
        let ghost s = self@;
        let base = self.I as usize;
        let mut k: usize = 0;
        while k <= x
            invariant
                k <= x + 1,
                x < 16,
                base == s.i,
                self.wf(),
                s.wf(),
                self@ == (State { v: self@.v, ..s }),
                forall|j: int| 0 <= j < 16 ==> #[trigger] self@.v[j] == if j < k { s.memory[wrap_addr(s.i + j)] } else { s.v[j] },
            decreases x + 1 - k,
        {
            self.V[k] = self.memory[(base + k) % MEMORY_SIZE];
            k += 1;
        }
        assert(self@.v =~= loaded_registers(s, x as int));
    }

    /// The miscellaneous group `FxKK`.
    fn _0xF(&mut self, opcode: u16) -> (r: Result<Progress, Fault>)
        requires
            old(self).wf(),
        ensures
            final(self).wf(),
            agrees(old(self)@, final(self)@, r, misc_step(old(self)@, opcode)),
    {
        let x = _get_x(opcode) as usize;
        let kk = _get_kk(opcode);
        let vx = self.V[x];
        if kk == 0x07 {
            self.V[x] = self.DT;
        } else if kk == 0x0A {
            let k = self.first_key_down();
            if k < 16 {
                self.V[x] = k as u8;
            } else {
                return Ok(Progress::AwaitingKey);
            }
        } else if kk == 0x15 {
            self.DT = vx;
        } else if kk == 0x18 {
            self.ST = vx;
        } else if kk == 0x1E {
            self.I = (self.I + vx as u16) % (MEMORY_SIZE as u16);
        } else if kk == 0x29 {
            self.I = GLYPH_HEIGHT * (vx as u16 % 16);
        } else if kk == 0x33 {
            let base = self.I as usize;
            self.memory[base] = vx / 100;
            self.memory[(base + 1) % MEMORY_SIZE] = (vx / 10) % 10;
            self.memory[(base + 2) % MEMORY_SIZE] = vx % 10;
        } else if kk == 0x55 {
            self.store_registers(x);
        } else if kk == 0x65 {
            self.load_registers(x);
        } else {
            return Err(Fault::UnknownOpcode(opcode));
        }
        Ok(Progress::Executed)
    }

    /// Skips the next instruction when `cond` holds.
    fn skip_when(&mut self, cond: bool)
        requires
            old(self).wf(),
        ensures
            final(self).wf(),
            final(self)@ == skip_if(old(self)@, cond),
    {
        if cond {
            self.PC = (self.PC + 2) % (MEMORY_SIZE as u16);
        }
    }

    /// Every instruction but clear-screen and return.
    fn _extend_execute(&mut self, opcode: u16, rnd: u8) -> (r: Result<Progress, Fault>)
        requires
            old(self).wf(),
            opcode != 0x00E0,
            opcode != 0x00EE,
        ensures
            final(self).wf(),
            agrees(old(self)@, final(self)@, r, step(old(self)@, opcode, rnd)),
    {
        proof {
            lemma_operand_ranges(opcode);
        }
        let group = opcode & 0xF000;
        let x = _get_x(opcode) as usize;
        let y = _get_y(opcode) as usize;
        let kk = _get_kk(opcode);
        let nnn = _get_nnn(opcode);
        let vx = self.V[x];
        let vy = self.V[y];
        if group == 0x0000 {
            return Err(Fault::UnknownOpcode(opcode));
        } else if group == 0x1000 {
            self.PC = nnn;
        } else if group == 0x2000 {
            let pc = self.PC;
            match self.StackPush(pc) {
                Ok(()) => {
                    self.PC = nnn;
                },
                Err(e) => {
                    return Err(e);
                },
            }
        } else if group == 0x3000 {
            self.skip_when(vx as u16 == kk);
        } else if group == 0x4000 {
            self.skip_when(vx as u16 != kk);
        } else if group == 0x5000 {
            self.skip_when(vx == vy);
        } else if group == 0x6000 {
            self.V[x] = kk as u8;
        } else if group == 0x7000 {
            self.V[x] = ((vx as u16 + kk) % 256) as u8;
        } else if group == 0x8000 {
            return self._0x8(opcode);
        } else if group == 0x9000 {
            self.skip_when(vx != vy);
        } else if group == 0xA000 {
            self.I = nnn;
        } else if group == 0xB000 {
            self.PC = (nnn + self.V[0] as u16) % (MEMORY_SIZE as u16);
        } else if group == 0xC000 {
            self.V[x] = rnd & (kk as u8);
        } else if group == 0xD000 {
            let n = _get_last(opcode) as usize;
            let base = self.I as usize;
            let mut sprite: Vec<u8> = Vec::new();
            let mut r: usize = 0;
            while r < n
                invariant
                    r <= n,
                    n < 16,
                    base == self@.i,
                    self.wf(),
                    sprite@ =~= sprite_at(self@.memory, self@.i as int, r as int),
                decreases n - r,
            {
                sprite.push(self.memory[(base + r) % MEMORY_SIZE]);
                r += 1;
            }
            assert(sprite@.subrange(0, n as int) =~= sprite@);
            let collision = self.DrawSprite(vx as usize, vy as usize, sprite.as_slice(), n);
            self.V[15] = if collision { 1 } else { 0 };
        } else if group == 0xE000 {
            let key = (vx % 16) as usize;
            if kk == 0x9E {
                let down = self.KeyboardIsDown(key);
                self.skip_when(down);
            } else if kk == 0xA1 {
                let down = self.KeyboardIsDown(key);
                self.skip_when(!down);
            } else {
                return Err(Fault::UnknownOpcode(opcode));
            }
        } else {
            return self._0xF(opcode);
        }
        Ok(Progress::Executed)
    }

    /// Runs one instruction whose fetch is done (the program counter already
    /// points past it), with `rnd` as the random byte for `Cxkk`.
    pub fn execute_with_random(&mut self, opcode: u16, rnd: u8) -> (r: Result<Progress, Fault>)
        requires
            old(self).wf(),
        ensures
            final(self).wf(),
            agrees(old(self)@, final(self)@, r, step(old(self)@, opcode, rnd)),
    {
        if opcode == 0x00E0 {
            self.DisplayClear();
            Ok(Progress::Executed)
        } else if opcode == 0x00EE {
            match self.StackPop() {
                Ok(ret) => {
                    self.PC = ret % (MEMORY_SIZE as u16);
                    Ok(Progress::Executed)
                },
                Err(e) => Err(e),
            }
        } else {
            self._extend_execute(opcode, rnd)
        }
    }

    /// Runs one instruction whose fetch is done (the program counter already
    /// points past it); `Cxkk` draws its random byte here.
    pub fn execute(&mut self, opcode: u16) -> (r: Result<Progress, Fault>)
        requires
            old(self).wf(),
        ensures
            final(self).wf(),
            exists|rnd: u8| agrees(old(self)@, final(self)@, r, step(old(self)@, opcode, rnd)),
            opcode & 0xF000 != 0xC000 ==> agrees(old(self)@, final(self)@, r, step(old(self)@, opcode, 0)),
    {
        let rnd = if opcode & 0xF000 == 0xC000 { random_byte() } else { 0 };
        let r = self.execute_with_random(opcode, rnd);
        assert(agrees(old(self)@, self@, r, step(old(self)@, opcode, rnd)));
        r
    }

    /// Fetches the big-endian word at the program counter, moves the counter
    /// past it and runs it. On a fault or while waiting for a key the machine
    /// is left as it was before the fetch.
    pub fn cycle(&mut self) -> (r: Result<Progress, Fault>)
        requires
            old(self).wf(),
        ensures
            final(self).wf(),
            exists|rnd: u8| agrees(old(self)@, final(self)@, r, cycle_step(old(self)@, rnd)),
            fetch(old(self)@) & 0xF000 != 0xC000 ==> agrees(old(self)@, final(self)@, r, cycle_step(old(self)@, 0)),
    {
        let pc = self.PC;
        let hi = self.memory[pc as usize] as u16;
        let lo = self.memory[((pc + 1) % (MEMORY_SIZE as u16)) as usize] as u16;
        let opcode = hi * 256 + lo;
        assert(opcode == fetch(old(self)@));
        self.PC = (pc + 2) % (MEMORY_SIZE as u16);
        let rnd = if opcode & 0xF000 == 0xC000 { random_byte() } else { 0 };
        let r = self.execute_with_random(opcode, rnd);
        match r {
            Ok(Progress::Executed) => {},
            _ => {
                self.PC = pc;
            },
        }
        assert(agrees(old(self)@, self@, r, cycle_step(old(self)@, rnd)));
        r
    }
    /// Register `V[x]`.
    pub fn register(&self, x: usize) -> (r: u8)
        requires
            self.wf(),
            x < 16,
        ensures
            r == self@.v[x as int],
    {
        self.V[x]
    }

    /// The index register `I`.
    pub fn index_register(&self) -> (r: u16)
        ensures
            r == self@.i,
    {
        self.I
    }

    /// The program counter: the address of the next instruction to fetch.
    pub fn program_counter(&self) -> (r: u16)
        ensures
            r == self@.pc,
    {
        self.PC
    }

    /// The number of active calls, which is the stack pointer.
    pub fn stack_depth(&self) -> (r: usize)
        ensures
            r == self@.stack.len(),
    {
        self.stack.len()
    }

    /// The delay timer.
    pub fn delay_timer(&self) -> (r: u8)
        ensures
            r == self@.dt,
    {
        self.DT
    }

    /// The sound timer.
    pub fn sound_timer(&self) -> (r: u8)
        ensures
            r == self@.st,
    {
        self.ST
    }

    /// Sets the delay timer; the host counts it down in real time.
    pub fn set_delay_timer(&mut self, val: u8)
        requires
            old(self).wf(),
        ensures
            final(self).wf(),
            final(self)@ == (State { dt: val, ..old(self)@ }),
    {
        self.DT = val;
    }

    /// Sets the sound timer; the host counts it down in real time.
    pub fn set_sound_timer(&mut self, val: u8)
        requires
            old(self).wf(),
        ensures
            final(self).wf(),
            final(self)@ == (State { st: val, ..old(self)@ }),
    {
        self.ST = val;
    }
}

} // verus!
