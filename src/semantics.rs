//! The abstract machine: its state as mathematical values, and what one
//! instruction does to it.
use crate::decode::{addr_of, byte_of, group_of, nibble_of, x_of, y_of};
use vstd::prelude::*;

verus! {

/// Bytes of addressable memory.
pub const MEMORY_SIZE: usize = 4096;

/// Where loaded programs start, and where the program counter starts.
pub const PROGRAM_START: u16 = 0x200;

/// Framebuffer columns.
pub const SCREEN_WIDTH: usize = 64;

/// Framebuffer rows.
pub const SCREEN_HEIGHT: usize = 32;

/// Pixels in the framebuffer, stored row by row.
pub const SCREEN_PIXELS: usize = 2048;

/// Return addresses the call stack can hold.
pub const STACK_DEPTH: usize = 16;

/// Bytes in one built-in hex glyph.
pub const GLYPH_HEIGHT: u16 = 5;

/// A fatal condition that stops an instruction; the machine is left as it
/// was before the instruction.
#[derive(PartialEq, Eq, Structural, Clone, Copy, Debug)]
pub enum Fault {
    /// A call with all sixteen return slots in use.
    StackOverflow,
    /// A return with no active call.
    StackUnderflow,
    /// An instruction word that no instruction matches.
    UnknownOpcode(u16),
}

/// What an instruction that did not fault asks of the host next.
#[derive(PartialEq, Eq, Structural, Clone, Copy, Debug)]
pub enum Progress {
    /// The instruction ran; go on with the next one.
    Executed,
    /// The key-wait instruction found no key down; nothing changed, and the
    /// instruction is to be run again after the keyboard changes.
    AwaitingKey,
}

/// The whole architectural state, as values.
pub struct State {
    pub memory: Seq<u8>,
    /// Pixel `(x, y)` is at index `y * 64 + x`.
    pub frame: Seq<bool>,
    pub keys: Seq<bool>,
    pub v: Seq<u8>,
    /// Active return addresses, oldest first.
    pub stack: Seq<u16>,
    pub i: u16,
    pub pc: u16,
    pub dt: u8,
    pub st: u8,
}

impl State {
    /// Every part has its fixed size, the stack is within its depth, and the
    /// index register and program counter lie inside memory.
    pub open spec fn wf(self) -> bool {
        &&& self.memory.len() == MEMORY_SIZE
        &&& self.frame.len() == SCREEN_PIXELS
        &&& self.keys.len() == 16
        &&& self.v.len() == 16
        &&& self.stack.len() <= STACK_DEPTH
        &&& self.i < MEMORY_SIZE
        &&& self.pc < MEMORY_SIZE
    }

    /// Whether pixel `(x, y)` is on.
    pub open spec fn pixel(self, x: int, y: int) -> bool {
        self.frame[pixel_index(x, y)]
    }
}

pub open spec fn pixel_index(x: int, y: int) -> int {
    y * SCREEN_WIDTH + x
}

/// An address reduced into memory.
pub open spec fn wrap_addr(a: int) -> int {
    a % (MEMORY_SIZE as int)
}

/// The built-in glyphs for the hex digits 0 to F, five rows each.
pub open spec fn font() -> Seq<u8> {
    seq![
        0xF0u8, 0x90, 0x90, 0x90, 0xF0,
        0x20, 0x60, 0x20, 0x20, 0x70,
        0xF0, 0x10, 0xF0, 0x80, 0xF0,
        0xF0, 0x10, 0xF0, 0x10, 0xF0,
        0x90, 0x90, 0xF0, 0x10, 0x10,
        0xF0, 0x80, 0xF0, 0x10, 0xF0,
        0xF0, 0x80, 0xF0, 0x90, 0xF0,
        0xF0, 0x10, 0x20, 0x40, 0x40,
        0xF0, 0x90, 0xF0, 0x90, 0xF0,
        0xF0, 0x90, 0xF0, 0x10, 0xF0,
        0xF0, 0x90, 0xF0, 0x90, 0x90,
        0xE0, 0x90, 0xE0, 0x90, 0xE0,
        0xF0, 0x80, 0x80, 0x80, 0xF0,
        0xE0, 0x90, 0x90, 0x90, 0xE0,
        0xF0, 0x80, 0xF0, 0x80, 0xF0,
        0xF0, 0x80, 0xF0, 0x80, 0x80,
    ]
}

/// A new machine: the font at address 0, all else zero or off, and the
/// program counter at the program start.
pub open spec fn initial_state() -> State {
    State {
        memory: Seq::new(MEMORY_SIZE as nat, |a: int| if a < 80 { font()[a] } else { 0u8 }),
        frame: Seq::new(SCREEN_PIXELS as nat, |k: int| false),
        keys: Seq::new(16, |k: int| false),
        v: Seq::new(16, |k: int| 0u8),
        stack: Seq::empty(),
        i: 0,
        pc: PROGRAM_START,
        dt: 0,
        st: 0,
    }
}

/// Bit `col` of a sprite row, counted from the most significant bit.
pub open spec fn sprite_bit(b: u8, col: int) -> bool {
    (b >> ((7 - col) as u8)) & 1u8 == 1u8
}

/// Whether a set bit of `sprite`, drawn with its top-left corner at `(x, y)`,
/// lands on pixel `(px, py)`; both axes wrap.
pub open spec fn covers(x: int, y: int, sprite: Seq<u8>, px: int, py: int) -> bool {
    let col = (px - x) % (SCREEN_WIDTH as int);
    let row = (py - y) % (SCREEN_HEIGHT as int);
    row < sprite.len() && col < 8 && sprite_bit(sprite[row], col)
}

/// Whether the sprite covers the pixel at framebuffer index `k`.
pub open spec fn covers_index(x: int, y: int, sprite: Seq<u8>, k: int) -> bool {
    covers(x, y, sprite, k % (SCREEN_WIDTH as int), k / (SCREEN_WIDTH as int))
}

/// The framebuffer after XOR-drawing the sprite at `(x, y)`.
pub open spec fn draw_frame(frame: Seq<bool>, x: int, y: int, sprite: Seq<u8>) -> Seq<bool> {
    Seq::new(frame.len(), |k: int| frame[k] != covers_index(x, y, sprite, k))
}

/// Whether drawing the sprite at `(x, y)` turns some lit pixel off.
pub open spec fn collides(frame: Seq<bool>, x: int, y: int, sprite: Seq<u8>) -> bool {
    exists|k: int| 0 <= k < frame.len() && #[trigger] frame[k] && covers_index(x, y, sprite, k)
}

/// The `n` bytes from address `i` on, wrapping at the end of memory.
pub open spec fn sprite_at(memory: Seq<u8>, i: int, n: int) -> Seq<u8> {
    Seq::new(n as nat, |r: int| memory[wrap_addr(i + r)])
}

/// The lowest key at or after `k` that is down, or 16 if there is none.
pub open spec fn first_key_from(keys: Seq<bool>, k: int) -> int
    decreases 16 - k,
{
    if k >= 16 {
        16
    } else if keys[k] {
        k
    } else {
        first_key_from(keys, k + 1)
    }
}

pub open spec fn set_v(s: State, x: int, val: u8) -> State {
    State { v: s.v.update(x, val), ..s }
}

/// Writes the result to `V[x]`, then the status flag to `VF`.
pub open spec fn set_v_flag(s: State, x: int, val: int, flag: int) -> State {
    State { v: s.v.update(x, val as u8).update(15, flag as u8), ..s }
}

/// Skips the next instruction when `cond` holds.
pub open spec fn skip_if(s: State, cond: bool) -> State {
    if cond {
        State { pc: wrap_addr(s.pc + 2) as u16, ..s }
    } else {
        s
    }
}

pub open spec fn done(s: State) -> Result<(State, Progress), Fault> {
    Ok((s, Progress::Executed))
}

/// The register-to-register group `8xyN`.
pub open spec fn alu_step(s: State, op: u16) -> Result<(State, Progress), Fault> {
    let x = x_of(op) as int;
    let vx = s.v[x] as int;
    let vy = s.v[y_of(op) as int] as int;
    let n = nibble_of(op);
    if n == 0 {
        done(set_v(s, x, vy as u8))
    } else if n == 1 {
        done(set_v(s, x, (vx as u8) | (vy as u8)))
    } else if n == 2 {
        done(set_v(s, x, (vx as u8) & (vy as u8)))
    } else if n == 3 {
        done(set_v(s, x, (vx as u8) ^ (vy as u8)))
    } else if n == 4 {
        done(set_v_flag(s, x, (vx + vy) % 256, if vx + vy > 255 { 1 } else { 0 }))
    } else if n == 5 {
        done(set_v_flag(s, x, (vx - vy) % 256, if vx >= vy { 1 } else { 0 }))
    } else if n == 6 {
        done(set_v_flag(s, x, vx / 2, vx % 2))
    } else if n == 7 {
        done(set_v_flag(s, x, (vy - vx) % 256, if vy >= vx { 1 } else { 0 }))
    } else if n == 0xE {
        done(set_v_flag(s, x, (vx * 2) % 256, vx / 128))
    } else {
        Err(Fault::UnknownOpcode(op))
    }
}

/// Memory after `Fx55`: `V0..=Vx` stored from address `I` on.
pub open spec fn stored_registers(s: State, x: int) -> Seq<u8> {
    Seq::new(
        MEMORY_SIZE as nat,
        |a: int|
            if wrap_addr(a - s.i) <= x {
                s.v[wrap_addr(a - s.i)]
            } else {
                s.memory[a]
            },
    )
}

/// Registers after `Fx65`: `V0..=Vx` loaded from address `I` on.
pub open spec fn loaded_registers(s: State, x: int) -> Seq<u8> {
    Seq::new(16, |k: int| if k <= x { s.memory[wrap_addr(s.i + k)] } else { s.v[k] })
}

/// Memory after `Fx33`: hundreds, tens and units of `val` from address `I` on.
pub open spec fn stored_bcd(s: State, val: int) -> Seq<u8> {
    s.memory.update(s.i as int, (val / 100) as u8).update(
        wrap_addr(s.i + 1),
        ((val / 10) % 10) as u8,
    ).update(wrap_addr(s.i + 2), (val % 10) as u8)
}

/// The miscellaneous group `FxKK`.
pub open spec fn misc_step(s: State, op: u16) -> Result<(State, Progress), Fault> {
    let x = x_of(op) as int;
    let vx = s.v[x];
    let kk = byte_of(op);
    if kk == 0x07 {
        done(set_v(s, x, s.dt))
    } else if kk == 0x0A {
        let k = first_key_from(s.keys, 0);
        if k < 16 {
            done(set_v(s, x, k as u8))
        } else {
            Ok((s, Progress::AwaitingKey))
        }
    } else if kk == 0x15 {
        done(State { dt: vx, ..s })
    } else if kk == 0x18 {
        done(State { st: vx, ..s })
    } else if kk == 0x1E {
        done(State { i: wrap_addr(s.i + vx) as u16, ..s })
    } else if kk == 0x29 {
        done(State { i: (GLYPH_HEIGHT * (vx % 16)) as u16, ..s })
    } else if kk == 0x33 {
        done(State { memory: stored_bcd(s, vx as int), ..s })
    } else if kk == 0x55 {
        done(State { memory: stored_registers(s, x), ..s })
    } else if kk == 0x65 {
        done(State { v: loaded_registers(s, x), ..s })
    } else {
        Err(Fault::UnknownOpcode(op))
    }
}

/// The sprite instruction `Dxyn`.
pub open spec fn draw_step(s: State, op: u16) -> State {
    let x = s.v[x_of(op) as int] as int;
    let y = s.v[y_of(op) as int] as int;
    let sprite = sprite_at(s.memory, s.i as int, nibble_of(op) as int);
    State {
        frame: draw_frame(s.frame, x, y, sprite),
        v: s.v.update(15, if collides(s.frame, x, y, sprite) { 1u8 } else { 0u8 }),
        ..s
    }
}

/// What the instruction `op` does to `s`, whose program counter already
/// points past it. `rnd` is the random byte that `Cxkk` uses.
pub open spec fn step(s: State, op: u16, rnd: u8) -> Result<(State, Progress), Fault> {
    let g = group_of(op);
    let x = x_of(op) as int;
    let vx = s.v[x];
    let vy = s.v[y_of(op) as int];
    let kk = byte_of(op);
    let nnn = addr_of(op);
    if op == 0x00E0 {
        done(State { frame: Seq::new(SCREEN_PIXELS as nat, |k: int| false), ..s })
    } else if op == 0x00EE {
        if s.stack.len() == 0 {
            Err(Fault::StackUnderflow)
        } else {
            done(State { pc: wrap_addr(s.stack.last() as int) as u16, stack: s.stack.drop_last(), ..s })
        }
    } else if g == 0x0000 {
        Err(Fault::UnknownOpcode(op))
    } else if g == 0x1000 {
        done(State { pc: nnn, ..s })
    } else if g == 0x2000 {
        if s.stack.len() >= STACK_DEPTH {
            Err(Fault::StackOverflow)
        } else {
            done(State { pc: nnn, stack: s.stack.push(s.pc), ..s })
        }
    } else if g == 0x3000 {
        done(skip_if(s, vx == kk))
    } else if g == 0x4000 {
        done(skip_if(s, vx != kk))
    } else if g == 0x5000 {
        done(skip_if(s, vx == vy))
    } else if g == 0x6000 {
        done(set_v(s, x, kk as u8))
    } else if g == 0x7000 {
        done(set_v(s, x, ((vx + kk) % 256) as u8))
    } else if g == 0x8000 {
        alu_step(s, op)
    } else if g == 0x9000 {
        done(skip_if(s, vx != vy))
    } else if g == 0xA000 {
        done(State { i: nnn, ..s })
    } else if g == 0xB000 {
        done(State { pc: wrap_addr(nnn + s.v[0]) as u16, ..s })
    } else if g == 0xC000 {
        done(set_v(s, x, rnd & (kk as u8)))
    } else if g == 0xD000 {
        done(draw_step(s, op))
    } else if g == 0xE000 {
        if kk == 0x9E {
            done(skip_if(s, s.keys[vx as int % 16]))
        } else if kk == 0xA1 {
            done(skip_if(s, !s.keys[vx as int % 16]))
        } else {
            Err(Fault::UnknownOpcode(op))
        }
    } else {
        misc_step(s, op)
    }
}

/// The big-endian instruction word at the program counter.
pub open spec fn fetch(s: State) -> u16 {
    (s.memory[s.pc as int] as int * 256 + s.memory[wrap_addr(s.pc + 1)] as int) as u16
}

/// One fetch-and-execute cycle: the word at the program counter is read, the
/// counter moves past it, and the instruction runs. When it faults or waits
/// for a key, the state is left as it was before the fetch.
pub open spec fn cycle_step(s: State, rnd: u8) -> Result<(State, Progress), Fault> {
    let fetched = State { pc: wrap_addr(s.pc + 2) as u16, ..s };
    match step(fetched, fetch(s), rnd) {
        Ok((t, Progress::Executed)) => Ok((t, Progress::Executed)),
        Ok((_, Progress::AwaitingKey)) => Ok((s, Progress::AwaitingKey)),
        Err(e) => Err(e),
    }
}

/// Whether an exec call that returned `r`, taking the machine from `before`
/// to `after`, did what `expected` says: on success the new state and the
/// progress it gives, on a fault that fault and no change.
pub open spec fn agrees(
    before: State,
    after: State,
    r: Result<Progress, Fault>,
    expected: Result<(State, Progress), Fault>,
) -> bool {
    match expected {
        Ok((t, p)) => r == Ok::<Progress, Fault>(p) && after == t,
        Err(e) => r == Err::<Progress, Fault>(e) && after == before,
    }
}

} // verus!
