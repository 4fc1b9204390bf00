//! Properties that relate several instructions or several calls, proved
//! over the abstract machine.
use crate::decode::{byte_of, group_of, lemma_operand_ranges, nibble_of, x_of, y_of};
use crate::semantics::{
    covers_index, cycle_step, draw_frame, fetch, first_key_from, misc_step, set_v, skip_if, sprite_at,
    step, wrap_addr, Fault, Progress, State,
    SCREEN_HEIGHT, SCREEN_PIXELS, SCREEN_WIDTH, STACK_DEPTH,
};
use vstd::prelude::*;

verus! {

/// Add-immediate (`7xkk`) sets `V[x]` to `(V[x] + kk) mod 256`, for every
/// register value and immediate, and leaves every other register, `VF`
/// included, and all other state alone.
pub proof fn law_add_immediate_wraps(s: State, op: u16, rnd: u8)
    requires
        s.wf(),
        group_of(op) == 0x7000,
    ensures
        match step(s, op, rnd) {
            Ok((t, p)) => {
                &&& p == Progress::Executed
                &&& t.v[x_of(op) as int] == (s.v[x_of(op) as int] + byte_of(op)) % 256
                &&& forall|j: int| 0 <= j < 16 && j != x_of(op) ==> t.v[j] == s.v[j]
                &&& t == State { v: t.v, ..s }
            },
            Err(_) => false,
        },
{
    lemma_operand_ranges(op);
}

/// After clear-screen every pixel reads as off.
pub proof fn law_clear_then_read(s: State, rnd: u8, x: int, y: int)
    requires
        s.wf(),
        0 <= x < SCREEN_WIDTH,
        0 <= y < SCREEN_HEIGHT,
    ensures
        match step(s, 0x00E0u16, rnd) {
            Ok((t, p)) => p == Progress::Executed && !t.pixel(x, y),
            Err(_) => false,
        },
{
    assert(0 <= y * 64 + x < 2048) by (nonlinear_arith)
        requires 0 <= x < 64, 0 <= y < 32;
}

/// XOR drawing is its own inverse: drawing the same sprite twice at the same
/// place gives back the framebuffer it started from.
pub proof fn law_draw_twice_restores(frame: Seq<bool>, x: int, y: int, sprite: Seq<u8>)
    ensures
        draw_frame(draw_frame(frame, x, y, sprite), x, y, sprite) == frame,
{
    assert(draw_frame(draw_frame(frame, x, y, sprite), x, y, sprite) =~= frame);
}

/// Running the same sprite instruction `Dxyn` twice in a row restores the
/// framebuffer, when neither coordinate register is `VF` (the first draw
/// overwrites `VF` with its collision flag).
pub proof fn law_draw_instruction_twice(s: State, op: u16, rnd: u8)
    requires
        s.wf(),
        group_of(op) == 0xD000,
        x_of(op) != 15,
        y_of(op) != 15,
    ensures
        match step(s, op, rnd) {
            Ok((t, _)) => match step(t, op, rnd) {
                Ok((u, _)) => u.frame == s.frame,
                Err(_) => false,
            },
            Err(_) => false,
        },
{
    lemma_operand_ranges(op);
    let x = s.v[x_of(op) as int] as int;
    let y = s.v[y_of(op) as int] as int;
    let t = match step(s, op, rnd) {
        Ok((t, _)) => t,
        Err(_) => s,
    };
    assert(t.v[x_of(op) as int] == s.v[x_of(op) as int]);
    assert(t.v[y_of(op) as int] == s.v[y_of(op) as int]);
    law_draw_twice_restores(s.frame, x, y, sprite_at(s.memory, s.i as int, nibble_of(op) as int));
}

/// The sprite instruction sets `VF` to 1 exactly when some pixel that was
/// on is off afterwards, and to 0 otherwise.
pub proof fn law_collision_flag(s: State, op: u16, rnd: u8)
    requires
        s.wf(),
        group_of(op) == 0xD000,
    ensures
        match step(s, op, rnd) {
            Ok((t, _)) => {
                &&& t.v[15] <= 1
                &&& (t.v[15] == 1 <==> exists|k: int| 0 <= k < SCREEN_PIXELS && #[trigger] s.frame[k] && !t.frame[k])
            },
            Err(_) => false,
        },
{
    lemma_operand_ranges(op);
    let t = match step(s, op, rnd) {
        Ok((t, _)) => t,
        Err(_) => s,
    };
    if t.v[15] == 1 {
        let k = choose|k: int| 0 <= k < s.frame.len() && #[trigger] s.frame[k]
            && covers_index(s.v[x_of(op) as int] as int, s.v[y_of(op) as int] as int,
                sprite_at(s.memory, s.i as int, nibble_of(op) as int), k);
        assert(s.frame[k] && !t.frame[k]);
    }
}

/// Pushing a value and then popping gives that value back and leaves the
/// stack as it was.
pub proof fn law_push_pop_round_trip(stack: Seq<u16>, val: u16)
    ensures
        stack.push(val).len() == stack.len() + 1,
        stack.push(val).last() == val,
        stack.push(val).drop_last() == stack,
{
    assert(stack.push(val).drop_last() =~= stack);
}

/// A call followed by a return comes back to the address after the call with
/// the stack as before; with the stack full the call faults instead.
pub proof fn law_call_then_return(s: State, op: u16, rnd: u8)
    requires
        s.wf(),
        group_of(op) == 0x2000,
    ensures
        s.stack.len() < STACK_DEPTH ==> match step(s, op, rnd) {
            Ok((t, _)) => match step(t, 0x00EEu16, rnd) {
                Ok((u, _)) => u.pc == s.pc && u.stack == s.stack,
                Err(_) => false,
            },
            Err(_) => false,
        },
        s.stack.len() == STACK_DEPTH ==> step(s, op, rnd) == Err::<(State, Progress), Fault>(Fault::StackOverflow),
{
    lemma_operand_ranges(op);
    law_push_pop_round_trip(s.stack, s.pc);
}

/// Over a full cycle, skip-if-equal-immediate (`3xkk`) moves the program
/// counter by 4 when `V[x] == kk` and by 2 otherwise, and changes nothing else.
#[verifier::spinoff_prover]
pub proof fn law_skip_equal_immediate(s: State, rnd: u8)
    requires
        s.wf(),
        group_of(fetch(s)) == 0x3000,
    ensures
        match cycle_step(s, rnd) {
            Ok((t, p)) => {
                &&& p == Progress::Executed
                &&& t == State { pc: t.pc, ..s }
                &&& s.v[x_of(fetch(s)) as int] == byte_of(fetch(s)) ==> t.pc == wrap_addr(s.pc + 4)
                &&& s.v[x_of(fetch(s)) as int] != byte_of(fetch(s)) ==> t.pc == wrap_addr(s.pc + 2)
            },
            Err(_) => false,
        },
{
    let op = fetch(s);
    lemma_operand_ranges(op);
    let f = State { pc: wrap_addr(s.pc + 2) as u16, ..s };
    assert(wrap_addr(f.pc + 2) == wrap_addr(s.pc + 4));
    let x = x_of(op) as int;
    let t = skip_if(f, f.v[x] == byte_of(op));
    assert(step(f, op, rnd) == Ok::<(State, Progress), Fault>((t, Progress::Executed)));
    assert(cycle_step(s, rnd) == Ok::<(State, Progress), Fault>((t, Progress::Executed)));
}

/// The lowest key down at or after `k`, as `first_key_from` finds it.
proof fn lemma_first_key(keys: Seq<bool>, k: int)
    requires
        0 <= k <= 16,
        keys.len() == 16,
    ensures
        k <= first_key_from(keys, k) <= 16,
        first_key_from(keys, k) < 16 ==> keys[first_key_from(keys, k)],
        first_key_from(keys, k) == 16 <==> forall|j: int| k <= j < 16 ==> !#[trigger] keys[j],
        forall|j: int| k <= j < first_key_from(keys, k) ==> !#[trigger] keys[j],
    decreases 16 - k,
{
    if k < 16 && !keys[k] {
        lemma_first_key(keys, k + 1);
    }
}

/// Over a full cycle, wait-for-key (`Fx0A`) with no key down changes nothing,
/// program counter included, and asks for a retry; with a key down it loads
/// the lowest such key into `V[x]` and moves on to the next instruction.
#[verifier::spinoff_prover]
pub proof fn law_key_wait(s: State, rnd: u8)
    requires
        s.wf(),
        group_of(fetch(s)) == 0xF000,
        byte_of(fetch(s)) == 0x0A,
    ensures
        (forall|j: int| 0 <= j < 16 ==> !#[trigger] s.keys[j]) ==> cycle_step(s, rnd) == Ok::<(State, Progress), Fault>((s, Progress::AwaitingKey)),
        (exists|j: int| 0 <= j < 16 && #[trigger] s.keys[j]) ==> match cycle_step(s, rnd) {
            Ok((t, p)) => {
                &&& p == Progress::Executed
                &&& s.keys[t.v[x_of(fetch(s)) as int] as int]
                &&& forall|j: int| 0 <= j < t.v[x_of(fetch(s)) as int] ==> !#[trigger] s.keys[j]
                &&& t.pc == wrap_addr(s.pc + 2)
                &&& t == State { v: t.v, pc: t.pc, ..s }
            },
            Err(_) => false,
        },
{
    let op = fetch(s);
    lemma_operand_ranges(op);
    lemma_first_key(s.keys, 0);
    let f = State { pc: wrap_addr(s.pc + 2) as u16, ..s };
    let k = first_key_from(s.keys, 0);
    assert(step(f, op, rnd) == misc_step(f, op));
    if exists|j: int| 0 <= j < 16 && #[trigger] s.keys[j] {
        assert(k < 16);
        let t = set_v(f, x_of(op) as int, k as u8);
        assert(misc_step(f, op) == Ok::<(State, Progress), Fault>((t, Progress::Executed)));
        assert(t.v[x_of(op) as int] as int == k);
    }
}

} // verus!
