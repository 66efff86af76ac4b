use vstd::prelude::*;

verus! {

use crate::state::{MachineState, FLAG_REG, NUM_KEYS, NUM_REGS, RAM_SIZE, STACK_SIZE};
use crate::isa::{
    call_spec, draw_collision, draw_spec, draw_toggles, fetch_in_bounds, fetched_word,
    first_held, imm_kk, lemma_first_held_skip, nib_hi, nib_x, ret_spec, step_spec,
};

/// Toggling depends only on memory and the index register: two states
/// that agree on both are toggled alike.
proof fn lemma_toggles_same(
    m1: MachineState,
    m2: MachineState,
    x0: int,
    y0: int,
    n: int,
    px: int,
    py: int,
)
    requires
        m1.ram == m2.ram,
        m1.ireg == m2.ireg,
    ensures
        draw_toggles(m1, x0, y0, n, px, py) == draw_toggles(m2, x0, y0, n, px, py),
{
    if draw_toggles(m1, x0, y0, n, px, py) {
        assert(draw_toggles(m2, x0, y0, n, px, py));
    }
    if draw_toggles(m2, x0, y0, n, px, py) {
        assert(draw_toggles(m1, x0, y0, n, px, py));
    }
}

/// Drawing the identical sprite at the identical position twice in
/// succession restores the framebuffer to its pre-draw state, because
/// each toggled pixel is inverted exactly twice; and the second draw
/// reports a collision exactly when the first draw turned some pixel on.
/// The coordinate registers must not be the flag register, which the
/// first draw overwrites.
pub proof fn lemma_draw_double_xor(m: MachineState, x: int, y: int, n: int)
    requires
        m.wf(),
        0 <= x < NUM_REGS,
        0 <= y < NUM_REGS,
        x != FLAG_REG,
        y != FLAG_REG,
        0 <= n <= 15,
        n > 0 ==> m.ireg + n <= RAM_SIZE,
    ensures
        draw_spec(m, x, y, n).1 is None,
        draw_spec(draw_spec(m, x, y, n).0, x, y, n).1 is None,
        draw_spec(draw_spec(m, x, y, n).0, x, y, n).0.screen == m.screen,
        draw_spec(draw_spec(m, x, y, n).0, x, y, n).0.vreg[FLAG_REG as int] == 1 <==> (exists|
            i: int,
        |
            0 <= i < m.screen.len() && !m.screen[i] && #[trigger] draw_spec(
                m,
                x,
                y,
                n,
            ).0.screen[i]),
{
    let x0 = m.vreg[x] as int;
    let y0 = m.vreg[y] as int;
    let m1 = draw_spec(m, x, y, n).0;
    let m2 = draw_spec(m1, x, y, n).0;
    assert(m1.vreg[x] == m.vreg[x] && m1.vreg[y] == m.vreg[y]);
    assert forall|i: int| 0 <= i < m.screen.len() implies m2.screen[i] == m.screen[i] by {
        lemma_toggles_same(m, m1, x0, y0, n, i % 64, i / 64);
    }
    assert(m2.screen =~= m.screen);

    // The second draw collides exactly where the first turned a pixel on.
    if draw_collision(m1, x0, y0, n) {
        let i = choose|i: int|
            0 <= i < m1.screen.len() && #[trigger] m1.screen[i] && draw_toggles(
                m1,
                x0,
                y0,
                n,
                i % 64,
                i / 64,
            );
        lemma_toggles_same(m, m1, x0, y0, n, i % 64, i / 64);
        assert(m1.screen[i] == (m.screen[i] ^ draw_toggles(m, x0, y0, n, i % 64, i / 64)));
        assert(!m.screen[i] && m1.screen[i]);
    }
    if exists|i: int| 0 <= i < m.screen.len() && !m.screen[i] && #[trigger] m1.screen[i] {
        let i = choose|i: int| 0 <= i < m.screen.len() && !m.screen[i] && #[trigger] m1.screen[i];
        assert(m1.screen[i] == (m.screen[i] ^ draw_toggles(m, x0, y0, n, i % 64, i / 64)));
        lemma_toggles_same(m, m1, x0, y0, n, i % 64, i / 64);
        assert(draw_collision(m1, x0, y0, n));
    }
}

/// A call followed immediately by a return restores the program counter
/// to the instruction after the call and the stack depth to its old
/// value; the only trace left is the written stack slot.
pub proof fn lemma_call_ret_round_trip(m: MachineState, nnn: int)
    requires
        m.wf(),
        m.sp < STACK_SIZE,
    ensures
        call_spec(m, nnn).1 is None,
        ret_spec(call_spec(m, nnn).0).1 is None,
        ret_spec(call_spec(m, nnn).0).0 == (MachineState {
            stack: m.stack.update(m.sp, m.pc as u16),
            ..m
        }),
{
    let m1 = call_spec(m, nnn).0;
    assert(m1.stack[m.sp] == m.pc as u16);
    assert(ret_spec(m1).0 =~= (MachineState { stack: m.stack.update(m.sp, m.pc as u16), ..m }));
}

/// What a scan from `k` finds: an index no smaller than `k`, holding a
/// held key when within range, with every key before it (from `k` on)
/// released; and it stays in range whenever some key at or above `k` is
/// held.
pub proof fn lemma_first_held_props(keys: Seq<bool>, k: int)
    requires
        0 <= k <= NUM_KEYS,
        keys.len() == NUM_KEYS,
    ensures
        k <= first_held(keys, k) <= NUM_KEYS,
        first_held(keys, k) < NUM_KEYS ==> keys[first_held(keys, k)],
        forall|j: int| k <= j < first_held(keys, k) ==> !keys[j],
        (exists|j: int| k <= j < NUM_KEYS && keys[j]) ==> first_held(keys, k) < NUM_KEYS,
    decreases NUM_KEYS - k,
{
    if k < NUM_KEYS && !keys[k] {
        lemma_first_held_props(keys, k + 1);
        if exists|j: int| k <= j < NUM_KEYS && keys[j] {
            let j = choose|j: int| k <= j < NUM_KEYS && keys[j];
            assert(j != k);
            assert(k + 1 <= j < NUM_KEYS && keys[j]);
        }
    }
}

/// Opcode family 0xF is none of the three exact words of family 0.
proof fn lemma_family_f_not_family_0(op: u16)
    requires
        op >> 12 == 0xF,
    ensures
        op != 0x0000,
        op != 0x00E0,
        op != 0x00EE,
{
    assert(op >> 12 == 0xF ==> op != 0x0000 && op != 0x00E0 && op != 0x00EE) by (bit_vector);
}

/// Blocking key read, no key held: the step does not fault and leaves
/// the machine exactly where it was, apart from clearing the changed
/// mark. The same instruction is fetched again on the next step, however
/// often the step is repeated, and the host loop is never blocked.
pub proof fn lemma_key_wait_stalls(m: MachineState, rb: u8)
    requires
        m.wf(),
        fetch_in_bounds(m),
        nib_hi(fetched_word(m)) == 0xF,
        imm_kk(fetched_word(m)) == 0x0A,
        forall|k: int| 0 <= k < NUM_KEYS ==> !m.keys[k],
    ensures
        step_spec(m, rb).1 is None,
        step_spec(m, rb).0 == (MachineState { screen_changed: false, ..m }),
{
    let op = fetched_word(m);
    lemma_family_f_not_family_0(op);
    lemma_first_held_skip(m.keys, NUM_KEYS as int);
    assert(first_held(m.keys, 0) == NUM_KEYS);
    assert(step_spec(m, rb).0 =~= (MachineState { screen_changed: false, ..m }));
}

/// Blocking key read, some key held: the step does not fault, stores the
/// lowest held index in Vx, and moves on to the next instruction.
pub proof fn lemma_key_wait_advances(m: MachineState, rb: u8)
    requires
        m.wf(),
        fetch_in_bounds(m),
        nib_hi(fetched_word(m)) == 0xF,
        imm_kk(fetched_word(m)) == 0x0A,
        exists|k: int| 0 <= k < NUM_KEYS && m.keys[k],
    ensures
        step_spec(m, rb).1 is None,
        0 <= first_held(m.keys, 0) < NUM_KEYS,
        m.keys[first_held(m.keys, 0)],
        forall|k: int| 0 <= k < first_held(m.keys, 0) ==> !m.keys[k],
        step_spec(m, rb).0 == (MachineState {
            screen_changed: false,
            pc: m.pc + 2,
            vreg: m.vreg.update(nib_x(fetched_word(m)) as int, first_held(m.keys, 0) as u8),
            ..m
        }),
{
    let op = fetched_word(m);
    lemma_family_f_not_family_0(op);
    lemma_first_held_props(m.keys, 0);
    let k = first_held(m.keys, 0);
    assert(step_spec(m, rb).0 =~= (MachineState {
        screen_changed: false,
        pc: m.pc + 2,
        vreg: m.vreg.update(nib_x(op) as int, k as u8),
        ..m
    }));
}

} // verus!
