use vstd::prelude::*;

verus! {

use crate::state::{Fault, MachineState, FLAG_REG, NUM_KEYS, RAM_SIZE, STACK_SIZE};

// ===== Instruction word decoding =====
//
// Dispatch is purely a function of the four nibbles of the fetched word,
// with wildcards on the nibbles a family does not inspect. The three
// composite operand forms are `nnn` (low 12 bits), `kk` (low 8 bits), and
// the register indices `x` (second nibble) and `y` (third nibble).

/// Highest nibble: selects the opcode family.
pub open spec fn nib_hi(op: u16) -> u16 {
    op >> 12
}

/// Second nibble: the register index x.
pub open spec fn nib_x(op: u16) -> u16 {
    (op >> 8) & 0xF
}

/// Third nibble: the register index y.
pub open spec fn nib_y(op: u16) -> u16 {
    (op >> 4) & 0xF
}

/// Lowest nibble: the sprite height n, or a family discriminator.
pub open spec fn nib_lo(op: u16) -> u16 {
    op & 0xF
}

/// Low 12 bits: an address or literal.
pub open spec fn addr_nnn(op: u16) -> u16 {
    op & 0xFFF
}

/// Low 8 bits: a byte literal.
pub open spec fn imm_kk(op: u16) -> u8 {
    (op & 0xFF) as u8
}

/// The ranges of the decoded fields.
pub proof fn lemma_decode_bounds(op: u16)
    ensures
        nib_hi(op) < 16,
        nib_x(op) < 16,
        nib_y(op) < 16,
        nib_lo(op) < 16,
        addr_nnn(op) < 0x1000,
        (op & 0xFF) < 0x100,
{
    assert((op >> 12) < 16 && ((op >> 8) & 0xF) < 16 && ((op >> 4) & 0xF) < 16 && (op & 0xF) < 16
        && (op & 0xFFF) < 0x1000 && (op & 0xFF) < 0x100) by (bit_vector);
}

// ===== Single-field updates of the machine state =====

impl MachineState {
    /// The state with register `i` set to `v`.
    pub open spec fn with_v(self, i: int, v: u8) -> MachineState {
        MachineState { vreg: self.vreg.update(i, v), ..self }
    }

    /// The state with the program counter set to `pc`.
    pub open spec fn with_pc(self, pc: int) -> MachineState {
        MachineState { pc, ..self }
    }

    /// The state with the index register set to `ireg`.
    pub open spec fn with_ireg(self, ireg: int) -> MachineState {
        MachineState { ireg, ..self }
    }
}

// ===== Per-instruction transitions =====

/// Clear-screen: every pixel off; the framebuffer counts as changed.
pub open spec fn cls_spec(m: MachineState) -> MachineState {
    MachineState {
        screen: Seq::new(m.screen.len(), |i: int| false),
        screen_changed: true,
        ..m
    }
}

/// Return: pop the stack into the program counter. A return with no call
/// outstanding is a stack underflow.
pub open spec fn ret_spec(m: MachineState) -> (MachineState, Option<Fault>) {
    if m.sp >= 1 {
        (MachineState { pc: m.stack[m.sp - 1] as int, sp: m.sp - 1, ..m }, None)
    } else {
        (m, Some(Fault::StackUnderflow))
    }
}

/// Call: push the current program counter (which already points at the
/// instruction after the call) and jump to `nnn`. A call with all slots in
/// use is a stack overflow.
pub open spec fn call_spec(m: MachineState, nnn: int) -> (MachineState, Option<Fault>) {
    if m.sp < STACK_SIZE {
        (
            MachineState {
                stack: m.stack.update(m.sp, m.pc as u16),
                sp: m.sp + 1,
                pc: nnn,
                ..m
            },
            None,
        )
    } else {
        (m, Some(Fault::StackOverflow))
    }
}

/// Conditional skip: advance the program counter by one instruction when
/// the condition holds.
pub open spec fn skip_spec(m: MachineState, cond: bool) -> MachineState {
    if cond {
        m.with_pc(m.pc + 2)
    } else {
        m
    }
}

/// Flagged add: Vx takes the wrapped sum, then VF takes 1 exactly when the
/// unsigned sum exceeds 255.
pub open spec fn add_spec(m: MachineState, x: int, y: int) -> MachineState {
    let s = m.vreg[x] + m.vreg[y];
    m.with_v(x, (s % 256) as u8).with_v(FLAG_REG as int, if s > 255 { 1u8 } else { 0u8 })
}

/// Flagged subtract: Vx takes the wrapped difference Vx - Vy, then VF takes
/// 1 exactly when there was no borrow (Vx >= Vy).
pub open spec fn sub_spec(m: MachineState, x: int, y: int) -> MachineState {
    let d = m.vreg[x] - m.vreg[y];
    m.with_v(x, ((d + 256) % 256) as u8).with_v(
        FLAG_REG as int,
        if m.vreg[x] >= m.vreg[y] { 1u8 } else { 0u8 },
    )
}

/// Reverse subtract: Vx takes the wrapped difference Vy - Vx, then VF takes
/// 1 exactly when there was no borrow (Vy >= Vx).
pub open spec fn subn_spec(m: MachineState, x: int, y: int) -> MachineState {
    let d = m.vreg[y] - m.vreg[x];
    m.with_v(x, ((d + 256) % 256) as u8).with_v(
        FLAG_REG as int,
        if m.vreg[y] >= m.vreg[x] { 1u8 } else { 0u8 },
    )
}

/// Right shift of Vx in place: VF first takes the bit shifted out (the
/// pre-shift low bit), then Vx is halved. When x is VF itself, the shift
/// reads the freshly written flag, as the flag write comes first.
pub open spec fn shr_spec(m: MachineState, x: int) -> MachineState {
    let m1 = m.with_v(FLAG_REG as int, m.vreg[x] & 1);
    m1.with_v(x, m1.vreg[x] >> 1)
}

/// Left shift of Vx in place: VF first takes the bit shifted out (the
/// pre-shift high bit), then Vx is doubled modulo 256. When x is VF itself,
/// the shift reads the freshly written flag, as the flag write comes first.
pub open spec fn shl_spec(m: MachineState, x: int) -> MachineState {
    let m1 = m.with_v(FLAG_REG as int, (m.vreg[x] >> 7) & 1);
    m1.with_v(x, m1.vreg[x] << 1)
}

/// The lowest held key index, scanning from `k` upward; `NUM_KEYS` when no
/// key at index `k` or above is held.
pub open spec fn first_held(keys: Seq<bool>, k: int) -> int
    decreases NUM_KEYS - k,
{
    if k < 0 || k >= NUM_KEYS {
        NUM_KEYS as int
    } else if keys[k] {
        k
    } else {
        first_held(keys, k + 1)
    }
}

/// A scan that has passed only released keys has skipped nothing: the
/// lowest held index from 0 equals the lowest held index from `k`.
pub proof fn lemma_first_held_skip(keys: Seq<bool>, k: int)
    requires
        0 <= k <= NUM_KEYS,
        forall|j: int| 0 <= j < k ==> !keys[j],
    ensures
        first_held(keys, 0) == first_held(keys, k),
    decreases k,
{
    if k > 0 {
        lemma_first_held_skip(keys, k - 1);
    }
}

/// Blocking key read: if some key is held, Vx takes the lowest held index
/// and execution proceeds; otherwise the program counter rewinds by one
/// instruction, so the same instruction is fetched again on the next step.
pub open spec fn wait_key_spec(m: MachineState, x: int) -> MachineState {
    let k = first_held(m.keys, 0);
    if k < NUM_KEYS {
        m.with_v(x, k as u8)
    } else {
        m.with_pc(m.pc - 2)
    }
}

/// Key-state skip: skip when the key indexed by Vx is held (`want_held`
/// true) or released (`want_held` false). A register value outside the
/// keypad's index range is a fatal bounds violation.
pub open spec fn key_skip_spec(m: MachineState, x: int, want_held: bool) -> (
    MachineState,
    Option<Fault>,
) {
    let vx = m.vreg[x];
    if vx >= NUM_KEYS {
        (m, Some(Fault::KeyOutOfRange { value: vx }))
    } else {
        (skip_spec(m, m.keys[vx as int] == want_held), None)
    }
}

/// Decimal decomposition: the hundreds, tens and ones digits of Vx, stored
/// at I, I+1 and I+2 by exact integer division.
pub open spec fn bcd_spec(m: MachineState, x: int) -> (MachineState, Option<Fault>) {
    if m.ireg + 2 < RAM_SIZE {
        let v = m.vreg[x] as int;
        (
            MachineState {
                ram: m.ram.update(m.ireg, (v / 100) as u8).update(
                    m.ireg + 1,
                    ((v / 10) % 10) as u8,
                ).update(m.ireg + 2, (v % 10) as u8),
                ..m
            },
            None,
        )
    } else {
        (m, Some(Fault::MemoryOutOfBounds { addr: (m.ireg + 2) as u32 }))
    }
}

/// Bulk store: V0 through Vx (inclusive) written to memory at I onward.
pub open spec fn store_regs_spec(m: MachineState, x: int) -> (MachineState, Option<Fault>) {
    if m.ireg + x < RAM_SIZE {
        (
            MachineState {
                ram: Seq::new(
                    m.ram.len(),
                    |i: int|
                        if m.ireg <= i <= m.ireg + x {
                            m.vreg[i - m.ireg]
                        } else {
                            m.ram[i]
                        },
                ),
                ..m
            },
            None,
        )
    } else {
        (m, Some(Fault::MemoryOutOfBounds { addr: (m.ireg + x) as u32 }))
    }
}

/// Bulk load: V0 through Vx (inclusive) read from memory at I onward.
pub open spec fn load_regs_spec(m: MachineState, x: int) -> (MachineState, Option<Fault>) {
    if m.ireg + x < RAM_SIZE {
        (
            MachineState {
                vreg: Seq::new(
                    m.vreg.len(),
                    |i: int|
                        if 0 <= i <= x {
                            m.ram[m.ireg + i]
                        } else {
                            m.vreg[i]
                        },
                ),
                ..m
            },
            None,
        )
    } else {
        (m, Some(Fault::MemoryOutOfBounds { addr: (m.ireg + x) as u32 }))
    }
}

// ===== Sprite drawing =====

/// Whether bit `bit` of a sprite row byte is set, counting the most
/// significant bit as bit 0, the leftmost pixel of the row.
pub open spec fn sprite_row_bit(b: u8, bit: int) -> bool {
    b & (0x80u8 >> (bit as usize)) != 0
}

/// Whether drawing an n-row sprite from memory at I, at screen position
/// (x0, y0), toggles the pixel at column `px`, row `py`. Coordinates wrap
/// independently per axis: column modulo 64, row modulo 32.
pub open spec fn draw_toggles(
    m: MachineState,
    x0: int,
    y0: int,
    n: int,
    px: int,
    py: int,
) -> bool {
    exists|row: int, bit: int|
        0 <= row < n && 0 <= bit < 8 && py == (y0 + row) % 32 && px == (x0 + bit) % 64
            && #[trigger] sprite_row_bit(m.ram[m.ireg + row], bit)
}

/// The framebuffer after the draw: each toggled pixel inverted (XOR), the
/// rest untouched. Entry i holds the pixel at column i % 64, row i / 64.
pub open spec fn draw_screen(m: MachineState, x0: int, y0: int, n: int) -> Seq<bool> {
    Seq::new(m.screen.len(), |i: int| m.screen[i] ^ draw_toggles(m, x0, y0, n, i % 64, i / 64))
}

/// Whether any toggle turned an already-on pixel off: the collision
/// condition that the draw reports in VF.
pub open spec fn draw_collision(m: MachineState, x0: int, y0: int, n: int) -> bool {
    exists|i: int|
        0 <= i < m.screen.len() && #[trigger] m.screen[i] && draw_toggles(
            m,
            x0,
            y0,
            n,
            i % 64,
            i / 64,
        )
}

/// Draw: read the n sprite rows at I, XOR them onto the framebuffer at
/// (Vx, Vy) with per-axis wraparound, and set VF to 1 exactly when a
/// collision occurred. The framebuffer counts as changed even when no
/// pixel actually toggled. Reading past the end of memory is fatal.
pub open spec fn draw_spec(m: MachineState, x: int, y: int, n: int) -> (
    MachineState,
    Option<Fault>,
) {
    if n > 0 && m.ireg + n > RAM_SIZE {
        (m, Some(Fault::MemoryOutOfBounds { addr: (m.ireg + n - 1) as u32 }))
    } else {
        let x0 = m.vreg[x] as int;
        let y0 = m.vreg[y] as int;
        (
            MachineState {
                screen: draw_screen(m, x0, y0, n),
                vreg: m.vreg.update(
                    FLAG_REG as int,
                    if draw_collision(m, x0, y0, n) { 1u8 } else { 0u8 },
                ),
                screen_changed: true,
                ..m
            },
            None,
        )
    }
}

// ===== Execute and step =====

/// The transition of one decoded instruction on a state whose program
/// counter has already been advanced past it. `rb` is the byte that the
/// random source produced, read only by the CXKK instruction. The second
/// component is the fatal fault, if any; a faulting instruction leaves the
/// state as it found it.
pub open spec fn exec_spec(m: MachineState, op: u16, rb: u8) -> (MachineState, Option<Fault>) {
    let x = nib_x(op) as int;
    let y = nib_y(op) as int;
    let n = nib_lo(op) as int;
    let kk = imm_kk(op);
    let nnn = addr_nnn(op) as int;
    if op == 0x0000 {
        (m, None)
    } else if op == 0x00E0 {
        (cls_spec(m), None)
    } else if op == 0x00EE {
        ret_spec(m)
    } else if nib_hi(op) == 0x1 {
        (m.with_pc(nnn), None)
    } else if nib_hi(op) == 0x2 {
        call_spec(m, nnn)
    } else if nib_hi(op) == 0x3 {
        (skip_spec(m, m.vreg[x] == kk), None)
    } else if nib_hi(op) == 0x4 {
        (skip_spec(m, m.vreg[x] != kk), None)
    } else if nib_hi(op) == 0x5 && nib_lo(op) == 0x0 {
        (skip_spec(m, m.vreg[x] == m.vreg[y]), None)
    } else if nib_hi(op) == 0x6 {
        (m.with_v(x, kk), None)
    } else if nib_hi(op) == 0x7 {
        (m.with_v(x, ((m.vreg[x] + kk) % 256) as u8), None)
    } else if nib_hi(op) == 0x8 && nib_lo(op) == 0x0 {
        (m.with_v(x, m.vreg[y]), None)
    } else if nib_hi(op) == 0x8 && nib_lo(op) == 0x1 {
        (m.with_v(x, m.vreg[x] | m.vreg[y]), None)
    } else if nib_hi(op) == 0x8 && nib_lo(op) == 0x2 {
        (m.with_v(x, m.vreg[x] & m.vreg[y]), None)
    } else if nib_hi(op) == 0x8 && nib_lo(op) == 0x3 {
        (m.with_v(x, m.vreg[x] ^ m.vreg[y]), None)
    } else if nib_hi(op) == 0x8 && nib_lo(op) == 0x4 {
        (add_spec(m, x, y), None)
    } else if nib_hi(op) == 0x8 && nib_lo(op) == 0x5 {
        (sub_spec(m, x, y), None)
    } else if nib_hi(op) == 0x8 && nib_lo(op) == 0x6 {
        (shr_spec(m, x), None)
    } else if nib_hi(op) == 0x8 && nib_lo(op) == 0x7 {
        (subn_spec(m, x, y), None)
    } else if nib_hi(op) == 0x8 && nib_lo(op) == 0xE {
        (shl_spec(m, x), None)
    } else if nib_hi(op) == 0x9 && nib_lo(op) == 0x0 {
        (skip_spec(m, m.vreg[x] != m.vreg[y]), None)
    } else if nib_hi(op) == 0xA {
        (m.with_ireg(nnn), None)
    } else if nib_hi(op) == 0xB {
        (m.with_pc(m.vreg[0] + nnn), None)
    } else if nib_hi(op) == 0xC {
        (m.with_v(x, rb & kk), None)
    } else if nib_hi(op) == 0xD {
        draw_spec(m, x, y, n)
    } else if nib_hi(op) == 0xE && imm_kk(op) == 0x9E {
        key_skip_spec(m, x, true)
    } else if nib_hi(op) == 0xE && imm_kk(op) == 0xA1 {
        key_skip_spec(m, x, false)
    } else if nib_hi(op) == 0xF && imm_kk(op) == 0x07 {
        (m.with_v(x, m.delay), None)
    } else if nib_hi(op) == 0xF && imm_kk(op) == 0x0A {
        (wait_key_spec(m, x), None)
    } else if nib_hi(op) == 0xF && imm_kk(op) == 0x15 {
        (MachineState { delay: m.vreg[x], ..m }, None)
    } else if nib_hi(op) == 0xF && imm_kk(op) == 0x18 {
        (MachineState { sound: m.vreg[x], ..m }, None)
    } else if nib_hi(op) == 0xF && imm_kk(op) == 0x1E {
        (m.with_ireg((m.ireg + m.vreg[x]) % 0x10000), None)
    } else if nib_hi(op) == 0xF && imm_kk(op) == 0x29 {
        (m.with_ireg(m.vreg[x] * 5), None)
    } else if nib_hi(op) == 0xF && imm_kk(op) == 0x33 {
        bcd_spec(m, x)
    } else if nib_hi(op) == 0xF && imm_kk(op) == 0x55 {
        store_regs_spec(m, x)
    } else if nib_hi(op) == 0xF && imm_kk(op) == 0x65 {
        load_regs_spec(m, x)
    } else {
        (
            m,
            Some(
                Fault::UnimplementedOpcode {
                    opcode: op,
                    d1: nib_hi(op) as u8,
                    d2: nib_x(op) as u8,
                    d3: nib_y(op) as u8,
                    d4: nib_lo(op) as u8,
                },
            ),
        )
    }
}

/// Whether the word at the program counter can be fetched: both of its
/// bytes lie inside memory.
pub open spec fn fetch_in_bounds(m: MachineState) -> bool {
    m.pc + 1 < RAM_SIZE
}

/// The big-endian 16-bit word at the program counter.
pub open spec fn fetched_word(m: MachineState) -> u16 {
    (m.ram[m.pc] * 256 + m.ram[m.pc + 1]) as u16
}

/// One full fetch/decode/execute cycle: clear the changed mark, fetch the
/// word at the program counter (a fatal fault if it reaches past memory),
/// advance the counter by 2, and execute.
pub open spec fn step_spec(m: MachineState, rb: u8) -> (MachineState, Option<Fault>) {
    let m0 = MachineState { screen_changed: false, ..m };
    if !fetch_in_bounds(m) {
        (m0, Some(Fault::MemoryOutOfBounds { addr: (m.pc + 1) as u32 }))
    } else {
        exec_spec(MachineState { pc: m.pc + 2, ..m0 }, fetched_word(m), rb)
    }
}

/// Whether the instruction about to be stepped consults the random source:
/// only then may two steps from the same state differ.
pub open spec fn step_is_random(m: MachineState) -> bool {
    fetch_in_bounds(m) && nib_hi(fetched_word(m)) == 0xC
}

/// Whether an execution result reports exactly the given fault, or clean
/// success when there is none.
pub open spec fn res_agrees(r: Result<(), Fault>, f: Option<Fault>) -> bool {
    match r {
        Ok(()) => f is None,
        Err(e) => f == Some(e),
    }
}

/// The observable outcome of executing one decoded word: the state moved
/// to `post` and the result reports the fault of the transition, under
/// random byte `rb`.
pub open spec fn exec_obs(
    pre: MachineState,
    op: u16,
    post: MachineState,
    r: Result<(), Fault>,
    rb: u8,
) -> bool {
    post == exec_spec(pre, op, rb).0 && res_agrees(r, exec_spec(pre, op, rb).1)
}

/// The observable outcome of one step: the state moved to `post` and the
/// result reports the fault of the transition, under random byte `rb`.
pub open spec fn step_obs(
    pre: MachineState,
    post: MachineState,
    r: Result<(), Fault>,
    rb: u8,
) -> bool {
    post == step_spec(pre, rb).0 && res_agrees(r, step_spec(pre, rb).1)
}

/// Every instruction but CXKK ignores the random source: stepping any
/// other instruction from the same state gives the same outcome whatever
/// byte the source produced.
pub proof fn lemma_step_deterministic(m: MachineState, r1: u8, r2: u8)
    requires
        !step_is_random(m),
    ensures
        step_spec(m, r1) == step_spec(m, r2),
{
}

} // verus!
