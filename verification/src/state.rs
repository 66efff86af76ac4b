use vstd::prelude::*;

verus! {

/// Width of the monochrome framebuffer, in pixels.
pub const SCREEN_WIDTH: usize = 64;

/// Height of the monochrome framebuffer, in pixels.
pub const SCREEN_HEIGHT: usize = 32;

/// Number of addressable 8-bit memory cells.
pub const RAM_SIZE: usize = 4096;

/// Number of general-purpose registers V0 through VF.
pub const NUM_REGS: usize = 16;

/// Depth of the call stack.
pub const STACK_SIZE: usize = 16;

/// Number of keys on the keypad.
pub const NUM_KEYS: usize = 16;

/// Number of bytes in the built-in font table: 16 glyphs of 5 bytes each.
pub const FONTSET_SIZE: usize = 80;

/// Address at which a program image is loaded and at which execution starts.
pub const START_ADDR: usize = 0x200;

/// Index of the flag register VF, the carry/borrow/collision output of
/// several instructions.
pub const FLAG_REG: usize = 0xF;

/// A fatal condition met while executing an instruction or loading a
/// program. The machine makes no attempt at recovery: the host is expected
/// to discard the session, using the carried context for diagnostics.
#[derive(Clone, Copy, Debug, PartialEq, Eq, Structural)]
pub enum Fault {
    /// The fetched word matches no defined instruction pattern.
    UnimplementedOpcode { opcode: u16, d1: u8, d2: u8, d3: u8, d4: u8 },
    /// A call was executed with all stack slots in use.
    StackOverflow,
    /// A return was executed with no call outstanding.
    StackUnderflow,
    /// The program counter or an I-relative access reached past the end of
    /// memory; `addr` is the first address that the access needed and
    /// memory lacks.
    MemoryOutOfBounds { addr: u32 },
    /// A key-state skip consulted a register holding a value outside the
    /// keypad's index range.
    KeyOutOfRange { value: u8 },
    /// A program image was longer than the memory left after the load
    /// address.
    ProgramTooLarge { len: usize },
}

/// The mathematical model of the whole machine state: what every contract
/// of the library speaks of. `Emulator` views to this type.
#[verifier::ext_equal]
pub ghost struct MachineState {
    /// Whether the last instruction step touched the framebuffer.
    pub screen_changed: bool,
    /// Delay timer, decremented once per timer tick while nonzero.
    pub delay: u8,
    /// Sound timer; a nonzero value signals that the tone should sound.
    pub sound: u8,
    /// Program counter.
    pub pc: int,
    /// Number of stack slots in use.
    pub sp: int,
    /// Index register I, the base pointer of memory-relative instructions.
    pub ireg: int,
    /// The sixteen registers V0 through VF.
    pub vreg: Seq<u8>,
    /// Return addresses of the calls still outstanding: the ones below `sp`.
    pub stack: Seq<u16>,
    /// Keypad state, true while a key is held.
    pub keys: Seq<bool>,
    /// The 4096 memory cells.
    pub ram: Seq<u8>,
    /// The framebuffer, row-major: the pixel at (x, y) is entry y * 64 + x.
    pub screen: Seq<bool>,
}

impl MachineState {
    /// Well-formedness: the fixed sizes of the state, and the ranges of the
    /// scalar fields. Constructors establish it and every step preserves it.
    pub open spec fn wf(self) -> bool {
        &&& self.vreg.len() == NUM_REGS
        &&& self.stack.len() == STACK_SIZE
        &&& self.keys.len() == NUM_KEYS
        &&& self.ram.len() == RAM_SIZE
        &&& self.screen.len() == SCREEN_WIDTH * SCREEN_HEIGHT
        &&& 0 <= self.sp <= STACK_SIZE
        &&& 0 <= self.pc < 0x10000
        &&& 0 <= self.ireg < 0x10000
    }
}

/// The 80 bytes of the font table: one 8x5 sprite per hexadecimal digit,
/// installed at address 0 on construction and reset. The glyph for digit
/// `d` starts at address `d * 5`.
pub open spec fn font_table() -> Seq<u8> {
    seq![
        0xF0u8, 0x90, 0x90, 0x90, 0xF0, // 0
        0x20, 0x60, 0x20, 0x20, 0x70, // 1
        0xF0, 0x10, 0xF0, 0x80, 0xF0, // 2
        0xF0, 0x10, 0xF0, 0x10, 0xF0, // 3
        0x90, 0x90, 0xF0, 0x10, 0x10, // 4
        0xF0, 0x80, 0xF0, 0x10, 0xF0, // 5
        0xF0, 0x80, 0xF0, 0x90, 0xF0, // 6
        0xF0, 0x10, 0x20, 0x40, 0x40, // 7
        0xF0, 0x90, 0xF0, 0x90, 0xF0, // 8
        0xF0, 0x90, 0xF0, 0x10, 0xF0, // 9
        0xF0, 0x90, 0xF0, 0x90, 0x90, // A
        0xE0, 0x90, 0xE0, 0x90, 0xE0, // B
        0xF0, 0x80, 0x80, 0x80, 0xF0, // C
        0xE0, 0x90, 0x90, 0x90, 0xE0, // D
        0xF0, 0x80, 0xF0, 0x80, 0xF0, // E
        0xF0, 0x80, 0xF0, 0x80, 0x80, // F
    ]
}

/// The construction-time state: everything zeroed, the program counter at
/// the load address, and the font table installed at the bottom of memory.
/// `reset` restores exactly this state.
pub open spec fn initial_state() -> MachineState {
    MachineState {
        screen_changed: false,
        delay: 0,
        sound: 0,
        pc: START_ADDR as int,
        sp: 0,
        ireg: 0,
        vreg: Seq::new(NUM_REGS as nat, |i: int| 0u8),
        stack: Seq::new(STACK_SIZE as nat, |i: int| 0u16),
        keys: Seq::new(NUM_KEYS as nat, |i: int| false),
        ram: Seq::new(
            RAM_SIZE as nat,
            |i: int| if i < FONTSET_SIZE { font_table()[i] } else { 0u8 },
        ),
        screen: Seq::new((SCREEN_WIDTH * SCREEN_HEIGHT) as nat, |i: int| false),
    }
}

} // verus!
