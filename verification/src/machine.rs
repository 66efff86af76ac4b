use vstd::prelude::*;

verus! {

use crate::state::{
    font_table, initial_state, Fault, MachineState, FONTSET_SIZE, NUM_KEYS, NUM_REGS, RAM_SIZE,
    SCREEN_HEIGHT, SCREEN_WIDTH, STACK_SIZE, START_ADDR,
};
use crate::isa::{fetch_in_bounds, fetched_word};

/// The CHIP-8 machine: register file, memory, stack, framebuffer, keypad
/// and timers. All state is fixed-size; a value of this type is one
/// independent machine instance, owned and driven by its host.
pub struct Emulator {
    pub(crate) screen_changed: bool,
    pub(crate) delay_timer: u8,
    pub(crate) sound_timer: u8,
    pub(crate) program_counter: u16,
    pub(crate) stack_pointer: usize,
    pub(crate) ireg: u16,
    pub(crate) vreg: Vec<u8>,
    pub(crate) stack: Vec<u16>,
    pub(crate) keys: Vec<bool>,
    pub(crate) ram: Vec<u8>,
    pub(crate) screen: Vec<bool>,
}

impl View for Emulator {
    type V = MachineState;

    open(crate) spec fn view(&self) -> MachineState {
        MachineState {
            screen_changed: self.screen_changed,
            delay: self.delay_timer,
            sound: self.sound_timer,
            pc: self.program_counter as int,
            sp: self.stack_pointer as int,
            ireg: self.ireg as int,
            vreg: self.vreg@,
            stack: self.stack@,
            keys: self.keys@,
            ram: self.ram@,
            screen: self.screen@,
        }
    }
}

/// Overwrites every entry of a vector with one value.
pub(crate) fn fill<T: Copy>(vec: &mut Vec<T>, val: T)
    ensures
        final(vec)@ == Seq::new(old(vec)@.len(), |i: int| val),
{
    let n = vec.len();
    let mut i: usize = 0;
    while i < n
        invariant
            n == vec@.len(),
            i <= n,
            forall|j: int| 0 <= j < i ==> vec@[j] == val,
            forall|j: int| i <= j < n ==> vec@[j] == old(vec)@[j],
        decreases n - i,
    {
        vec[i] = val;
        i += 1;
    }
    proof {
        assert(vec@ =~= Seq::new(old(vec)@.len(), |i: int| val));
    }
}

/// The font table as a vector, in glyph order.
fn font_bytes() -> (r: Vec<u8>)
    ensures
        r@ == font_table(),
{
    let v: Vec<u8> = vec![
        0xF0, 0x90, 0x90, 0x90, 0xF0, // 0
        0x20, 0x60, 0x20, 0x20, 0x70, // 1
        0xF0, 0x10, 0xF0, 0x80, 0xF0, // 2
        0xF0, 0x10, 0xF0, 0x10, 0xF0, // 3
        0x90, 0x90, 0xF0, 0x10, 0x10, // 4
        0xF0, 0x80, 0xF0, 0x10, 0xF0, // 5
        0xF0, 0x80, 0xF0, 0x90, 0xF0, // 6
        0xF0, 0x10, 0x20, 0x40, 0x40, // 7
        0xF0, 0x90, 0xF0, 0x90, 0xF0, // 8
        0xF0, 0x90, 0xF0, 0x10, 0xF0, // 9
        0xF0, 0x90, 0xF0, 0x90, 0x90, // A
        0xE0, 0x90, 0xE0, 0x90, 0xE0, // B
        0xF0, 0x80, 0x80, 0x80, 0xF0, // C
        0xE0, 0x90, 0x90, 0x90, 0xE0, // D
        0xF0, 0x80, 0xF0, 0x80, 0xF0, // E
        0xF0, 0x80, 0xF0, 0x80, 0x80, // F
    ];
    proof {
        assert(v@ =~= font_table());
    }
    v
}

/// Copies the font table into the reserved bottom of memory.
fn install_font(ram: &mut Vec<u8>)
    requires
        old(ram)@.len() == RAM_SIZE,
    ensures
        final(ram)@ == Seq::new(
            RAM_SIZE as nat,
            |i: int| if i < FONTSET_SIZE { font_table()[i] } else { old(ram)@[i] },
        ),
{
    let font = font_bytes();
    let mut i: usize = 0;
    while i < FONTSET_SIZE
        invariant
            font@ == font_table(),
            ram@.len() == RAM_SIZE,
            i <= FONTSET_SIZE,
            forall|j: int| 0 <= j < i ==> ram@[j] == font_table()[j],
            forall|j: int| i <= j < RAM_SIZE ==> ram@[j] == old(ram)@[j],
        decreases FONTSET_SIZE - i,
    {
        ram[i] = font[i];
        i += 1;
    }
    proof {
        assert(ram@ =~= Seq::new(
            RAM_SIZE as nat,
            |i: int| if i < FONTSET_SIZE { font_table()[i] } else { old(ram)@[i] },
        ));
    }
}

impl Emulator {
    /// A new machine in the construction-time state: everything zeroed, the
    /// program counter at the load address, and the font table installed.
    pub fn new() -> (r: Emulator)
        ensures
            r@ == initial_state(),
            r@.wf(),
    {
        let mut ram: Vec<u8> = vec![0u8; RAM_SIZE];
        proof {
            assert forall|i: int| 0 <= i < RAM_SIZE implies ram@[i] == 0u8 by {
                assert(cloned(0u8, ram@[i]));
            }
        }
        install_font(&mut ram);
        let vreg: Vec<u8> = vec![0u8; NUM_REGS];
        let stack: Vec<u16> = vec![0u16; STACK_SIZE];
        let keys: Vec<bool> = vec![false; NUM_KEYS];
        let screen: Vec<bool> = vec![false; SCREEN_WIDTH * SCREEN_HEIGHT];
        proof {
            assert forall|i: int| 0 <= i < NUM_REGS implies vreg@[i] == 0u8 by {
                assert(cloned(0u8, vreg@[i]));
            }
            assert forall|i: int| 0 <= i < STACK_SIZE implies stack@[i] == 0u16 by {
                assert(cloned(0u16, stack@[i]));
            }
            assert forall|i: int| 0 <= i < NUM_KEYS implies keys@[i] == false by {
                assert(cloned(false, keys@[i]));
            }
            assert forall|i: int| 0 <= i < SCREEN_WIDTH * SCREEN_HEIGHT implies screen@[i]
                == false by {
                assert(cloned(false, screen@[i]));
            }
        }
        let e = Emulator {
            screen_changed: false,
            delay_timer: 0,
            sound_timer: 0,
            program_counter: 0x200,
            stack_pointer: 0,
            ireg: 0,
            vreg,
            stack,
            keys,
            ram,
            screen,
        };
        proof {
            assert(e@.ram =~= initial_state().ram);
            assert(e@.vreg =~= initial_state().vreg);
            assert(e@.stack =~= initial_state().stack);
            assert(e@.keys =~= initial_state().keys);
            assert(e@.screen =~= initial_state().screen);
            assert(e@ =~= initial_state());
        }
        e
    }

    /// Restores the construction-time state in place: re-zeroes registers,
    /// memory, stack, keys, timers and framebuffer, and re-installs the
    /// font table.
    pub fn reset(&mut self)
        requires
            old(self)@.wf(),
        ensures
            final(self)@ == initial_state(),
            final(self)@.wf(),
    {
        self.screen_changed = false;
        self.delay_timer = 0;
        self.sound_timer = 0;
        self.program_counter = 0x200;
        self.stack_pointer = 0;
        self.ireg = 0;
        fill(&mut self.vreg, 0u8);
        fill(&mut self.stack, 0u16);
        fill(&mut self.ram, 0u8);
        fill(&mut self.keys, false);
        install_font(&mut self.ram);
        fill(&mut self.screen, false);
        proof {
            assert(self@.ram =~= initial_state().ram);
            assert(self@.vreg =~= initial_state().vreg);
            assert(self@.stack =~= initial_state().stack);
            assert(self@.keys =~= initial_state().keys);
            assert(self@.screen =~= initial_state().screen);
            assert(self@ =~= initial_state());
        }
    }

    /// A read-only view of the framebuffer, row-major: the pixel at
    /// (x, y) is entry y * 64 + x, true while lit.
    pub fn get_display(&self) -> (r: &Vec<bool>)
        ensures
            r@ == self@.screen,
    {
        &self.screen
    }

    /// Copies a program image into memory at the load address; the image
    /// must fit in the memory left above it, else nothing changes and the
    /// load reports the oversize image.
    pub fn load_data(&mut self, data: &[u8]) -> (r: Result<(), Fault>)
        requires
            old(self)@.wf(),
        ensures
            final(self)@.wf(),
            data@.len() <= RAM_SIZE - START_ADDR ==> {
                &&& r is Ok
                &&& final(self)@ == (MachineState {
                    ram: Seq::new(
                        RAM_SIZE as nat,
                        |i: int|
                            if START_ADDR <= i < START_ADDR + data@.len() {
                                data@[i - START_ADDR]
                            } else {
                                old(self)@.ram[i]
                            },
                    ),
                    ..old(self)@
                })
            },
            data@.len() > RAM_SIZE - START_ADDR ==> {
                &&& r == Err::<(), Fault>(Fault::ProgramTooLarge { len: data@.len() as usize })
                &&& final(self)@ == old(self)@
            },
    {
        if data.len() > RAM_SIZE - START_ADDR {
            return Err(Fault::ProgramTooLarge { len: data.len() });
        }
        let n = data.len();
        let mut i: usize = 0;
        while i < n
            invariant
                self@.wf(),
                n == data@.len(),
                n <= RAM_SIZE - START_ADDR,
                i <= n,
                self@ == (MachineState { ram: self@.ram, ..old(self)@ }),
                forall|j: int|
                    START_ADDR <= j < START_ADDR + i ==> self@.ram[j] == data@[j - START_ADDR],
                forall|j: int|
                    (0 <= j < START_ADDR || START_ADDR + i <= j < RAM_SIZE) ==> self@.ram[j]
                        == old(self)@.ram[j],
            decreases n - i,
        {
            self.ram[START_ADDR + i] = data[i];
            i += 1;
        }
        proof {
            assert(self@.ram =~= Seq::new(
                RAM_SIZE as nat,
                |i: int|
                    if START_ADDR <= i < START_ADDR + data@.len() {
                        data@[i - START_ADDR]
                    } else {
                        old(self)@.ram[i]
                    },
            ));
            assert(self@ =~= MachineState {
                ram: Seq::new(
                    RAM_SIZE as nat,
                    |i: int|
                        if START_ADDR <= i < START_ADDR + data@.len() {
                            data@[i - START_ADDR]
                        } else {
                            old(self)@.ram[i]
                        },
                ),
                ..old(self)@
            });
        }
        Ok(())
    }

    /// Updates one keypad slot: true while the key is held. The index
    /// range is the caller's responsibility.
    pub fn keypress(&mut self, ki: usize, is_pressed: bool)
        requires
            old(self)@.wf(),
            ki < NUM_KEYS,
        ensures
            final(self)@.wf(),
            final(self)@ == (MachineState {
                keys: old(self)@.keys.update(ki as int, is_pressed),
                ..old(self)@
            }),
    {
        self.keys[ki] = is_pressed;
    }

    /// Pushes a return address. With all slots in use, nothing changes and
    /// the push reports a stack overflow.
    pub(crate) fn push(&mut self, value: u16) -> (r: Result<(), Fault>)
        requires
            old(self)@.wf(),
        ensures
            final(self)@.wf(),
            old(self)@.sp < STACK_SIZE ==> {
                &&& r is Ok
                &&& final(self)@ == (MachineState {
                    stack: old(self)@.stack.update(old(self)@.sp, value),
                    sp: old(self)@.sp + 1,
                    ..old(self)@
                })
            },
            old(self)@.sp == STACK_SIZE ==> {
                &&& r == Err::<(), Fault>(Fault::StackOverflow)
                &&& final(self)@ == old(self)@
            },
    {
        if self.stack_pointer < STACK_SIZE {
            self.stack[self.stack_pointer] = value;
            self.stack_pointer = self.stack_pointer + 1;
            Ok(())
        } else {
            Err(Fault::StackOverflow)
        }
    }

    /// Pops the most recent return address. With no call outstanding,
    /// nothing changes and the pop reports a stack underflow.
    pub(crate) fn pop(&mut self) -> (r: Result<u16, Fault>)
        requires
            old(self)@.wf(),
        ensures
            final(self)@.wf(),
            old(self)@.sp >= 1 ==> {
                &&& r == Ok::<u16, Fault>(old(self)@.stack[old(self)@.sp - 1])
                &&& final(self)@ == (MachineState { sp: old(self)@.sp - 1, ..old(self)@ })
            },
            old(self)@.sp == 0 ==> {
                &&& r == Err::<u16, Fault>(Fault::StackUnderflow)
                &&& final(self)@ == old(self)@
            },
    {
        if self.stack_pointer >= 1 {
            self.stack_pointer = self.stack_pointer - 1;
            Ok(self.stack[self.stack_pointer])
        } else {
            Err(Fault::StackUnderflow)
        }
    }

    /// Fetches the two bytes at the program counter as a big-endian word
    /// and advances the counter by 2. A counter within 2 bytes of the end
    /// of memory cannot fetch: nothing changes and the fetch reports the
    /// address past the end.
    pub(crate) fn fetch_opcode(&mut self) -> (r: Result<u16, Fault>)
        requires
            old(self)@.wf(),
        ensures
            final(self)@.wf(),
            fetch_in_bounds(old(self)@) ==> {
                &&& r == Ok::<u16, Fault>(fetched_word(old(self)@))
                &&& final(self)@ == (MachineState { pc: old(self)@.pc + 2, ..old(self)@ })
            },
            !fetch_in_bounds(old(self)@) ==> {
                &&& r == Err::<u16, Fault>(
                    Fault::MemoryOutOfBounds { addr: (old(self)@.pc + 1) as u32 },
                )
                &&& final(self)@ == old(self)@
            },
    {
        let pc = self.program_counter as usize;
        if pc + 1 < RAM_SIZE {
            let higher_byte = self.ram[pc];
            let lower_byte = self.ram[pc + 1];
            let opcode = ((higher_byte as u16) << 8) | (lower_byte as u16);
            proof {
                assert(((higher_byte as u16) << 8) | (lower_byte as u16) == higher_byte as u16
                    * 256 + lower_byte as u16) by (bit_vector);
            }
            self.program_counter = self.program_counter + 2;
            Ok(opcode)
        } else {
            Err(Fault::MemoryOutOfBounds { addr: self.program_counter as u32 + 1 })
        }
    }

    /// One timer tick: decrements each timer that is nonzero. The host
    /// calls this at its fixed real-time rate, independent of instruction
    /// throughput; the tone is audible while the sound timer is nonzero.
    pub fn tick_timers(&mut self)
        requires
            old(self)@.wf(),
        ensures
            final(self)@.wf(),
            final(self)@ == (MachineState {
                delay: if old(self)@.delay > 0 {
                    (old(self)@.delay - 1) as u8
                } else {
                    0u8
                },
                sound: if old(self)@.sound > 0 {
                    (old(self)@.sound - 1) as u8
                } else {
                    0u8
                },
                ..old(self)@
            }),
    {
        if self.delay_timer > 0 {
            self.delay_timer = self.delay_timer - 1;
        }
        if self.sound_timer > 0 {
            self.sound_timer = self.sound_timer - 1;
        }
        proof {
            assert(self@ =~= MachineState {
                delay: if old(self)@.delay > 0 {
                    (old(self)@.delay - 1) as u8
                } else {
                    0u8
                },
                sound: if old(self)@.sound > 0 {
                    (old(self)@.sound - 1) as u8
                } else {
                    0u8
                },
                ..old(self)@
            });
        }
    }

    /// Whether the tone should sound: true while the sound timer is
    /// nonzero.
    pub fn sound_active(&self) -> (r: bool)
        ensures
            r == (self@.sound != 0),
    {
        self.sound_timer != 0
    }

    /// The value of one register.
    pub fn get_register(&self, idx: usize) -> (r: u8)
        requires
            self@.wf(),
            idx < NUM_REGS,
        ensures
            r == self@.vreg[idx as int],
    {
        self.vreg[idx]
    }

    /// The program counter.
    pub fn get_pc(&self) -> (r: u16)
        ensures
            r as int == self@.pc,
    {
        self.program_counter
    }

    /// The index register.
    pub fn get_ireg(&self) -> (r: u16)
        ensures
            r as int == self@.ireg,
    {
        self.ireg
    }

    /// The delay timer.
    pub fn get_delay_timer(&self) -> (r: u8)
        ensures
            r == self@.delay,
    {
        self.delay_timer
    }

    /// The sound timer.
    pub fn get_sound_timer(&self) -> (r: u8)
        ensures
            r == self@.sound,
    {
        self.sound_timer
    }
}

} // verus!
