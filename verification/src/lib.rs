//! A verified CHIP-8 instruction execution engine.
//!
//! The machine's persistent state, the fetch/decode/execute cycle and the
//! instruction semantics live here, specified against a mathematical model
//! of the whole machine state. The host is expected to drive the engine:
//! call [`Emulator::tick`] for each instruction step, [`Emulator::tick_timers`]
//! at the timer rate, report key state through [`Emulator::keypress`], and
//! render the framebuffer returned by [`Emulator::get_display`].

pub mod exec;
pub mod isa;
pub mod laws;
pub mod machine;
mod rng;
pub mod state;

pub use machine::Emulator;

pub use state::Fault;
pub use state::MachineState;
pub use state::FLAG_REG;
pub use state::FONTSET_SIZE;
pub use state::NUM_KEYS;
pub use state::NUM_REGS;
pub use state::RAM_SIZE;
pub use state::SCREEN_HEIGHT;
pub use state::SCREEN_WIDTH;
pub use state::STACK_SIZE;
pub use state::START_ADDR;
