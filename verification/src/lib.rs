//! A CHIP-8 virtual machine, verified.
//!
//! The machine has sixteen 8-bit registers, 4096 bytes of memory, a stack
//! of sixteen return addresses, two timers, sixteen keys and a screen of 64
//! by 32 pixels. Each cycle it fetches a 16-bit word at the program
//! counter, decodes it into an [`Instruction`] and executes it.
//!
//! [`model`] says what the machine is and does, as mathematics. [`Chip8`]
//! is the machine that runs; each of its functions is proved to do what the
//! model says, and none of them panics: what the machine cannot carry out
//! it refuses with a [`Fault`] and stays as it was. [`laws`] holds what
//! follows from the model for every state.
//!
//! Three choices are fixed here. A jump, a call and a return set the
//! program counter to their exact target, and the cycle does not move it
//! on after them. A call puts the address of the call itself on the stack.
//! A sprite that reaches beyond an edge of the screen comes back in at the
//! opposite edge.
//!
//! The machine reads no clock, file, keyboard or terminal. [`pacing`] turns
//! measured time into the sleep between frames and the ticks of the timers,
//! [`video`] turns the screen into text, and the keys are handed in.

pub mod fault;
pub mod instructions;
pub mod laws;
pub mod machine;
pub mod model;
pub mod opcode;
pub mod pacing;
pub mod sprite;
pub mod video;

pub use fault::Fault;
pub use instructions::Instruction;
pub use machine::Chip8;
