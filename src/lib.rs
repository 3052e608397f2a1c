use vstd::prelude::*;

pub mod chip8;
pub mod emulator;
pub mod input;
pub mod memory;
pub mod opcode;
pub mod registers;
pub mod screen;
pub mod timer;

pub use emulator::Emulator;
use chip8::Chip8;

verus! {

/// A new machine, boxed for hosts that drive any `Emulator`.
pub fn create_chip8() -> (r: Box<Chip8>)
    ensures
        r.wf(),
        r@ == Chip8::initial_state(),
{
    Box::new(Chip8::new())
}

} // verus!
