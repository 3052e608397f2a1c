use vstd::prelude::*;
use crate::chip8::{Fault, MAX_PROGRAM_SIZE};

verus! {

/// What a host (a window, a test driver) needs from an emulated machine.
pub trait Emulator {
    /// Whether the machine is in a state its operations accept.
    spec fn ready(&self) -> bool;

    /// The display, row by row; `true` is lit.
    fn retrieve_screen_pixels(&self) -> &[bool];

    /// (width, height) of the display.
    fn retrieve_screen_size(&self) -> (usize, usize)
        requires
            self.ready(),
    ;

    /// Runs one cycle; an error means the program is malformed and the
    /// machine should be stopped.
    fn update(&mut self) -> (r: Result<(), Fault>)
        requires
            old(self).ready(),
        ensures
            final(self).ready(),
    ;

    fn get_name(&self) -> &str;

    /// Loads a program image.
    fn load(&mut self, game_data: Vec<u8>)
        requires
            game_data@.len() <= MAX_PROGRAM_SIZE,
        ensures
            final(self).ready() == old(self).ready(),
    ;

    /// Presses every key whose bit is set in `key`.
    fn press_key(&mut self, key: u16)
        ensures
            final(self).ready() == old(self).ready(),
    ;

    /// Releases every key whose bit is set in `key`.
    fn release_key(&mut self, key: u16)
        ensures
            final(self).ready() == old(self).ready(),
    ;

    /// Whether the display changed since the last call; clears that mark.
    fn needs_redraw(&mut self) -> (r: bool)
        ensures
            final(self).ready() == old(self).ready(),
    ;
}

} // verus!
