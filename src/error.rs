use vstd::prelude::*;

verus! {

/// The conditions under which the machine cannot go on.
#[derive(Debug, Clone, Copy, PartialEq, Eq, Structural)]
pub enum Chip8Error {
    /// The word fetched matches no instruction; it carries the raw opcode.
    InvalidOpCode(u16),
    /// A call was made with all sixteen return slots in use.
    StackOverflow,
    /// A return was made with no call to return from.
    StackUnderflow,
    /// A fetch, or an access relative to the index register, falls outside memory.
    MemoryOutOfBounds,
    /// A program is larger than the space from the start address to the end of memory.
    RomTooLarge,
}

} // verus!
