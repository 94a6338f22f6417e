//! Interrupt vector numbering of the remapped 8259 controllers.
use vstd::prelude::*;

verus! {

/// First vector used by the primary interrupt controller after remapping.
pub const PIC_1_OFFSET: u8 = 32;

/// First vector used by the secondary interrupt controller after remapping.
pub const PIC_2_OFFSET: u8 = 40;

/// Hardware interrupts that the kernel handles, in vector order.
#[derive(Debug, Clone, Copy, PartialEq, Eq, Structural)]
pub enum InterruptIndex {
    Timer,
    Keyboard,
}

impl InterruptIndex {
    /// Vector number of the interrupt, as a spec value.
    pub open spec fn vector(self) -> u8 {
        match self {
            InterruptIndex::Timer => PIC_1_OFFSET,
            InterruptIndex::Keyboard => (PIC_1_OFFSET + 1) as u8,
        }
    }

    /// The vector number of this interrupt.
    pub fn as_u8(self) -> (r: u8)
        ensures
            r == self.vector(),
    {
        match self {
            InterruptIndex::Timer => PIC_1_OFFSET,
            InterruptIndex::Keyboard => PIC_1_OFFSET + 1,
        }
    }

    /// The vector number of this interrupt, as an index into a table.
    pub fn as_usize(self) -> (r: usize)
        ensures
            r == self.vector() as usize,
    {
        self.as_u8() as usize
    }
}

} // verus!
