//! Plain values describing the machine's devices: the core number, the QEMU
//! exit device, the serial logger's port and the text buffer's size.
use vstd::prelude::*;

verus! {

/// Mask of the core number in the multiprocessor affinity register.
pub const CORE_ID_MASK: u64 = 0b11;

/// The number of the running core, given the value of the multiprocessor
/// affinity register (`MPIDR_EL1`).
pub fn core_id(mpidr: u64) -> (r: u8)
    ensures
        r == mpidr % 4,
{
    let id = mpidr & CORE_ID_MASK;
    assert(mpidr & 0b11 == mpidr % 4) by (bit_vector);
    id as u8
}

/// Exit status reported to QEMU through its debug exit device.
#[derive(Debug, Clone, Copy, PartialEq, Eq, Structural)]
pub enum QemuExitCode {
    Success,
    Failed,
}

impl QemuExitCode {
    /// The value written to the exit device.
    pub open spec fn spec_code(self) -> u32 {
        match self {
            QemuExitCode::Success => 0x10,
            QemuExitCode::Failed => 0x11,
        }
    }

    /// The value written to the exit device.
    pub fn code(self) -> (r: u32)
        ensures
            r == self.spec_code(),
    {
        match self {
            QemuExitCode::Success => 0x10,
            QemuExitCode::Failed => 0x11,
        }
    }
}

/// I/O port of the serial interface QEMU provides.
pub const QEMU_SP_ADDR: u16 = 0x03F8;

/// A logger that writes each record to the serial port at `base`.
pub struct SerialLogger {
    base: u16,
}

impl SerialLogger {
    /// The I/O port written to.
    pub closed spec fn spec_base(&self) -> u16 {
        self.base
    }

    /// A logger writing to the serial interface QEMU provides.
    pub fn new_qemu() -> (r: Self)
        ensures
            r.spec_base() == QEMU_SP_ADDR,
    {
        SerialLogger { base: QEMU_SP_ADDR }
    }

    /// The I/O port written to.
    pub fn base(&self) -> (r: u16)
        ensures
            r == self.spec_base(),
    {
        self.base
    }
}

/// Size of a text buffer in characters: `x` columns by `y` rows. It is
/// independent of the graphics mode and should not exceed it.
#[derive(Debug, Clone, Copy, PartialEq, Eq, Structural)]
pub struct BufferSize {
    pub x: usize,
    pub y: usize,
}

impl BufferSize {
    /// A buffer of `x` columns and `y` rows.
    pub fn new(x: usize, y: usize) -> (r: Self)
        ensures
            r.x == x,
            r.y == y,
    {
        BufferSize { x, y }
    }
}

} // verus!
