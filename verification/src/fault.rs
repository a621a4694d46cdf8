//! The conditions that stop the machine.

use vstd::prelude::*;

verus! {

/// A terminal condition. The instruction that raises one changes nothing.
#[derive(Clone, Copy, Debug, PartialEq, Eq, Structural)]
pub enum Fault {
    /// The program image could not be read by the host.
    UnreadableRom,
    /// The program image does not fit between the program start and the end of memory.
    RomTooLarge,
    /// The program counter is odd or lies outside the program region.
    ProgramCounter,
    /// A subroutine call found the call stack full.
    StackOverflow,
    /// A return found the call stack empty.
    StackUnderflow,
    /// The fetched word matches no instruction.
    UnsupportedOpcode,
    /// A sprite would be read from beyond the end of memory.
    DrawAccess,
    /// Decimal digits would be stored outside the writable region.
    BcdAccess,
    /// Registers would be stored outside the writable region.
    StoreAccess,
    /// Registers would be loaded from beyond the end of memory.
    LoadAccess,
}

/// The five families of faults.
#[derive(Clone, Copy, Debug, PartialEq, Eq, Structural)]
pub enum FaultKind {
    Load,
    ProgramCounter,
    Stack,
    UnsupportedOpcode,
    Memory,
}

impl Fault {
    pub open spec fn kind_spec(self) -> FaultKind {
        match self {
            Fault::UnreadableRom | Fault::RomTooLarge => FaultKind::Load,
            Fault::ProgramCounter => FaultKind::ProgramCounter,
            Fault::StackOverflow | Fault::StackUnderflow => FaultKind::Stack,
            Fault::UnsupportedOpcode => FaultKind::UnsupportedOpcode,
            Fault::DrawAccess | Fault::BcdAccess | Fault::StoreAccess | Fault::LoadAccess =>
                FaultKind::Memory,
        }
    }

    pub open spec fn message_spec(self) -> Seq<char> {
        match self {
            Fault::UnreadableRom => "Path to the rom is invalid!"@,
            Fault::RomTooLarge => "The rom is too large for the ram!"@,
            Fault::ProgramCounter => "Invalid program counter address!"@,
            Fault::StackOverflow => "Stack overflow on function call!"@,
            Fault::StackUnderflow => "Stack underflow on function return!"@,
            Fault::UnsupportedOpcode => "Unsupported opcode!"@,
            Fault::DrawAccess => "Invalid memory access in draw!"@,
            Fault::BcdAccess => "Invalid memory access in BCD store!"@,
            Fault::StoreAccess => "Invalid memory access in store!"@,
            Fault::LoadAccess => "Invalid memory access in load!"@,
        }
    }

    /// The family this fault belongs to.
    pub fn kind(&self) -> (kind: FaultKind)
        ensures
            kind == self.kind_spec(),
    {
        match self {
            Fault::UnreadableRom | Fault::RomTooLarge => FaultKind::Load,
            Fault::ProgramCounter => FaultKind::ProgramCounter,
            Fault::StackOverflow | Fault::StackUnderflow => FaultKind::Stack,
            Fault::UnsupportedOpcode => FaultKind::UnsupportedOpcode,
            Fault::DrawAccess | Fault::BcdAccess | Fault::StoreAccess | Fault::LoadAccess =>
                FaultKind::Memory,
        }
    }

    /// The text shown to the user for this fault.
    pub fn message(&self) -> (text: &'static str)
        ensures
            text@ == self.message_spec(),
    {
        match self {
            Fault::UnreadableRom => "Path to the rom is invalid!",
            Fault::RomTooLarge => "The rom is too large for the ram!",
            Fault::ProgramCounter => "Invalid program counter address!",
            Fault::StackOverflow => "Stack overflow on function call!",
            Fault::StackUnderflow => "Stack underflow on function return!",
            Fault::UnsupportedOpcode => "Unsupported opcode!",
            Fault::DrawAccess => "Invalid memory access in draw!",
            Fault::BcdAccess => "Invalid memory access in BCD store!",
            Fault::StoreAccess => "Invalid memory access in store!",
            Fault::LoadAccess => "Invalid memory access in load!",
        }
    }
}

} // verus!
