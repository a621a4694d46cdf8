//! The mathematical model of the machine: its state as sequences and
//! integers, and the effect of each instruction and of a whole frame on it.

use vstd::prelude::*;
use crate::fault::Fault;
use crate::instruction::{decode_spec, Instruction};
use crate::display::{blank, collides, drawn, FRAME_BUFFER_CELLS};
use crate::stack::STACK_SIZE;
use crate::timing::{carried_clock, cycles_in_frame, scheduled_samples};

verus! {

/// Bytes of addressable memory: 4096 less a reserved tail of 0x160.
pub const MEMORY_SIZE: usize = 0xEA0;

/// The address where programs are loaded and below which they may not write.
pub const PROGRAM_START: u16 = 0x200;

/// The number of glyph bytes at the bottom of memory.
pub const FONT_SIZE: usize = 80;

/// The register that receives carry, borrow and collision flags.
pub const FLAGS_REGISTER: usize = 0xF;

/// Glyphs for the sixteen hexadecimal digits, five rows each.
pub const FONTS: [u8; FONT_SIZE] = [
    0xF0, 0x90, 0x90, 0x90, 0xF0,
    0x20, 0x60, 0x20, 0x20, 0x70,
    0xF0, 0x10, 0xF0, 0x80, 0xF0,
    0xF0, 0x10, 0xF0, 0x10, 0xF0,
    0x90, 0x90, 0xF0, 0x10, 0x10,
    0xF0, 0x80, 0xF0, 0x10, 0xF0,
    0xF0, 0x80, 0xF0, 0x90, 0xF0,
    0xF0, 0x10, 0x20, 0x40, 0x40,
    0xF0, 0x90, 0xF0, 0x90, 0xF0,
    0xF0, 0x90, 0xF0, 0x10, 0xF0,
    0xF0, 0x90, 0xF0, 0x90, 0x90,
    0xE0, 0x90, 0xE0, 0x90, 0xE0,
    0xF0, 0x80, 0x80, 0x80, 0xF0,
    0xE0, 0x90, 0x90, 0x90, 0xE0,
    0xF0, 0x80, 0xF0, 0x80, 0xF0,
    0xF0, 0x80, 0xF0, 0x80, 0x80,
];

/// The whole state of the machine.
pub struct Machine {
    /// `MEMORY_SIZE` bytes.
    pub memory: Seq<u8>,
    /// `V0..VF`.
    pub registers: Seq<u8>,
    /// `I`.
    pub index: u16,
    /// `PC`.
    pub pc: u16,
    /// The return addresses, oldest first; its length is the stack pointer.
    pub stack: Seq<u16>,
    pub delay_timer: u8,
    pub sound_timer: u8,
    /// Audio samples left to play, as last scheduled by the sound timer.
    pub remaining_samples: Option<i32>,
    /// The pixels, row by row, `true` where lit.
    pub display: Seq<bool>,
    /// For each key, whether it is down.
    pub keys: Seq<bool>,
    /// For each key, whether it was released and the release not yet consumed.
    pub released: Seq<bool>,
    /// Instructions per second.
    pub clock_hz: u32,
    /// Sixtieths of a cycle carried over from earlier frames.
    pub clock_buffer: u32,
    /// Whether a draw ends the frame's execution.
    pub draw_sync: bool,
}

/// What one fetch-decode-execute pass comes to.
pub enum Step {
    /// The instruction ran; the frame goes on from the new state.
    Continue(Machine),
    /// Execution stops for this frame in the given state.
    Suspend(Machine),
    /// The instruction faulted and changed nothing.
    Halt(Fault),
}

/// Where a frame stands after some of its passes.
pub enum Progress {
    /// Every pass so far ran; the next one starts from this state.
    Running(Machine),
    /// An instruction suspended the frame in this state.
    Suspended(Machine),
    /// An instruction faulted in this state.
    Faulted(Machine, Fault),
}

impl Machine {
    /// Every part has its size, and less than a whole cycle is carried over.
    pub open spec fn wf(self) -> bool {
        &&& self.memory.len() == MEMORY_SIZE
        &&& self.registers.len() == 16
        &&& self.stack.len() <= STACK_SIZE
        &&& self.display.len() == FRAME_BUFFER_CELLS
        &&& self.keys.len() == 16
        &&& self.released.len() == 16
        &&& self.clock_buffer < 60
    }

    /// The program counter is even and inside the program region.
    pub open spec fn pc_valid(self) -> bool {
        PROGRAM_START <= self.pc < MEMORY_SIZE && self.pc % 2 == 0
    }

    /// The register `Vx`.
    pub open spec fn v(self, x: u8) -> u8 {
        self.registers[x as int]
    }

    /// `Vx` takes `value`.
    pub open spec fn with_register(self, x: u8, value: u8) -> Machine {
        Machine { registers: self.registers.update(x as int, value), ..self }
    }

    /// `Vx` takes `value`, then the flag register takes `flag`.
    pub open spec fn with_result(self, x: u8, value: u8, flag: u8) -> Machine {
        Machine {
            registers: self.registers.update(x as int, value).update(FLAGS_REGISTER as int, flag),
            ..self
        }
    }

    /// The program counter takes `pc`.
    pub open spec fn with_pc(self, pc: u16) -> Machine {
        Machine { pc, ..self }
    }

    /// `I` takes `index`.
    pub open spec fn with_index(self, index: u16) -> Machine {
        Machine { index, ..self }
    }

    /// The program counter moves to the next instruction.
    pub open spec fn advance(self) -> Machine {
        self.with_pc((self.pc + 2) as u16)
    }

    /// The program counter moves past the next instruction if `condition` holds.
    pub open spec fn skip_if(self, condition: bool) -> Machine {
        self.with_pc((self.pc + if condition { 4int } else { 2int }) as u16)
    }

    /// The instruction at the program counter, or the fault that fetching it raises.
    pub open spec fn fetch(self) -> Result<Instruction, Fault> {
        if !self.pc_valid() {
            Err(Fault::ProgramCounter)
        } else {
            match decode_spec(self.memory[self.pc as int], self.memory[self.pc + 1]) {
                Some(instruction) => Ok(instruction),
                None => Err(Fault::UnsupportedOpcode),
            }
        }
    }

    /// The effect of `instruction`. `random` is the byte that a random
    /// instruction uses; `cycle` counts the instructions of this frame that
    /// ran before this one, out of `cycles` in the frame's budget.
    pub open spec fn execute(self, instruction: Instruction, random: u8, cycle: nat, cycles: nat) -> Step {
        match instruction {
            Instruction::ClearScreen => Step::Continue(
                Machine { display: blank(), ..self }.advance(),
            ),
            Instruction::Return => if self.stack.len() == 0 {
                Step::Halt(Fault::StackUnderflow)
            } else {
                Step::Continue(
                    Machine { pc: self.stack.last(), stack: self.stack.drop_last(), ..self },
                )
            },
            Instruction::Jump { addr } => Step::Continue(self.with_pc(addr)),
            Instruction::Call { addr } => if self.stack.len() >= STACK_SIZE {
                Step::Halt(Fault::StackOverflow)
            } else {
                Step::Continue(
                    Machine { pc: addr, stack: self.stack.push((self.pc + 2) as u16), ..self },
                )
            },
            Instruction::SkipEqByte { x, kk } => Step::Continue(self.skip_if(self.v(x) == kk)),
            Instruction::SkipNeByte { x, kk } => Step::Continue(self.skip_if(self.v(x) != kk)),
            Instruction::SkipEqReg { x, y } => Step::Continue(
                self.skip_if(self.v(x) == self.v(y)),
            ),
            Instruction::SkipNeReg { x, y } => Step::Continue(
                self.skip_if(self.v(x) != self.v(y)),
            ),
            Instruction::LoadByte { x, kk } => Step::Continue(self.with_register(x, kk).advance()),
            Instruction::AddByte { x, kk } => Step::Continue(
                self.with_register(x, ((self.v(x) + kk) % 256) as u8).advance(),
            ),
            Instruction::Move { x, y } => Step::Continue(
                self.with_register(x, self.v(y)).advance(),
            ),
            Instruction::Or { x, y }
            | Instruction::And { x, y }
            | Instruction::Xor { x, y }
            | Instruction::AddReg { x, y }
            | Instruction::SubReg { x, y }
            | Instruction::ShiftRight { x, y }
            | Instruction::SubFrom { x, y }
            | Instruction::ShiftLeft { x, y } => {
                let (value, flag) = flagged_result(instruction, self.v(x), self.v(y));
                Step::Continue(self.with_result(x, value, flag).advance())
            },
            Instruction::LoadIndex { addr } => Step::Continue(self.with_index(addr).advance()),
            Instruction::JumpOffset { addr } => Step::Continue(
                self.with_pc((addr + self.v(0)) as u16),
            ),
            Instruction::Random { x, kk } => Step::Continue(
                self.with_register(x, random & kk).advance(),
            ),
            Instruction::Draw { x, y, n } => self.draw(x, y, n),
            Instruction::SkipKey { x } => Step::Continue(
                self.skip_if(self.keys[(self.v(x) % 16) as int]),
            ),
            Instruction::SkipNoKey { x } => Step::Continue(
                self.skip_if(!self.keys[(self.v(x) % 16) as int]),
            ),
            Instruction::ReadDelay { x } => Step::Continue(
                self.with_register(x, self.delay_timer).advance(),
            ),
            Instruction::WaitKey { x } => self.wait_key(x),
            Instruction::SetDelay { x } => Step::Continue(
                Machine { delay_timer: self.v(x), ..self }.advance(),
            ),
            Instruction::SetSound { x } => Step::Continue(
                Machine {
                    sound_timer: self.v(x),
                    remaining_samples: if self.v(x) > 1 {
                        Some(scheduled_samples(self.v(x), cycle, cycles))
                    } else {
                        self.remaining_samples
                    },
                    ..self
                }.advance(),
            ),
            Instruction::AddIndex { x } => Step::Continue(
                self.with_index(((self.index + self.v(x)) % 0x10000) as u16).advance(),
            ),
            Instruction::FontAddr { x } => Step::Continue(
                self.with_index(((self.v(x) % 16) * 5) as u16).advance(),
            ),
            Instruction::StoreBcd { x } => if self.index < PROGRAM_START || self.index + 2
                >= MEMORY_SIZE {
                Step::Halt(Fault::BcdAccess)
            } else {
                Step::Continue(
                    Machine {
                        memory: self.memory.update(self.index as int, self.v(x) / 100).update(
                            self.index + 1,
                            self.v(x) / 10 % 10,
                        ).update(self.index + 2, self.v(x) % 10),
                        ..self
                    }.advance(),
                )
            },
            Instruction::StoreRegs { x } => if self.index < PROGRAM_START || self.index + x
                >= MEMORY_SIZE {
                Step::Halt(Fault::StoreAccess)
            } else {
                Step::Continue(
                    Machine {
                        memory: Seq::new(
                            self.memory.len(),
                            |a: int|
                                if self.index <= a <= self.index + x {
                                    self.registers[a - self.index]
                                } else {
                                    self.memory[a]
                                },
                        ),
                        index: (self.index + x + 1) as u16,
                        ..self
                    }.advance(),
                )
            },
            Instruction::LoadRegs { x } => if self.index + x >= MEMORY_SIZE {
                Step::Halt(Fault::LoadAccess)
            } else {
                Step::Continue(
                    Machine {
                        registers: Seq::new(
                            self.registers.len(),
                            |r: int|
                                if r <= x {
                                    self.memory[self.index + r]
                                } else {
                                    self.registers[r]
                                },
                        ),
                        index: (self.index + x + 1) as u16,
                        ..self
                    }.advance(),
                )
            },
        }
    }

    /// The draw instruction. The sprite is the `n` bytes at `I`; they must
    /// lie inside memory. The flag register is reset before the
    /// coordinates are read, and afterwards tells whether a lit pixel went
    /// out. With draw synchronisation the frame's execution ends here.
    pub open spec fn draw(self, x: u8, y: u8, n: u8) -> Step {
        if self.index + n > MEMORY_SIZE {
            Step::Halt(Fault::DrawAccess)
        } else {
            let cleared = self.with_register(FLAGS_REGISTER as u8, 0);
            let left = cleared.v(x) % 64;
            let top = cleared.v(y) % 32;
            let sprite = self.memory.subrange(self.index as int, self.index + n);
            let after = Machine {
                display: drawn(self.display, sprite, left as int, top as int),
                registers: cleared.registers.update(
                    FLAGS_REGISTER as int,
                    if collides(self.display, sprite, left as int, top as int) {
                        1u8
                    } else {
                        0u8
                    },
                ),
                ..self
            }.advance();
            if self.draw_sync {
                Step::Suspend(after)
            } else {
                Step::Continue(after)
            }
        }
    }

    /// The lowest key whose release is pending, or 16 if there is none.
    pub open spec fn first_released(self) -> int {
        first_set(self.released, 0)
    }

    /// The blocking key read. The lowest pending release is consumed and
    /// its key stored; without one the machine stays as it is and stops
    /// executing for this frame.
    pub open spec fn wait_key(self, x: u8) -> Step {
        let key = self.first_released();
        if key < self.released.len() {
            Step::Continue(
                Machine {
                    released: self.released.update(key, false),
                    registers: self.registers.update(x as int, key as u8),
                    ..self
                }.advance(),
            )
        } else {
            Step::Suspend(self)
        }
    }

    /// The fault that the next pass raises, if it raises one: that of
    /// fetching, or else that of the instruction fetched.
    pub open spec fn pending_fault(self) -> Option<Fault> {
        match self.fetch() {
            Err(fault) => Some(fault),
            Ok(Instruction::Return) => if self.stack.len() == 0 {
                Some(Fault::StackUnderflow)
            } else {
                None
            },
            Ok(Instruction::Call { .. }) => if self.stack.len() >= STACK_SIZE {
                Some(Fault::StackOverflow)
            } else {
                None
            },
            Ok(Instruction::Draw { n, .. }) => if self.index + n > MEMORY_SIZE {
                Some(Fault::DrawAccess)
            } else {
                None
            },
            Ok(Instruction::StoreBcd { .. }) => if self.index < PROGRAM_START || self.index + 2
                >= MEMORY_SIZE {
                Some(Fault::BcdAccess)
            } else {
                None
            },
            Ok(Instruction::StoreRegs { x }) => if self.index < PROGRAM_START || self.index + x
                >= MEMORY_SIZE {
                Some(Fault::StoreAccess)
            } else {
                None
            },
            Ok(Instruction::LoadRegs { x }) => if self.index + x >= MEMORY_SIZE {
                Some(Fault::LoadAccess)
            } else {
                None
            },
            Ok(_) => None,
        }
    }

    /// One fetch-decode-execute pass.
    pub open spec fn step(self, random: u8, cycle: nat, cycles: nat) -> Step {
        match self.fetch() {
            Err(fault) => Step::Halt(fault),
            Ok(instruction) => self.execute(instruction, random, cycle, cycles),
        }
    }

    /// The state in which a frame starts executing: the clock rate has been
    /// added to the accumulator and the whole cycles taken out of it.
    pub open spec fn begin_frame(self) -> Machine {
        Machine { clock_buffer: carried_clock(self.clock_buffer, self.clock_hz), ..self }
    }

    /// The state in which a frame that did not fault ends: both timers have
    /// counted down by one unless they were zero, and no release is pending.
    pub open spec fn end_frame(self) -> Machine {
        Machine {
            delay_timer: if self.delay_timer > 0 {
                (self.delay_timer - 1) as u8
            } else {
                0
            },
            sound_timer: if self.sound_timer > 0 {
                (self.sound_timer - 1) as u8
            } else {
                0
            },
            released: Seq::new(16, |k: int| false),
            ..self
        }
    }

    /// Where the frame stands after at most `k` of its `cycles` passes,
    /// starting from `self`. Pass number `j` uses `random_byte(randoms, j)`.
    pub open spec fn after_cycles(self, randoms: Seq<u8>, cycles: nat, k: nat) -> Progress
        decreases k,
    {
        if k == 0 {
            Progress::Running(self)
        } else {
            match self.after_cycles(randoms, cycles, (k - 1) as nat) {
                Progress::Running(m) => match m.step(
                    random_byte(randoms, (k - 1) as nat),
                    (k - 1) as nat,
                    cycles,
                ) {
                    Step::Continue(next) => Progress::Running(next),
                    Step::Suspend(next) => Progress::Suspended(next),
                    Step::Halt(fault) => Progress::Faulted(m, fault),
                },
                stopped => stopped,
            }
        }
    }

    /// One whole frame: the state it leaves and the fault that ended it, if any.
    pub open spec fn frame(self, randoms: Seq<u8>) -> (Machine, Option<Fault>) {
        let cycles = cycles_in_frame(self.clock_buffer, self.clock_hz);
        match self.begin_frame().after_cycles(randoms, cycles, cycles) {
            Progress::Running(m) => (m.end_frame(), None),
            Progress::Suspended(m) => (m.end_frame(), None),
            Progress::Faulted(m, fault) => (m, Some(fault)),
        }
    }

    /// `frames` frames in a row, of which frame number `f` uses the random
    /// bytes `randoms[f]`; a fault ends the run.
    pub open spec fn after_frames(self, randoms: Seq<Seq<u8>>, frames: nat) -> (
        Machine,
        Option<Fault>,
    )
        decreases frames,
    {
        if frames == 0 {
            (self, None)
        } else {
            let (m, fault) = self.after_frames(randoms, (frames - 1) as nat);
            if fault is Some {
                (m, fault)
            } else {
                m.frame(randoms[frames - 1])
            }
        }
    }
}

/// A pass faults exactly when a fault is pending, and then with that
/// fault: whether it faults depends neither on the random byte nor on
/// the pass's place in the frame.
pub proof fn lemma_step_faults_when_pending(m: Machine, random: u8, cycle: nat, cycles: nat)
    ensures
        match m.step(random, cycle, cycles) {
            Step::Halt(fault) => m.pending_fault() == Some(fault),
            _ => m.pending_fault() is None,
        },
{
}

/// A frame that has stopped stays where it stopped.
pub proof fn lemma_stopped_stays(start: Machine, randoms: Seq<u8>, cycles: nat, k: nat, later: nat)
    requires
        k <= later,
        !(start.after_cycles(randoms, cycles, k) is Running),
    ensures
        start.after_cycles(randoms, cycles, later) == start.after_cycles(randoms, cycles, k),
    decreases later,
{
    if k < later {
        lemma_stopped_stays(start, randoms, cycles, k, (later - 1) as nat);
    }
}

/// The first `k` passes depend only on the first `k` random bytes.
pub proof fn lemma_randoms_used(
    start: Machine,
    randoms: Seq<u8>,
    others: Seq<u8>,
    cycles: nat,
    k: nat,
)
    requires
        forall|j: nat| j < k ==> random_byte(randoms, j) == random_byte(others, j),
    ensures
        start.after_cycles(randoms, cycles, k) == start.after_cycles(others, cycles, k),
    decreases k,
{
    if k > 0 {
        lemma_randoms_used(start, randoms, others, cycles, (k - 1) as nat);
        assert(random_byte(randoms, (k - 1) as nat) == random_byte(others, (k - 1) as nat));
    }
}

/// What the instructions that report in the flag register compute from
/// `Vx` and `Vy`: the new `Vx` and the flag. The flag is 1 on a carry out
/// of an addition, 0 on a borrow in a subtraction, the bit shifted out by a
/// shift, and 0 after a logical operation.
pub open spec fn flagged_result(instruction: Instruction, vx: u8, vy: u8) -> (u8, u8) {
    match instruction {
        Instruction::Or { .. } => (vx | vy, 0),
        Instruction::And { .. } => (vx & vy, 0),
        Instruction::Xor { .. } => (vx ^ vy, 0),
        Instruction::AddReg { .. } => (((vx + vy) % 256) as u8, if vx + vy > 255 { 1 } else { 0 }),
        Instruction::SubReg { .. } => (((vx - vy) % 256) as u8, if vx < vy { 0 } else { 1 }),
        Instruction::ShiftRight { .. } => (vy / 2, vy % 2),
        Instruction::SubFrom { .. } => (((vy - vx) % 256) as u8, if vy < vx { 0 } else { 1 }),
        Instruction::ShiftLeft { .. } => (((vy * 2) % 256) as u8, vy / 128),
        _ => (vx, 0),
    }
}

/// The first index at or after `from` where `flags` holds `true`, or the
/// length of `flags` if there is none.
pub open spec fn first_set(flags: Seq<bool>, from: int) -> int
    decreases flags.len() - from,
{
    if from < 0 || from >= flags.len() {
        flags.len() as int
    } else if flags[from] {
        from
    } else {
        first_set(flags, from + 1)
    }
}

/// `first_set` finds the first `true` at or after `from`: it lies between
/// `from` and the end, nothing before it is `true`, and unless it is the
/// end it holds `true`.
pub proof fn lemma_first_set_is_first(flags: Seq<bool>, from: int)
    requires
        0 <= from <= flags.len(),
    ensures
        from <= first_set(flags, from) <= flags.len(),
        forall|k: int| from <= k < first_set(flags, from) ==> !flags[k],
        first_set(flags, from) < flags.len() ==> flags[first_set(flags, from)],
    decreases flags.len() - from,
{
    if from < flags.len() && !flags[from] {
        lemma_first_set_is_first(flags, from + 1);
    }
}

/// The first `true` at or after `from` is at `at` if nothing from `from`
/// up to `at` is `true` and `at` is the end or holds `true`.
pub proof fn lemma_first_set_at(flags: Seq<bool>, from: int, at: int)
    requires
        0 <= from <= at <= flags.len(),
        forall|k: int| from <= k < at ==> !flags[k],
        at < flags.len() ==> flags[at],
    ensures
        first_set(flags, from) == at,
    decreases at - from,
{
    if from < at {
        lemma_first_set_at(flags, from + 1, at);
    }
}

/// The random byte for pass `j`; zero once `randoms` is used up.
pub open spec fn random_byte(randoms: Seq<u8>, j: nat) -> u8 {
    if j < randoms.len() {
        randoms[j as int]
    } else {
        0
    }
}

/// Memory right after loading `rom`: the glyphs at the bottom, the program
/// from `PROGRAM_START`, zero everywhere else.
pub open spec fn loaded_memory(rom: Seq<u8>) -> Seq<u8> {
    Seq::new(
        MEMORY_SIZE as nat,
        |a: int|
            if a < FONT_SIZE {
                FONTS[a]
            } else if PROGRAM_START <= a < PROGRAM_START + rom.len() {
                rom[a - PROGRAM_START]
            } else {
                0u8
            },
    )
}

/// The machine right after loading `rom`.
pub open spec fn initial_machine(rom: Seq<u8>, clock_hz: u32, draw_sync: bool) -> Machine {
    Machine {
        memory: loaded_memory(rom),
        registers: Seq::new(16, |r: int| 0u8),
        index: 0,
        pc: PROGRAM_START,
        stack: Seq::empty(),
        delay_timer: 0,
        sound_timer: 0,
        remaining_samples: None,
        display: blank(),
        keys: Seq::new(16, |k: int| false),
        released: Seq::new(16, |k: int| false),
        clock_hz,
        clock_buffer: 0,
        draw_sync,
    }
}

} // verus!
