//! The executable machine.

use vstd::prelude::*;
use rand::rngs::SmallRng;
use crate::config::Chip8Configuration;
use crate::display::{
    blank, draw_sprite, render, rendered, FRAME_BUFFER_CELLS, FRAME_BUFFER_HEIGHT, FRAME_BUFFER_WIDTH,
};
use crate::fault::Fault;
use crate::instruction::{decode, Instruction};
use crate::machine::{
    flagged_result, initial_machine, lemma_first_set_at, lemma_randoms_used,
    lemma_step_faults_when_pending, lemma_stopped_stays, loaded_memory,
    random_byte, Machine, Progress, Step, FLAGS_REGISTER, FONTS, FONT_SIZE, MEMORY_SIZE,
    PROGRAM_START,
};
use crate::random::{next_random, seeded_generator};
use crate::stack::{CallStack, STACK_SIZE};
use crate::timing::{cycles_in_frame, schedule_samples, Clock};

verus! {

/// Computes the new `Vx` and the flag for an instruction that reports in
/// the flag register.
pub fn compute_flagged(instruction: Instruction, vx: u8, vy: u8) -> (result: (u8, u8))
    ensures
        result == flagged_result(instruction, vx, vy),
{
    match instruction {
        Instruction::Or { .. } => (vx | vy, 0),
        Instruction::And { .. } => (vx & vy, 0),
        Instruction::Xor { .. } => (vx ^ vy, 0),
        Instruction::AddReg { .. } => {
            let sum: u16 = vx as u16 + vy as u16;
            ((sum % 256) as u8, if sum > 255 { 1 } else { 0 })
        },
        Instruction::SubReg { .. } => if vx < vy {
            ((256 - (vy - vx) as u16) as u8, 0)
        } else {
            (vx - vy, 1)
        },
        Instruction::ShiftRight { .. } => (vy / 2, vy % 2),
        Instruction::SubFrom { .. } => if vy < vx {
            ((256 - (vx - vy) as u16) as u8, 0)
        } else {
            (vy - vx, 1)
        },
        Instruction::ShiftLeft { .. } => (((vy as u16 * 2) % 256) as u8, vy / 128),
        _ => (vx, 0),
    }
}

/// Lays out memory for the program image `rom`: the glyphs at the bottom,
/// the image from `PROGRAM_START`, zero everywhere else. An image that
/// does not fit between `PROGRAM_START` and the end of memory is refused.
pub fn load(rom: &[u8]) -> (loaded: Result<[u8; MEMORY_SIZE], Fault>)
    ensures
        match loaded {
            Ok(ram) => rom@.len() <= MEMORY_SIZE - PROGRAM_START && ram@ == loaded_memory(rom@),
            Err(fault) => rom@.len() > MEMORY_SIZE - PROGRAM_START && fault == Fault::RomTooLarge,
        },
{
    if rom.len() > MEMORY_SIZE - PROGRAM_START as usize {
        return Err(Fault::RomTooLarge);
    }
    let mut ram: [u8; MEMORY_SIZE] = [0u8; MEMORY_SIZE];
    let mut glyph: usize = 0;
    while glyph < FONT_SIZE
        invariant
            glyph <= FONT_SIZE,
            forall|a: int| 0 <= a < glyph ==> ram@[a] == FONTS[a],
            forall|a: int| glyph <= a < MEMORY_SIZE ==> ram@[a] == 0,
        decreases FONT_SIZE - glyph,
    {
        ram[glyph] = FONTS[glyph];
        glyph += 1;
    }
    let mut offset: usize = 0;
    while offset < rom.len()
        invariant
            offset <= rom@.len() <= MEMORY_SIZE - PROGRAM_START,
            forall|a: int| 0 <= a < FONT_SIZE ==> ram@[a] == FONTS[a],
            forall|a: int| FONT_SIZE <= a < PROGRAM_START ==> ram@[a] == 0,
            forall|a: int| PROGRAM_START <= a < PROGRAM_START + offset ==> ram@[a] == rom@[a - PROGRAM_START],
            forall|a: int| PROGRAM_START + offset <= a < MEMORY_SIZE ==> ram@[a] == 0,
        decreases rom@.len() - offset,
    {
        ram[PROGRAM_START as usize + offset] = rom[offset];
        offset += 1;
    }
    assert(ram@ =~= loaded_memory(rom@));
    Ok(ram)
}

/// How a frame goes on after one fetch-decode-execute pass.
#[derive(Clone, Copy, Debug, PartialEq, Eq, Structural)]
pub enum Flow {
    /// The instruction ran; the next pass may follow.
    Continue,
    /// No further pass runs in this frame.
    Suspend,
    /// The instruction faulted and changed nothing.
    Halt(Fault),
}

impl Flow {
    /// This outcome as a step that leads to the state `after`.
    pub open spec fn step(self, after: Machine) -> Step {
        match self {
            Flow::Continue => Step::Continue(after),
            Flow::Suspend => Step::Suspend(after),
            Flow::Halt(fault) => Step::Halt(fault),
        }
    }
}

/// A CHIP-8 machine with a program loaded.
pub struct Chip8 {
    ram: [u8; MEMORY_SIZE],
    frame_buffer: [bool; FRAME_BUFFER_CELLS],
    stack: CallStack,
    key_released: [bool; 16],
    keyboard: [bool; 16],
    random_generator: SmallRng,
    remaining_samples: Option<i32>,
    clock: Clock,
    background_color: u32,
    foreground_color: u32,
    is_drawsync: bool,
    program_counter: u16,
    index_register: u16,
    delay_timer: u8,
    sound_timer: u8,
    general_registers: [u8; 16],
}

impl View for Chip8 {
    type V = Machine;

    closed spec fn view(&self) -> Machine {
        Machine {
            memory: self.ram@,
            registers: self.general_registers@,
            index: self.index_register,
            pc: self.program_counter,
            stack: self.stack@,
            delay_timer: self.delay_timer,
            sound_timer: self.sound_timer,
            remaining_samples: self.remaining_samples,
            display: self.frame_buffer@,
            keys: self.keyboard@,
            released: self.key_released@,
            clock_hz: self.clock.rate(),
            clock_buffer: self.clock.carried(),
            draw_sync: self.is_drawsync,
        }
    }
}

impl Chip8 {
    /// The colour in which lit pixels are shown.
    pub closed spec fn foreground(&self) -> u32 {
        self.foreground_color
    }

    /// The colour in which dark pixels are shown.
    pub closed spec fn background(&self) -> u32 {
        self.background_color
    }

    /// Loads the program image `rom` into a new machine that runs at
    /// `config.clock_hz` and shows `config`'s colours. Its random
    /// instruction draws from a generator seeded with `seed`. An image that
    /// does not fit between the program start and the end of memory is refused.
    pub fn init(config: &Chip8Configuration, rom: &[u8], seed: u64) -> (loaded: Result<Chip8, Fault>)
        ensures
            match loaded {
                Ok(chip8) => {
                    &&& rom@.len() <= MEMORY_SIZE - PROGRAM_START
                    &&& chip8@ == initial_machine(rom@, config.clock_hz, config.is_drawsync)
                    &&& chip8@.wf()
                    &&& chip8.foreground() == config.foreground_color
                    &&& chip8.background() == config.background_color
                },
                Err(fault) => rom@.len() > MEMORY_SIZE - PROGRAM_START && fault
                    == Fault::RomTooLarge,
            },
    {
        let ram: [u8; MEMORY_SIZE] = match load(rom) {
            Ok(ram) => ram,
            Err(fault) => {
                return Err(fault);
            },
        };
        let chip8 = Chip8 {
            ram,
            frame_buffer: [false; FRAME_BUFFER_CELLS],
            stack: CallStack::new(),
            key_released: [false; 16],
            keyboard: [false; 16],
            random_generator: seeded_generator(seed),
            remaining_samples: None,
            clock: Clock::new(config.clock_hz),
            background_color: config.background_color,
            foreground_color: config.foreground_color,
            is_drawsync: config.is_drawsync,
            program_counter: PROGRAM_START,
            index_register: 0,
            delay_timer: 0,
            sound_timer: 0,
            general_registers: [0u8; 16],
        };
        proof {
            let model = initial_machine(rom@, config.clock_hz, config.is_drawsync);
            assert(chip8@.registers =~= model.registers);
            assert(chip8@.stack =~= model.stack);
            assert(chip8@.display =~= model.display);
            assert(chip8@.keys =~= model.keys);
            assert(chip8@.released =~= model.released);
        }
        Ok(chip8)
    }
}

impl Chip8 {
    /// The program counter.
    pub fn program_counter(&self) -> (pc: u16)
        ensures
            pc == self@.pc,
    {
        self.program_counter
    }

    /// The index register.
    pub fn index_register(&self) -> (index: u16)
        ensures
            index == self@.index,
    {
        self.index_register
    }

    /// The general register `Vx`.
    pub fn register(&self, x: u8) -> (value: u8)
        requires
            x < 16,
        ensures
            value == self@.registers[x as int],
    {
        self.general_registers[x as usize]
    }

    /// The byte of memory at `address`.
    pub fn memory(&self, address: u16) -> (value: u8)
        requires
            address < MEMORY_SIZE,
        ensures
            value == self@.memory[address as int],
    {
        self.ram[address as usize]
    }

    /// The number of subroutine calls that have not returned.
    pub fn stack_depth(&self) -> (depth: usize)
        ensures
            depth == self@.stack.len(),
            depth <= STACK_SIZE,
    {
        self.stack.depth()
    }

    /// The delay timer.
    pub fn delay_timer(&self) -> (ticks: u8)
        ensures
            ticks == self@.delay_timer,
    {
        self.delay_timer
    }

    /// The sound timer.
    pub fn sound_timer(&self) -> (ticks: u8)
        ensures
            ticks == self@.sound_timer,
    {
        self.sound_timer
    }

    /// The audio samples left to play, as last scheduled.
    pub fn remaining_samples(&self) -> (samples: Option<i32>)
        ensures
            samples == self@.remaining_samples,
    {
        self.remaining_samples
    }

    /// Hands the scheduled audio samples to the caller and forgets them.
    pub fn take_remaining_samples(&mut self) -> (samples: Option<i32>)
        ensures
            samples == old(self)@.remaining_samples,
            final(self)@ == (Machine { remaining_samples: None, ..old(self)@ }),
            final(self).foreground() == old(self).foreground(),
            final(self).background() == old(self).background(),
    {
        let samples: Option<i32> = self.remaining_samples;
        self.remaining_samples = None;
        samples
    }

    /// Whether the pixel in column `column` of row `line` is lit.
    pub fn pixel(&self, column: u16, line: u16) -> (lit: bool)
        requires
            column < FRAME_BUFFER_WIDTH,
            line < FRAME_BUFFER_HEIGHT,
        ensures
            lit == self@.display[line * FRAME_BUFFER_WIDTH + column],
    {
        self.frame_buffer[line as usize * FRAME_BUFFER_WIDTH as usize + column as usize]
    }

    /// The display as a texture of four bytes per pixel, in this machine's
    /// colours, each colour with its lowest byte first.
    pub fn frame_buffer(&self) -> (texture: Vec<u8>)
        ensures
            texture@ == rendered(self@.display, self.foreground(), self.background()),
    {
        render(&self.frame_buffer, self.foreground_color, self.background_color)
    }

    /// The colour of dark pixels.
    pub fn background_color(&self) -> (color: u32)
        ensures
            color == self.background(),
    {
        self.background_color
    }

    /// The colour of lit pixels.
    pub fn foreground_color(&self) -> (color: u32)
        ensures
            color == self.foreground(),
    {
        self.foreground_color
    }

    /// Whether `key` is down.
    pub fn is_key_down(&self, key: u8) -> (down: bool)
        requires
            key < 16,
        ensures
            down == self@.keys[key as int],
    {
        self.keyboard[key as usize]
    }

    /// Records that `key` went down.
    pub fn key_down(&mut self, key: u8)
        requires
            key < 16,
        ensures
            final(self)@ == (Machine {
                keys: old(self)@.keys.update(key as int, true),
                ..old(self)@
            }),
            final(self).foreground() == old(self).foreground(),
            final(self).background() == old(self).background(),
    {
        self.keyboard[key as usize] = true;
    }

    /// Records that `key` went up: it is no longer down, and its release is pending.
    pub fn key_up(&mut self, key: u8)
        requires
            key < 16,
        ensures
            final(self)@ == (Machine {
                keys: old(self)@.keys.update(key as int, false),
                released: old(self)@.released.update(key as int, true),
                ..old(self)@
            }),
            final(self).foreground() == old(self).foreground(),
            final(self).background() == old(self).background(),
    {
        self.keyboard[key as usize] = false;
        self.key_released[key as usize] = true;
    }

    /// Reads and decodes the instruction at the program counter.
    pub fn fetch(&self) -> (fetched: Result<Instruction, Fault>)
        ensures
            fetched == self@.fetch(),
            fetched matches Ok(instruction) ==> instruction.wf() && self@.pc_valid(),
            self@.wf(),
    {
        proof {
            use_type_invariant(&self.stack);
            use_type_invariant(&self.clock);
        }
        let pc: u16 = self.program_counter;
        if pc < PROGRAM_START || pc as usize >= MEMORY_SIZE || pc % 2 == 1 {
            return Err(Fault::ProgramCounter);
        }
        match decode(self.ram[pc as usize], self.ram[pc as usize + 1]) {
            Some(instruction) => Ok(instruction),
            None => Err(Fault::UnsupportedOpcode),
        }
    }

    /// The fault that the machine stands on, if any: the one that the next
    /// pass would raise.
    pub fn pending_fault(&self) -> (fault: Option<Fault>)
        ensures
            fault == self@.pending_fault(),
    {
        let index: usize = self.index_register as usize;
        let writable: bool = self.index_register >= PROGRAM_START;
        match self.fetch() {
            Err(fault) => Some(fault),
            Ok(Instruction::Return) => if self.stack.depth() == 0 {
                Some(Fault::StackUnderflow)
            } else {
                None
            },
            Ok(Instruction::Call { .. }) => if self.stack.depth() >= STACK_SIZE {
                Some(Fault::StackOverflow)
            } else {
                None
            },
            Ok(Instruction::Draw { n, .. }) => if index + n as usize > MEMORY_SIZE {
                Some(Fault::DrawAccess)
            } else {
                None
            },
            Ok(Instruction::StoreBcd { .. }) => if !writable || index + 2 >= MEMORY_SIZE {
                Some(Fault::BcdAccess)
            } else {
                None
            },
            Ok(Instruction::StoreRegs { x }) => if !writable || index + x as usize >= MEMORY_SIZE {
                Some(Fault::StoreAccess)
            } else {
                None
            },
            Ok(Instruction::LoadRegs { x }) => if index + x as usize >= MEMORY_SIZE {
                Some(Fault::LoadAccess)
            } else {
                None
            },
            Ok(_) => None,
        }
    }

    /// Runs one fetch-decode-execute pass. `random` is the byte that a
    /// random instruction would use; `cycle` counts the passes of this
    /// frame that ran before this one, out of `cycles`. A fault leaves the
    /// machine as it was.
    pub fn step(&mut self, random: u8, cycle: u32, cycles: u32) -> (flow: Flow)
        requires
            cycle < cycles,
        ensures
            old(self)@.step(random, cycle as nat, cycles as nat) == flow.step(final(self)@),
            match flow {
                Flow::Halt(fault) => old(self)@.pending_fault() == Some(fault) && final(self)@
                    == old(self)@,
                _ => old(self)@.pending_fault() is None,
            },
            final(self)@.wf(),
            final(self).foreground() == old(self).foreground(),
            final(self).background() == old(self).background(),
    {
        proof {
            lemma_step_faults_when_pending(self@, random, cycle as nat, cycles as nat);
        }
        match self.fetch() {
            Ok(instruction) => self.execute(instruction, random, cycle, cycles),
            Err(fault) => Flow::Halt(fault),
        }
    }

    /// Runs one frame: as many passes as the clock allows, fewer if an
    /// instruction suspends the frame or faults, then the timers' tick and
    /// the clearing of pending key releases. A random instruction in pass
    /// `j` uses some byte `randoms[j]`. A fault ends the frame at once and
    /// is returned; the machine then stands as before the faulting
    /// instruction, without the tick.
    pub fn run(&mut self) -> (fault: Option<Fault>)
        ensures
            exists|randoms: Seq<u8>| old(self)@.frame(randoms) == (final(self)@, fault),
            final(self)@.wf(),
            final(self).foreground() == old(self).foreground(),
            final(self).background() == old(self).background(),
    {
        proof {
            use_type_invariant(&self.stack);
            use_type_invariant(&self.clock);
        }
        let cycles: u32 = self.clock.begin_frame();
        let ghost start = self@;
        let ghost mut randoms: Seq<u8> = Seq::empty();
        let mut cycle: u32 = 0;
        let mut running: bool = true;
        assert(start == old(self)@.begin_frame());
        while running && cycle < cycles
            invariant
                cycle <= cycles,
                cycles == cycles_in_frame(old(self)@.clock_buffer, old(self)@.clock_hz),
                start == old(self)@.begin_frame(),
                randoms.len() == cycle,
                running ==> start.after_cycles(randoms, cycles as nat, cycle as nat)
                    == Progress::Running(self@),
                !running ==> start.after_cycles(randoms, cycles as nat, cycle as nat)
                    == Progress::Suspended(self@),
                self@.wf(),
                self.foreground() == old(self).foreground(),
                self.background() == old(self).background(),
            decreases cycles - cycle,
        {
            let ghost before = self@;
            let ghost drawn_so_far = randoms;
            match self.fetch() {
                Err(fault) => {
                    proof {
                        assert(start.after_cycles(randoms, cycles as nat, (cycle + 1) as nat)
                            == Progress::Faulted(before, fault));
                        lemma_stopped_stays(
                            start,
                            randoms,
                            cycles as nat,
                            (cycle + 1) as nat,
                            cycles as nat,
                        );
                        assert(old(self)@.frame(randoms) == (self@, Some(fault)));
                    }
                    return Some(fault);
                },
                Ok(instruction) => {
                    let random: u8 = match instruction {
                        Instruction::Random { .. } => (next_random(&mut self.random_generator)
                            % 256) as u8,
                        _ => 0,
                    };
                    proof {
                        randoms = drawn_so_far.push(random);
                        lemma_randoms_used(
                            start,
                            drawn_so_far,
                            randoms,
                            cycles as nat,
                            cycle as nat,
                        );
                        assert(random_byte(randoms, cycle as nat) == random);
                    }
                    match self.execute(instruction, random, cycle, cycles) {
                        Flow::Continue => {},
                        Flow::Suspend => {
                            running = false;
                        },
                        Flow::Halt(fault) => {
                            proof {
                                assert(start.after_cycles(
                                    randoms,
                                    cycles as nat,
                                    (cycle + 1) as nat,
                                ) == Progress::Faulted(before, fault));
                                lemma_stopped_stays(
                                    start,
                                    randoms,
                                    cycles as nat,
                                    (cycle + 1) as nat,
                                    cycles as nat,
                                );
                                assert(old(self)@.frame(randoms) == (self@, Some(fault)));
                            }
                            return Some(fault);
                        },
                    }
                    cycle += 1;
                },
            }
        }
        proof {
            if !running {
                lemma_stopped_stays(start, randoms, cycles as nat, cycle as nat, cycles as nat);
            }
        }
        let ghost executed = self@;
        if self.delay_timer > 0 {
            self.delay_timer = self.delay_timer - 1;
        }
        if self.sound_timer > 0 {
            self.sound_timer = self.sound_timer - 1;
        }
        self.key_released = [false; 16];
        proof {
            assert(self@.released =~= executed.end_frame().released);
            assert(self@ == executed.end_frame());
            assert(old(self)@.frame(randoms) == (self@, None::<Fault>));
        }
        None
    }

    /// Applies `instruction`. `random` is the byte that a random
    /// instruction uses; `cycle` counts the passes of this frame that ran
    /// before this one, out of `cycles`.
    fn execute(&mut self, instruction: Instruction, random: u8, cycle: u32, cycles: u32) -> (flow: Flow)
        requires
            instruction.wf(),
            old(self)@.pc_valid(),
            cycle < cycles,
        ensures
            old(self)@.execute(instruction, random, cycle as nat, cycles as nat) == flow.step(
                final(self)@,
            ),
            flow is Halt ==> final(self)@ == old(self)@,
            final(self)@.wf(),
            final(self).foreground() == old(self).foreground(),
            final(self).background() == old(self).background(),
    {
        match instruction {
            Instruction::Return
            | Instruction::Jump { .. }
            | Instruction::Call { .. }
            | Instruction::JumpOffset { .. } => self.execute_jump(instruction, random, cycle, cycles),
            Instruction::SkipEqByte { .. }
            | Instruction::SkipNeByte { .. }
            | Instruction::SkipEqReg { .. }
            | Instruction::SkipNeReg { .. }
            | Instruction::SkipKey { .. }
            | Instruction::SkipNoKey { .. } => self.execute_skip(instruction, random, cycle, cycles),
            Instruction::LoadByte { .. }
            | Instruction::AddByte { .. }
            | Instruction::Move { .. }
            | Instruction::Random { .. }
            | Instruction::ReadDelay { .. } => self.execute_load(instruction, random, cycle, cycles),
            Instruction::Or { .. }
            | Instruction::And { .. }
            | Instruction::Xor { .. }
            | Instruction::AddReg { .. }
            | Instruction::SubReg { .. }
            | Instruction::ShiftRight { .. }
            | Instruction::SubFrom { .. }
            | Instruction::ShiftLeft { .. } => self.execute_flagged(
                instruction,
                random,
                cycle,
                cycles,
            ),
            Instruction::ClearScreen
            | Instruction::LoadIndex { .. }
            | Instruction::SetDelay { .. }
            | Instruction::SetSound { .. }
            | Instruction::AddIndex { .. }
            | Instruction::FontAddr { .. } => self.execute_device(
                instruction,
                random,
                cycle,
                cycles,
            ),
            Instruction::Draw { .. } => self.execute_draw(instruction, random, cycle, cycles),
            Instruction::WaitKey { .. } => self.execute_wait(instruction, random, cycle, cycles),
            Instruction::StoreBcd { .. }
            | Instruction::StoreRegs { .. }
            | Instruction::LoadRegs { .. } => self.execute_transfer(
                instruction,
                random,
                cycle,
                cycles,
            ),
        }
    }

    /// The draw instruction.
    fn execute_draw(&mut self, instruction: Instruction, random: u8, cycle: u32, cycles: u32) -> (flow: Flow)
        requires
            instruction.wf(),
            old(self)@.pc_valid(),
            instruction is Draw,
        ensures
            old(self)@.execute(instruction, random, cycle as nat, cycles as nat) == flow.step(
                final(self)@,
            ),
            flow is Halt ==> final(self)@ == old(self)@,
            final(self)@.wf(),
            final(self).foreground() == old(self).foreground(),
            final(self).background() == old(self).background(),
    {
        proof {
            use_type_invariant(&self.stack);
            use_type_invariant(&self.clock);
        }
        let (x, y, n): (u8, u8, u8) = match instruction {
            Instruction::Draw { x, y, n } => (x, y, n),
            _ => (0, 0, 0),
        };
        let pc: u16 = self.program_counter;
        let index: usize = self.index_register as usize;
        if index + n as usize > MEMORY_SIZE {
            return Flow::Halt(Fault::DrawAccess);
        }
        self.general_registers[FLAGS_REGISTER] = 0;
        let left: u8 = self.general_registers[x as usize] % 64;
        let top: u8 = self.general_registers[y as usize] % 32;
        let collision: bool = draw_sprite(
            &mut self.frame_buffer,
            &self.ram[index..index + n as usize],
            left,
            top,
        );
        self.general_registers[FLAGS_REGISTER] = if collision { 1 } else { 0 };
        self.program_counter = pc + 2;
        if self.is_drawsync {
            Flow::Suspend
        } else {
            Flow::Continue
        }
    }

    /// The blocking key read.
    fn execute_wait(&mut self, instruction: Instruction, random: u8, cycle: u32, cycles: u32) -> (flow: Flow)
        requires
            instruction.wf(),
            old(self)@.pc_valid(),
            instruction is WaitKey,
        ensures
            old(self)@.execute(instruction, random, cycle as nat, cycles as nat) == flow.step(
                final(self)@,
            ),
            flow is Halt ==> final(self)@ == old(self)@,
            final(self)@.wf(),
            final(self).foreground() == old(self).foreground(),
            final(self).background() == old(self).background(),
    {
        proof {
            use_type_invariant(&self.stack);
            use_type_invariant(&self.clock);
        }
        let x: u8 = match instruction {
            Instruction::WaitKey { x } => x,
            _ => 0,
        };
        let pc: u16 = self.program_counter;
        let mut key: u8 = 0;
        while key < 16 && !self.key_released[key as usize]
            invariant
                key <= 16,
                forall|k: int| 0 <= k < key ==> !self.key_released@[k],
            decreases 16 - key,
        {
            key += 1;
        }
        proof {
            lemma_first_set_at(self.key_released@, 0, key as int);
        }
        if key < 16 {
            self.key_released[key as usize] = false;
            self.general_registers[x as usize] = key;
            self.program_counter = pc + 2;
            Flow::Continue
        } else {
            Flow::Suspend
        }
    }

    /// The instructions that move bytes between registers and memory.
    fn execute_transfer(&mut self, instruction: Instruction, random: u8, cycle: u32, cycles: u32) -> (flow: Flow)
        requires
            instruction.wf(),
            old(self)@.pc_valid(),
            instruction is StoreBcd || instruction is StoreRegs || instruction is LoadRegs,
        ensures
            old(self)@.execute(instruction, random, cycle as nat, cycles as nat) == flow.step(
                final(self)@,
            ),
            flow is Halt ==> final(self)@ == old(self)@,
            final(self)@.wf(),
            final(self).foreground() == old(self).foreground(),
            final(self).background() == old(self).background(),
    {
        proof {
            use_type_invariant(&self.stack);
            use_type_invariant(&self.clock);
        }
        let pc: u16 = self.program_counter;
        let index: usize = self.index_register as usize;
        match instruction {
            Instruction::StoreBcd { x } => {
                if self.index_register < PROGRAM_START || index + 2 >= MEMORY_SIZE {
                    return Flow::Halt(Fault::BcdAccess);
                }
                let value: u8 = self.general_registers[x as usize];
                self.ram[index] = value / 100;
                self.ram[index + 1] = value / 10 % 10;
                self.ram[index + 2] = value % 10;
            },
            Instruction::StoreRegs { x } => {
                if self.index_register < PROGRAM_START || index + x as usize >= MEMORY_SIZE {
                    return Flow::Halt(Fault::StoreAccess);
                }
                let mut r: usize = 0;
                while r <= x as usize
                    invariant
                        x < 16,
                        r <= x + 1,
                        index == old(self)@.index,
                        index + x < MEMORY_SIZE,
                        self@ == (Machine { memory: self@.memory, ..old(self)@ }),
                        self@.memory.len() == MEMORY_SIZE,
                        forall|a: int|
                            0 <= a < MEMORY_SIZE ==> self@.memory[a] == if index <= a < index + r {
                                old(self)@.registers[a - index]
                            } else {
                                old(self)@.memory[a]
                            },
                        self.foreground() == old(self).foreground(),
                        self.background() == old(self).background(),
                    decreases x + 1 - r,
                {
                    self.ram[index + r] = self.general_registers[r];
                    r += 1;
                }
                self.index_register = (index + x as usize + 1) as u16;
                assert(self@.memory =~= Seq::new(
                    old(self)@.memory.len(),
                    |a: int|
                        if old(self)@.index <= a <= old(self)@.index + x {
                            old(self)@.registers[a - old(self)@.index]
                        } else {
                            old(self)@.memory[a]
                        },
                ));
            },
            Instruction::LoadRegs { x } => {
                if index + x as usize >= MEMORY_SIZE {
                    return Flow::Halt(Fault::LoadAccess);
                }
                let mut r: usize = 0;
                while r <= x as usize
                    invariant
                        x < 16,
                        r <= x + 1,
                        index == old(self)@.index,
                        index + x < MEMORY_SIZE,
                        self@ == (Machine { registers: self@.registers, ..old(self)@ }),
                        self@.registers.len() == 16,
                        forall|k: int|
                            0 <= k < 16 ==> self@.registers[k] == if k < r {
                                old(self)@.memory[index + k]
                            } else {
                                old(self)@.registers[k]
                            },
                        self.foreground() == old(self).foreground(),
                        self.background() == old(self).background(),
                    decreases x + 1 - r,
                {
                    self.general_registers[r] = self.ram[index + r];
                    r += 1;
                }
                self.index_register = (index + x as usize + 1) as u16;
                assert(self@.registers =~= Seq::new(
                    old(self)@.registers.len(),
                    |k: int|
                        if k <= x {
                            old(self)@.memory[old(self)@.index + k]
                        } else {
                            old(self)@.registers[k]
                        },
                ));
            },
            _ => {},
        }
        self.program_counter = pc + 2;
        Flow::Continue
    }

    /// The instructions that set the program counter outright.
    fn execute_jump(&mut self, instruction: Instruction, random: u8, cycle: u32, cycles: u32) -> (flow: Flow)
        requires
            instruction.wf(),
            old(self)@.pc_valid(),
            instruction is Return || instruction is Jump || instruction is Call
                || instruction is JumpOffset,
        ensures
            old(self)@.execute(instruction, random, cycle as nat, cycles as nat) == flow.step(
                final(self)@,
            ),
            flow is Halt ==> final(self)@ == old(self)@,
            final(self)@.wf(),
            final(self).foreground() == old(self).foreground(),
            final(self).background() == old(self).background(),
    {
        proof {
            use_type_invariant(&self.stack);
            use_type_invariant(&self.clock);
        }
        let pc: u16 = self.program_counter;
        match instruction {
            Instruction::Return => match self.stack.pop() {
                Some(address) => {
                    self.program_counter = address;
                    Flow::Continue
                },
                None => Flow::Halt(Fault::StackUnderflow),
            },
            Instruction::Jump { addr } => {
                self.program_counter = addr;
                Flow::Continue
            },
            Instruction::Call { addr } => {
                if self.stack.push(pc + 2) {
                    self.program_counter = addr;
                    Flow::Continue
                } else {
                    Flow::Halt(Fault::StackOverflow)
                }
            },
            Instruction::JumpOffset { addr } => {
                self.program_counter = addr + self.general_registers[0] as u16;
                Flow::Continue
            },
            _ => Flow::Continue,
        }
    }

    /// The instructions that may skip the one that follows.
    fn execute_skip(&mut self, instruction: Instruction, random: u8, cycle: u32, cycles: u32) -> (flow: Flow)
        requires
            instruction.wf(),
            old(self)@.pc_valid(),
            instruction is SkipEqByte || instruction is SkipNeByte || instruction is SkipEqReg
                || instruction is SkipNeReg || instruction is SkipKey || instruction is SkipNoKey,
        ensures
            old(self)@.execute(instruction, random, cycle as nat, cycles as nat) == flow.step(
                final(self)@,
            ),
            flow is Halt ==> final(self)@ == old(self)@,
            final(self)@.wf(),
            final(self).foreground() == old(self).foreground(),
            final(self).background() == old(self).background(),
    {
        proof {
            use_type_invariant(&self.stack);
            use_type_invariant(&self.clock);
        }
        let pc: u16 = self.program_counter;
        let skip: bool = match instruction {
            Instruction::SkipEqByte { x, kk } => self.general_registers[x as usize] == kk,
            Instruction::SkipNeByte { x, kk } => self.general_registers[x as usize] != kk,
            Instruction::SkipEqReg { x, y } => self.general_registers[x as usize]
                == self.general_registers[y as usize],
            Instruction::SkipNeReg { x, y } => self.general_registers[x as usize]
                != self.general_registers[y as usize],
            Instruction::SkipKey { x } => self.keyboard[(self.general_registers[x as usize]
                % 16) as usize],
            Instruction::SkipNoKey { x } => !self.keyboard[(self.general_registers[x as usize]
                % 16) as usize],
            _ => false,
        };
        self.program_counter = if skip { pc + 4 } else { pc + 2 };
        Flow::Continue
    }

    /// The instructions that write one register and leave the flag alone.
    fn execute_load(&mut self, instruction: Instruction, random: u8, cycle: u32, cycles: u32) -> (flow: Flow)
        requires
            instruction.wf(),
            old(self)@.pc_valid(),
            instruction is LoadByte || instruction is AddByte || instruction is Move
                || instruction is Random || instruction is ReadDelay,
        ensures
            old(self)@.execute(instruction, random, cycle as nat, cycles as nat) == flow.step(
                final(self)@,
            ),
            flow is Halt ==> final(self)@ == old(self)@,
            final(self)@.wf(),
            final(self).foreground() == old(self).foreground(),
            final(self).background() == old(self).background(),
    {
        proof {
            use_type_invariant(&self.stack);
            use_type_invariant(&self.clock);
        }
        let pc: u16 = self.program_counter;
        match instruction {
            Instruction::LoadByte { x, kk } => {
                self.general_registers[x as usize] = kk;
            },
            Instruction::AddByte { x, kk } => {
                let sum: u16 = self.general_registers[x as usize] as u16 + kk as u16;
                self.general_registers[x as usize] = (sum % 256) as u8;
            },
            Instruction::Move { x, y } => {
                self.general_registers[x as usize] = self.general_registers[y as usize];
            },
            Instruction::Random { x, kk } => {
                self.general_registers[x as usize] = random & kk;
            },
            Instruction::ReadDelay { x } => {
                self.general_registers[x as usize] = self.delay_timer;
            },
            _ => {},
        }
        self.program_counter = pc + 2;
        Flow::Continue
    }

    /// The instructions that write a register and then the flag.
    fn execute_flagged(&mut self, instruction: Instruction, random: u8, cycle: u32, cycles: u32) -> (flow: Flow)
        requires
            instruction.wf(),
            old(self)@.pc_valid(),
            instruction is Or || instruction is And || instruction is Xor || instruction is AddReg
                || instruction is SubReg || instruction is ShiftRight || instruction is SubFrom
                || instruction is ShiftLeft,
        ensures
            old(self)@.execute(instruction, random, cycle as nat, cycles as nat) == flow.step(
                final(self)@,
            ),
            flow is Halt ==> final(self)@ == old(self)@,
            final(self)@.wf(),
            final(self).foreground() == old(self).foreground(),
            final(self).background() == old(self).background(),
    {
        proof {
            use_type_invariant(&self.stack);
            use_type_invariant(&self.clock);
        }
        let pc: u16 = self.program_counter;
        let (x, y): (u8, u8) = match instruction {
            Instruction::Or { x, y }
            | Instruction::And { x, y }
            | Instruction::Xor { x, y }
            | Instruction::AddReg { x, y }
            | Instruction::SubReg { x, y }
            | Instruction::ShiftRight { x, y }
            | Instruction::SubFrom { x, y }
            | Instruction::ShiftLeft { x, y } => (x, y),
            _ => (0, 0),
        };
        let (value, flag): (u8, u8) = compute_flagged(
            instruction,
            self.general_registers[x as usize],
            self.general_registers[y as usize],
        );
        self.general_registers[x as usize] = value;
        self.general_registers[FLAGS_REGISTER] = flag;
        self.program_counter = pc + 2;
        Flow::Continue
    }

    /// The instructions that set the index register, a timer or the whole display.
    fn execute_device(&mut self, instruction: Instruction, random: u8, cycle: u32, cycles: u32) -> (flow: Flow)
        requires
            instruction.wf(),
            old(self)@.pc_valid(),
            cycle < cycles,
            instruction is ClearScreen || instruction is LoadIndex || instruction is SetDelay
                || instruction is SetSound || instruction is AddIndex || instruction is FontAddr,
        ensures
            old(self)@.execute(instruction, random, cycle as nat, cycles as nat) == flow.step(
                final(self)@,
            ),
            flow is Halt ==> final(self)@ == old(self)@,
            final(self)@.wf(),
            final(self).foreground() == old(self).foreground(),
            final(self).background() == old(self).background(),
    {
        proof {
            use_type_invariant(&self.stack);
            use_type_invariant(&self.clock);
        }
        let pc: u16 = self.program_counter;
        match instruction {
            Instruction::ClearScreen => {
                self.frame_buffer = [false; FRAME_BUFFER_CELLS];
                assert(self@.display =~= blank());
            },
            Instruction::LoadIndex { addr } => {
                self.index_register = addr;
            },
            Instruction::SetDelay { x } => {
                self.delay_timer = self.general_registers[x as usize];
            },
            Instruction::SetSound { x } => {
                let value: u8 = self.general_registers[x as usize];
                self.sound_timer = value;
                if value > 1 {
                    self.remaining_samples = Some(schedule_samples(value, cycle, cycles));
                }
            },
            Instruction::AddIndex { x } => {
                let sum: u32 = self.index_register as u32
                    + self.general_registers[x as usize] as u32;
                self.index_register = (sum % 0x10000) as u16;
            },
            Instruction::FontAddr { x } => {
                self.index_register = (self.general_registers[x as usize] % 16) as u16 * 5;
            },
            _ => {},
        }
        self.program_counter = pc + 2;
        Flow::Continue
    }
}

} // verus!
