//! What holds of the machine in every state and for every program.

use vstd::prelude::*;
use crate::display::{collides, drawn, flips};
use crate::fault::Fault;
use crate::instruction::Instruction;
use crate::machine::{
    flagged_result, initial_machine, lemma_first_set_at, lemma_first_set_is_first,
    lemma_step_faults_when_pending, lemma_stopped_stays, random_byte, Machine, Progress, Step,
    FLAGS_REGISTER, MEMORY_SIZE, PROGRAM_START,
};
use crate::stack::STACK_SIZE;
use crate::timing::{carried_clock, cycles_in_frame};

verus! {

impl Instruction {
    /// Whether this instruction sets the program counter outright.
    pub open spec fn is_jump(self) -> bool {
        self is Jump || self is Call || self is Return || self is JumpOffset
    }

    /// Whether this instruction may skip the one that follows.
    pub open spec fn is_skip(self) -> bool {
        self is SkipEqByte || self is SkipNeByte || self is SkipEqReg || self is SkipNeReg
            || self is SkipKey || self is SkipNoKey
    }
}

impl Machine {
    /// Whether the condition of the skip instruction `instruction` holds.
    pub open spec fn skips(self, instruction: Instruction) -> bool {
        match instruction {
            Instruction::SkipEqByte { x, kk } => self.v(x) == kk,
            Instruction::SkipNeByte { x, kk } => self.v(x) != kk,
            Instruction::SkipEqReg { x, y } => self.v(x) == self.v(y),
            Instruction::SkipNeReg { x, y } => self.v(x) != self.v(y),
            Instruction::SkipKey { x } => self.keys[(self.v(x) % 16) as int],
            Instruction::SkipNoKey { x } => !self.keys[(self.v(x) % 16) as int],
            _ => false,
        }
    }

    /// Whether no key release is pending.
    pub open spec fn nothing_released(self) -> bool {
        forall|k: int| 0 <= k < self.released.len() ==> !self.released[k]
    }
}

/// The machine that a step that did not fault leads to.
pub open spec fn reached(step: Step) -> Machine {
    match step {
        Step::Continue(after) => after,
        Step::Suspend(after) => after,
        Step::Halt(_) => arbitrary(),
    }
}

/// Executing an instruction keeps the machine well formed.
pub proof fn lemma_execute_keeps_wf(
    m: Machine,
    instruction: Instruction,
    random: u8,
    cycle: nat,
    cycles: nat,
)
    requires
        m.wf(),
        instruction.wf(),
    ensures
        !(m.execute(instruction, random, cycle, cycles) is Halt) ==> reached(
            m.execute(instruction, random, cycle, cycles),
        ).wf(),
{
    lemma_first_set_is_first(m.released, 0);
}

/// An instruction that is neither a jump nor a skip moves the program
/// counter on by 2, unless it faults or is a key read that finds no
/// release and so stays put. A skip moves it on by 4 where its condition
/// holds and by 2 where it does not.
pub proof fn lemma_program_counter_advances(
    m: Machine,
    instruction: Instruction,
    random: u8,
    cycle: nat,
    cycles: nat,
)
    requires
        m.wf(),
        m.pc_valid(),
        instruction.wf(),
        !instruction.is_jump(),
        !(m.execute(instruction, random, cycle, cycles) is Halt),
    ensures
        ({
            let after = reached(m.execute(instruction, random, cycle, cycles));
            if instruction.is_skip() {
                after.pc == m.pc + if m.skips(instruction) {
                    4int
                } else {
                    2int
                }
            } else if instruction is WaitKey && m.first_released() >= 16 {
                after.pc == m.pc
            } else {
                after.pc == m.pc + 2
            }
        }),
{
}

/// Adding a byte to a register wraps modulo 256 and leaves the flag
/// register alone, unless the flag register is the one added to.
pub proof fn lemma_add_byte_wraps(m: Machine, x: u8, kk: u8, random: u8, cycle: nat, cycles: nat)
    requires
        m.wf(),
        x < 16,
    ensures
        ({
            let step = m.execute(Instruction::AddByte { x, kk }, random, cycle, cycles);
            &&& step is Continue
            &&& reached(step).v(x) == (m.v(x) + kk) % 256
            &&& forall|r: u8| r < 16 && r != x ==> reached(step).v(r) == m.v(r)
        }),
{
}

/// Adding two registers sets the flag to 1 exactly when the sum does not
/// fit a byte, and to 0 otherwise; the sum wraps modulo 256.
pub proof fn lemma_add_sets_carry(vx: u8, vy: u8, x: u8, y: u8)
    ensures
        ({
            let (sum, flag) = flagged_result(Instruction::AddReg { x, y }, vx, vy);
            &&& sum == (vx + vy) % 256
            &&& flag == 1 <==> vx + vy > 255
            &&& flag == 0 <==> vx + vy <= 255
        }),
{
}

/// Both subtractions set the flag to 0 exactly when they borrow, that is
/// when the true difference is negative, and to 1 otherwise; the
/// difference wraps modulo 256.
pub proof fn lemma_subtract_clears_on_borrow(vx: u8, vy: u8, x: u8, y: u8)
    ensures
        ({
            let (difference, flag) = flagged_result(Instruction::SubReg { x, y }, vx, vy);
            &&& difference == (vx - vy) % 256
            &&& flag == 0 <==> vx - vy < 0
            &&& flag == 1 <==> vx - vy >= 0
        }),
        ({
            let (difference, flag) = flagged_result(Instruction::SubFrom { x, y }, vx, vy);
            &&& difference == (vy - vx) % 256
            &&& flag == 0 <==> vy - vx < 0
            &&& flag == 1 <==> vy - vx >= 0
        }),
{
}

/// The flag that an instruction reports overwrites the flag register,
/// also where that register is the instruction's target.
pub proof fn lemma_flag_overwrites(
    m: Machine,
    instruction: Instruction,
    x: u8,
    y: u8,
    random: u8,
    cycle: nat,
    cycles: nat,
)
    requires
        m.wf(),
        x < 16,
        y < 16,
        instruction == (Instruction::Or { x, y }) || instruction == (Instruction::And { x, y })
            || instruction == (Instruction::Xor { x, y }) || instruction == (Instruction::AddReg {
            x,
            y,
        }) || instruction == (Instruction::SubReg { x, y }) || instruction
            == (Instruction::ShiftRight { x, y }) || instruction == (Instruction::SubFrom { x, y })
            || instruction == (Instruction::ShiftLeft { x, y }),
    ensures
        m.execute(instruction, random, cycle, cycles) is Continue,
        reached(m.execute(instruction, random, cycle, cycles)).v(FLAGS_REGISTER as u8)
            == flagged_result(instruction, m.v(x), m.v(y)).1,
        x != FLAGS_REGISTER ==> reached(m.execute(instruction, random, cycle, cycles)).v(x)
            == flagged_result(instruction, m.v(x), m.v(y)).0,
{
}

/// A call at full capacity and a return on an empty stack both fault.
pub proof fn lemma_stack_faults(m: Machine, addr: u16, random: u8, cycle: nat, cycles: nat)
    requires
        m.wf(),
    ensures
        m.stack.len() == STACK_SIZE ==> m.execute(Instruction::Call { addr }, random, cycle, cycles)
            == Step::Halt(Fault::StackOverflow),
        m.stack.len() < STACK_SIZE ==> m.execute(Instruction::Call { addr }, random, cycle, cycles)
            is Continue,
        m.stack.len() == 0 ==> m.execute(Instruction::Return, random, cycle, cycles) == Step::Halt(
            Fault::StackUnderflow,
        ),
        m.stack.len() > 0 ==> m.execute(Instruction::Return, random, cycle, cycles) is Continue,
{
}

/// A return that finds the stack as a call left it goes to the
/// instruction after that call and leaves the stack as it was before it.
pub proof fn lemma_call_then_return(
    m: Machine,
    addr: u16,
    later: Machine,
    random: u8,
    cycle: nat,
    cycles: nat,
)
    requires
        m.wf(),
        m.pc_valid(),
        m.stack.len() < STACK_SIZE,
        later.stack == reached(m.execute(Instruction::Call { addr }, random, cycle, cycles)).stack,
    ensures
        reached(m.execute(Instruction::Call { addr }, random, cycle, cycles)).pc == addr,
        later.execute(Instruction::Return, random, cycle, cycles) is Continue,
        reached(later.execute(Instruction::Return, random, cycle, cycles)).pc == m.pc + 2,
        reached(later.execute(Instruction::Return, random, cycle, cycles)).stack == m.stack,
{
    let called = reached(m.execute(Instruction::Call { addr }, random, cycle, cycles));
    assert(called.stack == m.stack.push((m.pc + 2) as u16));
    assert(later.stack.drop_last() =~= m.stack);
}

/// Drawing the same sprite twice at the same place brings the display
/// back, and the second draw reports a collision exactly when the first
/// one lit a pixel.
pub proof fn lemma_draw_twice(display: Seq<bool>, sprite: Seq<u8>, left: int, top: int)
    ensures
        drawn(drawn(display, sprite, left, top), sprite, left, top) == display,
        collides(drawn(display, sprite, left, top), sprite, left, top) <==> exists|p: int|
            0 <= p < display.len() && !#[trigger] display[p] && flips(sprite, left, top, p),
{
    let once = drawn(display, sprite, left, top);
    assert(drawn(once, sprite, left, top) =~= display);
    if collides(once, sprite, left, top) {
        let p = choose|p: int| 0 <= p < once.len() && #[trigger] once[p] && flips(sprite, left, top, p);
        assert(!display[p] && flips(sprite, left, top, p));
    }
    if exists|p: int|
        0 <= p < display.len() && !#[trigger] display[p] && flips(sprite, left, top, p) {
        let p = choose|p: int|
            0 <= p < display.len() && !#[trigger] display[p] && flips(sprite, left, top, p);
        assert(once[p] && flips(sprite, left, top, p));
    }
}

/// Whether going from the display `before` to the display `after` lit a pixel.
pub open spec fn lit_a_pixel(before: Seq<bool>, after: Seq<bool>) -> bool {
    exists|p: int| 0 <= p < before.len() && !#[trigger] before[p] && after[p]
}

/// Executing the same draw twice brings the display back, and the second
/// draw leaves 1 in the flag register exactly when the first one lit a
/// pixel, and 0 otherwise.
pub proof fn lemma_draw_twice_on_machine(
    m: Machine,
    x: u8,
    y: u8,
    n: u8,
    random: u8,
    cycle: nat,
    cycles: nat,
)
    requires
        m.wf(),
        x < 16,
        y < 16,
        n < 16,
        m.index + n <= MEMORY_SIZE,
    ensures
        ({
            let draw = Instruction::Draw { x, y, n };
            let once = reached(m.execute(draw, random, cycle, cycles));
            let twice = reached(once.execute(draw, random, cycle, cycles));
            &&& !(m.execute(draw, random, cycle, cycles) is Halt)
            &&& !(once.execute(draw, random, cycle, cycles) is Halt)
            &&& twice.display == m.display
            &&& twice.v(FLAGS_REGISTER as u8) == if lit_a_pixel(m.display, once.display) {
                1u8
            } else {
                0u8
            }
        }),
{
    let cleared = m.with_register(FLAGS_REGISTER as u8, 0);
    let left = (cleared.v(x) % 64) as int;
    let top = (cleared.v(y) % 32) as int;
    let sprite = m.memory.subrange(m.index as int, m.index + n);
    let draw = Instruction::Draw { x, y, n };
    let once = reached(m.execute(draw, random, cycle, cycles));
    assert(once.display == drawn(m.display, sprite, left, top));
    assert(once.with_register(FLAGS_REGISTER as u8, 0).v(x) == cleared.v(x));
    assert(once.with_register(FLAGS_REGISTER as u8, 0).v(y) == cleared.v(y));
    lemma_draw_twice(m.display, sprite, left, top);
    if lit_a_pixel(m.display, once.display) {
        let p = choose|p: int| 0 <= p < m.display.len() && !#[trigger] m.display[p] && once.display[p];
        assert(!m.display[p] && flips(sprite, left, top, p));
    }
    if collides(once.display, sprite, left, top) {
        let p = choose|p: int|
            0 <= p < m.display.len() && !#[trigger] m.display[p] && flips(sprite, left, top, p);
        assert(!m.display[p] && once.display[p]);
    }
}

/// A draw changes no pixel outside the sprite's rectangle. In particular
/// a sprite that reaches past the right edge changes nothing in the
/// columns left of it, and one that reaches past the bottom edge nothing
/// in the rows above it: it is clipped, not wrapped.
pub proof fn lemma_draw_clips(display: Seq<bool>, sprite: Seq<u8>, left: int, top: int, p: int)
    requires
        0 <= p < display.len(),
        !(left <= p % 64 < left + 8) || !(top <= p / 64 < top + sprite.len()),
    ensures
        drawn(display, sprite, left, top)[p] == display[p],
{
}

/// The total of the cycles that `frames` frames in a row execute.
pub open spec fn cycles_over(clock_buffer: u32, clock_hz: u32, frames: nat) -> nat
    decreases frames,
{
    if frames == 0 {
        0
    } else {
        cycles_in_frame(clock_buffer, clock_hz) + cycles_over(
            carried_clock(clock_buffer, clock_hz),
            clock_hz,
            (frames - 1) as nat,
        )
    }
}

/// What the accumulator holds after `frames` frames in a row.
pub open spec fn carried_over(clock_buffer: u32, clock_hz: u32, frames: nat) -> u32
    decreases frames,
{
    if frames == 0 {
        clock_buffer
    } else {
        carried_over(carried_clock(clock_buffer, clock_hz), clock_hz, (frames - 1) as nat)
    }
}

/// Over any number of frames the cycles executed and the remainder
/// carried account for the clock rate exactly: nothing drifts.
pub proof fn lemma_cycles_do_not_drift(clock_buffer: u32, clock_hz: u32, frames: nat)
    requires
        clock_buffer < 60,
    ensures
        cycles_over(clock_buffer, clock_hz, frames) * 60 + carried_over(
            clock_buffer,
            clock_hz,
            frames,
        ) == clock_buffer + frames * clock_hz,
        carried_over(clock_buffer, clock_hz, frames) < 60,
    decreases frames,
{
    if frames > 0 {
        let cycles = cycles_in_frame(clock_buffer, clock_hz);
        let carried = carried_clock(clock_buffer, clock_hz);
        assert(cycles * 60 + carried == clock_buffer + clock_hz);
        lemma_cycles_do_not_drift(carried, clock_hz, (frames - 1) as nat);
        assert(frames * clock_hz == (frames - 1) * clock_hz + clock_hz) by (nonlinear_arith);
    } else {
        assert(frames * clock_hz == 0) by (nonlinear_arith)
            requires
                frames == 0,
        ;
    }
}

/// A key read that finds no release pending leaves the machine as it is
/// and ends the frame's execution.
pub proof fn lemma_wait_blocks(m: Machine, x: u8, random: u8, cycle: nat, cycles: nat)
    requires
        m.wf(),
        m.nothing_released(),
    ensures
        m.execute(Instruction::WaitKey { x }, random, cycle, cycles) == Step::Suspend(m),
{
    lemma_first_set_at(m.released, 0, 16);
}

/// A key read takes the lowest key whose release is pending: the key goes
/// to `Vx`, its release is no longer pending, the other releases stay,
/// and the program counter moves on.
pub proof fn lemma_wait_takes_release(
    m: Machine,
    x: u8,
    key: u8,
    random: u8,
    cycle: nat,
    cycles: nat,
)
    requires
        m.wf(),
        m.pc_valid(),
        x < 16,
        key < 16,
        m.released[key as int],
        forall|k: int| 0 <= k < key ==> !m.released[k],
    ensures
        ({
            let step = m.execute(Instruction::WaitKey { x }, random, cycle, cycles);
            &&& step is Continue
            &&& reached(step).v(x) == key
            &&& !reached(step).released[key as int]
            &&& forall|k: int| 0 <= k < 16 && k != key ==> reached(step).released[k] == m.released[k]
            &&& reached(step).pc == m.pc + 2
        }),
{
    lemma_first_set_at(m.released, 0, key as int);
}

/// While the machine stands at a key read and no release is pending, a
/// frame moves nothing but the clock and the timers, and ends with the
/// machine still at that key read with no release pending.
pub proof fn lemma_wait_holds_frame(m: Machine, x: u8, randoms: Seq<u8>)
    requires
        m.wf(),
        m.fetch() == Ok::<Instruction, Fault>(Instruction::WaitKey { x }),
        m.nothing_released(),
    ensures
        m.frame(randoms) == (m.begin_frame().end_frame(), None::<Fault>),
        m.frame(randoms).0.pc == m.pc,
        m.frame(randoms).0.wf(),
        m.frame(randoms).0.fetch() == Ok::<Instruction, Fault>(Instruction::WaitKey { x }),
        m.frame(randoms).0.nothing_released(),
{
    let start = m.begin_frame();
    let cycles = cycles_in_frame(m.clock_buffer, m.clock_hz);
    if cycles > 0 {
        lemma_wait_blocks(start, x, random_byte(randoms, 0), 0, cycles);
        assert(start.after_cycles(randoms, cycles, 0) == Progress::Running(start));
        assert(start.after_cycles(randoms, cycles, 1) == Progress::Suspended(start));
        lemma_stopped_stays(start, randoms, cycles, 1, cycles);
    }
    assert(start.end_frame().released =~= m.released);
}

/// While no key is released, a machine that stands at a key read stays
/// there over any number of frames, without a fault.
pub proof fn lemma_wait_holds(m: Machine, x: u8, randoms: Seq<Seq<u8>>, frames: nat)
    requires
        m.wf(),
        m.fetch() == Ok::<Instruction, Fault>(Instruction::WaitKey { x }),
        m.nothing_released(),
    ensures
        m.after_frames(randoms, frames).1 is None,
        m.after_frames(randoms, frames).0.pc == m.pc,
        m.after_frames(randoms, frames).0.wf(),
        m.after_frames(randoms, frames).0.fetch() == Ok::<Instruction, Fault>(
            Instruction::WaitKey { x },
        ),
        m.after_frames(randoms, frames).0.nothing_released(),
    decreases frames,
{
    if frames > 0 {
        lemma_wait_holds(m, x, randoms, (frames - 1) as nat);
        lemma_wait_holds_frame(
            m.after_frames(randoms, (frames - 1) as nat).0,
            x,
            randoms[frames - 1],
        );
    }
}

/// Whether the machine stands at `PROGRAM_START` on a jump to `PROGRAM_START`.
pub open spec fn jumps_to_itself(m: Machine) -> bool {
    &&& m.wf()
    &&& m.pc == PROGRAM_START
    &&& m.memory[PROGRAM_START as int] == 0x12
    &&& m.memory[PROGRAM_START + 1] == 0x00
}

/// A machine that stands on a jump to itself is still running there after any number of passes.
proof fn lemma_jump_to_self_cycles(m: Machine, randoms: Seq<u8>, cycles: nat, k: nat)
    requires
        jumps_to_itself(m),
    ensures
        m.after_cycles(randoms, cycles, k) == Progress::Running(m),
    decreases k,
{
    if k > 0 {
        lemma_jump_to_self_cycles(m, randoms, cycles, (k - 1) as nat);
        assert(m.fetch() == Ok::<Instruction, Fault>(Instruction::Jump { addr: 0x200 }));
    }
}

/// A machine that stands on a jump to itself gets through a frame
/// without a fault and stands there again.
pub proof fn lemma_jump_to_self_frame(m: Machine, randoms: Seq<u8>)
    requires
        jumps_to_itself(m),
    ensures
        m.frame(randoms).1 is None,
        jumps_to_itself(m.frame(randoms).0),
{
    let cycles = cycles_in_frame(m.clock_buffer, m.clock_hz);
    lemma_jump_to_self_cycles(m.begin_frame(), randoms, cycles, cycles);
}

/// A program that consists of a jump to itself runs for any number of
/// frames without a fault, the program counter at `PROGRAM_START` after each.
pub proof fn lemma_jump_to_self_forever(
    clock_hz: u32,
    draw_sync: bool,
    randoms: Seq<Seq<u8>>,
    frames: nat,
)
    ensures
        initial_machine(seq![0x12u8, 0x00u8], clock_hz, draw_sync).after_frames(randoms, frames).1
            is None,
        jumps_to_itself(
            initial_machine(seq![0x12u8, 0x00u8], clock_hz, draw_sync).after_frames(
                randoms,
                frames,
            ).0,
        ),
    decreases frames,
{
    let m = initial_machine(seq![0x12u8, 0x00u8], clock_hz, draw_sync);
    if frames > 0 {
        lemma_jump_to_self_forever(clock_hz, draw_sync, randoms, (frames - 1) as nat);
        lemma_jump_to_self_frame(m.after_frames(randoms, (frames - 1) as nat).0, randoms[frames - 1]);
    }
}

/// A program counter that is odd or outside the program region faults,
/// whatever the memory holds.
pub proof fn lemma_invalid_program_counter_faults(m: Machine, random: u8, cycle: nat, cycles: nat)
    requires
        m.pc < PROGRAM_START || m.pc >= MEMORY_SIZE || m.pc % 2 == 1,
    ensures
        m.step(random, cycle, cycles) == Step::Halt(Fault::ProgramCounter),
{
}

/// Where a frame has faulted, that fault is pending in the state it stopped in.
proof fn lemma_frame_fault_is_pending(start: Machine, randoms: Seq<u8>, cycles: nat, k: nat)
    ensures
        start.after_cycles(randoms, cycles, k) matches Progress::Faulted(m, fault)
            ==> m.pending_fault() == Some(fault),
    decreases k,
{
    if k > 0 {
        lemma_frame_fault_is_pending(start, randoms, cycles, (k - 1) as nat);
        match start.after_cycles(randoms, cycles, (k - 1) as nat) {
            Progress::Running(m) => {
                lemma_step_faults_when_pending(
                    m,
                    random_byte(randoms, (k - 1) as nat),
                    (k - 1) as nat,
                    cycles,
                );
            },
            _ => {},
        }
    }
}

/// A fault is terminal: a frame that faults leaves the machine in a state
/// in which that fault is pending, and every later frame that executes
/// anything stops on it again without changing the machine further.
pub proof fn lemma_fault_is_terminal(m: Machine, randoms: Seq<u8>, later: Seq<u8>)
    requires
        m.frame(randoms).1 is Some,
    ensures
        m.frame(randoms).0.pending_fault() == m.frame(randoms).1,
        cycles_in_frame(m.frame(randoms).0.clock_buffer, m.frame(randoms).0.clock_hz) > 0 ==> {
            &&& m.frame(randoms).0.frame(later).1 == m.frame(randoms).1
            &&& m.frame(randoms).0.frame(later).0 == m.frame(randoms).0.begin_frame()
        },
{
    let cycles = cycles_in_frame(m.clock_buffer, m.clock_hz);
    lemma_frame_fault_is_pending(m.begin_frame(), randoms, cycles, cycles);
    let stopped = m.frame(randoms).0;
    let fault = m.frame(randoms).1->Some_0;
    let restart = stopped.begin_frame();
    let again = cycles_in_frame(stopped.clock_buffer, stopped.clock_hz);
    if again > 0 {
        assert(restart.pending_fault() == stopped.pending_fault());
        lemma_step_faults_when_pending(restart, random_byte(later, 0), 0, again);
        assert(restart.after_cycles(later, again, 0) == Progress::Running(restart));
        assert(restart.after_cycles(later, again, 1) == Progress::Faulted(restart, fault));
        lemma_stopped_stays(restart, later, again, 1, again);
    }
}

/// No instruction changes the clock.
pub proof fn lemma_execute_keeps_clock(
    m: Machine,
    instruction: Instruction,
    random: u8,
    cycle: nat,
    cycles: nat,
)
    requires
        !(m.execute(instruction, random, cycle, cycles) is Halt),
    ensures
        reached(m.execute(instruction, random, cycle, cycles)).clock_hz == m.clock_hz,
        reached(m.execute(instruction, random, cycle, cycles)).clock_buffer == m.clock_buffer,
        reached(m.execute(instruction, random, cycle, cycles)).draw_sync == m.draw_sync,
{
}

/// No instruction changes memory below `PROGRAM_START`, where the glyphs are.
pub proof fn lemma_low_memory_is_kept(
    m: Machine,
    instruction: Instruction,
    random: u8,
    cycle: nat,
    cycles: nat,
    address: int,
)
    requires
        m.wf(),
        instruction.wf(),
        0 <= address < PROGRAM_START,
        !(m.execute(instruction, random, cycle, cycles) is Halt),
    ensures
        reached(m.execute(instruction, random, cycle, cycles)).memory[address] == m.memory[address],
{
    lemma_first_set_is_first(m.released, 0);
}

/// Only a draw and a clear change the display.
pub proof fn lemma_display_is_kept(
    m: Machine,
    instruction: Instruction,
    random: u8,
    cycle: nat,
    cycles: nat,
)
    requires
        m.wf(),
        instruction.wf(),
        !(instruction is Draw),
        !(instruction is ClearScreen),
        !(m.execute(instruction, random, cycle, cycles) is Halt),
    ensures
        reached(m.execute(instruction, random, cycle, cycles)).display == m.display,
{
    lemma_first_set_is_first(m.released, 0);
}

} // verus!
