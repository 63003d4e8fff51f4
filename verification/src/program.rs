//! The micro-program of the serial clock engine, assembled for the
//! sequencer with the `pio` assembler.

use vstd::prelude::*;

verus! {

/// Number of instruction slots of the sequencer.
pub const PROGRAM_SLOTS: usize = 32;

/// Largest delay an instruction may carry when no side-set bits are in use.
pub const MAX_DELAY: u8 = 31;

/// Largest value that a `set` instruction can hold.
pub const MAX_LEVEL: u8 = 31;

/// The assembler of the `pio` crate, opaque to the verifier.
#[verifier::external_type_specification]
#[verifier::external_body]
pub struct ExAssembler<const PROGRAM_SIZE: usize>(pio::Assembler<PROGRAM_SIZE>);

/// A label of the `pio` assembler, opaque to the verifier.
#[verifier::external_type_specification]
#[verifier::external_body]
pub struct ExLabel(pio::Label);

/// The instructions that an assembler holds, in order, each as the 16-bit
/// word that it assembles to.
pub uninterp spec fn assembler_words(a: pio::Assembler<32>) -> Seq<u16>;

/// Whether the assembler can assemble what it holds: it was made without
/// side-set bits, and none of its instructions carries a side-set value or
/// a delay above `MAX_DELAY`.
pub uninterp spec fn assembler_sound(a: pio::Assembler<32>) -> bool;

/// The state of a label: `Ok(offset)` once it is bound to the instruction at
/// `offset`; `Err(link)` while it is unbound, `link` being the offset of the
/// latest jump that waits for it, or 255 where no jump does.
pub uninterp spec fn label_state(l: pio::Label) -> Result<u8, u8>;

/// The state of a label that was just made: unbound, no jump waiting.
pub open spec fn label_fresh() -> Result<u8, u8> {
    Err(255u8)
}

/// The state of a label bound to the instruction at `offset`.
pub open spec fn label_bound(offset: u8) -> Result<u8, u8> {
    Ok(offset)
}

/// The word for `set pins, level [delay]`: operation 111, the delay in bits
/// 8 to 12, destination 000, the level in bits 0 to 4.
pub open spec fn set_pins_word(level: u8, delay: u8) -> u16 {
    0xe000u16 | ((delay as u16) << 8) | (level as u16)
}

/// The word for `out pins, count`: operation 011, no delay, destination
/// 000, the bit count in bits 0 to 4.
pub open spec fn out_pins_word(count: u8) -> u16 {
    0x6000u16 | ((count & 0x1f) as u16)
}

/// A program as the sequencer takes it: the instruction words, and the two
/// offsets between which execution wraps.
pub struct EngineProgram {
    /// The instruction words, first instruction first.
    pub code: Vec<u16>,
    /// Offset of the instruction after which execution wraps.
    pub wrap_source: u8,
    /// Offset of the instruction at which execution goes on after a wrap.
    pub wrap_target: u8,
}

/// Calls `pio::Assembler::new`. Trusted: the new assembler holds no
/// instruction and uses no side-set bits.
#[verifier::external_body]
fn assembler_new() -> (a: pio::Assembler<32>)
    ensures
        assembler_words(a) == Seq::<u16>::empty(),
        assembler_sound(a),
{
    pio::Assembler::new()
}

/// Calls `pio::Assembler::label`. Trusted: the label comes back unbound with
/// no jump waiting for it, and the assembler is untouched.
#[verifier::external_body]
fn assembler_label(a: &mut pio::Assembler<32>) -> (l: pio::Label)
    ensures
        label_state(l) == label_fresh(),
        assembler_words(*final(a)) == assembler_words(*old(a)),
        assembler_sound(*final(a)) == assembler_sound(*old(a)),
{
    a.label()
}

/// Calls `pio::Assembler::bind`. Trusted: a label that no jump waits for
/// becomes bound to the offset of the next instruction to be emitted, and
/// the assembler is untouched.
#[verifier::external_body]
fn assembler_bind(a: &mut pio::Assembler<32>, l: &mut pio::Label)
    requires
        label_state(*old(l)) == label_fresh(),
    ensures
        label_state(*final(l)) == label_bound(assembler_words(*old(a)).len() as u8),
        assembler_words(*final(a)) == assembler_words(*old(a)),
        assembler_sound(*final(a)) == assembler_sound(*old(a)),
{
    a.bind(l)
}

/// Calls `pio::Assembler::set` with the destination `PINS`. Trusted: one
/// instruction is appended, which assembles to `set_pins_word(level, 0)`.
#[verifier::external_body]
fn assembler_set_pins(a: &mut pio::Assembler<32>, level: u8)
    requires
        assembler_sound(*old(a)),
        assembler_words(*old(a)).len() < PROGRAM_SLOTS,
        level <= MAX_LEVEL,
    ensures
        assembler_words(*final(a)) == assembler_words(*old(a)).push(set_pins_word(level, 0)),
        assembler_sound(*final(a)),
{
    a.set(pio::SetDestination::PINS, level)
}

/// Calls `pio::Assembler::set_with_delay` with the destination `PINS`.
/// Trusted: one instruction is appended, which assembles to
/// `set_pins_word(level, delay)`.
#[verifier::external_body]
fn assembler_set_pins_with_delay(a: &mut pio::Assembler<32>, level: u8, delay: u8)
    requires
        assembler_sound(*old(a)),
        assembler_words(*old(a)).len() < PROGRAM_SLOTS,
        level <= MAX_LEVEL,
        delay <= MAX_DELAY,
    ensures
        assembler_words(*final(a)) == assembler_words(*old(a)).push(set_pins_word(level, delay)),
        assembler_sound(*final(a)),
{
    a.set_with_delay(pio::SetDestination::PINS, level, delay)
}

/// Calls `pio::Assembler::out` with the destination `PINS`. Trusted: one
/// instruction is appended, which assembles to `out_pins_word(count)`.
#[verifier::external_body]
fn assembler_out_pins(a: &mut pio::Assembler<32>, count: u8)
    requires
        assembler_sound(*old(a)),
        assembler_words(*old(a)).len() < PROGRAM_SLOTS,
    ensures
        assembler_words(*final(a)) == assembler_words(*old(a)).push(out_pins_word(count)),
        assembler_sound(*final(a)),
{
    a.out(pio::OutDestination::PINS, count)
}

/// Calls `pio::Assembler::assemble_with_wrap` and copies the result out.
/// Trusted: the code is the assembler's instructions as words, execution
/// wraps after the instruction just before the `source` label, and goes on
/// at the `target` label.
#[verifier::external_body]
fn assembler_finish(a: pio::Assembler<32>, source: pio::Label, target: pio::Label) -> (p:
    EngineProgram)
    requires
        assembler_sound(a),
        label_state(source) is Ok,
        label_state(target) is Ok,
        1 <= label_state(source)->Ok_0 <= assembler_words(a).len(),
        label_state(target)->Ok_0 < assembler_words(a).len(),
    ensures
        p.code@ == assembler_words(a),
        p.wrap_source == label_state(source)->Ok_0 - 1,
        p.wrap_target == label_state(target)->Ok_0,
{
    let program = a.assemble_with_wrap(source, target);
    EngineProgram {
        code: program.code.to_vec(),
        wrap_source: program.wrap.source,
        wrap_target: program.wrap.target,
    }
}

/// The three steps that the engine repeats for every bit.
#[derive(Clone, Copy, Debug, PartialEq, Eq, Structural)]
pub enum Step {
    /// Drive the clock pin high.
    ClockHigh,
    /// Shift the next bit of the current word onto the data pin.
    ShiftBit,
    /// Drive the clock pin low and hold it for one further cycle.
    ClockLow,
}

/// Cycles that one pass through the three steps takes when no step stalls.
pub const CYCLES_PER_BIT: u32 = 4;

/// System clock cycles that make one cycle of the engine.
pub const CLOCK_DIVISOR: u16 = 2560;

/// The step that follows `step`; after the last the program wraps.
pub open spec fn next_step(step: Step) -> Step {
    match step {
        Step::ClockHigh => Step::ShiftBit,
        Step::ShiftBit => Step::ClockLow,
        Step::ClockLow => Step::ClockHigh,
    }
}

/// Further cycles for which the engine waits after it has executed `step`.
pub open spec fn step_delay(step: Step) -> u8 {
    match step {
        Step::ClockHigh => 0,
        Step::ShiftBit => 0,
        Step::ClockLow => 1,
    }
}

/// The instruction word that stands for `step` in the program.
pub open spec fn step_word(step: Step) -> u16 {
    match step {
        Step::ClockHigh => set_pins_word(1, step_delay(step)),
        Step::ShiftBit => out_pins_word(1),
        Step::ClockLow => set_pins_word(0, step_delay(step)),
    }
}

/// The words of the clock program: one instruction for each step, in order.
pub open spec fn clock_program_words() -> Seq<u16> {
    seq![step_word(Step::ClockHigh), step_word(Step::ShiftBit), step_word(Step::ClockLow)]
}

impl Step {
    /// The step that follows this one.
    pub fn next(self) -> (step: Step)
        ensures
            step == next_step(self),
    {
        match self {
            Step::ClockHigh => Step::ShiftBit,
            Step::ShiftBit => Step::ClockLow,
            Step::ClockLow => Step::ClockHigh,
        }
    }

    /// Further cycles for which the engine waits after this step.
    pub fn delay(self) -> (cycles: u8)
        ensures
            cycles == step_delay(self),
            cycles <= MAX_DELAY,
    {
        match self {
            Step::ClockHigh => 0,
            Step::ShiftBit => 0,
            Step::ClockLow => 1,
        }
    }
}

/// Assembles the program that the engine of each channel runs. Per bit it
/// drives the clock pin high, shifts one bit onto the data pin, and drives
/// the clock pin low for two cycles; then it wraps to the start.
pub fn clock_program() -> (p: EngineProgram)
    ensures
        p.code@ == clock_program_words(),
        p.code@ == seq![0xe001u16, 0x6001u16, 0xe100u16],
        p.wrap_target == 0,
        p.wrap_source == 2,
{
    let mut a = assembler_new();
    let mut wrap_target = assembler_label(&mut a);
    let mut wrap = assembler_label(&mut a);
    assembler_bind(&mut a, &mut wrap_target);
    assembler_set_pins(&mut a, 1);
    assembler_out_pins(&mut a, 1);
    assembler_set_pins_with_delay(&mut a, 0, Step::ClockLow.delay());
    assembler_bind(&mut a, &mut wrap);
    let p = assembler_finish(a, wrap, wrap_target);
    proof {
        assert(set_pins_word(1, 0) == 0xe001u16) by (bit_vector);
        assert(out_pins_word(1) == 0x6001u16) by (bit_vector);
        assert(set_pins_word(0, 1) == 0xe100u16) by (bit_vector);
    }
    p
}

/// The number of bits that a channel sends per second when the system clock
/// runs at `sys_clock_hz`: the engine runs one cycle every `CLOCK_DIVISOR`
/// system cycles and takes `CYCLES_PER_BIT` cycles for a bit. Rounded down.
pub fn bit_rate_hz(sys_clock_hz: u32) -> (hz: u32)
    ensures
        hz == sys_clock_hz as int / (CLOCK_DIVISOR * CYCLES_PER_BIT),
{
    sys_clock_hz / (CLOCK_DIVISOR as u32 * CYCLES_PER_BIT)
}

} // verus!
