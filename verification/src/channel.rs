//! One channel of the device: a bounded transmit queue and the engine that
//! shifts the queued words, bit by bit, onto a clock pin and a data pin.

use crate::frame::{
    bit_at, code_bits, framed, lemma_frame_on_wire, parity_of, word_bits, RawCode, FRAME_BITS,
};
use crate::program::{next_step, step_delay, Step, CYCLES_PER_BIT};
use crate::queue::{TransmitQueue, QUEUE_DEPTH};
use vstd::prelude::*;

verus! {

/// The levels on the two pins of a channel.
#[derive(Clone, Copy, Debug, PartialEq, Eq, Structural)]
pub struct Signal {
    /// Level of the clock pin.
    pub clock: bool,
    /// Level of the data pin.
    pub data: bool,
}

/// The bits of `words` in the order in which they go onto the wire: of each
/// word in turn the low `FRAME_BITS` bits, lowest first.
pub open spec fn wire_bits(words: Seq<u32>) -> Seq<bool> {
    Seq::new(
        FRAME_BITS as nat * words.len(),
        |k: int| bit_at(words[k / FRAME_BITS as int], k % FRAME_BITS as int),
    )
}

/// A channel as a mathematical value: its pins, its queue, the registers of
/// its engine, and the record of what it has taken in and put out so far.
pub struct ChannelState {
    /// Number of the clock pin.
    pub clock_pin: u8,
    /// Number of the data pin.
    pub data_pin: u8,
    /// The queued words, head first.
    pub queue: Seq<u32>,
    /// The shift register; its lowest bit goes out next.
    pub shift: u32,
    /// Bits of the current word that are still in the shift register.
    pub pending: nat,
    /// The step that the engine executes next.
    pub step: Step,
    /// Cycles for which the engine still waits before that step.
    pub hold: nat,
    /// Level of the clock pin.
    pub clock: bool,
    /// Level of the data pin.
    pub data: bool,
    /// Every word that the queue has accepted, in order.
    pub accepted: Seq<u32>,
    /// Every bit that the engine has shifted onto the data pin, in order.
    pub sent: Seq<bool>,
    /// Number of times the clock pin has gone from high to low.
    pub pulses: nat,
}

impl ChannelState {
    /// A channel before its first cycle: both pins low, nothing queued,
    /// nothing sent, the engine about to drive the clock high.
    pub open spec fn init(clock_pin: u8, data_pin: u8) -> ChannelState {
        ChannelState {
            clock_pin,
            data_pin,
            queue: Seq::empty(),
            shift: 0,
            pending: 0,
            step: Step::ClockHigh,
            hold: 0,
            clock: false,
            data: false,
            accepted: Seq::empty(),
            sent: Seq::empty(),
            pulses: 0,
        }
    }

    /// The levels on the two pins.
    pub open spec fn signal(self) -> Signal {
        Signal { clock: self.clock, data: self.data }
    }

    /// Whether the queue can take another word.
    pub open spec fn has_room(self) -> bool {
        self.queue.len() < QUEUE_DEPTH
    }

    /// Number of words that the engine has taken from the queue.
    pub open spec fn drained(self) -> int {
        self.accepted.len() - self.queue.len()
    }

    /// The channel after `word` has joined the tail of the queue.
    pub open spec fn accept(self, word: u32) -> ChannelState {
        ChannelState {
            queue: self.queue.push(word),
            accepted: self.accepted.push(word),
            ..self
        }
    }

    /// The channel after an attempt to enqueue `word`: accepted where the
    /// queue has room, without effect where it is full.
    pub open spec fn offer(self, word: u32) -> ChannelState {
        if self.has_room() {
            self.accept(word)
        } else {
            self
        }
    }

    /// Whether the engine is stalled: it is due to shift a bit, the shift
    /// register is exhausted and the queue is empty.
    pub open spec fn starved(self) -> bool {
        &&& self.hold == 0
        &&& self.step == Step::ShiftBit
        &&& self.pending == 0
        &&& self.queue.len() == 0
    }

    /// Nothing is left to transmit: the queue and the shift register are
    /// both empty.
    pub open spec fn idle(self) -> bool {
        self.pending == 0 && self.queue.len() == 0
    }

    /// The channel with the shift register filled from the head of the
    /// queue, where it was exhausted and the queue holds a word.
    pub open spec fn refilled(self) -> ChannelState {
        if self.pending == 0 && self.queue.len() > 0 {
            ChannelState {
                shift: self.queue[0],
                pending: FRAME_BITS as nat,
                queue: self.queue.subrange(1, self.queue.len() as int),
                ..self
            }
        } else {
            self
        }
    }

    /// The channel after the lowest bit of the shift register has gone onto
    /// the data pin.
    pub open spec fn shifted(self) -> ChannelState {
        ChannelState {
            data: self.shift & 1 == 1,
            sent: self.sent.push(self.shift & 1 == 1),
            shift: self.shift >> 1,
            pending: (self.pending - 1) as nat,
            ..self
        }
    }

    /// The effect of the step that is due, on pins, registers and queue.
    pub open spec fn executed(self) -> ChannelState {
        match self.step {
            Step::ClockHigh => ChannelState { clock: true, ..self },
            Step::ShiftBit => self.refilled().shifted(),
            Step::ClockLow => ChannelState {
                clock: false,
                pulses: self.pulses + if self.clock { 1nat } else { 0nat },
                ..self
            },
        }
    }

    /// The channel one cycle later. A pending delay runs down by one;
    /// a starved engine stays as it is; otherwise the step that is due
    /// executes, and the engine moves on to the next step after the delay
    /// that belongs to the executed one.
    pub open spec fn tick(self) -> ChannelState {
        if self.hold > 0 {
            ChannelState { hold: (self.hold - 1) as nat, ..self }
        } else if self.starved() {
            self
        } else {
            ChannelState {
                step: next_step(self.step),
                hold: step_delay(self.step) as nat,
                ..self.executed()
            }
        }
    }

    /// The channel `n` cycles later, with nothing enqueued meanwhile.
    pub open spec fn run(self, n: nat) -> ChannelState
        decreases n,
    {
        if n == 0 {
            self
        } else {
            self.run((n - 1) as nat).tick()
        }
    }

    /// What holds of every channel at every time: the queue is within its
    /// depth and is the tail of what was accepted; the bits sent are the
    /// wire bits of the accepted words, in order, as far as the engine has
    /// come; the shift register holds the rest of the current word; and the
    /// clock has pulsed once for each bit sent.
    pub open spec fn inv(self) -> bool {
        &&& self.queue.len() <= QUEUE_DEPTH
        &&& self.queue.len() <= self.accepted.len()
        &&& self.queue =~= self.accepted.subrange(self.drained(), self.accepted.len() as int)
        &&& self.pending < FRAME_BITS
        &&& self.hold <= 1
        &&& self.hold == 1 ==> self.step == Step::ClockHigh
        &&& self.clock == (self.step != Step::ClockHigh)
        &&& self.sent.len() + self.pending == FRAME_BITS * self.drained()
        &&& self.sent =~= wire_bits(self.accepted).take(self.sent.len() as int)
        &&& self.pending > 0 ==> self.shift == self.accepted[self.drained() - 1] >> ((FRAME_BITS
            - self.pending) as u32)
        &&& self.pulses + (if self.step == Step::ClockLow { 1nat } else { 0nat })
            == self.sent.len()
        &&& self.data == (self.sent.len() > 0 && self.sent.last())
    }
}

/// Shifting right by `k` and then by one is shifting right by `k + 1`, and
/// shifting by nothing changes nothing.
proof fn lemma_shift_right(w: u32, k: u32, k1: u32)
    by (bit_vector)
    requires
        k < 31,
        k1 == k + 1,
    ensures
        (w >> k) >> 1 == w >> k1,
        w >> 0 == w,
{
}

/// A new channel obeys the invariant.
pub proof fn lemma_init_inv(clock_pin: u8, data_pin: u8)
    ensures
        ChannelState::init(clock_pin, data_pin).inv(),
{
}

/// Accepting a word into a queue that has room keeps the invariant.
pub proof fn lemma_accept_inv(s: ChannelState, word: u32)
    requires
        s.inv(),
        s.has_room(),
    ensures
        s.accept(word).inv(),
{
}

/// An attempt to enqueue keeps the invariant, whether it is accepted or not.
pub proof fn lemma_offer_inv(s: ChannelState, word: u32)
    requires
        s.inv(),
    ensures
        s.offer(word).inv(),
{
    if s.has_room() {
        lemma_accept_inv(s, word);
    }
}

/// One cycle of the engine keeps the invariant.
pub proof fn lemma_tick_inv(s: ChannelState)
    requires
        s.inv(),
    ensures
        s.tick().inv(),
{
    if s.hold == 0 && !s.starved() && s.step == Step::ShiftBit {
        let r = s.refilled();
        let word: u32 = r.accepted[r.drained() - 1];
        let k: u32 = (FRAME_BITS - r.pending) as u32;
        lemma_shift_right(word, k, (k + 1) as u32);
    }
}

/// Any number of cycles keeps the invariant.
pub proof fn lemma_run_inv(s: ChannelState, n: nat)
    requires
        s.inv(),
    ensures
        s.run(n).inv(),
    decreases n,
{
    if n > 0 {
        lemma_run_inv(s, (n - 1) as nat);
        lemma_tick_inv(s.run((n - 1) as nat));
    }
}

/// What can happen to a channel: a cycle of its engine passes, or the
/// producer offers a word to its queue.
pub enum Input {
    /// One cycle of the engine.
    Tick,
    /// An attempt to enqueue the word.
    Offer(u32),
}

impl ChannelState {
    /// Bits that are still to be sent: those left in the shift register and
    /// `FRAME_BITS` for each queued word.
    pub open spec fn backlog(self) -> nat {
        FRAME_BITS as nat * self.queue.len() + self.pending
    }

    /// Cycles until the engine has sent its backlog and rests starved with
    /// the clock high, if nothing more is enqueued.
    pub open spec fn work(self) -> nat {
        CYCLES_PER_BIT as nat * self.backlog() + match self.step {
            Step::ShiftBit => 0nat,
            Step::ClockHigh => 1 + self.hold,
            Step::ClockLow => 3nat,
        }
    }

    /// The channel after `input`.
    pub open spec fn apply(self, input: Input) -> ChannelState {
        match input {
            Input::Tick => self.tick(),
            Input::Offer(word) => self.offer(word),
        }
    }

    /// The channel after `inputs`, first to last.
    pub open spec fn replay(self, inputs: Seq<Input>) -> ChannelState
        decreases inputs.len(),
    {
        if inputs.len() == 0 {
            self
        } else {
            self.replay(inputs.drop_last()).apply(inputs.last())
        }
    }
}

/// Whatever happens to a channel, in whatever order, keeps the invariant.
pub proof fn lemma_replay_inv(s: ChannelState, inputs: Seq<Input>)
    requires
        s.inv(),
    ensures
        s.replay(inputs).inv(),
    decreases inputs.len(),
{
    if inputs.len() > 0 {
        let before = s.replay(inputs.drop_last());
        lemma_replay_inv(s, inputs.drop_last());
        match inputs.last() {
            Input::Tick => lemma_tick_inv(before),
            Input::Offer(word) => lemma_offer_inv(before, word),
        }
    }
}

/// Back-pressure. Of the words that a channel has accepted, all but at most
/// `QUEUE_DEPTH` have been drained by the engine, and each drained word has
/// begun to go onto the wire. An offer is refused, and changes nothing,
/// exactly while the queue is full: the word after a full queue gets in
/// only once the engine has drained another.
pub proof fn lemma_back_pressure(s: ChannelState, word: u32)
    requires
        s.inv(),
    ensures
        s.drained() >= s.accepted.len() - QUEUE_DEPTH,
        s.drained() == (s.sent.len() + FRAME_BITS - 1) / (FRAME_BITS as int),
        s.has_room() <==> s.drained() > s.accepted.len() - QUEUE_DEPTH,
        s.has_room() ==> s.offer(word).accepted == s.accepted.push(word),
        !s.has_room() ==> s.offer(word) == s,
{
}

/// Order on the wire. The bits that a channel has sent are the wire bits of
/// the words it accepted, word after word in the order of acceptance and
/// within each word from the lowest bit up, as far as the engine has come.
pub proof fn lemma_sent_in_order(s: ChannelState)
    requires
        s.inv(),
    ensures
        s.sent.len() <= FRAME_BITS * s.accepted.len(),
        s.sent == wire_bits(s.accepted).take(s.sent.len() as int),
        forall|k: int|
            0 <= k < s.sent.len() ==> #[trigger] s.sent[k] == bit_at(
                s.accepted[k / FRAME_BITS as int],
                k % FRAME_BITS as int,
            ),
{
}

/// One pulse per bit. The clock has gone from high to low once for each bit
/// sent, but for the bit that is on the data pin while the clock is still
/// high; and the data pin holds the bit sent last.
pub proof fn lemma_one_pulse_per_bit(s: ChannelState)
    requires
        s.inv(),
    ensures
        s.step == Step::ClockLow ==> s.pulses + 1 == s.sent.len(),
        s.step != Step::ClockLow ==> s.pulses == s.sent.len(),
        s.sent.len() > 0 ==> s.data == s.sent.last(),
        s.clock == (s.step != Step::ClockHigh),
{
}

/// The low phase of the clock. When the engine drives the clock low, the
/// clock has been high, it stays low for exactly two cycles, the step and
/// its delay, and is high again after the third.
pub proof fn lemma_low_phase(s: ChannelState)
    requires
        s.inv(),
        s.hold == 0,
        s.step == Step::ClockLow,
    ensures
        s.clock,
        !s.run(1).clock,
        !s.run(2).clock,
        s.run(3).clock,
        s.run(1).pulses == s.pulses + 1,
        s.run(3).pulses == s.pulses + 1,
{
    reveal_with_fuel(ChannelState::run, 4);
}

/// The bit period. Where a bit has just been shifted out and more is to be
/// sent, the next bit follows exactly `CYCLES_PER_BIT` cycles later, and
/// none before.
pub proof fn lemma_bit_period(s: ChannelState)
    requires
        s.inv(),
        s.hold == 0,
        s.step == Step::ClockLow,
        !s.idle(),
    ensures
        s.run(1).sent == s.sent,
        s.run(2).sent == s.sent,
        s.run(3).sent == s.sent,
        s.run(CYCLES_PER_BIT as nat).sent.len() == s.sent.len() + 1,
        s.run(CYCLES_PER_BIT as nat).step == Step::ClockLow,
        s.run(CYCLES_PER_BIT as nat).hold == 0,
{
    reveal_with_fuel(ChannelState::run, 5);
}

/// A starved engine stays as it is; any other cycle brings the engine one
/// cycle closer to rest and leaves the record of accepted words alone.
pub proof fn lemma_tick_work(s: ChannelState)
    requires
        s.inv(),
    ensures
        s.starved() <==> s.work() == 0,
        s.starved() ==> s.tick() == s,
        !s.starved() ==> s.tick().work() + 1 == s.work(),
        s.tick().accepted == s.accepted,
{
}

/// Left alone for `n` cycles, `n` no more than its work, a channel has that
/// many cycles less to go and has accepted nothing.
pub proof fn lemma_run_work(s: ChannelState, n: nat)
    requires
        s.inv(),
        n <= s.work(),
    ensures
        s.run(n).work() == s.work() - n,
        s.run(n).accepted == s.accepted,
    decreases n,
{
    if n > 0 {
        let before = s.run((n - 1) as nat);
        lemma_run_work(s, (n - 1) as nat);
        lemma_run_inv(s, (n - 1) as nat);
        lemma_tick_work(before);
    }
}

/// Every accepted word is transmitted. Left alone for `work()` cycles, a
/// channel has sent the wire bits of all the words it accepted, no more and
/// no less, has pulsed the clock once for each of those bits, and rests
/// starved with the clock high.
pub proof fn lemma_drains(s: ChannelState)
    requires
        s.inv(),
    ensures
        s.run(s.work()).starved(),
        s.run(s.work()).accepted == s.accepted,
        s.run(s.work()).sent == wire_bits(s.accepted),
        s.run(s.work()).pulses == FRAME_BITS * s.accepted.len(),
        s.run(s.work()).clock,
{
    lemma_run_work(s, s.work());
    lemma_run_inv(s, s.work());
    lemma_tick_work(s.run(s.work()));
}

/// The wire bits of a sequence of words end with the bits of its last word.
pub proof fn lemma_wire_bits_push(words: Seq<u32>, word: u32)
    ensures
        wire_bits(words.push(word)) == wire_bits(words) + word_bits(word),
{
}

/// One code from end to end. A new channel that is offered the framed word
/// of `code` accepts it; 45 cycles later it has pulsed the clock exactly 11
/// times and has put on the data pin, in this order, the start bit 0, the
/// bits of the code from the lowest up, the parity bit and the stop bit 1.
pub proof fn lemma_sends_frame(clock_pin: u8, data_pin: u8, code: RawCode)
    ensures
        ChannelState::init(clock_pin, data_pin).offer(framed(code)).work() == 45,
        ChannelState::init(clock_pin, data_pin).offer(framed(code)).run(45).pulses == 11,
        ChannelState::init(clock_pin, data_pin).offer(framed(code)).run(45).sent == seq![false]
            + code_bits(code) + seq![parity_of(code), true],
{
    lemma_init_inv(clock_pin, data_pin);
    lemma_offer_inv(ChannelState::init(clock_pin, data_pin), framed(code));
    lemma_drains(ChannelState::init(clock_pin, data_pin).offer(framed(code)));
    lemma_wire_bits_push(Seq::<u32>::empty(), framed(code));
    lemma_frame_on_wire(code);
}

/// One channel: a clock pin, a data pin, the transmit queue and the engine.
pub struct Channel {
    clock_pin: u8,
    data_pin: u8,
    queue: TransmitQueue,
    shift: u32,
    pending: u8,
    step: Step,
    hold: u8,
    clock: bool,
    data: bool,
    accepted: Ghost<Seq<u32>>,
    sent: Ghost<Seq<bool>>,
    pulses: Ghost<nat>,
}

impl View for Channel {
    type V = ChannelState;

    closed spec fn view(&self) -> ChannelState {
        ChannelState {
            clock_pin: self.clock_pin,
            data_pin: self.data_pin,
            queue: self.queue@,
            shift: self.shift,
            pending: self.pending as nat,
            step: self.step,
            hold: self.hold as nat,
            clock: self.clock,
            data: self.data,
            accepted: self.accepted@,
            sent: self.sent@,
            pulses: self.pulses@,
        }
    }
}

impl Channel {
    /// Whether the channel is in a state that it can reach: its view obeys
    /// the invariant.
    pub open spec fn wf(&self) -> bool {
        self@.inv()
    }

    /// A channel on the given pins, before its first cycle.
    pub fn new(clock_pin: u8, data_pin: u8) -> (channel: Channel)
        ensures
            channel@ == ChannelState::init(clock_pin, data_pin),
            channel.wf(),
    {
        Channel {
            clock_pin,
            data_pin,
            queue: TransmitQueue::new(),
            shift: 0,
            pending: 0,
            step: Step::ClockHigh,
            hold: 0,
            clock: false,
            data: false,
            accepted: Ghost(Seq::empty()),
            sent: Ghost(Seq::empty()),
            pulses: Ghost(0),
        }
    }

    /// Puts `word` at the tail of the queue if the queue has room, and says
    /// whether it did. A full queue is left as it is.
    pub fn try_enqueue(&mut self, word: u32) -> (taken: bool)
        requires
            old(self).wf(),
        ensures
            final(self).wf(),
            taken == old(self)@.has_room(),
            final(self)@ == old(self)@.offer(word),
    {
        proof {
            lemma_offer_inv(self@, word);
        }
        let taken = self.queue.try_push(word);
        if taken {
            self.accepted = Ghost(self.accepted@.push(word));
        }
        taken
    }

    /// Whether the queue can take another word.
    pub fn has_room(&self) -> (room: bool)
        ensures
            room == self@.has_room(),
    {
        !self.queue.is_full()
    }

    /// Number of words that wait in the queue.
    pub fn queued(&self) -> (count: usize)
        ensures
            count == self@.queue.len(),
    {
        self.queue.len()
    }

    /// Whether nothing is left to transmit.
    pub fn is_idle(&self) -> (idle: bool)
        ensures
            idle == self@.idle(),
    {
        self.pending == 0 && self.queue.is_empty()
    }

    /// Number of the clock pin.
    pub fn clock_pin(&self) -> (pin: u8)
        ensures
            pin == self@.clock_pin,
    {
        self.clock_pin
    }

    /// Number of the data pin.
    pub fn data_pin(&self) -> (pin: u8)
        ensures
            pin == self@.data_pin,
    {
        self.data_pin
    }

    /// The levels on the two pins.
    pub fn signal(&self) -> (signal: Signal)
        ensures
            signal == self@.signal(),
    {
        Signal { clock: self.clock, data: self.data }
    }

    /// Runs the engine for one cycle and returns the levels on the two pins
    /// after it.
    pub fn tick(&mut self) -> (signal: Signal)
        requires
            old(self).wf(),
        ensures
            final(self).wf(),
            final(self)@ == old(self)@.tick(),
            signal == final(self)@.signal(),
    {
        proof {
            lemma_tick_inv(self@);
        }
        if self.hold > 0 {
            self.hold = self.hold - 1;
        } else {
            let mut stalled = false;
            match self.step {
                Step::ClockHigh => {
                    self.clock = true;
                },
                Step::ShiftBit => {
                    if self.pending == 0 {
                        match self.queue.pop() {
                            Some(word) => {
                                self.shift = word;
                                self.pending = FRAME_BITS;
                            },
                            None => {
                                stalled = true;
                            },
                        }
                    }
                    if !stalled {
                        let bit = self.shift & 1 == 1;
                        self.data = bit;
                        self.sent = Ghost(self.sent@.push(bit));
                        self.shift = self.shift >> 1;
                        self.pending = self.pending - 1;
                    }
                },
                Step::ClockLow => {
                    if self.clock {
                        self.pulses = Ghost(self.pulses@ + 1);
                    }
                    self.clock = false;
                },
            }
            if !stalled {
                self.hold = self.step.delay();
                self.step = self.step.next();
            }
        }
        Signal { clock: self.clock, data: self.data }
    }
}

} // verus!
