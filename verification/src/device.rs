//! The device: a keyboard channel and a mouse channel, each on a pin pair of
//! its own, and one control pin that is held high.

use crate::channel::{
    lemma_init_inv, lemma_offer_inv, lemma_sent_in_order, lemma_tick_inv, lemma_tick_work,
    wire_bits, Channel, ChannelState, Input, Signal,
};
use vstd::prelude::*;

verus! {

/// Clock pin of the keyboard channel.
pub const KEYBOARD_CLOCK_PIN: u8 = 11;

/// Data pin of the keyboard channel.
pub const KEYBOARD_DATA_PIN: u8 = 12;

/// The control pin, driven high once and never toggled.
pub const CONTROL_PIN: u8 = 13;

/// Clock pin of the mouse channel.
pub const MOUSE_CLOCK_PIN: u8 = 14;

/// Data pin of the mouse channel.
pub const MOUSE_DATA_PIN: u8 = 15;

/// The two channels of the device.
#[derive(Clone, Copy, Debug, PartialEq, Eq, Structural)]
pub enum ChannelId {
    /// The keyboard channel.
    Keyboard,
    /// The mouse channel.
    Mouse,
}

/// The clock pin that belongs to a channel.
pub open spec fn clock_pin_of(id: ChannelId) -> u8 {
    match id {
        ChannelId::Keyboard => KEYBOARD_CLOCK_PIN,
        ChannelId::Mouse => MOUSE_CLOCK_PIN,
    }
}

/// The data pin that belongs to a channel.
pub open spec fn data_pin_of(id: ChannelId) -> u8 {
    match id {
        ChannelId::Keyboard => KEYBOARD_DATA_PIN,
        ChannelId::Mouse => MOUSE_DATA_PIN,
    }
}

impl ChannelId {
    /// The clock pin of this channel.
    pub fn clock_pin(self) -> (pin: u8)
        ensures
            pin == clock_pin_of(self),
    {
        match self {
            ChannelId::Keyboard => KEYBOARD_CLOCK_PIN,
            ChannelId::Mouse => MOUSE_CLOCK_PIN,
        }
    }

    /// The data pin of this channel.
    pub fn data_pin(self) -> (pin: u8)
        ensures
            pin == data_pin_of(self),
    {
        match self {
            ChannelId::Keyboard => KEYBOARD_DATA_PIN,
            ChannelId::Mouse => MOUSE_DATA_PIN,
        }
    }
}

/// The levels on the pin pairs of both channels at one moment.
#[derive(Clone, Copy, Debug, PartialEq, Eq, Structural)]
pub struct BusSample {
    /// Clock and data of the keyboard channel.
    pub keyboard: Signal,
    /// Clock and data of the mouse channel.
    pub mouse: Signal,
}

/// What can happen to the device: a cycle passes, in which both engines
/// run, or the producer offers a word to one of the channels.
pub enum Event {
    /// One cycle of both engines.
    Tick,
    /// An attempt to enqueue the word on the channel.
    Offer(ChannelId, u32),
}

/// The device as a mathematical value: its two channels.
pub struct DeviceState {
    /// The keyboard channel.
    pub keyboard: ChannelState,
    /// The mouse channel.
    pub mouse: ChannelState,
}

impl DeviceState {
    /// The device before its first cycle.
    pub open spec fn init() -> DeviceState {
        DeviceState {
            keyboard: ChannelState::init(KEYBOARD_CLOCK_PIN, KEYBOARD_DATA_PIN),
            mouse: ChannelState::init(MOUSE_CLOCK_PIN, MOUSE_DATA_PIN),
        }
    }

    /// The channel that `id` names.
    pub open spec fn channel(self, id: ChannelId) -> ChannelState {
        match id {
            ChannelId::Keyboard => self.keyboard,
            ChannelId::Mouse => self.mouse,
        }
    }

    /// What holds of the device at every time: each channel obeys its own
    /// invariant and sits on its own pins.
    pub open spec fn inv(self) -> bool {
        &&& self.keyboard.inv()
        &&& self.mouse.inv()
        &&& self.keyboard.clock_pin == KEYBOARD_CLOCK_PIN
        &&& self.keyboard.data_pin == KEYBOARD_DATA_PIN
        &&& self.mouse.clock_pin == MOUSE_CLOCK_PIN
        &&& self.mouse.data_pin == MOUSE_DATA_PIN
    }

    /// The levels on both pin pairs.
    pub open spec fn sample(self) -> BusSample {
        BusSample { keyboard: self.keyboard.signal(), mouse: self.mouse.signal() }
    }

    /// The level on pin `pin`, where the device drives that pin.
    pub open spec fn pin(self, pin: u8) -> Option<bool> {
        if pin == KEYBOARD_CLOCK_PIN {
            Some(self.keyboard.clock)
        } else if pin == KEYBOARD_DATA_PIN {
            Some(self.keyboard.data)
        } else if pin == CONTROL_PIN {
            Some(true)
        } else if pin == MOUSE_CLOCK_PIN {
            Some(self.mouse.clock)
        } else if pin == MOUSE_DATA_PIN {
            Some(self.mouse.data)
        } else {
            None
        }
    }

    /// The device one cycle later: each engine has run one cycle.
    pub open spec fn tick(self) -> DeviceState {
        DeviceState { keyboard: self.keyboard.tick(), mouse: self.mouse.tick() }
    }

    /// The device after an attempt to enqueue `word` on channel `id`.
    pub open spec fn offer(self, id: ChannelId, word: u32) -> DeviceState {
        match id {
            ChannelId::Keyboard => DeviceState { keyboard: self.keyboard.offer(word), ..self },
            ChannelId::Mouse => DeviceState { mouse: self.mouse.offer(word), ..self },
        }
    }

    /// The device `n` cycles later, with nothing enqueued meanwhile.
    pub open spec fn run(self, n: nat) -> DeviceState
        decreases n,
    {
        if n == 0 {
            self
        } else {
            self.run((n - 1) as nat).tick()
        }
    }

    /// The device after `event`.
    pub open spec fn apply(self, event: Event) -> DeviceState {
        match event {
            Event::Tick => self.tick(),
            Event::Offer(id, word) => self.offer(id, word),
        }
    }

    /// The device after `events`, first to last.
    pub open spec fn replay(self, events: Seq<Event>) -> DeviceState
        decreases events.len(),
    {
        if events.len() == 0 {
            self
        } else {
            self.replay(events.drop_last()).apply(events.last())
        }
    }
}

/// What channel `id` sees of `events`: every cycle, and the offers that are
/// addressed to it.
pub open spec fn inputs_for(events: Seq<Event>, id: ChannelId) -> Seq<Input>
    decreases events.len(),
{
    if events.len() == 0 {
        Seq::empty()
    } else {
        let earlier = inputs_for(events.drop_last(), id);
        match events.last() {
            Event::Tick => earlier.push(Input::Tick),
            Event::Offer(to, word) => if to == id {
                earlier.push(Input::Offer(word))
            } else {
                earlier
            },
        }
    }
}

/// A new device obeys the invariant.
pub proof fn lemma_device_init_inv()
    ensures
        DeviceState::init().inv(),
{
    lemma_init_inv(KEYBOARD_CLOCK_PIN, KEYBOARD_DATA_PIN);
    lemma_init_inv(MOUSE_CLOCK_PIN, MOUSE_DATA_PIN);
}

/// Whatever happens to the device keeps the invariant.
pub proof fn lemma_device_apply_inv(d: DeviceState, event: Event)
    requires
        d.inv(),
    ensures
        d.apply(event).inv(),
{
    match event {
        Event::Tick => {
            lemma_tick_inv(d.keyboard);
            lemma_tick_inv(d.mouse);
        },
        Event::Offer(id, word) => {
            lemma_offer_inv(d.channel(id), word);
        },
    }
}

/// Whatever happens to the device, in whatever order, keeps the invariant.
pub proof fn lemma_device_replay_inv(d: DeviceState, events: Seq<Event>)
    requires
        d.inv(),
    ensures
        d.replay(events).inv(),
    decreases events.len(),
{
    if events.len() > 0 {
        lemma_device_replay_inv(d, events.drop_last());
        lemma_device_apply_inv(d.replay(events.drop_last()), events.last());
    }
}

/// Isolation. What becomes of a channel depends on the cycles that pass and
/// on the words offered to that channel, and on nothing else: after any
/// events the channel is where it would be had it met only its own inputs.
/// Offers to the other channel leave its queue, its pins and the bits it
/// sends untouched.
pub proof fn lemma_isolation(d: DeviceState, events: Seq<Event>, id: ChannelId)
    ensures
        d.replay(events).channel(id) == d.channel(id).replay(inputs_for(events, id)),
    decreases events.len(),
{
    if events.len() > 0 {
        let earlier = inputs_for(events.drop_last(), id);
        lemma_isolation(d, events.drop_last(), id);
        match events.last() {
            Event::Tick => {
                assert(earlier.push(Input::Tick).drop_last() =~= earlier);
            },
            Event::Offer(to, word) => {
                if to == id {
                    assert(earlier.push(Input::Offer(word)).drop_last() =~= earlier);
                }
            },
        }
    }
}

/// Each pin pair carries its own words. After any events on a new device,
/// each channel is where it would be had it met only its own inputs; its
/// pins are its own and show its own levels; and the bits it has sent are
/// the wire bits of the words it accepted itself, in order.
pub proof fn lemma_own_words_on_own_pins(events: Seq<Event>, id: ChannelId)
    ensures
        ({
            let d = DeviceState::init().replay(events);
            let c = d.channel(id);
            &&& c == ChannelState::init(clock_pin_of(id), data_pin_of(id)).replay(
                inputs_for(events, id),
            )
            &&& c.clock_pin == clock_pin_of(id)
            &&& c.data_pin == data_pin_of(id)
            &&& d.pin(c.clock_pin) == Some(c.clock)
            &&& d.pin(c.data_pin) == Some(c.data)
            &&& d.pin(CONTROL_PIN) == Some(true)
            &&& c.sent == wire_bits(c.accepted).take(c.sent.len() as int)
        }),
{
    lemma_device_init_inv();
    lemma_device_replay_inv(DeviceState::init(), events);
    lemma_isolation(DeviceState::init(), events, id);
    lemma_sent_in_order(DeviceState::init().replay(events).channel(id));
}

/// The device: the keyboard channel and the mouse channel.
pub struct Device {
    keyboard: Channel,
    mouse: Channel,
}

impl View for Device {
    type V = DeviceState;

    closed spec fn view(&self) -> DeviceState {
        DeviceState { keyboard: self.keyboard@, mouse: self.mouse@ }
    }
}

impl Device {
    /// Whether the device is in a state that it can reach.
    pub open spec fn wf(&self) -> bool {
        self@.inv()
    }

    /// The device before its first cycle, each channel on its own pins.
    pub fn new() -> (device: Device)
        ensures
            device@ == DeviceState::init(),
            device.wf(),
    {
        proof {
            lemma_device_init_inv();
        }
        Device {
            keyboard: Channel::new(KEYBOARD_CLOCK_PIN, KEYBOARD_DATA_PIN),
            mouse: Channel::new(MOUSE_CLOCK_PIN, MOUSE_DATA_PIN),
        }
    }

    /// Runs both engines for one cycle and returns the levels on both pin
    /// pairs after it.
    pub fn tick(&mut self) -> (sample: BusSample)
        requires
            old(self).wf(),
        ensures
            final(self).wf(),
            final(self)@ == old(self)@.tick(),
            sample == final(self)@.sample(),
    {
        let keyboard = self.keyboard.tick();
        let mouse = self.mouse.tick();
        BusSample { keyboard, mouse }
    }

    /// Puts `word` at the tail of the queue of channel `id` if that queue
    /// has room, and says whether it did. The other channel is not touched.
    pub fn try_enqueue(&mut self, id: ChannelId, word: u32) -> (taken: bool)
        requires
            old(self).wf(),
        ensures
            final(self).wf(),
            taken == old(self)@.channel(id).has_room(),
            final(self)@ == old(self)@.offer(id, word),
    {
        match id {
            ChannelId::Keyboard => self.keyboard.try_enqueue(word),
            ChannelId::Mouse => self.mouse.try_enqueue(word),
        }
    }

    /// Enqueues `word` on channel `id`, waiting while the queue of that
    /// channel is full. While it waits, cycles pass and both engines run;
    /// the samples taken after each of those cycles are returned. It waits
    /// for as long as the queue is full and no longer.
    pub fn enqueue(&mut self, id: ChannelId, word: u32) -> (waited: Vec<BusSample>)
        requires
            old(self).wf(),
        ensures
            final(self).wf(),
            forall|j: int|
                0 <= j < waited@.len() ==> !(#[trigger] old(self)@.run(j as nat)).channel(
                    id,
                ).has_room(),
            old(self)@.run(waited@.len()).channel(id).has_room(),
            final(self)@ == old(self)@.run(waited@.len()).offer(id, word),
            forall|j: int|
                0 <= j < waited@.len() ==> #[trigger] waited@[j] == old(self)@.run(
                    (j + 1) as nat,
                ).sample(),
    {
        let mut waited: Vec<BusSample> = Vec::new();
        while !self.has_room(id)
            invariant
                self.wf(),
                self@ == old(self)@.run(waited@.len()),
                forall|j: int|
                    0 <= j < waited@.len() ==> !(#[trigger] old(self)@.run(j as nat)).channel(
                        id,
                    ).has_room(),
                forall|j: int|
                    0 <= j < waited@.len() ==> #[trigger] waited@[j] == old(self)@.run(
                        (j + 1) as nat,
                    ).sample(),
            decreases self@.channel(id).work(),
        {
            proof {
                lemma_tick_work(self@.channel(id));
            }
            let sample = self.tick();
            waited.push(sample);
        }
        self.try_enqueue(id, word);
        waited
    }

    /// Whether the queue of channel `id` can take another word.
    pub fn has_room(&self, id: ChannelId) -> (room: bool)
        ensures
            room == self@.channel(id).has_room(),
    {
        match id {
            ChannelId::Keyboard => self.keyboard.has_room(),
            ChannelId::Mouse => self.mouse.has_room(),
        }
    }

    /// Number of words that wait in the queue of channel `id`.
    pub fn queued(&self, id: ChannelId) -> (count: usize)
        ensures
            count == self@.channel(id).queue.len(),
    {
        match id {
            ChannelId::Keyboard => self.keyboard.queued(),
            ChannelId::Mouse => self.mouse.queued(),
        }
    }

    /// Whether neither channel has anything left to transmit.
    pub fn is_idle(&self) -> (idle: bool)
        ensures
            idle == (self@.keyboard.idle() && self@.mouse.idle()),
    {
        self.keyboard.is_idle() && self.mouse.is_idle()
    }

    /// The level on pin `pin`, where the device drives that pin: the clock
    /// and data pins of the two channels, and the control pin, which is
    /// always high.
    pub fn pin(&self, pin: u8) -> (level: Option<bool>)
        ensures
            level == self@.pin(pin),
    {
        if pin == KEYBOARD_CLOCK_PIN {
            Some(self.keyboard.signal().clock)
        } else if pin == KEYBOARD_DATA_PIN {
            Some(self.keyboard.signal().data)
        } else if pin == CONTROL_PIN {
            Some(true)
        } else if pin == MOUSE_CLOCK_PIN {
            Some(self.mouse.signal().clock)
        } else if pin == MOUSE_DATA_PIN {
            Some(self.mouse.signal().data)
        } else {
            None
        }
    }
}

} // verus!
