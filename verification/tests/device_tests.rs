use ps2_emu::channel::Signal;
use ps2_emu::queue::QUEUE_DEPTH;
use ps2_emu::device::{
    BusSample, ChannelId, Device, CONTROL_PIN, KEYBOARD_CLOCK_PIN, KEYBOARD_DATA_PIN,
    MOUSE_CLOCK_PIN, MOUSE_DATA_PIN,
};
use ps2_emu::frame::frame;

fn wire_bits_of(word: u32) -> Vec<bool> {
    (0..11).map(|i| (word >> i) & 1 == 1).collect()
}

/// Collects, for one pin pair, the data level at each falling clock edge.
struct Probe {
    before: Signal,
    bits: Vec<bool>,
}

impl Probe {
    fn new() -> Probe {
        Probe { before: Signal { clock: false, data: false }, bits: Vec::new() }
    }

    fn see(&mut self, after: Signal) {
        if self.before.clock && !after.clock {
            self.bits.push(after.data);
        }
        self.before = after;
    }
}

struct Scope {
    keyboard: Probe,
    mouse: Probe,
}

impl Scope {
    fn new() -> Scope {
        Scope { keyboard: Probe::new(), mouse: Probe::new() }
    }

    fn see(&mut self, sample: BusSample) {
        self.keyboard.see(sample.keyboard);
        self.mouse.see(sample.mouse);
    }

    fn run(&mut self, device: &mut Device, cycles: usize) {
        for _ in 0..cycles {
            let sample = device.tick();
            self.see(sample);
        }
    }
}

#[test]
fn pins_of_the_two_channels() {
    assert_eq!(ChannelId::Keyboard.clock_pin(), 11);
    assert_eq!(ChannelId::Keyboard.data_pin(), 12);
    assert_eq!(ChannelId::Mouse.clock_pin(), 14);
    assert_eq!(ChannelId::Mouse.data_pin(), 15);
    assert_eq!(KEYBOARD_CLOCK_PIN, 11);
    assert_eq!(KEYBOARD_DATA_PIN, 12);
    assert_eq!(CONTROL_PIN, 13);
    assert_eq!(MOUSE_CLOCK_PIN, 14);
    assert_eq!(MOUSE_DATA_PIN, 15);
}

#[test]
fn new_device_drives_five_pins() {
    let device = Device::new();
    for pin in 0..=255u8 {
        let expected = match pin {
            11 | 12 | 14 | 15 => Some(false),
            13 => Some(true),
            _ => None,
        };
        assert_eq!(device.pin(pin), expected);
    }
    assert!(device.is_idle());
}

#[test]
fn control_pin_stays_high() {
    let mut device = Device::new();
    device.enqueue(ChannelId::Keyboard, frame(0x12));
    device.enqueue(ChannelId::Mouse, frame(0x09));
    for _ in 0..100 {
        device.tick();
        assert_eq!(device.pin(CONTROL_PIN), Some(true));
    }
}

#[test]
fn keyboard_make_code_goes_out_on_the_keyboard_pins_only() {
    let mut device = Device::new();
    let mut scope = Scope::new();
    assert!(device.enqueue(ChannelId::Keyboard, frame(0x12)).is_empty());
    scope.run(&mut device, 45);
    assert_eq!(scope.keyboard.bits.len(), 11);
    assert_eq!(
        scope.keyboard.bits,
        vec![false, false, true, false, false, true, false, false, false, true, true]
    );
    assert!(scope.mouse.bits.is_empty());
    assert_eq!(device.pin(KEYBOARD_CLOCK_PIN), Some(true));
    assert_eq!(device.pin(KEYBOARD_DATA_PIN), Some(true));
    assert_eq!(device.pin(MOUSE_CLOCK_PIN), Some(true));
    assert_eq!(device.pin(MOUSE_DATA_PIN), Some(false));
    assert!(device.is_idle());
}

#[test]
fn pins_show_the_levels_of_their_channel() {
    let mut device = Device::new();
    device.enqueue(ChannelId::Keyboard, frame(0xf0));
    device.enqueue(ChannelId::Mouse, frame(0x08));
    for _ in 0..60 {
        let sample = device.tick();
        assert_eq!(device.pin(KEYBOARD_CLOCK_PIN), Some(sample.keyboard.clock));
        assert_eq!(device.pin(KEYBOARD_DATA_PIN), Some(sample.keyboard.data));
        assert_eq!(device.pin(MOUSE_CLOCK_PIN), Some(sample.mouse.clock));
        assert_eq!(device.pin(MOUSE_DATA_PIN), Some(sample.mouse.data));
    }
}

#[test]
fn each_channel_sends_its_own_words_in_order() {
    let keyboard_codes = [0x12u8, 0x2c, 0xf0, 0x2c, 0xf0, 0x12, 0x24, 0xf0, 0x24];
    let mouse_codes = [0x09u8, 0x00, 0x00, 0x00, 0x08, 0x00, 0x00, 0x00];
    let mut device = Device::new();
    let mut scope = Scope::new();
    let mut k = 0;
    let mut m = 0;
    for cycle in 0..1000usize {
        if cycle % 7 == 0 && k < keyboard_codes.len() {
            if device.try_enqueue(ChannelId::Keyboard, frame(keyboard_codes[k])) {
                k += 1;
            }
        }
        if cycle % 5 == 3 && m < mouse_codes.len() {
            if device.try_enqueue(ChannelId::Mouse, frame(mouse_codes[m])) {
                m += 1;
            }
        }
        scope.run(&mut device, 1);
    }
    let keyboard_bits: Vec<bool> =
        keyboard_codes.iter().flat_map(|c| wire_bits_of(frame(*c))).collect();
    let mouse_bits: Vec<bool> = mouse_codes.iter().flat_map(|c| wire_bits_of(frame(*c))).collect();
    assert_eq!(scope.keyboard.bits, keyboard_bits);
    assert_eq!(scope.mouse.bits, mouse_bits);
}

#[test]
fn keyboard_is_unaffected_by_the_mouse() {
    let codes = [0x1bu8, 0xf0, 0x1b, 0x5a, 0xf0, 0x5a];
    let mut alone = Device::new();
    let mut busy = Device::new();
    for code in codes {
        assert!(alone.try_enqueue(ChannelId::Keyboard, frame(code)));
        assert!(busy.try_enqueue(ChannelId::Keyboard, frame(code)));
    }
    for cycle in 0..400u32 {
        busy.try_enqueue(ChannelId::Mouse, frame((cycle % 256) as u8));
        let a = alone.tick();
        let b = busy.tick();
        assert_eq!(a.keyboard, b.keyboard);
        assert_eq!(alone.queued(ChannelId::Keyboard), busy.queued(ChannelId::Keyboard));
    }
}

#[test]
fn try_enqueue_touches_one_queue() {
    let mut device = Device::new();
    assert!(device.try_enqueue(ChannelId::Mouse, frame(0x09)));
    assert_eq!(device.queued(ChannelId::Mouse), 1);
    assert_eq!(device.queued(ChannelId::Keyboard), 0);
    assert!(device.try_enqueue(ChannelId::Keyboard, frame(0x12)));
    assert!(device.try_enqueue(ChannelId::Keyboard, frame(0x2c)));
    assert_eq!(device.queued(ChannelId::Mouse), 1);
    assert_eq!(device.queued(ChannelId::Keyboard), 2);
    assert!(!device.is_idle());
}

#[test]
fn full_keyboard_queue_leaves_room_on_the_mouse() {
    let mut device = Device::new();
    for i in 0..QUEUE_DEPTH {
        assert!(device.try_enqueue(ChannelId::Keyboard, frame(i as u8)));
    }
    assert!(!device.has_room(ChannelId::Keyboard));
    assert!(device.has_room(ChannelId::Mouse));
    assert!(!device.try_enqueue(ChannelId::Keyboard, frame(0xaa)));
    assert!(device.try_enqueue(ChannelId::Mouse, frame(0xaa)));
}

#[test]
fn enqueue_does_not_wait_while_there_is_room() {
    let mut device = Device::new();
    for i in 0..QUEUE_DEPTH {
        let waited = device.enqueue(ChannelId::Keyboard, frame(i as u8));
        assert!(waited.is_empty());
        assert_eq!(device.queued(ChannelId::Keyboard), i + 1);
    }
}

#[test]
fn enqueue_waits_until_the_engine_has_drained_a_word() {
    let mut device = Device::new();
    for i in 0..QUEUE_DEPTH {
        device.enqueue(ChannelId::Keyboard, frame(i as u8));
    }
    // the ninth word waits for the first to leave the queue: two cycles
    let waited = device.enqueue(ChannelId::Keyboard, frame(0x08));
    assert_eq!(waited.len(), 2);
    assert_eq!(waited[0].keyboard, Signal { clock: true, data: false });
    assert_eq!(waited[1].keyboard, Signal { clock: true, data: false });
    assert_eq!(device.queued(ChannelId::Keyboard), QUEUE_DEPTH);
    // the tenth waits for the second: one whole word later
    let waited = device.enqueue(ChannelId::Keyboard, frame(0x09));
    assert_eq!(waited.len(), 44);
    assert_eq!(device.queued(ChannelId::Keyboard), QUEUE_DEPTH);
}

#[test]
fn words_enqueued_under_back_pressure_all_arrive_in_order() {
    let mut device = Device::new();
    let mut scope = Scope::new();
    let mut expected = Vec::new();
    let mut pulses_seen_at_accept = Vec::new();
    for i in 0..20u8 {
        let word = frame(i.wrapping_mul(37));
        for sample in device.enqueue(ChannelId::Keyboard, word) {
            scope.see(sample);
        }
        pulses_seen_at_accept.push(scope.keyboard.bits.len());
        expected.extend(wire_bits_of(word));
    }
    // the word number n got in only after n - depth words had begun to go out
    for (index, pulses) in pulses_seen_at_accept.iter().enumerate() {
        let n = index + 1;
        if n > QUEUE_DEPTH {
            assert!((pulses + 11) / 11 >= n - QUEUE_DEPTH);
        }
    }
    while !device.is_idle() {
        scope.run(&mut device, 1);
    }
    scope.run(&mut device, 4);
    assert_eq!(scope.keyboard.bits, expected);
    assert!(scope.mouse.bits.is_empty());
}

#[test]
fn mouse_keeps_sending_while_the_keyboard_producer_waits() {
    let mut device = Device::new();
    let mut scope = Scope::new();
    device.enqueue(ChannelId::Mouse, frame(0x09));
    for i in 0..QUEUE_DEPTH {
        device.enqueue(ChannelId::Keyboard, frame(i as u8));
    }
    for sample in device.enqueue(ChannelId::Keyboard, frame(0x55)) {
        scope.see(sample);
    }
    for sample in device.enqueue(ChannelId::Keyboard, frame(0x56)) {
        scope.see(sample);
    }
    assert_eq!(scope.mouse.bits, wire_bits_of(frame(0x09)));
}
