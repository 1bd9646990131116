use std::cell::RefCell;
use std::collections::VecDeque;
use std::rc::Rc;

use neotrellis::{I2cBus, InitError, Neotrellis, NeotrellisEventType, DEFAULT_ADDRESS};

#[derive(Debug, Clone, PartialEq)]
enum Op {
    Write(u8, Vec<u8>),
    Read(u8, usize),
}

#[derive(Debug, Clone, PartialEq)]
struct BusFault(usize);

/// A bus that records every transaction, answers reads from a queue of
/// replies, and fails the transaction with the given number, if any.
struct MockBus {
    log: Rc<RefCell<Vec<Op>>>,
    replies: VecDeque<Vec<u8>>,
    fail_at: Option<usize>,
}

impl MockBus {
    fn new(replies: Vec<Vec<u8>>) -> (MockBus, Rc<RefCell<Vec<Op>>>) {
        let log = Rc::new(RefCell::new(Vec::new()));
        let bus = MockBus { log: log.clone(), replies: replies.into_iter().collect(), fail_at: None };
        (bus, log)
    }

    fn failing_at(replies: Vec<Vec<u8>>, n: usize) -> (MockBus, Rc<RefCell<Vec<Op>>>) {
        let (mut bus, log) = MockBus::new(replies);
        bus.fail_at = Some(n);
        (bus, log)
    }
}

impl I2cBus for MockBus {
    type Error = BusFault;

    fn write(&mut self, address: u8, bytes: &[u8]) -> Result<(), BusFault> {
        let n = self.log.borrow().len();
        self.log.borrow_mut().push(Op::Write(address, bytes.to_vec()));
        if self.fail_at == Some(n) {
            return Err(BusFault(n));
        }
        Ok(())
    }

    fn read(&mut self, address: u8, buffer: &mut [u8]) -> Result<(), BusFault> {
        let n = self.log.borrow().len();
        self.log.borrow_mut().push(Op::Read(address, buffer.len()));
        if self.fail_at == Some(n) {
            return Err(BusFault(n));
        }
        let reply = self.replies.pop_front().unwrap_or_default();
        for (slot, byte) in buffer.iter_mut().zip(reply.iter()) {
            *slot = *byte;
        }
        Ok(())
    }
}

fn no_delay(_micros: u32) {}

fn recorded_delays() -> (impl Fn(u32), Rc<RefCell<Vec<u32>>>) {
    let delays = Rc::new(RefCell::new(Vec::new()));
    let sink = delays.clone();
    (move |micros: u32| sink.borrow_mut().push(micros), delays)
}

#[test]
fn default_and_custom_address() {
    let (bus, log) = MockBus::new(vec![]);
    let mut nt = Neotrellis::new(bus, no_delay, None);
    nt.refresh_leds().unwrap();
    assert_eq!(log.borrow()[0], Op::Write(0x2E, vec![0x0E, 0x05]));
    assert_eq!(DEFAULT_ADDRESS, 0x2E);

    let (bus, log) = MockBus::new(vec![]);
    let mut nt = Neotrellis::new(bus, no_delay, Some(0x31));
    nt.refresh_leds().unwrap();
    assert_eq!(log.borrow()[0], Op::Write(0x31, vec![0x0E, 0x05]));
}

#[test]
fn hardware_id_selects_waits_and_reads() {
    let (bus, log) = MockBus::new(vec![vec![0x55]]);
    let (delay, delays) = recorded_delays();
    let mut nt = Neotrellis::new(bus, delay, None);
    assert_eq!(nt.hardware_id(), Ok(0x55));
    assert_eq!(*log.borrow(), vec![Op::Write(0x2E, vec![0x00, 0x01]), Op::Read(0x2E, 1)]);
    assert_eq!(*delays.borrow(), vec![500]);
}

#[test]
fn split_hardware_id_halves() {
    let (bus, log) = MockBus::new(vec![vec![0x42]]);
    let (delay, delays) = recorded_delays();
    let mut nt = Neotrellis::new(bus, delay, None);
    nt.hardware_id_write().unwrap();
    assert_eq!(nt.hardware_id_read(), Ok(0x42));
    assert_eq!(*log.borrow(), vec![Op::Write(0x2E, vec![0x00, 0x01]), Op::Read(0x2E, 1)]);
    assert!(delays.borrow().is_empty());
}

#[test]
fn key_event_count_query() {
    let (bus, log) = MockBus::new(vec![vec![7]]);
    let mut nt = Neotrellis::new(bus, no_delay, None);
    assert_eq!(nt.key_event_count(), Ok(7));
    assert_eq!(*log.borrow(), vec![Op::Write(0x2E, vec![0x10, 0x04]), Op::Read(0x2E, 1)]);
}

#[test]
fn split_key_event_count_halves() {
    let (bus, log) = MockBus::new(vec![vec![2]]);
    let mut nt = Neotrellis::new(bus, no_delay, None);
    nt.key_event_count_write().unwrap();
    assert_eq!(nt.key_event_count_read(), Ok(2));
    assert_eq!(*log.borrow(), vec![Op::Write(0x2E, vec![0x10, 0x04]), Op::Read(0x2E, 1)]);
}

#[test]
fn query_stops_at_failed_select() {
    let (bus, log) = MockBus::failing_at(vec![vec![0x55]], 0);
    let (delay, delays) = recorded_delays();
    let mut nt = Neotrellis::new(bus, delay, None);
    assert_eq!(nt.hardware_id(), Err(BusFault(0)));
    assert_eq!(log.borrow().len(), 1);
    assert!(delays.borrow().is_empty());
}

#[test]
fn poll_with_no_events_skips_queue_read() {
    let (bus, log) = MockBus::new(vec![vec![0]]);
    let (delay, delays) = recorded_delays();
    let mut nt = Neotrellis::new(bus, delay, None);
    let mut buffer = [0xAAu8; 16];
    let mut events = nt.key_event_iterate(&mut buffer).unwrap();
    assert!(events.next().is_none());
    assert_eq!(*log.borrow(), vec![Op::Write(0x2E, vec![0x10, 0x04]), Op::Read(0x2E, 1)]);
    assert_eq!(*delays.borrow(), vec![500]);
    assert_eq!(buffer, [0xAAu8; 16]);
}

#[test]
fn poll_reads_count_bytes_and_decodes_in_order() {
    // key 0 pressed, key 5 (device 9) released, key 15 (device 27) pressed
    let raw = vec![0b0000_0001, 9 << 2, (27 << 2) | 1];
    let (bus, log) = MockBus::new(vec![vec![3], raw.clone()]);
    let (delay, delays) = recorded_delays();
    let mut nt = Neotrellis::new(bus, delay, None);
    let mut buffer = [0u8; 16];
    let events = nt.key_event_iterate(&mut buffer).unwrap().collect_events();
    assert_eq!(events.len(), 3);
    assert_eq!((events[0].key_index, events[0].event_type), (0, NeotrellisEventType::KeyPress));
    assert_eq!((events[1].key_index, events[1].event_type), (5, NeotrellisEventType::KeyRelease));
    assert_eq!((events[2].key_index, events[2].event_type), (15, NeotrellisEventType::KeyPress));
    assert_eq!(
        *log.borrow(),
        vec![
            Op::Write(0x2E, vec![0x10, 0x04]),
            Op::Read(0x2E, 1),
            Op::Write(0x2E, vec![0x10, 0x10]),
            Op::Read(0x2E, 3),
        ]
    );
    assert_eq!(*delays.borrow(), vec![500, 500]);
    assert_eq!(&buffer[..3], &raw[..]);
    assert_eq!(&buffer[3..], &[0u8; 13]);
}

#[test]
fn poll_iterator_hands_out_events_one_by_one() {
    let (bus, _log) = MockBus::new(vec![vec![2], vec![(1 << 2) | 1, 8 << 2]]);
    let mut nt = Neotrellis::new(bus, no_delay, None);
    let mut buffer = [0u8; 16];
    let mut events = nt.key_event_iterate(&mut buffer).unwrap();
    let first = events.next().unwrap();
    assert_eq!((first.key_index, first.event_type), (1, NeotrellisEventType::KeyPress));
    let second = events.next().unwrap();
    assert_eq!((second.key_index, second.event_type), (4, NeotrellisEventType::KeyRelease));
    assert!(events.next().is_none());
    assert!(events.next().is_none());
}

#[test]
fn poll_reads_no_more_than_the_buffer_holds() {
    let (bus, log) = MockBus::new(vec![vec![5], vec![1, 3, 5, 7, 9]]);
    let mut nt = Neotrellis::new(bus, no_delay, None);
    let mut buffer = [0u8; 2];
    let events = nt.key_event_iterate(&mut buffer).unwrap().collect_events();
    assert_eq!(events.len(), 2);
    assert_eq!(log.borrow()[3], Op::Read(0x2E, 2));
}

#[test]
fn poll_passes_on_a_failed_queue_read() {
    let (bus, log) = MockBus::failing_at(vec![vec![4]], 3);
    let mut nt = Neotrellis::new(bus, no_delay, None);
    let mut buffer = [0u8; 16];
    assert!(matches!(nt.key_event_iterate(&mut buffer), Err(BusFault(3))));
    assert_eq!(log.borrow().len(), 4);
}

#[test]
fn split_key_event_iterate_halves() {
    let (bus, log) = MockBus::new(vec![vec![4 << 2, 1]]);
    let mut nt = Neotrellis::new(bus, no_delay, None);
    nt.key_event_iterate_write().unwrap();
    let mut buffer = [0u8; 16];
    let events = nt.key_event_iterate_read(&mut buffer, 2).unwrap().collect_events();
    assert_eq!(events.len(), 2);
    assert_eq!((events[0].key_index, events[0].event_type), (4, NeotrellisEventType::KeyRelease));
    assert_eq!((events[1].key_index, events[1].event_type), (0, NeotrellisEventType::KeyPress));
    assert_eq!(*log.borrow(), vec![Op::Write(0x2E, vec![0x10, 0x10]), Op::Read(0x2E, 2)]);
}

#[test]
fn set_led_payload_is_green_red_blue() {
    let (bus, log) = MockBus::new(vec![]);
    let mut nt = Neotrellis::new(bus, no_delay, None);
    nt.set_led(5, 10, 20, 30).unwrap();
    assert_eq!(*log.borrow(), vec![Op::Write(0x2E, vec![0x0E, 0x04, 0, 15, 20, 10, 30])]);
}

#[test]
fn set_led_last_index() {
    let (bus, log) = MockBus::new(vec![]);
    let mut nt = Neotrellis::new(bus, no_delay, None);
    nt.set_led(15, 1, 2, 3).unwrap();
    assert_eq!(*log.borrow(), vec![Op::Write(0x2E, vec![0x0E, 0x04, 0, 45, 2, 1, 3])]);
}

#[test]
fn clear_leds_is_two_zero_writes() {
    let (bus, log) = MockBus::new(vec![]);
    let mut nt = Neotrellis::new(bus, no_delay, None);
    nt.clear_leds().unwrap();
    let log = log.borrow();
    assert_eq!(log.len(), 2);
    let mut first = vec![0x0E, 0x04, 0, 0];
    first.extend_from_slice(&[0u8; 24]);
    let mut second = vec![0x0E, 0x04, 0, 24];
    second.extend_from_slice(&[0u8; 24]);
    assert_eq!(log[0], Op::Write(0x2E, first));
    assert_eq!(log[1], Op::Write(0x2E, second));
}

#[test]
fn clear_leds_stops_after_failed_first_write() {
    let (bus, log) = MockBus::failing_at(vec![], 0);
    let mut nt = Neotrellis::new(bus, no_delay, None);
    assert_eq!(nt.clear_leds(), Err(BusFault(0)));
    assert_eq!(log.borrow().len(), 1);
}

#[test]
fn initialize_runs_the_whole_setup() {
    let (bus, log) = MockBus::new(vec![vec![0x55]]);
    let (delay, delays) = recorded_delays();
    let mut nt = Neotrellis::new(bus, delay, None);
    assert!(nt.initialize().is_ok());
    let log = log.borrow();
    assert_eq!(log.len(), 24);
    assert_eq!(log[0], Op::Write(0x2E, vec![0x00, 0x01]));
    assert_eq!(log[1], Op::Read(0x2E, 1));
    for key in 0..16usize {
        let device = ((key / 4) * 8 + key % 4) as u8;
        assert_eq!(log[2 + key], Op::Write(0x2E, vec![0x10, 0x01, device, 0b0001_1001]));
    }
    assert_eq!(log[18], Op::Write(0x2E, vec![0x0E, 0x02, 0x01]));
    assert_eq!(log[19], Op::Write(0x2E, vec![0x0E, 0x03, 0, 48]));
    assert_eq!(log[20], Op::Write(0x2E, vec![0x0E, 0x01, 3]));
    assert!(matches!(&log[21], Op::Write(0x2E, b) if b[3] == 0 && b.len() == 28));
    assert!(matches!(&log[22], Op::Write(0x2E, b) if b[3] == 24 && b.len() == 28));
    assert_eq!(log[23], Op::Write(0x2E, vec![0x0E, 0x05]));
    assert_eq!(*delays.borrow(), vec![500, 300]);
}

#[test]
fn initialize_stops_on_wrong_hardware_id() {
    for id in [0x00u8, 0x54, 0x56, 0xFF] {
        let (bus, log) = MockBus::new(vec![vec![id]]);
        let mut nt = Neotrellis::new(bus, no_delay, None);
        assert!(matches!(nt.initialize(), Err(InitError::HardwareIdMismatch(got)) if got == id));
        assert_eq!(*log.borrow(), vec![Op::Write(0x2E, vec![0x00, 0x01]), Op::Read(0x2E, 1)]);
    }
}

#[test]
fn initialize_passes_on_bus_failure() {
    let (bus, log) = MockBus::failing_at(vec![vec![0x55]], 5);
    let mut nt = Neotrellis::new(bus, no_delay, None);
    assert!(matches!(nt.initialize(), Err(InitError::Bus(BusFault(5)))));
    assert_eq!(log.borrow().len(), 6);
}
