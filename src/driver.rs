//! The driver: owns the I2C bus and the delay function, and runs the
//! co-processor's register protocol over them.
use vstd::prelude::*;
use vstd::slice::slice_subrange;
use crate::bus::{
    event_read_len, failed, is_transfer, lemma_transfers_concat, transfers, hardware_id_select, key_enable_plan, key_event_count_select,
    key_event_enable_command, key_event_fifo_select, lemma_failure_after, lemma_failure_before,
    lemma_ran_all_concat, led_buffer_length_command, led_clear_command, led_clear_plan,
    led_color_command, led_pin_command, led_setup_plan, led_show_command, led_speed_command,
    plan_result, poll_done, poll_plan, query_plan, query_result, ran_all, ran_until_failure, read_ok,
    setup_plan, single_byte_read, single_write, write_ok, BusOp, EDGES_RISING_AND_FALLING,
    EXPECTED_HARDWARE_ID, KEYPAD_COUNT, KEYPAD_EVENT, KEYPAD_FIFO, KEYPAD_REGISTER_BASE,
    LATCH_MICROS, NEOPIXEL_BUFFER, NEOPIXEL_BUFFER_LENGTH, NEOPIXEL_PIN, NEOPIXEL_REGISTER_BASE,
    NEOPIXEL_SHOW, NEOPIXEL_SPEED, READ_SETTLE_MICROS, STATUS_HARDWARE_ID, STATUS_REGISTER_BASE,
};
use crate::event::NeotrellisEventIterator;
use crate::index::{lemma_index_round_trip, neo_trellis_index};

verus! {

/// The device address of a NeoTrellis without address jumpers.
pub const DEFAULT_ADDRESS: u8 = 0x2E;

/// The two-operation I2C capability the driver runs on: write bytes to a
/// device, read bytes from a device. Bus errors are passed on unchanged.
///
/// Callers implement it for their bus (for example over embedded-hal's
/// blocking I2C traits). `transcript` names the transactions the bus has
/// carried: each `write` and `read` adds itself to it, with what was written
/// or read and whether it succeeded. The length of a slice cannot change, so
/// `read` keeps that of `buffer`.
pub trait I2cBus {
    /// What a failed transaction reports.
    type Error;

    /// The transactions this bus has carried, in order. The default lets
    /// impls written in plain Rust leave it out; an impl that Verus checks
    /// must define it, since an always-empty transcript cannot meet the
    /// contracts of `write` and `read`.
    open spec fn transcript(&self) -> Seq<BusOp> {
        Seq::empty()
    }

    /// Writes `bytes` to the device at the 7-bit `address`.
    fn write(&mut self, address: u8, bytes: &[u8]) -> (r: Result<(), Self::Error>)
        ensures
            final(self).transcript() == old(self).transcript().push(
                BusOp::Write { address, bytes: bytes@, ok: r is Ok },
            ),
    ;

    /// Fills `buffer` with bytes read from the device at the 7-bit `address`.
    fn read(&mut self, address: u8, buffer: &mut [u8]) -> (r: Result<(), Self::Error>)
        ensures
            final(buffer)@.len() == old(buffer)@.len(),
            final(self).transcript() == old(self).transcript().push(
                BusOp::Read { address, bytes: final(buffer)@, ok: r is Ok },
            ),
    ;
}

/// An iterator over none of the bytes of `event_buffer`, which stays as it is.
fn no_events<'a>(event_buffer: &'a mut [u8]) -> (it: NeotrellisEventIterator<'a>)
    ensures
        final(event_buffer)@ == old(event_buffer)@,
        it.remaining() == final(event_buffer)@.take(0),
{
    let events: &'a [u8] = event_buffer;
    let it = NeotrellisEventIterator::over(slice_subrange(events, 0, 0));
    assert(events@.take(0) =~= it.remaining());
    it
}

/// Why initialization failed.
#[derive(Debug)]
pub enum InitError<E> {
    /// A bus transaction failed.
    Bus(E),
    /// The device reported this hardware identity instead of 0x55.
    HardwareIdMismatch(u8),
}

/// Main structure used for interfacing with the NeoTrellis RGB board.
///
/// It owns the I2C bus, so one board is driven per bus handle.
pub struct Neotrellis<I2C, D = fn(u32)> {
    i2c: I2C,
    address: u8,
    delay_function: D,
    trace: Ghost<Seq<BusOp>>,
    bus_start: Ghost<Seq<BusOp>>,
}

impl<I2C, D, E> Neotrellis<I2C, D> where I2C: I2cBus<Error = E>, D: Fn(u32) {
    /// The 7-bit device address used for every transaction.
    pub closed spec fn device_address(&self) -> u8 {
        self.address
    }

    /// Everything this driver has handed to the bus and the delay function
    /// since it was made, in order.
    pub closed spec fn trace(&self) -> Seq<BusOp> {
        self.trace@
    }

    /// The bus's transcript: every transaction it has carried.
    pub closed spec fn bus_transcript(&self) -> Seq<BusOp> {
        self.i2c.transcript()
    }

    /// The bus's transcript when the driver took the bus over.
    pub closed spec fn bus_start(&self) -> Seq<BusOp> {
        self.bus_start@
    }

    /// The delay function accepts every number of microseconds.
    pub closed spec fn delay_accepts_all(&self) -> bool {
        forall|micros: u32| self.delay_function.requires((micros,))
    }

    /// Well-formed: since the driver took the bus over, the bus has carried
    /// exactly the transfers of `trace`, and the delay can always be called.
    pub open spec fn wf(&self) -> bool {
        &&& self.bus_transcript() == self.bus_start() + transfers(self.trace())
        &&& self.delay_accepts_all()
    }

    /// `self` is `before` after more work: same device, same bus, still
    /// well-formed.
    pub open spec fn continues(&self, before: Self) -> bool {
        &&& self.device_address() == before.device_address()
        &&& self.bus_start() == before.bus_start()
        &&& self.delay_accepts_all() == before.delay_accepts_all()
        &&& self.wf()
    }

    /// When the driver's record grew by `ops`, the bus's transcript grew by
    /// the transfers of `ops`: what the contracts say of the record, they say
    /// of the bus.
    pub proof fn lemma_bus_follows_trace(before: Self, after: Self, ops: Seq<BusOp>)
        requires
            before.wf(),
            after.continues(before),
            after.trace() == before.trace() + ops,
        ensures
            after.bus_transcript() == before.bus_transcript() + transfers(ops),
    {
        lemma_transfers_concat(before.trace(), ops);
        assert(after.bus_transcript() =~= before.bus_transcript() + transfers(ops));
    }

    /// Creates a driver for the board at `custom_address`, or at 0x2E (the
    /// address without jumpers) when none is given. `delay_function` is called
    /// with a number of microseconds to wait, and must accept any number.
    pub fn new(i2c: I2C, delay_function: D, custom_address: Option<u8>) -> (r: Self)
        requires
            forall|micros: u32| delay_function.requires((micros,)),
        ensures
            r.wf(),
            r.bus_start() == i2c.transcript(),
            r.device_address() == (match custom_address {
                Some(a) => a,
                None => DEFAULT_ADDRESS,
            }),
            r.trace() == Seq::<BusOp>::empty(),
    {
        let address = match custom_address {
            Some(a) => a,
            None => DEFAULT_ADDRESS,
        };
        let ghost start = i2c.transcript();
        let r = Neotrellis { i2c, address, delay_function, trace: Ghost(Seq::empty()), bus_start: Ghost(start) };
        assert(r.bus_transcript() =~= r.bus_start() + transfers(r.trace()));
        r
    }

    /// Hands `bytes` to the bus as one write, and records it.
    fn write_command(&mut self, bytes: &[u8]) -> (r: Result<(), E>)
        requires
            old(self).wf(),
        ensures
            final(self).continues(*old(self)),
            final(self).trace() == old(self).trace().push(
                BusOp::Write { address: old(self).device_address(), bytes: bytes@, ok: r is Ok },
            ),
            single_write(old(self).bus_transcript(), final(self).bus_transcript(), old(self).device_address(), bytes@, r),
    {
        let r = self.i2c.write(self.address, bytes);
        let ghost op = BusOp::Write { address: self.address, bytes: bytes@, ok: r is Ok };
        proof {
            assert(self.trace@.push(op).drop_last() =~= self.trace@);
            assert(transfers(self.trace@.push(op)) == transfers(self.trace@).push(op));
        }
        self.trace = Ghost(self.trace@.push(op));
        assert(self.bus_transcript() =~= self.bus_start() + transfers(self.trace()));
        r
    }

    /// Fills `buffer` with one read from the bus, and records it.
    fn read_into(&mut self, buffer: &mut [u8]) -> (r: Result<(), E>)
        requires
            old(self).wf(),
        ensures
            final(self).continues(*old(self)),
            final(buffer)@.len() == old(buffer)@.len(),
            final(self).trace() == old(self).trace().push(
                BusOp::Read { address: old(self).device_address(), bytes: final(buffer)@, ok: r is Ok },
            ),
            final(self).bus_transcript() == old(self).bus_transcript().push(
                BusOp::Read { address: old(self).device_address(), bytes: final(buffer)@, ok: r is Ok },
            ),
    {
        let r = self.i2c.read(self.address, buffer);
        let ghost op = BusOp::Read { address: self.address, bytes: buffer@, ok: r is Ok };
        proof {
            assert(self.trace@.push(op).drop_last() =~= self.trace@);
            assert(transfers(self.trace@.push(op)) == transfers(self.trace@).push(op));
        }
        self.trace = Ghost(self.trace@.push(op));
        assert(self.bus_transcript() =~= self.bus_start() + transfers(self.trace()));
        r
    }

    /// Waits `micros` microseconds through the delay function, and records it.
    fn settle(&mut self, micros: u32)
        requires
            old(self).wf(),
        ensures
            final(self).continues(*old(self)),
            final(self).trace() == old(self).trace().push(BusOp::Delay { micros }),
    {
        (self.delay_function)(micros);
        let ghost op = BusOp::Delay { micros };
        proof {
            assert(self.trace@.push(op).drop_last() =~= self.trace@);
            assert(transfers(self.trace@.push(op)) == transfers(self.trace@));
        }
        self.trace = Ghost(self.trace@.push(op));
    }

    /// Reads one byte from the bus.
    fn read_byte(&mut self) -> (r: Result<u8, E>)
        requires
            old(self).wf(),
        ensures
            final(self).continues(*old(self)),
            single_byte_read(old(self).trace(), final(self).trace(), old(self).device_address(), r),
            single_byte_read(old(self).bus_transcript(), final(self).bus_transcript(), old(self).device_address(), r),
    {
        let mut read_buffer: Vec<u8> = vec![0u8];
        let r = self.read_into(read_buffer.as_mut_slice());
        match r {
            Ok(()) => {
                assert(read_buffer@ =~= seq![read_buffer@[0]]);
                Ok(read_buffer[0])
            },
            Err(e) => {
                assert(self.trace() == old(self).trace().push(failed(read_ok(self.address, read_buffer@))));
                Err(e)
            },
        }
    }

    /// The write half of `hardware_id`: selects the hardware identity for the
    /// next read.
    pub fn hardware_id_write(&mut self) -> (r: Result<(), E>)
        requires
            old(self).wf(),
        ensures
            final(self).continues(*old(self)),
            single_write(old(self).trace(), final(self).trace(), old(self).device_address(), hardware_id_select(), r),
            single_write(old(self).bus_transcript(), final(self).bus_transcript(), old(self).device_address(), hardware_id_select(), r),
    {
        let register_set: [u8; 2] = [STATUS_REGISTER_BASE, STATUS_HARDWARE_ID];
        assert(register_set@ =~= hardware_id_select());
        self.write_command(&register_set)
    }

    /// The read half of `hardware_id`: reads the byte that `hardware_id_write`
    /// selected.
    pub fn hardware_id_read(&mut self) -> (r: Result<u8, E>)
        requires
            old(self).wf(),
        ensures
            final(self).continues(*old(self)),
            single_byte_read(old(self).trace(), final(self).trace(), old(self).device_address(), r),
            single_byte_read(old(self).bus_transcript(), final(self).bus_transcript(), old(self).device_address(), r),
    {
        self.read_byte()
    }

    /// Enables press and release events of the key at row-major position
    /// `key_index`.
    fn key_event_enable(&mut self, key_index: usize) -> (r: Result<(), E>)
        requires
            old(self).wf(),
            key_index < 16,
        ensures
            final(self).continues(*old(self)),
            single_write(
                old(self).trace(),
                final(self).trace(),
                old(self).device_address(),
                key_event_enable_command(key_index as nat),
                r,
            ),
            single_write(
                old(self).bus_transcript(),
                final(self).bus_transcript(),
                old(self).device_address(),
                key_event_enable_command(key_index as nat),
                r,
            ),
    {
        let command: [u8; 4] = [
            KEYPAD_REGISTER_BASE,
            KEYPAD_EVENT,
            neo_trellis_index(key_index),
            EDGES_RISING_AND_FALLING,
        ];
        proof {
            lemma_index_round_trip(key_index as nat);
        }
        assert(command@ =~= key_event_enable_command(key_index as nat));
        self.write_command(&command)
    }

    /// The write half of `key_event_count`: selects the number of queued key
    /// events for the next read.
    pub fn key_event_count_write(&mut self) -> (r: Result<(), E>)
        requires
            old(self).wf(),
        ensures
            final(self).continues(*old(self)),
            single_write(old(self).trace(), final(self).trace(), old(self).device_address(), key_event_count_select(), r),
            single_write(old(self).bus_transcript(), final(self).bus_transcript(), old(self).device_address(), key_event_count_select(), r),
    {
        let command: [u8; 2] = [KEYPAD_REGISTER_BASE, KEYPAD_COUNT];
        assert(command@ =~= key_event_count_select());
        self.write_command(&command)
    }

    /// The read half of `key_event_count`: reads the number that
    /// `key_event_count_write` selected.
    pub fn key_event_count_read(&mut self) -> (r: Result<u8, E>)
        requires
            old(self).wf(),
        ensures
            final(self).continues(*old(self)),
            single_byte_read(old(self).trace(), final(self).trace(), old(self).device_address(), r),
            single_byte_read(old(self).bus_transcript(), final(self).bus_transcript(), old(self).device_address(), r),
    {
        self.read_byte()
    }

    /// The write half of `key_event_iterate`: selects the queue of key events
    /// for the next read.
    pub fn key_event_iterate_write(&mut self) -> (r: Result<(), E>)
        requires
            old(self).wf(),
        ensures
            final(self).continues(*old(self)),
            single_write(old(self).trace(), final(self).trace(), old(self).device_address(), key_event_fifo_select(), r),
            single_write(old(self).bus_transcript(), final(self).bus_transcript(), old(self).device_address(), key_event_fifo_select(), r),
    {
        let command: [u8; 2] = [KEYPAD_REGISTER_BASE, KEYPAD_FIFO];
        assert(command@ =~= key_event_fifo_select());
        self.write_command(&command)
    }

    /// The read half of `key_event_iterate`: reads `count` queued events into
    /// the front of `event_buffer` and iterates over them.
    pub fn key_event_iterate_read<'a>(&mut self, event_buffer: &'a mut [u8], count: u8) -> (r: Result<
        NeotrellisEventIterator<'a>,
        E,
    >)
        requires
            old(self).wf(),
            count as nat <= old(event_buffer)@.len(),
        ensures
            final(self).continues(*old(self)),
            final(event_buffer)@.len() == old(event_buffer)@.len(),
            final(event_buffer)@.skip(count as int) == old(event_buffer)@.skip(count as int),
            match r {
                Ok(it) => {
                    &&& it.remaining() == final(event_buffer)@.take(count as int)
                    &&& final(self).trace() == old(self).trace().push(
                        read_ok(old(self).device_address(), it.remaining()),
                    )
                },
                Err(_) => {
                    &&& final(event_buffer)@ == old(event_buffer)@
                    &&& exists|data: Seq<u8>|
                        data.len() == count && final(self).trace() == old(self).trace().push(
                            #[trigger] failed(read_ok(old(self).device_address(), data)),
                        )
                },
            },
    {
        // The bus reads exactly `count` bytes; they then go to the front of
        // the caller's buffer, which the iterator borrows.
        let n = count as usize;
        let mut fifo: Vec<u8> = vec![0u8; n];
        let r = self.read_into(fifo.as_mut_slice());
        match r {
            Ok(()) => {
                let mut i: usize = 0;
                while i < n
                    invariant
                        n == count as usize,
                        i <= n,
                        n <= event_buffer@.len(),
                        fifo@.len() == n,
                        event_buffer@.len() == old(event_buffer)@.len(),
                        forall|j: int| 0 <= j < i ==> event_buffer@[j] == fifo@[j],
                        forall|j: int| n <= j < event_buffer@.len() ==> event_buffer@[j] == old(event_buffer)@[j],
                    decreases n - i,
                {
                    event_buffer[i] = fifo[i];
                    i = i + 1;
                }
                assert(event_buffer@.take(n as int) =~= fifo@);
                assert(event_buffer@.skip(n as int) =~= old(event_buffer)@.skip(n as int));
                let events: &'a [u8] = event_buffer;
                Ok(NeotrellisEventIterator::over(slice_subrange(events, 0, n)))
            },
            Err(e) => {
                assert(self.trace() == old(self).trace().push(failed(read_ok(self.address, fifo@))));
                Err(e)
            },
        }
    }

    /// Sets the color of LED `led_index` in the device's color buffer; it shows
    /// after `refresh_leds`.
    pub fn set_led(&mut self, led_index: u8, red: u8, green: u8, blue: u8) -> (r: Result<(), E>)
        requires
            old(self).wf(),
            led_index < 16,
        ensures
            final(self).continues(*old(self)),
            single_write(
                old(self).trace(),
                final(self).trace(),
                old(self).device_address(),
                led_color_command(led_index, red, green, blue),
                r,
            ),
            single_write(
                old(self).bus_transcript(),
                final(self).bus_transcript(),
                old(self).device_address(),
                led_color_command(led_index, red, green, blue),
                r,
            ),
    {
        let command: [u8; 7] = [
            NEOPIXEL_REGISTER_BASE,
            NEOPIXEL_BUFFER,
            0,  // offset, high byte
            3 * led_index,  // offset, low byte
            green,
            red,
            blue,
        ];
        assert(command@ =~= led_color_command(led_index, red, green, blue));
        self.write_command(&command)
    }

    /// Shows the color buffer on the LEDs. Give the buffer about 300 us to
    /// latch after `set_led` or `clear_leds` before calling this.
    pub fn refresh_leds(&mut self) -> (r: Result<(), E>)
        requires
            old(self).wf(),
        ensures
            final(self).continues(*old(self)),
            single_write(old(self).trace(), final(self).trace(), old(self).device_address(), led_show_command(), r),
            single_write(old(self).bus_transcript(), final(self).bus_transcript(), old(self).device_address(), led_show_command(), r),
    {
        let command: [u8; 2] = [NEOPIXEL_REGISTER_BASE, NEOPIXEL_SHOW];
        assert(command@ =~= led_show_command());
        self.write_command(&command)
    }

    /// Reads the hardware identity: select, wait 500 us, read. A NeoTrellis
    /// reports 0x55.
    pub fn hardware_id(&mut self) -> (r: Result<u8, E>)
        requires
            old(self).wf(),
        ensures
            final(self).continues(*old(self)),
            query_result(old(self).trace(), final(self).trace(), old(self).device_address(), hardware_id_select(), r),
    {
        let ghost t0 = self.trace();
        if let Err(e) = self.hardware_id_write() {
            proof {
                let plan = query_plan(self.address, hardware_id_select(), seq![0u8]);
                assert(self.trace() =~= t0 + plan.take(0).push(failed(plan[0])));
            }
            return Err(e);
        }
        self.settle(READ_SETTLE_MICROS);
        let r = self.hardware_id_read();
        proof {
            match r {
                Ok(v) => assert(self.trace() =~= t0 + query_plan(self.address, hardware_id_select(), seq![v])),
                Err(_) => {
                    let data = choose|data: Seq<u8>|
                        data.len() == 1 && self.trace() == t0.push(write_ok(self.address, hardware_id_select())).push(
                            BusOp::Delay { micros: READ_SETTLE_MICROS }).push(#[trigger] failed(read_ok(self.address, data)));
                    let plan = query_plan(self.address, hardware_id_select(), data);
                    assert(self.trace() =~= t0 + plan.take(2).push(failed(plan[2])));
                },
            }
        }
        r
    }

    /// Reads how many key events are queued: select, wait 500 us, read.
    pub fn key_event_count(&mut self) -> (r: Result<u8, E>)
        requires
            old(self).wf(),
        ensures
            final(self).continues(*old(self)),
            query_result(old(self).trace(), final(self).trace(), old(self).device_address(), key_event_count_select(), r),
    {
        let ghost t0 = self.trace();
        if let Err(e) = self.key_event_count_write() {
            proof {
                let plan = query_plan(self.address, key_event_count_select(), seq![0u8]);
                assert(self.trace() =~= t0 + plan.take(0).push(failed(plan[0])));
            }
            return Err(e);
        }
        self.settle(READ_SETTLE_MICROS);
        let r = self.key_event_count_read();
        proof {
            match r {
                Ok(v) => assert(self.trace() =~= t0 + query_plan(self.address, key_event_count_select(), seq![v])),
                Err(_) => {
                    let data = choose|data: Seq<u8>|
                        data.len() == 1 && self.trace() == t0.push(write_ok(self.address, key_event_count_select())).push(
                            BusOp::Delay { micros: READ_SETTLE_MICROS }).push(#[trigger] failed(read_ok(self.address, data)));
                    let plan = query_plan(self.address, key_event_count_select(), data);
                    assert(self.trace() =~= t0 + plan.take(2).push(failed(plan[2])));
                },
            }
        }
        r
    }

    /// Polls the keypad: reads how many events are queued and, unless none
    /// are, reads them into the front of `event_buffer` (at most as many as it
    /// holds) and iterates over them in queue order. With no queued events the
    /// queue itself is not read.
    pub fn key_event_iterate<'a>(&mut self, event_buffer: &'a mut [u8]) -> (r: Result<
        NeotrellisEventIterator<'a>,
        E,
    >)
        requires
            old(self).wf(),
        ensures
            final(self).continues(*old(self)),
            final(event_buffer)@.len() == old(event_buffer)@.len(),
            match r {
                Ok(it) => exists|count: u8|
                    #[trigger] poll_done(
                        old(self).trace(),
                        final(self).trace(),
                        old(self).device_address(),
                        old(event_buffer)@,
                        final(event_buffer)@,
                        count,
                        it.remaining(),
                    ),
                Err(_) => final(event_buffer)@ == old(event_buffer)@ && {
                    ||| exists|data: Seq<u8>|
                        data.len() == 1 && ran_until_failure(
                            old(self).trace(),
                            final(self).trace(),
                            #[trigger] query_plan(old(self).device_address(), key_event_count_select(), data),
                        )
                    ||| exists|count: u8, data: Seq<u8>|
                        count > 0 && data.len() == event_read_len(count, old(event_buffer)@.len())
                            && ran_until_failure(
                            old(self).trace(),
                            final(self).trace(),
                            #[trigger] poll_plan(old(self).device_address(), count, data),
                        )
                },
            },
    {
        let ghost t0 = self.trace();
        let count = match self.key_event_count() {
            Ok(c) => c,
            Err(e) => return Err(e),
        };
        self.poll_fifo(event_buffer, count, Ghost(t0))
    }

    fn poll_fifo<'a>(&mut self, event_buffer: &'a mut [u8], count: u8, Ghost(t0): Ghost<Seq<BusOp>>) -> (r: Result<
        NeotrellisEventIterator<'a>,
        E,
    >)
        requires
            old(self).wf(),
            ran_all(t0, old(self).trace(), query_plan(old(self).device_address(), key_event_count_select(), seq![count])),
        ensures
            final(self).continues(*old(self)),
            final(event_buffer)@.len() == old(event_buffer)@.len(),
            match r {
                Ok(it) => poll_done(
                    t0,
                    final(self).trace(),
                    old(self).device_address(),
                    old(event_buffer)@,
                    final(event_buffer)@,
                    count,
                    it.remaining(),
                ),
                Err(_) => count > 0 && final(event_buffer)@ == old(event_buffer)@ && exists|data: Seq<u8>|
                    data.len() == event_read_len(count, old(event_buffer)@.len()) && ran_until_failure(
                        t0,
                        final(self).trace(),
                        #[trigger] poll_plan(old(self).device_address(), count, data),
                    ),
            },
    {
        let ghost address = self.address;
        let ghost t1 = self.trace();
        if count == 0 {
            let it = no_events(event_buffer);
            proof {
                assert(poll_plan(address, count, it.remaining()) =~= query_plan(address, key_event_count_select(), seq![count]));
            }
            return Ok(it);
        }
        let n: u8 = if (count as usize) <= event_buffer.len() {
            count
        } else {
            event_buffer.len() as u8
        };
        let ghost front = query_plan(address, key_event_count_select(), seq![count]);
        if let Err(e) = self.key_event_iterate_write() {
            proof {
                let data = Seq::new(n as nat, |i: int| 0u8);
                let plan = poll_plan(address, count, data);
                assert(plan[3] == write_ok(address, key_event_fifo_select()));
                assert(self.trace() =~= t0 + plan.take(3).push(failed(plan[3])));
            }
            return Err(e);
        }
        self.settle(READ_SETTLE_MICROS);
        let r = self.key_event_iterate_read(event_buffer, n);
        proof {
            match &r {
                Ok(it) => {
                    assert(self.trace() =~= t0 + poll_plan(address, count, it.remaining()));
                },
                Err(_) => {
                    let data = choose|data: Seq<u8>|
                        data.len() == n && self.trace() == t1.push(write_ok(address, key_event_fifo_select())).push(
                            BusOp::Delay { micros: READ_SETTLE_MICROS }).push(#[trigger] failed(read_ok(address, data)));
                    let plan = poll_plan(address, count, data);
                    assert(plan[5] == read_ok(address, data));
                    assert(self.trace() =~= t0 + plan.take(5).push(failed(plan[5])));
                },
            }
        }
        r
    }

    /// Configures the LED driver: 800 kHz signal, a 48-byte color buffer, pin 3.
    fn enable_leds(&mut self) -> (r: Result<(), E>)
        requires
            old(self).wf(),
        ensures
            final(self).continues(*old(self)),
            plan_result(old(self).trace(), final(self).trace(), led_setup_plan(old(self).device_address()), r),
    {
        let ghost t0 = self.trace();
        let ghost plan = led_setup_plan(self.address);
        let command: [u8; 3] = [NEOPIXEL_REGISTER_BASE, NEOPIXEL_SPEED, 0x01];
        assert(command@ =~= led_speed_command());
        if let Err(e) = self.write_command(&command) {
            assert(self.trace() =~= t0 + plan.take(0).push(failed(plan[0])));
            return Err(e);
        }
        let command: [u8; 4] = [NEOPIXEL_REGISTER_BASE, NEOPIXEL_BUFFER_LENGTH, 0, 16 * 3];
        assert(command@ =~= led_buffer_length_command());
        if let Err(e) = self.write_command(&command) {
            assert(self.trace() =~= t0 + plan.take(1).push(failed(plan[1])));
            return Err(e);
        }
        let command: [u8; 3] = [NEOPIXEL_REGISTER_BASE, NEOPIXEL_PIN, 3];
        assert(command@ =~= led_pin_command());
        let r = self.write_command(&command);
        if r.is_err() {
            assert(self.trace() =~= t0 + plan.take(2).push(failed(plan[2])));
        } else {
            assert(self.trace() =~= t0 + plan);
        }
        r
    }

    /// Sets every LED's color to black in the device's color buffer, in two
    /// writes of 24 bytes (the co-processor takes no more at once); it shows
    /// after `refresh_leds`.
    pub fn clear_leds(&mut self) -> (r: Result<(), E>)
        requires
            old(self).wf(),
        ensures
            final(self).continues(*old(self)),
            plan_result(old(self).trace(), final(self).trace(), led_clear_plan(old(self).device_address()), r),
    {
        let ghost t0 = self.trace();
        let ghost plan = led_clear_plan(self.address);
        let mut command: [u8; 28] = [0; 28];
        command[0] = NEOPIXEL_REGISTER_BASE;
        command[1] = NEOPIXEL_BUFFER;
        assert(command@ =~= led_clear_command(0));
        if let Err(e) = self.write_command(&command) {
            assert(self.trace() =~= t0 + plan.take(0).push(failed(plan[0])));
            return Err(e);
        }
        command[3] = 24;
        assert(command@ =~= led_clear_command(24));
        let r = self.write_command(&command);
        if r.is_err() {
            assert(self.trace() =~= t0 + plan.take(1).push(failed(plan[1])));
        } else {
            assert(self.trace() =~= t0 + plan);
        }
        r
    }

    /// Checks that the board answers with hardware identity 0x55, then
    /// enables press and release events of all 16 keys (in key order),
    /// configures the LEDs, clears them, waits 300 us and shows the cleared
    /// buffer. A wrong identity stops it right after the identity read.
    pub fn initialize(&mut self) -> (r: Result<(), InitError<E>>)
        requires
            old(self).wf(),
        ensures
            final(self).continues(*old(self)),
            ({
                let before = old(self).trace();
                let after = final(self).trace();
                let address = old(self).device_address();
                let identified = before + query_plan(address, hardware_id_select(), seq![EXPECTED_HARDWARE_ID]);
                match r {
                    Ok(()) => ran_all(identified, after, setup_plan(address)),
                    Err(InitError::HardwareIdMismatch(id)) => id != EXPECTED_HARDWARE_ID && ran_all(
                        before,
                        after,
                        query_plan(address, hardware_id_select(), seq![id]),
                    ),
                    Err(InitError::Bus(_)) => {
                        ||| exists|data: Seq<u8>|
                            data.len() == 1 && ran_until_failure(
                                before,
                                after,
                                #[trigger] query_plan(address, hardware_id_select(), data),
                            )
                        ||| ran_until_failure(identified, after, setup_plan(address))
                    },
                }
            }),
    {
        let ghost address = self.address;
        let id = match self.hardware_id() {
            Ok(id) => id,
            Err(e) => return Err(InitError::Bus(e)),
        };
        if id != EXPECTED_HARDWARE_ID {
            return Err(InitError::HardwareIdMismatch(id));
        }
        let ghost t1 = self.trace();
        let ghost keys = key_enable_plan(address, 16);
        let ghost leds = led_setup_plan(address);
        let ghost clear = led_clear_plan(address);
        let ghost tail = seq![BusOp::Delay { micros: LATCH_MICROS }, write_ok(address, led_show_command())];
        assert(setup_plan(address) == keys + leds + clear + tail);
        let mut key: usize = 0;
        while key < 16
            invariant
                key <= 16,
                self.continues(*old(self)),
                self.device_address() == address,
                address == old(self).device_address(),
                t1 == old(self).trace() + query_plan(address, hardware_id_select(), seq![EXPECTED_HARDWARE_ID]),
                keys == key_enable_plan(address, 16),
                leds == led_setup_plan(address),
                clear == led_clear_plan(address),
                tail == seq![BusOp::Delay { micros: LATCH_MICROS }, write_ok(address, led_show_command())],
                setup_plan(address) == keys + leds + clear + tail,
                self.trace() == t1 + key_enable_plan(address, key as nat),
            decreases 16 - key,
        {
            let ghost before = self.trace();
            if let Err(e) = self.key_event_enable(key) {
                proof {
                    assert(keys[key as int] == write_ok(address, key_event_enable_command(key as nat)));
                    assert(keys.take(key as int) =~= key_enable_plan(address, key as nat));
                    assert(self.trace() =~= t1 + keys.take(key as int).push(failed(keys[key as int])));
                    lemma_failure_before(t1, self.trace(), keys, leds);
                    lemma_failure_before(t1, self.trace(), keys + leds, clear);
                    lemma_failure_before(t1, self.trace(), keys + leds + clear, tail);
                }
                return Err(InitError::Bus(e));
            }
            assert(key_enable_plan(address, (key + 1) as nat) =~= key_enable_plan(address, key as nat).push(
                write_ok(address, key_event_enable_command(key as nat))));
            key = key + 1;
        }
        assert(key_enable_plan(address, key as nat) == keys);
        let ghost t2 = self.trace();
        let led_result = self.enable_leds();
        if let Err(e) = led_result {
            proof {
                lemma_failure_after(t1, t2, self.trace(), keys, leds);
                lemma_failure_before(t1, self.trace(), keys + leds, clear);
                lemma_failure_before(t1, self.trace(), keys + leds + clear, tail);
            }
            return Err(InitError::Bus(e));
        }
        proof {
            lemma_ran_all_concat(t1, t2, self.trace(), keys, leds);
        }
        let ghost t3 = self.trace();
        let clear_result = self.clear_leds();
        if let Err(e) = clear_result {
            proof {
                lemma_failure_after(t1, t3, self.trace(), keys + leds, clear);
                lemma_failure_before(t1, self.trace(), keys + leds + clear, tail);
            }
            return Err(InitError::Bus(e));
        }
        proof {
            lemma_ran_all_concat(t1, t3, self.trace(), keys + leds, clear);
        }
        let ghost t4 = self.trace();
        self.settle(LATCH_MICROS);
        let r = self.refresh_leds();
        proof {
            if r.is_err() {
                assert(self.trace() =~= t4 + tail.take(1).push(failed(tail[1])));
                lemma_failure_after(t1, t4, self.trace(), keys + leds + clear, tail);
            } else {
                assert(self.trace() =~= t4 + tail);
                lemma_ran_all_concat(t1, t4, self.trace(), keys + leds + clear, tail);
            }
        }
        match r {
            Ok(()) => Ok(()),
            Err(e) => Err(InitError::Bus(e)),
        }
    }
}

} // verus!
