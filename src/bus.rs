//! What the driver hands to the I2C bus and to the delay function, recorded as
//! a ghost trace of operations, and the plans of operations that the driver's
//! calls follow.
use vstd::prelude::*;
use crate::event::{decode_all, decode_event};
use crate::index::device_index;

verus! {

/// Base byte of the status register group.
pub const STATUS_REGISTER_BASE: u8 = 0x00;
/// Base byte of the keypad register group.
pub const KEYPAD_REGISTER_BASE: u8 = 0x10;
/// Base byte of the LED (NeoPixel) register group.
pub const NEOPIXEL_REGISTER_BASE: u8 = 0x0E;

/// Status register that holds the hardware identity.
pub const STATUS_HARDWARE_ID: u8 = 0x01;
/// Keypad register that enables events of one key.
pub const KEYPAD_EVENT: u8 = 0x01;
/// Keypad register that holds the number of queued events.
pub const KEYPAD_COUNT: u8 = 0x04;
/// Keypad register that holds the queue of events.
pub const KEYPAD_FIFO: u8 = 0x10;
/// LED register that selects the output pin.
pub const NEOPIXEL_PIN: u8 = 0x01;
/// LED register that selects the signal speed.
pub const NEOPIXEL_SPEED: u8 = 0x02;
/// LED register that holds the length of the color buffer.
pub const NEOPIXEL_BUFFER_LENGTH: u8 = 0x03;
/// LED register that writes into the color buffer.
pub const NEOPIXEL_BUFFER: u8 = 0x04;
/// LED register that latches the color buffer onto the LEDs.
pub const NEOPIXEL_SHOW: u8 = 0x05;

/// The hardware identity that a NeoTrellis reports.
pub const EXPECTED_HARDWARE_ID: u8 = 0x55;
/// Delay between selecting a register and reading it, in microseconds.
pub const READ_SETTLE_MICROS: u32 = 500;
/// Delay before the first refresh of the LEDs, in microseconds.
pub const LATCH_MICROS: u32 = 300;
/// Edge configuration that enables both press and release events of a key.
pub const EDGES_RISING_AND_FALLING: u8 = 0b00011001;

/// One operation of the driver on the outside world.
pub enum BusOp {
    /// `bytes` written to the device at `address`; `ok` tells whether the bus
    /// reported success.
    Write { address: u8, bytes: Seq<u8>, ok: bool },
    /// `bytes` read from the device at `address` (their number is the length
    /// that was asked for); `ok` tells whether the bus reported success.
    Read { address: u8, bytes: Seq<u8>, ok: bool },
    /// A call of the delay function.
    Delay { micros: u32 },
}

/// A successful write.
pub open spec fn write_ok(address: u8, bytes: Seq<u8>) -> BusOp {
    BusOp::Write { address, bytes, ok: true }
}

/// A successful read.
pub open spec fn read_ok(address: u8, bytes: Seq<u8>) -> BusOp {
    BusOp::Read { address, bytes, ok: true }
}

/// The same bus operation, failed.
pub open spec fn failed(op: BusOp) -> BusOp {
    match op {
        BusOp::Write { address, bytes, ok } => BusOp::Write { address, bytes, ok: false },
        BusOp::Read { address, bytes, ok } => BusOp::Read { address, bytes, ok: false },
        BusOp::Delay { micros } => BusOp::Delay { micros },
    }
}

/// Whether `op` goes over the bus (and so can fail).
pub open spec fn is_transfer(op: BusOp) -> bool {
    !(op is Delay)
}

/// The bus transactions of `ops` (its writes and reads), in order.
pub open spec fn transfers(ops: Seq<BusOp>) -> Seq<BusOp>
    decreases ops.len(),
{
    if ops.len() == 0 {
        Seq::empty()
    } else if is_transfer(ops.last()) {
        transfers(ops.drop_last()).push(ops.last())
    } else {
        transfers(ops.drop_last())
    }
}

/// The transfers of `ops + more` are those of `ops`, then those of `more`.
pub proof fn lemma_transfers_concat(ops: Seq<BusOp>, more: Seq<BusOp>)
    ensures
        transfers(ops + more) == transfers(ops) + transfers(more),
    decreases more.len(),
{
    if more.len() == 0 {
        assert(ops + more =~= ops);
        assert(transfers(ops) + transfers(more) =~= transfers(ops));
    } else {
        lemma_transfers_concat(ops, more.drop_last());
        assert((ops + more).drop_last() =~= ops + more.drop_last());
        assert((ops + more).last() == more.last());
        if is_transfer(more.last()) {
            assert(transfers(ops + more) =~= transfers(ops) + transfers(more));
        } else {
            assert(transfers(ops + more) =~= transfers(ops) + transfers(more));
        }
    }
}

/// The trace went from `before` to `after` by running all of `ops`.
pub open spec fn ran_all(before: Seq<BusOp>, after: Seq<BusOp>, ops: Seq<BusOp>) -> bool {
    after == before + ops
}

/// The trace went from `before` to `after` by running `ops` up to one bus
/// operation that failed, and no further.
pub open spec fn ran_until_failure(before: Seq<BusOp>, after: Seq<BusOp>, ops: Seq<BusOp>) -> bool {
    exists|k: int|
        0 <= k < ops.len() && is_transfer(#[trigger] ops[k]) && after == before + ops.take(k).push(
            failed(ops[k]),
        )
}

/// Running all of `first` and then `second` up to a failure is running
/// `first + second` up to a failure.
pub proof fn lemma_failure_after(
    a: Seq<BusOp>,
    b: Seq<BusOp>,
    c: Seq<BusOp>,
    first: Seq<BusOp>,
    second: Seq<BusOp>,
)
    requires
        ran_all(a, b, first),
        ran_until_failure(b, c, second),
    ensures
        ran_until_failure(a, c, first + second),
{
    let k = choose|k: int|
        0 <= k < second.len() && is_transfer(#[trigger] second[k]) && c == b + second.take(k).push(
            failed(second[k]),
        );
    let j = first.len() + k;
    assert((first + second)[j] == second[k]);
    assert(c =~= a + (first + second).take(j).push(failed((first + second)[j])));
}

/// A failure of `ops` is a failure of `ops` followed by anything.
pub proof fn lemma_failure_before(a: Seq<BusOp>, c: Seq<BusOp>, ops: Seq<BusOp>, rest: Seq<BusOp>)
    requires
        ran_until_failure(a, c, ops),
    ensures
        ran_until_failure(a, c, ops + rest),
{
    let k = choose|k: int|
        0 <= k < ops.len() && is_transfer(#[trigger] ops[k]) && c == a + ops.take(k).push(
            failed(ops[k]),
        );
    assert((ops + rest)[k] == ops[k]);
    assert((ops + rest).take(k) =~= ops.take(k));
}

/// Running all of `first` and then all of `second` is running all of
/// `first + second`.
pub proof fn lemma_ran_all_concat(
    a: Seq<BusOp>,
    b: Seq<BusOp>,
    c: Seq<BusOp>,
    first: Seq<BusOp>,
    second: Seq<BusOp>,
)
    requires
        ran_all(a, b, first),
        ran_all(b, c, second),
    ensures
        ran_all(a, c, first + second),
{
    assert(c =~= a + (first + second));
}

/// The outcome of a run of `ops`: all of them when `r` is `Ok`, else up to the
/// one that failed.
pub open spec fn plan_result<E>(
    before: Seq<BusOp>,
    after: Seq<BusOp>,
    ops: Seq<BusOp>,
    r: Result<(), E>,
) -> bool {
    match r {
        Ok(_) => ran_all(before, after, ops),
        Err(_) => ran_until_failure(before, after, ops),
    }
}

/// The trace grew by one write of `bytes` to `address`, which failed exactly
/// when `r` is an error.
pub open spec fn single_write<E>(
    before: Seq<BusOp>,
    after: Seq<BusOp>,
    address: u8,
    bytes: Seq<u8>,
    r: Result<(), E>,
) -> bool {
    after == before.push(BusOp::Write { address, bytes, ok: r is Ok })
}

/// The trace grew by one read of a single byte from `address`: the byte `r`
/// holds when it succeeded.
pub open spec fn single_byte_read<E>(
    before: Seq<BusOp>,
    after: Seq<BusOp>,
    address: u8,
    r: Result<u8, E>,
) -> bool {
    match r {
        Ok(v) => after == before.push(read_ok(address, seq![v])),
        Err(_) => exists|data: Seq<u8>|
            data.len() == 1 && after == before.push(#[trigger] failed(read_ok(address, data))),
    }
}

/// The outcome of a timed query of the register that `select` chooses: the
/// whole query with the byte `r` holds when it succeeded, else the query up to
/// the transaction that failed.
pub open spec fn query_result<E>(
    before: Seq<BusOp>,
    after: Seq<BusOp>,
    address: u8,
    select: Seq<u8>,
    r: Result<u8, E>,
) -> bool {
    match r {
        Ok(v) => ran_all(before, after, query_plan(address, select, seq![v])),
        Err(_) => exists|data: Seq<u8>|
            data.len() == 1 && ran_until_failure(
                before,
                after,
                #[trigger] query_plan(address, select, data),
            ),
    }
}

/// How many queued events a poll reads: the count that the device reported,
/// but no more than the buffer holds.
pub open spec fn event_read_len(count: u8, capacity: nat) -> nat {
    if count as nat <= capacity {
        count as nat
    } else {
        capacity
    }
}

/// A poll of the event queue: ask for the count, then, unless it is zero, read
/// `events` out of the queue.
pub open spec fn poll_plan(address: u8, count: u8, events: Seq<u8>) -> Seq<BusOp> {
    query_plan(address, key_event_count_select(), seq![count]) + if count == 0 {
        Seq::empty()
    } else {
        query_plan(address, key_event_fifo_select(), events)
    }
}

/// A poll that found `count` queued events ran to the end: it made the
/// transactions of `poll_plan`, and `events` are the bytes it read into the
/// front of the caller's buffer, which is otherwise left as it was.
pub open spec fn poll_done(
    before: Seq<BusOp>,
    after: Seq<BusOp>,
    address: u8,
    buffer_before: Seq<u8>,
    buffer_after: Seq<u8>,
    count: u8,
    events: Seq<u8>,
) -> bool {
    let n = event_read_len(count, buffer_before.len());
    &&& ran_all(before, after, poll_plan(address, count, events))
    &&& events == buffer_after.take(n as int)
    &&& buffer_after.skip(n as int) == buffer_before.skip(n as int)
}

/// Command that selects the hardware identity for the next read.
pub open spec fn hardware_id_select() -> Seq<u8> {
    seq![STATUS_REGISTER_BASE, STATUS_HARDWARE_ID]
}

/// Command that selects the number of queued key events for the next read.
pub open spec fn key_event_count_select() -> Seq<u8> {
    seq![KEYPAD_REGISTER_BASE, KEYPAD_COUNT]
}

/// Command that selects the queue of key events for the next read.
pub open spec fn key_event_fifo_select() -> Seq<u8> {
    seq![KEYPAD_REGISTER_BASE, KEYPAD_FIFO]
}

/// Command that enables press and release events of the key at row-major
/// position `key`.
pub open spec fn key_event_enable_command(key: nat) -> Seq<u8> {
    seq![KEYPAD_REGISTER_BASE, KEYPAD_EVENT, device_index(key) as u8, EDGES_RISING_AND_FALLING]
}

/// Command that sets the LED signal speed to 800 kHz.
pub open spec fn led_speed_command() -> Seq<u8> {
    seq![NEOPIXEL_REGISTER_BASE, NEOPIXEL_SPEED, 0x01]
}

/// Command that sets the color buffer to 48 bytes: three per LED.
pub open spec fn led_buffer_length_command() -> Seq<u8> {
    seq![NEOPIXEL_REGISTER_BASE, NEOPIXEL_BUFFER_LENGTH, 0, 48]
}

/// Command that sets the LED output pin to 3.
pub open spec fn led_pin_command() -> Seq<u8> {
    seq![NEOPIXEL_REGISTER_BASE, NEOPIXEL_PIN, 3]
}

/// Command that writes 24 zero color bytes at byte `offset` of the color buffer.
pub open spec fn led_clear_command(offset: u8) -> Seq<u8> {
    seq![NEOPIXEL_REGISTER_BASE, NEOPIXEL_BUFFER, 0, offset] + Seq::new(24, |i: int| 0u8)
}

/// Command that writes the color of LED `led` into the color buffer, in the
/// device's channel order green, red, blue.
pub open spec fn led_color_command(led: u8, red: u8, green: u8, blue: u8) -> Seq<u8> {
    seq![NEOPIXEL_REGISTER_BASE, NEOPIXEL_BUFFER, 0, (3 * led) as u8, green, red, blue]
}

/// Command that shows the color buffer on the LEDs.
pub open spec fn led_show_command() -> Seq<u8> {
    seq![NEOPIXEL_REGISTER_BASE, NEOPIXEL_SHOW]
}

/// A timed query: select a register, wait for the co-processor, read `data`.
pub open spec fn query_plan(address: u8, select: Seq<u8>, data: Seq<u8>) -> Seq<BusOp> {
    seq![
        write_ok(address, select),
        BusOp::Delay { micros: READ_SETTLE_MICROS },
        read_ok(address, data),
    ]
}

/// The writes that enable events of the keys `0..n`, in key order.
pub open spec fn key_enable_plan(address: u8, n: nat) -> Seq<BusOp> {
    Seq::new(n, |k: int| write_ok(address, key_event_enable_command(k as nat)))
}

/// The writes that configure the LED driver.
pub open spec fn led_setup_plan(address: u8) -> Seq<BusOp> {
    seq![
        write_ok(address, led_speed_command()),
        write_ok(address, led_buffer_length_command()),
        write_ok(address, led_pin_command()),
    ]
}

/// The two writes that clear the whole color buffer.
pub open spec fn led_clear_plan(address: u8) -> Seq<BusOp> {
    seq![write_ok(address, led_clear_command(0)), write_ok(address, led_clear_command(24))]
}

/// What initialization does once the hardware identity has been confirmed.
pub open spec fn setup_plan(address: u8) -> Seq<BusOp> {
    key_enable_plan(address, 16) + led_setup_plan(address) + led_clear_plan(address) + seq![
        BusOp::Delay { micros: LATCH_MICROS },
        write_ok(address, led_show_command()),
    ]
}

/// A poll that found no queued events made only the three transactions of
/// the count query (the queue itself was not read) and yields no events.
pub proof fn lemma_empty_poll(
    before: Seq<BusOp>,
    after: Seq<BusOp>,
    address: u8,
    buffer_before: Seq<u8>,
    buffer_after: Seq<u8>,
    events: Seq<u8>,
)
    requires
        poll_done(before, after, address, buffer_before, buffer_after, 0, events),
    ensures
        events.len() == 0,
        after == before + query_plan(address, key_event_count_select(), seq![0u8]),
        after.len() == before.len() + 3,
{
    assert(poll_plan(address, 0, events) =~= query_plan(address, key_event_count_select(), seq![0u8]));
}

/// A poll that found `count` queued events, with room for them in the buffer,
/// read exactly `count` bytes out of the queue, and its events are those bytes
/// decoded, in the order they were read.
pub proof fn lemma_poll_reads_count(
    before: Seq<BusOp>,
    after: Seq<BusOp>,
    address: u8,
    buffer_before: Seq<u8>,
    buffer_after: Seq<u8>,
    count: u8,
    events: Seq<u8>,
)
    requires
        poll_done(before, after, address, buffer_before, buffer_after, count, events),
        0 < count,
        count as nat <= buffer_before.len(),
        buffer_after.len() == buffer_before.len(),
    ensures
        events.len() == count,
        after == before + query_plan(address, key_event_count_select(), seq![count]) + query_plan(
            address,
            key_event_fifo_select(),
            events,
        ),
        decode_all(events).len() == count,
        forall|i: int| 0 <= i < count ==> #[trigger] decode_all(events)[i] == decode_event(buffer_after[i]),
{
}

/// Clearing the LEDs is exactly two writes of 24 zero color bytes: the first
/// at byte offset 0 of the color buffer, the second at byte offset 24.
pub proof fn lemma_clear_writes(address: u8)
    ensures
        led_clear_plan(address).len() == 2,
        led_clear_plan(address)[0] == write_ok(address, led_clear_command(0)),
        led_clear_plan(address)[1] == write_ok(address, led_clear_command(24)),
        led_clear_command(0).len() == 28 && led_clear_command(24).len() == 28,
        led_clear_command(0).take(4) == seq![NEOPIXEL_REGISTER_BASE, NEOPIXEL_BUFFER, 0u8, 0u8],
        led_clear_command(24).take(4) == seq![NEOPIXEL_REGISTER_BASE, NEOPIXEL_BUFFER, 0u8, 24u8],
        forall|i: int|
            4 <= i < 28 ==> #[trigger] led_clear_command(0)[i] == 0 && led_clear_command(24)[i] == 0,
{
    assert(led_clear_command(0).take(4) =~= seq![NEOPIXEL_REGISTER_BASE, NEOPIXEL_BUFFER, 0u8, 0u8]);
    assert(led_clear_command(24).take(4) =~= seq![NEOPIXEL_REGISTER_BASE, NEOPIXEL_BUFFER, 0u8, 24u8]);
}

} // verus!
