//! Driver for the NeoTrellis RGB keypad: a 4x4 key grid with one RGB LED per
//! key, reached over I2C through a register protocol of its co-processor.
//!
//! The co-processor needs a settle delay between selecting a register and
//! reading it back. Each such query exists as a combined call that waits for
//! that delay, and as its separate select-write and read halves for callers
//! that cannot block.
use vstd::prelude::*;

pub mod bus;
pub mod driver;
pub mod event;
pub mod index;

pub use driver::{I2cBus, InitError, Neotrellis, DEFAULT_ADDRESS};
pub use event::{NeotrellisEvent, NeotrellisEventIterator, NeotrellisEventType};
pub use index::{neo_trellis_index, see_saw_index};
