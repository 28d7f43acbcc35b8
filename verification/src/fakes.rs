//! In-memory recording backends.
//!
//! Each fake implements one capability contract by recording the events it
//! is asked to perform. An injectable failure point lets a test script the
//! I/O error paths, and the scripted input pin replays a fixed sequence of
//! busy-line levels. These are full citizens of the capability contracts:
//! anything proved of the engine holds when it drives them.

use vstd::prelude::*;
use crate::error::EpdError;
use crate::io::{EpdGpioWriter, EpdGpioReader, RawSpiAccessor, DelayProvider};
use crate::protocol::{SpiEvent, RecordedSpiEvent};

verus! {

/// A digital output line that records every level driven onto it.
/// When `fail_at` is `Some(k)`, the write attempted after `k` successful
/// ones fails (and keeps failing until `k` is exceeded another way).
pub struct FakeOutputPin {
    written: Vec<u8>,
    fail_at: Option<usize>,
}

impl FakeOutputPin {
    /// A pin whose writes all succeed.
    pub fn new() -> (r: Self)
        ensures
            r.writes() == Seq::<u8>::empty(),
    {
        Self { written: Vec::new(), fail_at: None }
    }

    /// A pin whose write after `k` successful ones fails.
    pub fn failing_at(k: usize) -> (r: Self)
        ensures
            r.writes() == Seq::<u8>::empty(),
    {
        Self { written: Vec::new(), fail_at: Some(k) }
    }

    /// The levels recorded so far.
    pub fn recorded(&self) -> (r: &Vec<u8>)
        ensures
            r@ == self.writes(),
    {
        &self.written
    }
}

impl EpdGpioWriter for FakeOutputPin {
    closed spec fn writes(&self) -> Seq<u8> {
        self.written@
    }

    fn write(&mut self, value: u8) -> (r: Result<(), EpdError>) {
        let fail = match self.fail_at {
            Some(k) => self.written.len() == k,
            None => false,
        };
        if fail {
            Err(EpdError::GpioError(String::from_str("injected pin write failure")))
        } else {
            self.written.push(value);
            Ok(())
        }
    }
}

/// One scripted answer of a [`FakeInputPin`].
#[derive(Debug, Copy, Clone, PartialEq, Eq)]
pub enum ReadOutcome {
    /// The line reads this level (any nonzero level counts as high).
    Level(u8),
    /// The read fails with a GPIO error.
    Failure,
}

/// A digital input line that replays a script of read outcomes, then reads
/// low forever once the script is exhausted.
pub struct FakeInputPin {
    script: Vec<ReadOutcome>,
    next: usize,
    seen: Vec<u8>,
}

impl FakeInputPin {
    /// A pin that replays `script`, then reads low forever.
    pub fn new(script: Vec<ReadOutcome>) -> (r: Self)
        ensures
            r.reads() == Seq::<u8>::empty(),
    {
        Self { script, next: 0, seen: Vec::new() }
    }

    /// The levels successfully read so far.
    pub fn recorded(&self) -> (r: &Vec<u8>)
        ensures
            r@ == self.reads(),
    {
        &self.seen
    }
}

impl EpdGpioReader for FakeInputPin {
    closed spec fn reads(&self) -> Seq<u8> {
        self.seen@
    }

    fn read(&mut self) -> (r: Result<u8, EpdError>) {
        let outcome = if self.next < self.script.len() {
            let o = self.script[self.next];
            self.next = self.next + 1;
            o
        } else {
            ReadOutcome::Level(0)
        };
        match outcome {
            ReadOutcome::Level(lvl) => {
                let v: u8 = if lvl == 0 {
                    0
                } else {
                    1
                };
                self.seen.push(v);
                Ok(v)
            },
            ReadOutcome::Failure => Err(
                EpdError::GpioError(String::from_str("injected pin read failure")),
            ),
        }
    }
}

/// A byte transport that records selector toggles and transfers instead of
/// touching hardware. When `fail_at` is `Some(k)`, the transport action
/// attempted after `k` recorded events fails.
pub struct FakeSpi {
    events: Vec<RecordedSpiEvent>,
    limit: usize,
    fail_at: Option<usize>,
}

impl FakeSpi {
    /// A transport with the given single-transfer byte limit.
    pub fn new(limit: usize) -> (r: Self)
        requires
            limit >= 1,
        ensures
            r.log() == Seq::<SpiEvent>::empty(),
            r.transfer_limit() == limit as nat,
    {
        Self { events: Vec::new(), limit, fail_at: None }
    }

    /// A transport whose action after `k` recorded events fails.
    pub fn failing_at(limit: usize, k: usize) -> (r: Self)
        requires
            limit >= 1,
        ensures
            r.log() == Seq::<SpiEvent>::empty(),
            r.transfer_limit() == limit as nat,
    {
        Self { events: Vec::new(), limit, fail_at: Some(k) }
    }

    /// The events recorded so far.
    pub fn recorded(&self) -> (r: &Vec<RecordedSpiEvent>)
        ensures
            r@.map_values(|e: RecordedSpiEvent| e@) == self.log(),
            r@.len() == self.log().len(),
    {
        proof {
            assert(self.events@.map_values(|e: RecordedSpiEvent| e@).len()
                == self.events@.len());
        }
        &self.events
    }
}

impl RawSpiAccessor for FakeSpi {
    closed spec fn log(&self) -> Seq<SpiEvent> {
        self.events@.map_values(|e: RecordedSpiEvent| e@)
    }

    closed spec fn transfer_limit(&self) -> nat {
        if self.limit >= 1 {
            self.limit as nat
        } else {
            1
        }
    }

    fn max_transfer_size(&self) -> (n: usize) {
        if self.limit >= 1 {
            self.limit
        } else {
            1
        }
    }

    proof fn transfer_limit_positive(&self) {
    }

    fn set_data_command_pin(&mut self, level: u8) -> (r: Result<(), EpdError>) {
        let fail = match self.fail_at {
            Some(k) => self.events.len() == k,
            None => false,
        };
        if fail {
            Err(EpdError::GpioError(String::from_str("injected selector failure")))
        } else {
            let ghost prev = self.events@;
            self.events.push(RecordedSpiEvent::Select { level });
            proof {
                assert(self.events@.map_values(|e: RecordedSpiEvent| e@) =~= prev.map_values(
                    |e: RecordedSpiEvent| e@,
                ).push(SpiEvent::Select { level }));
            }
            Ok(())
        }
    }

    fn send(&mut self, data: &[u8]) -> (r: Result<(), EpdError>) {
        let fail = match self.fail_at {
            Some(k) => self.events.len() == k,
            None => false,
        };
        if fail {
            Err(EpdError::SpiIoError(String::from_str("injected transfer failure")))
        } else {
            let ghost prev = self.events@;
            let copied: Vec<u8> = vstd::slice::slice_to_vec(data);
            self.events.push(RecordedSpiEvent::Chunk { bytes: copied });
            proof {
                assert(self.events@.map_values(|e: RecordedSpiEvent| e@) =~= prev.map_values(
                    |e: RecordedSpiEvent| e@,
                ).push(SpiEvent::Chunk { bytes: data@ }));
            }
            Ok(())
        }
    }
}

/// A delay source that records the pauses instead of sleeping.
pub struct FakeDelay {
    taken: Vec<u64>,
}

impl FakeDelay {
    pub fn new() -> (r: Self)
        ensures
            r.delays() == Seq::<u64>::empty(),
    {
        Self { taken: Vec::new() }
    }

    /// The pauses recorded so far.
    pub fn recorded(&self) -> (r: &Vec<u64>)
        ensures
            r@ == self.delays(),
    {
        &self.taken
    }
}

impl DelayProvider for FakeDelay {
    closed spec fn delays(&self) -> Seq<u64> {
        self.taken@
    }

    fn delay_for(&mut self, units: u64) {
        self.taken.push(units);
    }
}

} // verus!
