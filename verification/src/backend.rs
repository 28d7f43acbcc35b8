//! Plain backends and the verified adapters that lift them to the
//! capability contracts.
//!
//! The capability traits in [`crate::io`] carry ghost logs, so only
//! verified code can implement them. A concrete wiring layer lives
//! outside the verified world and speaks plain values; it implements the
//! contract-free backend traits here — levels, bytes and error strings,
//! nothing else. Each adapter owns one backend, performs its calls, and
//! tracks the ghost log itself, so the capability contracts hold by
//! construction whatever the backend does.

use vstd::prelude::*;
use crate::error::EpdError;
use crate::io::{EpdGpioWriter, EpdGpioReader, RawSpiAccessor, DelayProvider};
use crate::protocol::SpiEvent;

verus! {

/// A raw digital output line. Implementations report a failure as a
/// message; they promise nothing else.
pub trait OutputPinBackend: Sized {
    /// Drive the line low (0) or high (nonzero).
    fn set_level(&mut self, level: u8) -> Result<(), String>;
}

/// A raw digital input line.
pub trait InputPinBackend: Sized {
    /// Sample the line: 0 for low, nonzero for high.
    fn level(&mut self) -> Result<u8, String>;
}

/// A raw byte transport plus the data/command selector line it owns.
pub trait TransportBackend: Sized {
    /// Set the selector: 0 frames a command, nonzero frames data.
    fn select(&mut self, level: u8) -> Result<(), String>;

    /// Transmit the bytes as one raw transfer.
    fn transfer(&mut self, bytes: &[u8]) -> Result<(), String>;
}

/// A raw source of pauses.
pub trait DelayBackend: Sized {
    /// Pause for the given number of time units.
    fn pause(&mut self, units: u64);
}

/// An output pin over a plain backend, tracking the level log itself.
pub struct BackendOutputPin<T: OutputPinBackend> {
    backend: T,
    log: Ghost<Seq<u8>>,
}

impl<T: OutputPinBackend> BackendOutputPin<T> {
    pub fn new(backend: T) -> (r: Self)
        ensures
            r.writes() == Seq::<u8>::empty(),
    {
        Self { backend, log: Ghost(Seq::empty()) }
    }

    /// The backend underneath.
    pub fn backend(&self) -> &T {
        &self.backend
    }
}

impl<T: OutputPinBackend> EpdGpioWriter for BackendOutputPin<T> {
    closed spec fn writes(&self) -> Seq<u8> {
        self.log@
    }

    fn write(&mut self, value: u8) -> (r: Result<(), EpdError>) {
        match self.backend.set_level(value) {
            Ok(()) => {
                self.log = Ghost(self.log@.push(value));
                Ok(())
            },
            Err(message) => Err(EpdError::GpioError(message)),
        }
    }
}

/// An input pin over a plain backend, normalizing every sample to 0 or 1
/// and tracking the sample log itself.
pub struct BackendInputPin<T: InputPinBackend> {
    backend: T,
    log: Ghost<Seq<u8>>,
}

impl<T: InputPinBackend> BackendInputPin<T> {
    pub fn new(backend: T) -> (r: Self)
        ensures
            r.reads() == Seq::<u8>::empty(),
    {
        Self { backend, log: Ghost(Seq::empty()) }
    }

    /// The backend underneath.
    pub fn backend(&self) -> &T {
        &self.backend
    }
}

impl<T: InputPinBackend> EpdGpioReader for BackendInputPin<T> {
    closed spec fn reads(&self) -> Seq<u8> {
        self.log@
    }

    fn read(&mut self) -> (r: Result<u8, EpdError>) {
        match self.backend.level() {
            Ok(raw) => {
                let v: u8 = if raw == 0 {
                    0
                } else {
                    1
                };
                self.log = Ghost(self.log@.push(v));
                Ok(v)
            },
            Err(message) => Err(EpdError::GpioError(message)),
        }
    }
}

/// A transport over a plain backend. The single-transfer limit is fixed
/// at construction; selector failures surface as GPIO errors, transfer
/// failures as transport errors.
pub struct BackendTransport<T: TransportBackend> {
    backend: T,
    limit: usize,
    log: Ghost<Seq<SpiEvent>>,
}

impl<T: TransportBackend> BackendTransport<T> {
    /// A transport with the given single-transfer byte limit (clamped to
    /// at least one).
    pub fn new(backend: T, limit: usize) -> (r: Self)
        requires
            limit >= 1,
        ensures
            r.log() == Seq::<SpiEvent>::empty(),
            r.transfer_limit() == limit as nat,
    {
        Self { backend, limit, log: Ghost(Seq::empty()) }
    }

    /// The backend underneath.
    pub fn backend(&self) -> &T {
        &self.backend
    }
}

impl<T: TransportBackend> RawSpiAccessor for BackendTransport<T> {
    closed spec fn log(&self) -> Seq<SpiEvent> {
        self.log@
    }

    closed spec fn transfer_limit(&self) -> nat {
        if self.limit >= 1 {
            self.limit as nat
        } else {
            1
        }
    }

    fn max_transfer_size(&self) -> (n: usize) {
        if self.limit >= 1 {
            self.limit
        } else {
            1
        }
    }

    proof fn transfer_limit_positive(&self) {
    }

    fn set_data_command_pin(&mut self, level: u8) -> (r: Result<(), EpdError>) {
        match self.backend.select(level) {
            Ok(()) => {
                self.log = Ghost(self.log@.push(SpiEvent::Select { level }));
                Ok(())
            },
            Err(message) => Err(EpdError::GpioError(message)),
        }
    }

    fn send(&mut self, data: &[u8]) -> (r: Result<(), EpdError>) {
        match self.backend.transfer(data) {
            Ok(()) => {
                self.log = Ghost(self.log@.push(SpiEvent::Chunk { bytes: data@ }));
                Ok(())
            },
            Err(message) => Err(EpdError::SpiIoError(message)),
        }
    }
}

/// A delay source over a plain backend, tracking the pause log itself.
pub struct BackendDelay<T: DelayBackend> {
    backend: T,
    log: Ghost<Seq<u64>>,
}

impl<T: DelayBackend> BackendDelay<T> {
    pub fn new(backend: T) -> (r: Self)
        ensures
            r.delays() == Seq::<u64>::empty(),
    {
        Self { backend, log: Ghost(Seq::empty()) }
    }

    /// The backend underneath.
    pub fn backend(&self) -> &T {
        &self.backend
    }
}

impl<T: DelayBackend> DelayProvider for BackendDelay<T> {
    closed spec fn delays(&self) -> Seq<u64> {
        self.log@
    }

    fn delay_for(&mut self, units: u64) {
        self.backend.pause(units);
        self.log = Ghost(self.log@.push(units));
    }
}

} // verus!
