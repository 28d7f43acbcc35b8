//! Driver core for a monochrome e-paper panel controller spoken to over a
//! command/data SPI bus with auxiliary GPIO lines (chip select, reset,
//! busy, data/command select).
//!
//! The crate is layered as follows, leaves first:
//! - [`geometry`]: pixel rectangles and their byte-aligned counterparts
//!   (the controller addresses its RAM in 8-pixel byte columns);
//! - [`value`]: the controller's register map and the closed sets of
//!   one-byte register arguments;
//! - [`error`]: the error taxonomy every operation reports through;
//! - [`protocol`]: the ghost model of everything the byte transport
//!   observes — selector toggles, raw transfers, chunking to the bus
//!   transfer limit — and the laws of that model;
//! - [`io`]: the capability contracts a backend must meet (digital
//!   output, digital input, raw byte transport, delay source), each with
//!   a ghost log of what it has observably done;
//! - [`backend`]: contract-free traits a plain wiring layer implements,
//!   and the verified adapters that lift them to the capability
//!   contracts;
//! - [`fakes`]: in-memory recording backends for exercising the engine;
//! - [`engine`]: the command protocol engine — init, RAM windowing,
//!   image upload, refresh, busy polling, sleep — with the exact emitted
//!   event sequence stated for every operation, and a unified ghost
//!   trace pinning the interleaving across the capability lines;
//! - [`image`]: the packed monochrome image buffer draws consume;
//! - [`facade`]: the small public surface (init, draw, fill, clear,
//!   sleep).

pub mod error;
pub mod geometry;
pub mod value;
pub mod protocol;
pub mod io;
pub mod backend;
pub mod fakes;
pub mod engine;
pub mod image;
pub mod facade;

pub use error::{EpdError, EpdResult};
pub use geometry::{NormalRectangle, EightSizedRectangle};
pub use value::{
    EpdColor, Command, DeepSleep, DisplayUpdateEnablingStep, DisplayUpdateTarget,
    DisplayUpdateDisablingStep, DisplayUpdateControlParams, Lut, DataEntryAddressDirection,
    DataEntryAddressCounterDirection, DataEntryMode, BorderWaveFormControlFollowSource,
    BorderWaveFormControlSelectGsOrFix, BorderWaveFormControlFixLevelSetting,
    BorderWaveFormControlGsTransitionSetting,
};
pub use protocol::{SpiEvent, RecordedSpiEvent};
pub use io::{EpdGpioWriter, EpdGpioReader, RawSpiAccessor, DelayProvider};
pub use backend::{
    OutputPinBackend, InputPinBackend, TransportBackend, DelayBackend, BackendOutputPin,
    BackendInputPin, BackendTransport, BackendDelay,
};
pub use fakes::{FakeOutputPin, FakeInputPin, FakeSpi, FakeDelay, ReadOutcome};
pub use engine::EpdSpiWrapper;
pub use image::{EpdImage, EpdMonoColorImage};
pub use facade::Epd;
