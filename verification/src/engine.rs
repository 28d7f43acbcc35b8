//! The command protocol engine.
//!
//! [`EpdSpiWrapper`] owns the four capability instances a panel is wired
//! through — chip-select and reset output pins, the busy input pin, the
//! command/data transport — plus a delay source, and sequences the fixed
//! register writes the controller requires. Every operation's contract
//! states the exact transport events it emits on success, and that on an
//! I/O failure the log stops at a prefix of that intended emission: the
//! engine never retries, masks or reorders anything.
//!
//! Beside the per-capability logs, the engine keeps a unified ghost trace
//! of every capability call it makes, appended beside each call in order.
//! Success contracts state that trace too, so the interleaving across
//! lines is pinned as well: the reset pulse holds its levels for the
//! reset time, both control pins rise before any register write, and the
//! busy polls come only after the terminating NOP.

use vstd::prelude::*;
use crate::error::{EpdError, EpdResult};
use crate::geometry::{NormalRectangle, EightSizedRectangle, byte_rect_of, byte_width_of};
use crate::io::{EpdGpioWriter, EpdGpioReader, RawSpiAccessor, DelayProvider};
use crate::protocol::{
    SpiEvent, payload_events, command_events, register_write_events, advanced_by_prefix,
    lemma_advanced_refl, lemma_advanced_widen, lemma_advanced_compose, lemma_advanced_full,
    command_codes, lemma_codes_of_register_write, lemma_codes_of_command,
};
use crate::value::{
    Command, DeepSleep, DisplayUpdateControlParams, Lut, DataEntryMode, EpdColor,
    lut_full_update_spec,
};

verus! {

/// Time units the reset line is held at each level of the reset pulse.
pub const RESET_TIME: u64 = 200;

/// Time units between two samples of the busy line.
pub const POLL_INTERVAL: u64 = 100;

/// Cap on busy-line samples in one wait. The reference behaviour is to
/// block without bound on a stuck-high busy line; a termination measure is
/// still required of the loop, so it carries this cap, which no physical
/// refresh can reach.
pub const MAX_POLLS: u64 = 0xFFFF_FFFF_FFFF_FFFF;

/// An I/O failure reported by a backend: a digital line or transport error.
pub open spec fn is_io_error(e: EpdError) -> bool {
    e is GpioError || e is SpiIoError
}

/// A byte rectangle the controller's address registers can hold: at least
/// one byte column and one row, X window within the byte-column address
/// space, Y window within the 16-bit row space.
pub open spec fn rect_in_range(rect: EightSizedRectangle) -> bool {
    &&& 1 <= rect.width
    &&& 1 <= rect.height
    &&& rect.x + rect.width <= 256
    &&& rect.y + rect.height <= 65536
}

/// A rectangle denoting an empty region; draws of it are no-ops.
pub open spec fn rect_is_empty(rect: EightSizedRectangle) -> bool {
    rect.width == 0 || rect.height == 0
}

/// The number of pixel bytes a byte rectangle spans.
pub open spec fn rect_area(rect: EightSizedRectangle) -> int {
    rect.width * rect.height
}

/// Argument of `DriverOutputControl`: the canvas height minus one in
/// little-endian 16-bit form, then a fixed zero byte.
pub open spec fn driver_output_data(height: u16) -> Seq<u8>
    recommends
        1 <= height,
{
    seq![(((height - 1) as int) % 256) as u8, (((height - 1) as int) / 256) as u8, 0u8]
}

/// Argument of `BoosterSoftStartControl`, captured from the vendor
/// reference firmware.
pub open spec fn booster_soft_start_data() -> Seq<u8> {
    seq![0xD7u8, 0xD6u8, 0x9Du8]
}

/// Argument of `WriteVcomRegister`, captured from the vendor reference
/// firmware.
pub open spec fn vcom_data() -> Seq<u8> {
    seq![0xA8u8]
}

/// Argument of `SetDummyLinePeriod`: four dummy lines per gate. The
/// datasheet says 0x1B, the vendor reference firmware uses 0x1A; the
/// firmware value is kept.
pub open spec fn dummy_line_data() -> Seq<u8> {
    seq![0x1Au8]
}

/// Argument of `SetGateTime`. The datasheet says 0x0B, the vendor
/// reference firmware uses 0x08; the firmware value is kept.
pub open spec fn gate_time_data() -> Seq<u8> {
    seq![0x08u8]
}

/// Argument of `SetRamXAddressStartEndPosition`: first and last byte
/// column of the window, one byte each.
pub open spec fn ram_x_window_data(rect: EightSizedRectangle) -> Seq<u8>
    recommends
        rect_in_range(rect),
{
    seq![rect.x as u8, ((rect.x + rect.width - 1) as int) as u8]
}

/// Argument of `SetRamYAddressStartEndPosition`: first and last row of the
/// window, each as a little-endian 16-bit value.
pub open spec fn ram_y_window_data(rect: EightSizedRectangle) -> Seq<u8>
    recommends
        rect_in_range(rect),
{
    seq![
        ((rect.y as int) % 256) as u8,
        ((rect.y as int) / 256) as u8,
        (((rect.y + rect.height - 1) as int) % 256) as u8,
        (((rect.y + rect.height - 1) as int) / 256) as u8,
    ]
}

/// Argument of `SetRamXAddressCounter`: the window's first byte column.
pub open spec fn ram_x_counter_data(rect: EightSizedRectangle) -> Seq<u8>
    recommends
        rect_in_range(rect),
{
    seq![rect.x as u8]
}

/// Argument of `SetRamYAddressCounter`: the window's first row as a
/// little-endian 16-bit value.
pub open spec fn ram_y_counter_data(rect: EightSizedRectangle) -> Seq<u8>
    recommends
        rect_in_range(rect),
{
    seq![((rect.y as int) % 256) as u8, ((rect.y as int) / 256) as u8]
}

/// What `set_ram_area` emits: the X window, then the Y window.
pub open spec fn set_ram_area_events(rect: EightSizedRectangle, limit: nat) -> Seq<SpiEvent> {
    register_write_events(
        Command::SetRamXAddressStartEndPosition.code_spec(),
        ram_x_window_data(rect),
        limit,
    ) + register_write_events(
        Command::SetRamYAddressStartEndPosition.code_spec(),
        ram_y_window_data(rect),
        limit,
    )
}

/// What `set_ram_counter` emits: the X counter, then the Y counter.
pub open spec fn set_ram_counter_events(rect: EightSizedRectangle, limit: nat) -> Seq<SpiEvent> {
    register_write_events(
        Command::SetRamXAddressCounter.code_spec(),
        ram_x_counter_data(rect),
        limit,
    ) + register_write_events(
        Command::SetRamYAddressCounter.code_spec(),
        ram_y_counter_data(rect),
        limit,
    )
}

/// What `upload_image` emits: window, counter, then the pixel bytes into
/// RAM — the order the controller requires, since it latches the window
/// before accepting counter and data writes.
pub open spec fn upload_image_events(
    rect: EightSizedRectangle,
    data: Seq<u8>,
    limit: nat,
) -> Seq<SpiEvent> {
    set_ram_area_events(rect, limit) + set_ram_counter_events(rect, limit)
        + register_write_events(Command::WriteRam.code_spec(), data, limit)
}

/// What `refresh_display` emits on the transport: the display update
/// control byte, master activation, then the terminating NOP. The busy
/// polling that follows touches only the busy pin and the delay source.
pub open spec fn refresh_spi_events(
    params: DisplayUpdateControlParams,
    limit: nat,
) -> Seq<SpiEvent> {
    register_write_events(
        Command::DisplayUpdateControl2.code_spec(),
        seq![params.code_spec()],
        limit,
    ) + command_events(Command::MasterActivation.code_spec()) + command_events(
        Command::NOP.code_spec(),
    )
}

/// What a full `draw` emits on the transport.
pub open spec fn draw_spi_events(
    rect: EightSizedRectangle,
    data: Seq<u8>,
    params: DisplayUpdateControlParams,
    limit: nat,
) -> Seq<SpiEvent> {
    upload_image_events(rect, data, limit) + refresh_spi_events(params, limit)
}

/// What `init` emits on the transport: the seven register writes of the
/// fixed initialization sequence, in order.
pub open spec fn init_spi_events(height: u16, limit: nat) -> Seq<SpiEvent>
    recommends
        1 <= height,
{
    register_write_events(Command::DriverOutputControl.code_spec(), driver_output_data(height), limit)
        + register_write_events(
        Command::BoosterSoftStartControl.code_spec(),
        booster_soft_start_data(),
        limit,
    ) + register_write_events(Command::WriteVcomRegister.code_spec(), vcom_data(), limit)
        + register_write_events(Command::SetDummyLinePeriod.code_spec(), dummy_line_data(), limit)
        + register_write_events(Command::SetGateTime.code_spec(), gate_time_data(), limit)
        + register_write_events(Command::DataEntryModeSetting.code_spec(), seq![0x03u8], limit)
        + register_write_events(Command::WriteLutRegister.code_spec(), lut_full_update_spec(), limit)
}

/// What `sleep` emits: the one-byte deep sleep mode register write.
pub open spec fn sleep_spi_events(mode: DeepSleep, limit: nat) -> Seq<SpiEvent> {
    register_write_events(Command::DeepSleepMode.code_spec(), seq![mode.code_spec()], limit)
}

/// The byte rectangle covering the whole canvas.
pub open spec fn full_canvas_rect(width: u16, height: u16) -> EightSizedRectangle {
    byte_rect_of(NormalRectangle { x: 0, y: 0, width, height })
}

/// The pixel bytes of a full-canvas fill: every byte all-black or
/// all-white.
pub open spec fn fill_data(color: EpdColor, width: u16, height: u16) -> Seq<u8> {
    Seq::new((byte_width_of(width as nat) * height) as nat, |i: int| color.fill_byte_spec())
}

/// What a full-canvas `fill` emits on the transport.
pub open spec fn fill_spi_events(
    color: EpdColor,
    width: u16,
    height: u16,
    params: DisplayUpdateControlParams,
    limit: nat,
) -> Seq<SpiEvent> {
    draw_spi_events(full_canvas_rect(width, height), fill_data(color, width, height), params, limit)
}

/// A busy-line trace that ends a successful wait: at least one sample,
/// every sample but the last high, the last low.
pub open spec fn busy_then_idle(probes: Seq<u8>) -> bool {
    &&& probes.len() >= 1
    &&& probes.last() == 0
    &&& forall|i: int| 0 <= i < probes.len() - 1 ==> probes[i] != 0
}

/// Every sample in the trace read high.
pub open spec fn all_busy(probes: Seq<u8>) -> bool {
    forall|i: int| 0 <= i < probes.len() ==> probes[i] != 0
}

/// `n` poll-interval pauses.
pub open spec fn poll_delays(n: nat) -> Seq<u64> {
    Seq::new(n, |i: int| POLL_INTERVAL)
}

/// One entry of the engine's unified I/O trace: everything the engine
/// asked any capability to do, in the order it asked it. The
/// per-capability logs fix each line's traffic; this trace additionally
/// fixes the interleaving across lines — the reset pulse's hold times,
/// the pins raised before any register write, the busy polls coming only
/// after the terminating NOP.
#[verifier::ext_equal]
pub enum TraceEvent {
    ChipSelect { level: u8 },
    Reset { level: u8 },
    Pause { units: u64 },
    BusyProbe { level: u8 },
    Spi { event: SpiEvent },
}

/// Transport events, lifted into the unified trace.
pub open spec fn spi_trace(events: Seq<SpiEvent>) -> Seq<TraceEvent> {
    events.map_values(|e: SpiEvent| TraceEvent::Spi { event: e })
}

/// Lifting transport events distributes over concatenation.
pub proof fn lemma_spi_trace_concat(a: Seq<SpiEvent>, b: Seq<SpiEvent>)
    ensures
        spi_trace(a + b) == spi_trace(a) + spi_trace(b),
{
    assert(spi_trace(a + b) =~= spi_trace(a) + spi_trace(b));
}

/// The trace of one busy wait over the given samples: one poll-interval
/// pause before every sample.
pub open spec fn poll_trace_events(probes: Seq<u8>) -> Seq<TraceEvent>
    decreases probes.len(),
{
    if probes.len() == 0 {
        Seq::empty()
    } else {
        seq![
            TraceEvent::Pause { units: POLL_INTERVAL },
            TraceEvent::BusyProbe { level: probes[0] },
        ] + poll_trace_events(probes.skip(1))
    }
}

/// One more sample extends the wait trace by one pause and that sample.
pub proof fn lemma_poll_trace_push(probes: Seq<u8>, level: u8)
    ensures
        poll_trace_events(probes.push(level)) == poll_trace_events(probes) + seq![
            TraceEvent::Pause { units: POLL_INTERVAL },
            TraceEvent::BusyProbe { level },
        ],
    decreases probes.len(),
{
    let pair = seq![
        TraceEvent::Pause { units: POLL_INTERVAL },
        TraceEvent::BusyProbe { level },
    ];
    if probes.len() == 0 {
        assert(probes.push(level).skip(1) =~= Seq::<u8>::empty());
        assert(probes.push(level)[0] == level);
        assert(poll_trace_events(Seq::<u8>::empty()) == Seq::<TraceEvent>::empty());
        assert(poll_trace_events(probes.push(level)) == pair + poll_trace_events(
            probes.push(level).skip(1),
        ));
        assert(pair + Seq::<TraceEvent>::empty() =~= Seq::<TraceEvent>::empty() + pair);
    } else {
        let head = seq![
            TraceEvent::Pause { units: POLL_INTERVAL },
            TraceEvent::BusyProbe { level: probes[0] },
        ];
        assert(probes.push(level)[0] == probes[0]);
        assert(probes.push(level).skip(1) =~= probes.skip(1).push(level));
        assert(poll_trace_events(probes.push(level)) == head + poll_trace_events(
            probes.skip(1).push(level),
        ));
        lemma_poll_trace_push(probes.skip(1), level);
        assert(poll_trace_events(probes) == head + poll_trace_events(probes.skip(1)));
        assert(head + (poll_trace_events(probes.skip(1)) + pair) =~= (head + poll_trace_events(
            probes.skip(1),
        )) + pair);
    }
}

/// The trace of the pin stages of `init`: both control lines raised to
/// their idle-high state, then the reset pulse with its two holds.
pub open spec fn init_pin_trace() -> Seq<TraceEvent> {
    seq![
        TraceEvent::Reset { level: 1 },
        TraceEvent::ChipSelect { level: 1 },
        TraceEvent::Reset { level: 0 },
        TraceEvent::Pause { units: RESET_TIME },
        TraceEvent::Reset { level: 1 },
        TraceEvent::Pause { units: RESET_TIME },
    ]
}

/// The command protocol engine, owning exclusive access to one panel's
/// transport and GPIO lines. It holds no session state of its own between
/// operations: correctness rests on the controller's internal counters,
/// which it resets explicitly before every image upload.
pub struct EpdSpiWrapper<
    CS: EpdGpioWriter,
    RST: EpdGpioWriter,
    BUSY: EpdGpioReader,
    SPI: RawSpiAccessor,
    D: DelayProvider,
> {
    pub chip_select: CS,
    pub reset: RST,
    pub busy: BUSY,
    pub spi: SPI,
    pub delay: D,
    pub canvas_width: u16,
    pub canvas_height: u16,
    /// The unified I/O trace; see [`TraceEvent`].
    pub trace: Ghost<Seq<TraceEvent>>,
}

impl<
    CS: EpdGpioWriter,
    RST: EpdGpioWriter,
    BUSY: EpdGpioReader,
    SPI: RawSpiAccessor,
    D: DelayProvider,
> EpdSpiWrapper<CS, RST, BUSY, SPI, D> {
    /// The transport's single-transfer limit.
    pub open spec fn limit_spec(&self) -> nat {
        self.spi.transfer_limit()
    }

    /// A canvas the protocol can address: at least one row, and few enough
    /// byte columns for the X window registers.
    pub open spec fn wf(&self) -> bool {
        &&& 1 <= self.canvas_height
        &&& self.canvas_width <= 2048
    }

    /// Canvas configuration and transfer limit survive the call.
    pub open spec fn config_kept(pre: Self, post: Self) -> bool {
        &&& post.canvas_width == pre.canvas_width
        &&& post.canvas_height == pre.canvas_height
        &&& post.spi.transfer_limit() == pre.spi.transfer_limit()
    }

    /// Neither output pin, the busy pin nor the delay source moved.
    pub open spec fn only_spi_moved(pre: Self, post: Self) -> bool {
        &&& post.chip_select.writes() == pre.chip_select.writes()
        &&& post.reset.writes() == pre.reset.writes()
        &&& post.busy.reads() == pre.busy.reads()
        &&& post.delay.delays() == pre.delay.delays()
    }

    /// The transport log did not move.
    pub open spec fn spi_kept(pre: Self, post: Self) -> bool {
        post.spi.log() == pre.spi.log()
    }

    /// An engine wired to the given capability instances, with the default
    /// 200 by 200 pixel canvas.
    pub fn new(chip_select: CS, reset: RST, busy: BUSY, spi: SPI, delay: D) -> (r: Self)
        ensures
            r.chip_select == chip_select,
            r.reset == reset,
            r.busy == busy,
            r.spi == spi,
            r.delay == delay,
            r.canvas_width == 200u16,
            r.canvas_height == 200u16,
            r.trace@ == Seq::<TraceEvent>::empty(),
            r.wf(),
    {
        Self {
            chip_select,
            reset,
            busy,
            spi,
            delay,
            canvas_width: 200,
            canvas_height: 200,
            trace: Ghost(Seq::empty()),
        }
    }

    /// An engine with an overridden canvas size.
    pub fn with_canvas(
        chip_select: CS,
        reset: RST,
        busy: BUSY,
        spi: SPI,
        delay: D,
        canvas_width: u16,
        canvas_height: u16,
    ) -> (r: Self)
        requires
            1 <= canvas_height,
            canvas_width <= 2048,
        ensures
            r.chip_select == chip_select,
            r.reset == reset,
            r.busy == busy,
            r.spi == spi,
            r.delay == delay,
            r.canvas_width == canvas_width,
            r.canvas_height == canvas_height,
            r.trace@ == Seq::<TraceEvent>::empty(),
            r.wf(),
    {
        Self {
            chip_select,
            reset,
            busy,
            spi,
            delay,
            canvas_width,
            canvas_height,
            trace: Ghost(Seq::empty()),
        }
    }

    pub fn canvas_width(&self) -> (r: u16)
        ensures
            r == self.canvas_width,
    {
        self.canvas_width
    }

    pub fn canvas_height(&self) -> (r: u16)
        ensures
            r == self.canvas_height,
    {
        self.canvas_height
    }

    pub fn chip_select_pin(&self) -> (r: &CS)
        ensures
            *r == self.chip_select,
    {
        &self.chip_select
    }

    pub fn reset_pin(&self) -> (r: &RST)
        ensures
            *r == self.reset,
    {
        &self.reset
    }

    pub fn busy_pin(&self) -> (r: &BUSY)
        ensures
            *r == self.busy,
    {
        &self.busy
    }

    pub fn spi(&self) -> (r: &SPI)
        ensures
            *r == self.spi,
    {
        &self.spi
    }

    pub fn delay_source(&self) -> (r: &D)
        ensures
            *r == self.delay,
    {
        &self.delay
    }

    /// Send a bare command byte: selector low, then the register address.
    pub fn send_command(&mut self, command: Command) -> (r: EpdResult<()>)
        ensures
            Self::config_kept(*old(self), *final(self)),
            Self::only_spi_moved(*old(self), *final(self)),
            r is Ok ==> final(self).spi.log() == old(self).spi.log() + command_events(
                command.code_spec(),
            ),
            r is Ok ==> final(self).trace@ == old(self).trace@ + spi_trace(
                command_events(command.code_spec()),
            ),
            r matches Err(e) ==> advanced_by_prefix(
                old(self).spi.log(),
                final(self).spi.log(),
                command_events(command.code_spec()),
            ) && is_io_error(e),
    {
        match self.spi.send_command(command.code()) {
            Ok(()) => {
                self.trace = Ghost(self.trace@ + spi_trace(command_events(command.code_spec())));
                Ok(())
            },
            Err(e) => Err(e),
        }
    }

    /// One full register write: the command byte, then its payload. This is
    /// the single choke point every register write passes through.
    pub fn send(&mut self, command: Command, data: &[u8]) -> (r: EpdResult<()>)
        ensures
            Self::config_kept(*old(self), *final(self)),
            Self::only_spi_moved(*old(self), *final(self)),
            r is Ok ==> final(self).spi.log() == old(self).spi.log() + register_write_events(
                command.code_spec(),
                data@,
                old(self).limit_spec(),
            ),
            r is Ok ==> final(self).trace@ == old(self).trace@ + spi_trace(
                register_write_events(command.code_spec(), data@, old(self).limit_spec()),
            ),
            r matches Err(e) ==> advanced_by_prefix(
                old(self).spi.log(),
                final(self).spi.log(),
                register_write_events(command.code_spec(), data@, old(self).limit_spec()),
            ) && is_io_error(e),
            r is Err ==> final(self).spi.log().len() < old(self).spi.log().len()
                + register_write_events(
                command.code_spec(),
                data@,
                old(self).limit_spec(),
            ).len(),
    {
        let ghost entry_trace = self.trace@;
        let ghost entry = self.spi.log();
        let ghost l = self.limit_spec();
        let ghost cmd_part = command_events(command.code_spec());
        let ghost data_part = payload_events(data@, l);
        match self.spi.send_command(command.code()) {
            Ok(()) => {
                self.trace = Ghost(self.trace@ + spi_trace(cmd_part));
            },
            Err(e) => {
                proof {
                    lemma_advanced_widen(entry, self.spi.log(), cmd_part, data_part);
                }
                return Err(e);
            },
        }
        match self.spi.send_data(data) {
            Ok(()) => {
                self.trace = Ghost(self.trace@ + spi_trace(data_part));
                proof {
                    assert(self.spi.log() =~= entry + (cmd_part + data_part));
                    lemma_spi_trace_concat(cmd_part, data_part);
                    assert(self.trace@ =~= entry_trace + spi_trace(cmd_part + data_part));
                }
                Ok(())
            },
            Err(e) => {
                proof {
                    lemma_advanced_compose(
                        entry,
                        entry + cmd_part,
                        self.spi.log(),
                        cmd_part,
                        data_part,
                    );
                }
                Err(e)
            },
        }
    }

    /// Write the driver output control register: canvas height minus one,
    /// little-endian, plus a fixed trailing byte.
    pub fn set_driver_output_control(&mut self) -> (r: EpdResult<()>)
        requires
            old(self).wf(),
        ensures
            Self::config_kept(*old(self), *final(self)),
            Self::only_spi_moved(*old(self), *final(self)),
            r is Ok ==> final(self).spi.log() == old(self).spi.log() + register_write_events(
                Command::DriverOutputControl.code_spec(),
                driver_output_data(old(self).canvas_height),
                old(self).limit_spec(),
            ),
            r is Ok ==> final(self).trace@ == old(self).trace@ + spi_trace(
                register_write_events(Command::DriverOutputControl.code_spec(), driver_output_data(old(self).canvas_height), old(self).limit_spec()),
            ),
            r matches Err(e) ==> advanced_by_prefix(
                old(self).spi.log(),
                final(self).spi.log(),
                register_write_events(
                    Command::DriverOutputControl.code_spec(),
                    driver_output_data(old(self).canvas_height),
                    old(self).limit_spec(),
                ),
            ) && is_io_error(e),
    {
        let h = self.canvas_height - 1;
        let data: Vec<u8> = vec![(h % 256) as u8, (h / 256) as u8, 0u8];
        proof {
            assert(data@ =~= driver_output_data(self.canvas_height));
        }
        self.send(Command::DriverOutputControl, data.as_slice())
    }

    /// Write the booster soft start control register.
    pub fn set_booster_soft_start_control(&mut self) -> (r: EpdResult<()>)
        ensures
            Self::config_kept(*old(self), *final(self)),
            Self::only_spi_moved(*old(self), *final(self)),
            r is Ok ==> final(self).spi.log() == old(self).spi.log() + register_write_events(
                Command::BoosterSoftStartControl.code_spec(),
                booster_soft_start_data(),
                old(self).limit_spec(),
            ),
            r is Ok ==> final(self).trace@ == old(self).trace@ + spi_trace(
                register_write_events(Command::BoosterSoftStartControl.code_spec(), booster_soft_start_data(), old(self).limit_spec()),
            ),
            r matches Err(e) ==> advanced_by_prefix(
                old(self).spi.log(),
                final(self).spi.log(),
                register_write_events(
                    Command::BoosterSoftStartControl.code_spec(),
                    booster_soft_start_data(),
                    old(self).limit_spec(),
                ),
            ) && is_io_error(e),
    {
        let data: Vec<u8> = vec![0xD7u8, 0xD6u8, 0x9Du8];
        proof {
            assert(data@ =~= booster_soft_start_data());
        }
        self.send(Command::BoosterSoftStartControl, data.as_slice())
    }

    /// Write the VCOM register.
    pub fn write_vcom_register(&mut self) -> (r: EpdResult<()>)
        ensures
            Self::config_kept(*old(self), *final(self)),
            Self::only_spi_moved(*old(self), *final(self)),
            r is Ok ==> final(self).spi.log() == old(self).spi.log() + register_write_events(
                Command::WriteVcomRegister.code_spec(),
                vcom_data(),
                old(self).limit_spec(),
            ),
            r is Ok ==> final(self).trace@ == old(self).trace@ + spi_trace(
                register_write_events(Command::WriteVcomRegister.code_spec(), vcom_data(), old(self).limit_spec()),
            ),
            r matches Err(e) ==> advanced_by_prefix(
                old(self).spi.log(),
                final(self).spi.log(),
                register_write_events(
                    Command::WriteVcomRegister.code_spec(),
                    vcom_data(),
                    old(self).limit_spec(),
                ),
            ) && is_io_error(e),
    {
        let data: Vec<u8> = vec![0xA8u8];
        proof {
            assert(data@ =~= vcom_data());
        }
        self.send(Command::WriteVcomRegister, data.as_slice())
    }

    /// Write the dummy line period register.
    pub fn set_dummy_line_period(&mut self) -> (r: EpdResult<()>)
        ensures
            Self::config_kept(*old(self), *final(self)),
            Self::only_spi_moved(*old(self), *final(self)),
            r is Ok ==> final(self).spi.log() == old(self).spi.log() + register_write_events(
                Command::SetDummyLinePeriod.code_spec(),
                dummy_line_data(),
                old(self).limit_spec(),
            ),
            r is Ok ==> final(self).trace@ == old(self).trace@ + spi_trace(
                register_write_events(Command::SetDummyLinePeriod.code_spec(), dummy_line_data(), old(self).limit_spec()),
            ),
            r matches Err(e) ==> advanced_by_prefix(
                old(self).spi.log(),
                final(self).spi.log(),
                register_write_events(
                    Command::SetDummyLinePeriod.code_spec(),
                    dummy_line_data(),
                    old(self).limit_spec(),
                ),
            ) && is_io_error(e),
    {
        let data: Vec<u8> = vec![0x1Au8];
        proof {
            assert(data@ =~= dummy_line_data());
        }
        self.send(Command::SetDummyLinePeriod, data.as_slice())
    }

    /// Write the scan-line timing register.
    pub fn set_gate_time(&mut self) -> (r: EpdResult<()>)
        ensures
            Self::config_kept(*old(self), *final(self)),
            Self::only_spi_moved(*old(self), *final(self)),
            r is Ok ==> final(self).spi.log() == old(self).spi.log() + register_write_events(
                Command::SetGateTime.code_spec(),
                gate_time_data(),
                old(self).limit_spec(),
            ),
            r is Ok ==> final(self).trace@ == old(self).trace@ + spi_trace(
                register_write_events(Command::SetGateTime.code_spec(), gate_time_data(), old(self).limit_spec()),
            ),
            r matches Err(e) ==> advanced_by_prefix(
                old(self).spi.log(),
                final(self).spi.log(),
                register_write_events(
                    Command::SetGateTime.code_spec(),
                    gate_time_data(),
                    old(self).limit_spec(),
                ),
            ) && is_io_error(e),
    {
        let data: Vec<u8> = vec![0x08u8];
        proof {
            assert(data@ =~= gate_time_data());
        }
        self.send(Command::SetGateTime, data.as_slice())
    }

    /// Write the data entry mode register.
    pub fn set_data_entry_mode(&mut self, mode: DataEntryMode) -> (r: EpdResult<()>)
        ensures
            Self::config_kept(*old(self), *final(self)),
            Self::only_spi_moved(*old(self), *final(self)),
            r is Ok ==> final(self).spi.log() == old(self).spi.log() + register_write_events(
                Command::DataEntryModeSetting.code_spec(),
                seq![mode.code_spec()],
                old(self).limit_spec(),
            ),
            r is Ok ==> final(self).trace@ == old(self).trace@ + spi_trace(
                register_write_events(Command::DataEntryModeSetting.code_spec(), seq![mode.code_spec()], old(self).limit_spec()),
            ),
            r matches Err(e) ==> advanced_by_prefix(
                old(self).spi.log(),
                final(self).spi.log(),
                register_write_events(
                    Command::DataEntryModeSetting.code_spec(),
                    seq![mode.code_spec()],
                    old(self).limit_spec(),
                ),
            ) && is_io_error(e),
    {
        let data: Vec<u8> = vec![mode.code()];
        proof {
            assert(data@ =~= seq![mode.code_spec()]);
        }
        self.send(Command::DataEntryModeSetting, data.as_slice())
    }

    /// Load a waveform lookup table.
    pub fn set_lut(&mut self, lut: Lut) -> (r: EpdResult<()>)
        ensures
            Self::config_kept(*old(self), *final(self)),
            Self::only_spi_moved(*old(self), *final(self)),
            r is Ok ==> final(self).spi.log() == old(self).spi.log() + register_write_events(
                Command::WriteLutRegister.code_spec(),
                lut.table_spec(),
                old(self).limit_spec(),
            ),
            r is Ok ==> final(self).trace@ == old(self).trace@ + spi_trace(
                register_write_events(Command::WriteLutRegister.code_spec(), lut.table_spec(), old(self).limit_spec()),
            ),
            r matches Err(e) ==> advanced_by_prefix(
                old(self).spi.log(),
                final(self).spi.log(),
                register_write_events(
                    Command::WriteLutRegister.code_spec(),
                    lut.table_spec(),
                    old(self).limit_spec(),
                ),
            ) && is_io_error(e),
    {
        let data: Vec<u8> = lut.table();
        self.send(Command::WriteLutRegister, data.as_slice())
    }

    /// Write the one-byte deep sleep mode register.
    pub fn sleep(&mut self, mode: DeepSleep) -> (r: EpdResult<()>)
        ensures
            Self::config_kept(*old(self), *final(self)),
            Self::only_spi_moved(*old(self), *final(self)),
            r is Ok ==> final(self).spi.log() == old(self).spi.log() + register_write_events(
                Command::DeepSleepMode.code_spec(),
                seq![mode.code_spec()],
                old(self).limit_spec(),
            ),
            r is Ok ==> final(self).trace@ == old(self).trace@ + spi_trace(
                register_write_events(Command::DeepSleepMode.code_spec(), seq![mode.code_spec()], old(self).limit_spec()),
            ),
            r matches Err(e) ==> advanced_by_prefix(
                old(self).spi.log(),
                final(self).spi.log(),
                register_write_events(
                    Command::DeepSleepMode.code_spec(),
                    seq![mode.code_spec()],
                    old(self).limit_spec(),
                ),
            ) && is_io_error(e),
    {
        let data: Vec<u8> = vec![mode.code()];
        proof {
            assert(data@ =~= seq![mode.code_spec()]);
        }
        self.send(Command::DeepSleepMode, data.as_slice())
    }

    /// Poll the busy line until it reads low: pause one interval, sample,
    /// repeat. The reference behaviour has no timeout — only an I/O error
    /// on the busy read propagates; the astronomically large poll cap
    /// exists solely as a termination measure and surfaces as a protocol
    /// violation if ever reached.
    pub fn wait_until_idle(&mut self) -> (r: EpdResult<()>)
        ensures
            Self::config_kept(*old(self), *final(self)),
            Self::spi_kept(*old(self), *final(self)),
            final(self).chip_select.writes() == old(self).chip_select.writes(),
            final(self).reset.writes() == old(self).reset.writes(),
            r is Ok ==> exists|probes: Seq<u8>|
                {
                    &&& final(self).busy.reads() == old(self).busy.reads() + probes
                    &&& #[trigger] busy_then_idle(probes)
                    &&& probes.len() <= MAX_POLLS
                    &&& final(self).delay.delays() == old(self).delay.delays() + poll_delays(
                        probes.len(),
                    )
                    &&& final(self).trace@ == old(self).trace@ + poll_trace_events(probes)
                },
            r matches Err(e) ==> e is GpioError || e is SomethingWrong,
            r matches Err(e) && e is GpioError ==> exists|probes: Seq<u8>|
                {
                    &&& final(self).busy.reads() == old(self).busy.reads() + probes
                    &&& #[trigger] all_busy(probes)
                    &&& probes.len() < MAX_POLLS
                    &&& final(self).delay.delays() == old(self).delay.delays() + poll_delays(
                        (probes.len() + 1) as nat,
                    )
                },
            r matches Err(e) && e is SomethingWrong ==> exists|probes: Seq<u8>|
                {
                    &&& final(self).busy.reads() == old(self).busy.reads() + probes
                    &&& #[trigger] all_busy(probes)
                    &&& probes.len() == MAX_POLLS
                    &&& final(self).delay.delays() == old(self).delay.delays() + poll_delays(
                        probes.len(),
                    )
                },
    {
        let ghost entry_reads = self.busy.reads();
        let ghost entry_delays = self.delay.delays();
        let ghost entry_trace = self.trace@;
        let mut polls: u64 = 0;
        let ghost mut probes = Seq::<u8>::empty();
        proof {
            assert(self.busy.reads() =~= entry_reads + probes);
            assert(self.delay.delays() =~= entry_delays + poll_delays(0));
            assert(poll_trace_events(probes) == Seq::<TraceEvent>::empty());
            assert(self.trace@ =~= entry_trace + poll_trace_events(probes));
        }
        while polls < MAX_POLLS
            invariant
                Self::config_kept(*old(self), *self),
                Self::spi_kept(*old(self), *self),
                self.chip_select.writes() == old(self).chip_select.writes(),
                self.reset.writes() == old(self).reset.writes(),
                entry_reads == old(self).busy.reads(),
                entry_delays == old(self).delay.delays(),
                entry_trace == old(self).trace@,
                self.busy.reads() == entry_reads + probes,
                self.delay.delays() == entry_delays + poll_delays(probes.len()),
                self.trace@ == entry_trace + poll_trace_events(probes),
                all_busy(probes),
                probes.len() == polls,
                polls <= MAX_POLLS,
            decreases MAX_POLLS - polls,
        {
            self.delay.delay_for(POLL_INTERVAL);
            proof {
                assert(self.delay.delays() =~= entry_delays + poll_delays((polls + 1) as nat));
            }
            match self.busy.low() {
                Ok(true) => {
                    self.trace = Ghost(
                        self.trace@ + seq![
                            TraceEvent::Pause { units: POLL_INTERVAL },
                            TraceEvent::BusyProbe { level: 0u8 },
                        ],
                    );
                    proof {
                        let done = probes.push(0u8);
                        assert(self.busy.reads() =~= entry_reads + done);
                        assert(done.take(done.len() - 1) =~= probes);
                        assert(busy_then_idle(done));
                        assert(self.delay.delays() =~= entry_delays + poll_delays(done.len()));
                        lemma_poll_trace_push(probes, 0u8);
                        assert(self.trace@ =~= entry_trace + poll_trace_events(done));
                    }
                    return Ok(());
                },
                Ok(false) => {
                    self.trace = Ghost(
                        self.trace@ + seq![
                            TraceEvent::Pause { units: POLL_INTERVAL },
                            TraceEvent::BusyProbe { level: 1u8 },
                        ],
                    );
                    proof {
                        let grown = probes.push(1u8);
                        assert(self.busy.reads() =~= entry_reads + grown);
                        lemma_poll_trace_push(probes, 1u8);
                        assert(self.trace@ =~= entry_trace + poll_trace_events(grown));
                        probes = grown;
                    }
                    polls = polls + 1;
                },
                Err(e) => {
                    proof {
                        assert(self.delay.delays() == entry_delays + poll_delays(
                            (probes.len() + 1) as nat,
                        ));
                    }
                    return Err(e);
                },
            }
        }
        proof {
            assert(probes.len() == MAX_POLLS);
        }
        Err(EpdError::SomethingWrong(String::from_str("busy line still high at the poll cap")))
    }

    /// Latch the RAM address window: the X window in byte columns, then
    /// the Y window in rows.
    pub fn set_ram_area(&mut self, rect: EightSizedRectangle) -> (r: EpdResult<()>)
        requires
            rect_in_range(rect),
        ensures
            Self::config_kept(*old(self), *final(self)),
            Self::only_spi_moved(*old(self), *final(self)),
            r is Ok ==> final(self).spi.log() == old(self).spi.log() + set_ram_area_events(
                rect,
                old(self).limit_spec(),
            ),
            r is Ok ==> final(self).trace@ == old(self).trace@ + spi_trace(
                set_ram_area_events(rect, old(self).limit_spec()),
            ),
            r matches Err(e) ==> advanced_by_prefix(
                old(self).spi.log(),
                final(self).spi.log(),
                set_ram_area_events(rect, old(self).limit_spec()),
            ) && is_io_error(e),
    {
        let ghost entry = self.spi.log();
        let ghost entry_trace = self.trace@;
        let ghost l = self.limit_spec();
        let ghost x_part = register_write_events(
            Command::SetRamXAddressStartEndPosition.code_spec(),
            ram_x_window_data(rect),
            l,
        );
        let ghost y_part = register_write_events(
            Command::SetRamYAddressStartEndPosition.code_spec(),
            ram_y_window_data(rect),
            l,
        );
        let x_end: u16 = rect.x + rect.width - 1;
        let x_data: Vec<u8> = vec![rect.x as u8, x_end as u8];
        proof {
            assert(x_data@ =~= ram_x_window_data(rect));
        }
        match self.send(Command::SetRamXAddressStartEndPosition, x_data.as_slice()) {
            Ok(()) => {},
            Err(e) => {
                proof {
                    lemma_advanced_widen(entry, self.spi.log(), x_part, y_part);
                }
                return Err(e);
            },
        }
        let y_end: u32 = rect.y as u32 + rect.height as u32 - 1;
        let y_data: Vec<u8> = vec![
            (rect.y % 256) as u8,
            (rect.y / 256) as u8,
            (y_end % 256) as u8,
            (y_end / 256) as u8,
        ];
        proof {
            assert(y_data@ =~= ram_y_window_data(rect));
        }
        match self.send(Command::SetRamYAddressStartEndPosition, y_data.as_slice()) {
            Ok(()) => {
                proof {
                    assert(self.spi.log() =~= entry + (x_part + y_part));
                    lemma_spi_trace_concat(x_part, y_part);
                    assert(self.trace@ =~= entry_trace + spi_trace(x_part + y_part));
                }
                Ok(())
            },
            Err(e) => {
                proof {
                    lemma_advanced_compose(entry, entry + x_part, self.spi.log(), x_part, y_part);
                }
                Err(e)
            },
        }
    }

    /// Reset the RAM address counter to the window's origin. The controller
    /// auto-increments the counter during streaming writes and never
    /// resets it itself, so this must precede every image write.
    pub fn set_ram_counter(&mut self, rect: EightSizedRectangle) -> (r: EpdResult<()>)
        requires
            rect_in_range(rect),
        ensures
            Self::config_kept(*old(self), *final(self)),
            Self::only_spi_moved(*old(self), *final(self)),
            r is Ok ==> final(self).spi.log() == old(self).spi.log() + set_ram_counter_events(
                rect,
                old(self).limit_spec(),
            ),
            r is Ok ==> final(self).trace@ == old(self).trace@ + spi_trace(
                set_ram_counter_events(rect, old(self).limit_spec()),
            ),
            r matches Err(e) ==> advanced_by_prefix(
                old(self).spi.log(),
                final(self).spi.log(),
                set_ram_counter_events(rect, old(self).limit_spec()),
            ) && is_io_error(e),
    {
        let ghost entry = self.spi.log();
        let ghost entry_trace = self.trace@;
        let ghost l = self.limit_spec();
        let ghost x_part = register_write_events(
            Command::SetRamXAddressCounter.code_spec(),
            ram_x_counter_data(rect),
            l,
        );
        let ghost y_part = register_write_events(
            Command::SetRamYAddressCounter.code_spec(),
            ram_y_counter_data(rect),
            l,
        );
        let x_data: Vec<u8> = vec![rect.x as u8];
        proof {
            assert(x_data@ =~= ram_x_counter_data(rect));
        }
        match self.send(Command::SetRamXAddressCounter, x_data.as_slice()) {
            Ok(()) => {},
            Err(e) => {
                proof {
                    lemma_advanced_widen(entry, self.spi.log(), x_part, y_part);
                }
                return Err(e);
            },
        }
        let y_data: Vec<u8> = vec![(rect.y % 256) as u8, (rect.y / 256) as u8];
        proof {
            assert(y_data@ =~= ram_y_counter_data(rect));
        }
        match self.send(Command::SetRamYAddressCounter, y_data.as_slice()) {
            Ok(()) => {
                proof {
                    assert(self.spi.log() =~= entry + (x_part + y_part));
                    lemma_spi_trace_concat(x_part, y_part);
                    assert(self.trace@ =~= entry_trace + spi_trace(x_part + y_part));
                }
                Ok(())
            },
            Err(e) => {
                proof {
                    lemma_advanced_compose(entry, entry + x_part, self.spi.log(), x_part, y_part);
                }
                Err(e)
            },
        }
    }

    /// Stream the packed pixel bytes into the previously latched window.
    /// The controller advances its counters per the data entry mode set
    /// during initialization.
    pub fn write_image_to_ram(&mut self, data: &[u8]) -> (r: EpdResult<()>)
        ensures
            Self::config_kept(*old(self), *final(self)),
            Self::only_spi_moved(*old(self), *final(self)),
            r is Ok ==> final(self).spi.log() == old(self).spi.log() + register_write_events(
                Command::WriteRam.code_spec(),
                data@,
                old(self).limit_spec(),
            ),
            r is Ok ==> final(self).trace@ == old(self).trace@ + spi_trace(
                register_write_events(Command::WriteRam.code_spec(), data@, old(self).limit_spec()),
            ),
            r matches Err(e) ==> advanced_by_prefix(
                old(self).spi.log(),
                final(self).spi.log(),
                register_write_events(Command::WriteRam.code_spec(), data@, old(self).limit_spec()),
            ) && is_io_error(e),
    {
        self.send(Command::WriteRam, data)
    }

    /// Upload an image: window, counter, pixel bytes — in that mandatory
    /// order.
    pub fn upload_image(&mut self, rect: EightSizedRectangle, data: &[u8]) -> (r: EpdResult<()>)
        requires
            rect_in_range(rect),
            data@.len() == rect_area(rect),
        ensures
            Self::config_kept(*old(self), *final(self)),
            Self::only_spi_moved(*old(self), *final(self)),
            r is Ok ==> final(self).spi.log() == old(self).spi.log() + upload_image_events(
                rect,
                data@,
                old(self).limit_spec(),
            ),
            r is Ok ==> final(self).trace@ == old(self).trace@ + spi_trace(
                upload_image_events(rect, data@, old(self).limit_spec()),
            ),
            r matches Err(e) ==> advanced_by_prefix(
                old(self).spi.log(),
                final(self).spi.log(),
                upload_image_events(rect, data@, old(self).limit_spec()),
            ) && is_io_error(e),
    {
        let ghost entry = self.spi.log();
        let ghost entry_trace = self.trace@;
        let ghost l = self.limit_spec();
        let ghost area_part = set_ram_area_events(rect, l);
        let ghost counter_part = set_ram_counter_events(rect, l);
        let ghost ram_part = register_write_events(Command::WriteRam.code_spec(), data@, l);
        match self.set_ram_area(rect) {
            Ok(()) => {},
            Err(e) => {
                proof {
                    lemma_advanced_widen(entry, self.spi.log(), area_part, counter_part);
                    lemma_advanced_widen(entry, self.spi.log(), area_part + counter_part, ram_part);
                }
                return Err(e);
            },
        }
        match self.set_ram_counter(rect) {
            Ok(()) => {},
            Err(e) => {
                proof {
                    lemma_advanced_compose(
                        entry,
                        entry + area_part,
                        self.spi.log(),
                        area_part,
                        counter_part,
                    );
                    lemma_advanced_widen(entry, self.spi.log(), area_part + counter_part, ram_part);
                }
                return Err(e);
            },
        }
        match self.write_image_to_ram(data) {
            Ok(()) => {
                proof {
                    assert(self.spi.log() =~= entry + (area_part + counter_part + ram_part));
                    lemma_spi_trace_concat(area_part, counter_part);
                    lemma_spi_trace_concat(area_part + counter_part, ram_part);
                    assert(self.trace@ =~= entry_trace + spi_trace(
                        area_part + counter_part + ram_part,
                    ));
                }
                Ok(())
            },
            Err(e) => {
                proof {
                    assert(entry + (area_part + counter_part) =~= entry + area_part
                        + counter_part);
                    lemma_advanced_compose(
                        entry,
                        entry + (area_part + counter_part),
                        self.spi.log(),
                        area_part + counter_part,
                        ram_part,
                    );
                }
                Err(e)
            },
        }
    }

    /// Write the display update control byte selecting which voltage and
    /// clock stages the coming refresh runs and which buffer it targets.
    pub fn set_image_activation_option(
        &mut self,
        params: DisplayUpdateControlParams,
    ) -> (r: EpdResult<()>)
        ensures
            Self::config_kept(*old(self), *final(self)),
            Self::only_spi_moved(*old(self), *final(self)),
            r is Ok ==> final(self).spi.log() == old(self).spi.log() + register_write_events(
                Command::DisplayUpdateControl2.code_spec(),
                seq![params.code_spec()],
                old(self).limit_spec(),
            ),
            r is Ok ==> final(self).trace@ == old(self).trace@ + spi_trace(
                register_write_events(Command::DisplayUpdateControl2.code_spec(), seq![params.code_spec()], old(self).limit_spec()),
            ),
            r matches Err(e) ==> advanced_by_prefix(
                old(self).spi.log(),
                final(self).spi.log(),
                register_write_events(
                    Command::DisplayUpdateControl2.code_spec(),
                    seq![params.code_spec()],
                    old(self).limit_spec(),
                ),
            ) && is_io_error(e),
    {
        let data: Vec<u8> = vec![params.code()];
        proof {
            assert(data@ =~= seq![params.code_spec()]);
        }
        self.send(Command::DisplayUpdateControl2, data.as_slice())
    }

    /// Trigger the refresh of the uploaded image.
    pub fn activate_uploaded_image(&mut self) -> (r: EpdResult<()>)
        ensures
            Self::config_kept(*old(self), *final(self)),
            Self::only_spi_moved(*old(self), *final(self)),
            r is Ok ==> final(self).spi.log() == old(self).spi.log() + command_events(
                Command::MasterActivation.code_spec(),
            ),
            r is Ok ==> final(self).trace@ == old(self).trace@ + spi_trace(
                command_events(Command::MasterActivation.code_spec()),
            ),
            r matches Err(e) ==> advanced_by_prefix(
                old(self).spi.log(),
                final(self).spi.log(),
                command_events(Command::MasterActivation.code_spec()),
            ) && is_io_error(e),
    {
        self.send_command(Command::MasterActivation)
    }

    /// Send the documented NOP terminator that flushes the command/data
    /// framing; it has no functional effect on the panel.
    pub fn inform_read_write_end(&mut self) -> (r: EpdResult<()>)
        ensures
            Self::config_kept(*old(self), *final(self)),
            Self::only_spi_moved(*old(self), *final(self)),
            r is Ok ==> final(self).spi.log() == old(self).spi.log() + command_events(
                Command::NOP.code_spec(),
            ),
            r is Ok ==> final(self).trace@ == old(self).trace@ + spi_trace(
                command_events(Command::NOP.code_spec()),
            ),
            r matches Err(e) ==> advanced_by_prefix(
                old(self).spi.log(),
                final(self).spi.log(),
                command_events(Command::NOP.code_spec()),
            ) && is_io_error(e),
    {
        self.send_command(Command::NOP)
    }

    /// Run a refresh: update control byte, master activation, the NOP
    /// terminator, then poll the busy line until the physical refresh
    /// completes.
    pub fn refresh_display(&mut self, params: DisplayUpdateControlParams) -> (r: EpdResult<()>)
        ensures
            Self::config_kept(*old(self), *final(self)),
            final(self).chip_select.writes() == old(self).chip_select.writes(),
            final(self).reset.writes() == old(self).reset.writes(),
            r is Ok ==> final(self).spi.log() == old(self).spi.log() + refresh_spi_events(
                params,
                old(self).limit_spec(),
            ),
            r is Ok ==> exists|probes: Seq<u8>|
                {
                    &&& final(self).busy.reads() == old(self).busy.reads() + probes
                    &&& #[trigger] busy_then_idle(probes)
                    &&& final(self).delay.delays() == old(self).delay.delays() + poll_delays(
                        probes.len(),
                    )
                    &&& final(self).trace@ == old(self).trace@ + spi_trace(
                        refresh_spi_events(params, old(self).limit_spec()),
                    ) + poll_trace_events(probes)
                },
            r matches Err(e) ==> advanced_by_prefix(
                old(self).spi.log(),
                final(self).spi.log(),
                refresh_spi_events(params, old(self).limit_spec()),
            ) && (is_io_error(e) || e is SomethingWrong),
            r is Err ==> exists|probes: Seq<u8>|
                {
                    &&& final(self).busy.reads() == old(self).busy.reads() + probes
                    &&& #[trigger] all_busy(probes)
                },
            r is Err && final(self).busy.reads() != old(self).busy.reads() ==> {
                final(self).spi.log() == old(self).spi.log() + refresh_spi_events(
                    params,
                    old(self).limit_spec(),
                )
            },
    {
        let ghost entry = self.spi.log();
        let ghost entry_trace = self.trace@;
        let ghost l = self.limit_spec();
        let ghost control_part = register_write_events(
            Command::DisplayUpdateControl2.code_spec(),
            seq![params.code_spec()],
            l,
        );
        let ghost activate_part = command_events(Command::MasterActivation.code_spec());
        let ghost nop_part = command_events(Command::NOP.code_spec());
        match self.set_image_activation_option(params) {
            Ok(()) => {},
            Err(e) => {
                proof {
                    lemma_advanced_widen(entry, self.spi.log(), control_part, activate_part);
                    lemma_advanced_widen(
                        entry,
                        self.spi.log(),
                        control_part + activate_part,
                        nop_part,
                    );
                    assert(self.busy.reads() =~= old(self).busy.reads() + Seq::<u8>::empty());
                    assert(all_busy(Seq::<u8>::empty()));
                }
                return Err(e);
            },
        }
        match self.activate_uploaded_image() {
            Ok(()) => {},
            Err(e) => {
                proof {
                    lemma_advanced_compose(
                        entry,
                        entry + control_part,
                        self.spi.log(),
                        control_part,
                        activate_part,
                    );
                    lemma_advanced_widen(
                        entry,
                        self.spi.log(),
                        control_part + activate_part,
                        nop_part,
                    );
                    assert(self.busy.reads() =~= old(self).busy.reads() + Seq::<u8>::empty());
                    assert(all_busy(Seq::<u8>::empty()));
                }
                return Err(e);
            },
        }
        match self.inform_read_write_end() {
            Ok(()) => {},
            Err(e) => {
                proof {
                    assert(entry + (control_part + activate_part) =~= entry + control_part
                        + activate_part);
                    lemma_advanced_compose(
                        entry,
                        entry + (control_part + activate_part),
                        self.spi.log(),
                        control_part + activate_part,
                        nop_part,
                    );
                    assert(self.busy.reads() =~= old(self).busy.reads() + Seq::<u8>::empty());
                    assert(all_busy(Seq::<u8>::empty()));
                }
                return Err(e);
            },
        }
        proof {
            assert(self.spi.log() =~= entry + (control_part + activate_part + nop_part));
            lemma_spi_trace_concat(control_part, activate_part);
            lemma_spi_trace_concat(control_part + activate_part, nop_part);
            assert(self.trace@ =~= entry_trace + spi_trace(
                control_part + activate_part + nop_part,
            ));
        }
        match self.wait_until_idle() {
            Ok(()) => {
                proof {
                    lemma_advanced_full(
                        entry,
                        self.spi.log(),
                        refresh_spi_events(params, l),
                    );
                }
                Ok(())
            },
            Err(e) => {
                proof {
                    lemma_advanced_full(
                        entry,
                        self.spi.log(),
                        refresh_spi_events(params, l),
                    );
                }
                Err(e)
            },
        }
    }

    /// Draw pre-packed pixel bytes into a byte rectangle and refresh.
    ///
    /// An empty rectangle is a no-op. A rectangle the controller cannot
    /// address is rejected as a protocol violation, and a buffer whose
    /// length does not match the rectangle is rejected as too long or too
    /// short — in both cases before anything is emitted.
    pub fn draw(
        &mut self,
        rect: EightSizedRectangle,
        data: &[u8],
        params: DisplayUpdateControlParams,
    ) -> (r: EpdResult<()>)
        ensures
            Self::config_kept(*old(self), *final(self)),
            final(self).chip_select.writes() == old(self).chip_select.writes(),
            final(self).reset.writes() == old(self).reset.writes(),
            rect_is_empty(rect) ==> r is Ok && Self::only_spi_moved(*old(self), *final(self))
                && Self::spi_kept(*old(self), *final(self)) && final(self).trace@ == old(
                self,
            ).trace@,
            !rect_is_empty(rect) && !rect_in_range(rect) ==> (r matches Err(e) ==> e
                is SomethingWrong) && r is Err && Self::only_spi_moved(*old(self), *final(self))
                && Self::spi_kept(*old(self), *final(self)) && final(self).trace@ == old(
                self,
            ).trace@,
            !rect_is_empty(rect) && rect_in_range(rect) && data@.len() != rect_area(rect) ==> (
            r matches Err(e) ==> e matches EpdError::DataTooLong(expected, actual) && expected
                == rect_area(rect) && actual == data@.len()) && r is Err && Self::only_spi_moved(
                *old(self),
                *final(self),
            ) && Self::spi_kept(*old(self), *final(self)) && final(self).trace@ == old(
                self,
            ).trace@,
            !rect_is_empty(rect) && rect_in_range(rect) && data@.len() == rect_area(rect) ==> {
                &&& r is Ok ==> final(self).spi.log() == old(self).spi.log() + draw_spi_events(
                    rect,
                    data@,
                    params,
                    old(self).limit_spec(),
                )
                &&& r is Ok ==> exists|probes: Seq<u8>|
                    {
                        &&& final(self).busy.reads() == old(self).busy.reads() + probes
                        &&& #[trigger] busy_then_idle(probes)
                        &&& final(self).delay.delays() == old(self).delay.delays() + poll_delays(
                            probes.len(),
                        )
                        &&& final(self).trace@ == old(self).trace@ + spi_trace(
                            draw_spi_events(rect, data@, params, old(self).limit_spec()),
                        ) + poll_trace_events(probes)
                    }
                &&& (r matches Err(e) ==> advanced_by_prefix(
                    old(self).spi.log(),
                    final(self).spi.log(),
                    draw_spi_events(rect, data@, params, old(self).limit_spec()),
                ) && (is_io_error(e) || e is SomethingWrong))
                &&& r is Err ==> exists|probes: Seq<u8>|
                    {
                        &&& final(self).busy.reads() == old(self).busy.reads() + probes
                        &&& #[trigger] all_busy(probes)
                    }
                &&& (r is Err && final(self).busy.reads() != old(self).busy.reads() ==> {
                    final(self).spi.log() == old(self).spi.log() + draw_spi_events(
                        rect,
                        data@,
                        params,
                        old(self).limit_spec(),
                    )
                })
            },
    {
        if rect.width == 0 || rect.height == 0 {
            return Ok(());
        }
        let in_range = rect.x as u32 + rect.width as u32 <= 256 && rect.y as u32 + rect.height
            as u32 <= 65536;
        if !in_range {
            return Err(
                EpdError::SomethingWrong(
                    String::from_str("rectangle outside the controller's address space"),
                ),
            );
        }
        proof {
            let w = rect.width as int;
            let h = rect.height as int;
            assert(w * h < 4294967296) by (nonlinear_arith)
                requires
                    0 <= w <= 65535,
                    0 <= h <= 65535;
        }
        let area: usize = rect.width as usize * rect.height as usize;
        if data.len() != area {
            return Err(EpdError::DataTooLong(area, data.len()));
        }
        let ghost entry = self.spi.log();
        let ghost entry_trace = self.trace@;
        let ghost l = self.limit_spec();
        let ghost upload_part = upload_image_events(rect, data@, l);
        let ghost refresh_part = refresh_spi_events(params, l);
        match self.upload_image(rect, data) {
            Ok(()) => {},
            Err(e) => {
                proof {
                    lemma_advanced_widen(entry, self.spi.log(), upload_part, refresh_part);
                    assert(self.busy.reads() =~= old(self).busy.reads() + Seq::<u8>::empty());
                    assert(all_busy(Seq::<u8>::empty()));
                }
                return Err(e);
            },
        }
        let ghost mid_trace = self.trace@;
        let ghost mid_spi = self.spi.log();
        match self.refresh_display(params) {
            Ok(()) => {
                proof {
                    assert(self.spi.log() =~= entry + (upload_part + refresh_part));
                    lemma_spi_trace_concat(upload_part, refresh_part);
                    assert(mid_trace + spi_trace(refresh_part) =~= entry_trace + spi_trace(
                        upload_part + refresh_part,
                    ));
                }
                Ok(())
            },
            Err(e) => {
                proof {
                    lemma_advanced_compose(
                        entry,
                        entry + upload_part,
                        self.spi.log(),
                        upload_part,
                        refresh_part,
                    );
                    if self.busy.reads() != old(self).busy.reads() {
                        assert(self.spi.log() == mid_spi + refresh_part);
                        assert(self.spi.log() =~= entry + (upload_part + refresh_part));
                    }
                }
                Err(e)
            },
        }
    }

    /// Raise the reset and chip-select lines to their idle-high state.
    pub fn init_all_pin(&mut self) -> (r: EpdResult<()>)
        ensures
            Self::config_kept(*old(self), *final(self)),
            Self::spi_kept(*old(self), *final(self)),
            final(self).busy.reads() == old(self).busy.reads(),
            final(self).delay.delays() == old(self).delay.delays(),
            r is Ok ==> final(self).reset.writes() == old(self).reset.writes() + seq![1u8]
                && final(self).chip_select.writes() == old(self).chip_select.writes() + seq![1u8],
            r is Ok ==> final(self).trace@ == old(self).trace@ + seq![
                TraceEvent::Reset { level: 1u8 },
                TraceEvent::ChipSelect { level: 1u8 },
            ],
            r matches Err(e) ==> e is GpioError && advanced_by_prefix(
                old(self).reset.writes(),
                final(self).reset.writes(),
                seq![1u8],
            ) && advanced_by_prefix(
                old(self).chip_select.writes(),
                final(self).chip_select.writes(),
                seq![1u8],
            ),
    {
        match self.reset.high() {
            Ok(()) => {
                self.trace = Ghost(self.trace@.push(TraceEvent::Reset { level: 1u8 }));
            },
            Err(e) => {
                proof {
                    lemma_advanced_refl(self.reset.writes(), seq![1u8]);
                    lemma_advanced_refl(self.chip_select.writes(), seq![1u8]);
                }
                return Err(e);
            },
        }
        proof {
            assert(self.reset.writes() =~= old(self).reset.writes() + seq![1u8]);
        }
        match self.chip_select.high() {
            Ok(()) => {
                self.trace = Ghost(self.trace@.push(TraceEvent::ChipSelect { level: 1u8 }));
                proof {
                    assert(self.chip_select.writes() =~= old(self).chip_select.writes()
                        + seq![1u8]);
                    assert(self.trace@ =~= old(self).trace@ + seq![
                        TraceEvent::Reset { level: 1u8 },
                        TraceEvent::ChipSelect { level: 1u8 },
                    ]);
                }
                Ok(())
            },
            Err(e) => {
                proof {
                    lemma_advanced_full(old(self).reset.writes(), self.reset.writes(), seq![1u8]);
                    lemma_advanced_refl(self.chip_select.writes(), seq![1u8]);
                }
                Err(e)
            },
        }
    }

    /// Pulse the reset line low and high again, holding each level for the
    /// reset time, forcing the controller into its known boot state.
    pub fn reset_panel(&mut self) -> (r: EpdResult<()>)
        ensures
            Self::config_kept(*old(self), *final(self)),
            Self::spi_kept(*old(self), *final(self)),
            final(self).busy.reads() == old(self).busy.reads(),
            final(self).chip_select.writes() == old(self).chip_select.writes(),
            r is Ok ==> final(self).reset.writes() == old(self).reset.writes() + seq![0u8, 1u8]
                && final(self).delay.delays() == old(self).delay.delays() + seq![
                RESET_TIME,
                RESET_TIME,
            ],
            r is Ok ==> final(self).trace@ == old(self).trace@ + seq![
                TraceEvent::Reset { level: 0u8 },
                TraceEvent::Pause { units: RESET_TIME },
                TraceEvent::Reset { level: 1u8 },
                TraceEvent::Pause { units: RESET_TIME },
            ],
            r matches Err(e) ==> e is GpioError && advanced_by_prefix(
                old(self).reset.writes(),
                final(self).reset.writes(),
                seq![0u8, 1u8],
            ) && advanced_by_prefix(
                old(self).delay.delays(),
                final(self).delay.delays(),
                seq![RESET_TIME, RESET_TIME],
            ),
    {
        match self.reset.low() {
            Ok(()) => {
                self.trace = Ghost(self.trace@.push(TraceEvent::Reset { level: 0u8 }));
            },
            Err(e) => {
                proof {
                    lemma_advanced_refl(self.reset.writes(), seq![0u8, 1u8]);
                    lemma_advanced_refl(self.delay.delays(), seq![RESET_TIME, RESET_TIME]);
                }
                return Err(e);
            },
        }
        self.delay.delay_for(RESET_TIME);
        self.trace = Ghost(self.trace@.push(TraceEvent::Pause { units: RESET_TIME }));
        match self.reset.high() {
            Ok(()) => {
                self.trace = Ghost(self.trace@.push(TraceEvent::Reset { level: 1u8 }));
            },
            Err(e) => {
                proof {
                    assert(self.reset.writes() =~= old(self).reset.writes() + seq![0u8, 1u8].take(
                        1,
                    ));
                    assert(self.delay.delays() =~= old(self).delay.delays() + seq![
                        RESET_TIME,
                        RESET_TIME,
                    ].take(1));
                }
                return Err(e);
            },
        }
        self.delay.delay_for(RESET_TIME);
        self.trace = Ghost(self.trace@.push(TraceEvent::Pause { units: RESET_TIME }));
        proof {
            assert(self.reset.writes() =~= old(self).reset.writes() + seq![0u8, 1u8]);
            assert(self.delay.delays() =~= old(self).delay.delays() + seq![
                RESET_TIME,
                RESET_TIME,
            ]);
            assert(self.trace@ =~= old(self).trace@ + seq![
                TraceEvent::Reset { level: 0u8 },
                TraceEvent::Pause { units: RESET_TIME },
                TraceEvent::Reset { level: 1u8 },
                TraceEvent::Pause { units: RESET_TIME },
            ]);
        }
        Ok(())
    }

    /// The fixed initialization sequence: raise the control pins to their
    /// idle-high state, pulse reset to force the controller into its known
    /// boot state, then write the seven boot-time registers, ending with
    /// the full-update waveform table. Every step must complete before the
    /// next begins; the first failure aborts the call, with no
    /// partial-init recovery.
    #[verifier::rlimit(100)]
    pub fn init(&mut self) -> (r: EpdResult<()>)
        requires
            old(self).wf(),
        ensures
            Self::config_kept(*old(self), *final(self)),
            final(self).busy.reads() == old(self).busy.reads(),
            r is Ok ==> {
                &&& final(self).spi.log() == old(self).spi.log() + init_spi_events(
                    old(self).canvas_height,
                    old(self).limit_spec(),
                )
                &&& final(self).reset.writes() == old(self).reset.writes() + seq![1u8, 0u8, 1u8]
                &&& final(self).chip_select.writes() == old(self).chip_select.writes() + seq![1u8]
                &&& final(self).delay.delays() == old(self).delay.delays() + seq![
                    RESET_TIME,
                    RESET_TIME,
                ]
                &&& final(self).trace@ == old(self).trace@ + init_pin_trace() + spi_trace(
                    init_spi_events(old(self).canvas_height, old(self).limit_spec()),
                )
            },
            r matches Err(e) ==> {
                &&& is_io_error(e)
                &&& advanced_by_prefix(
                    old(self).spi.log(),
                    final(self).spi.log(),
                    init_spi_events(old(self).canvas_height, old(self).limit_spec()),
                )
                &&& advanced_by_prefix(
                    old(self).reset.writes(),
                    final(self).reset.writes(),
                    seq![1u8, 0u8, 1u8],
                )
                &&& advanced_by_prefix(
                    old(self).chip_select.writes(),
                    final(self).chip_select.writes(),
                    seq![1u8],
                )
                &&& advanced_by_prefix(
                    old(self).delay.delays(),
                    final(self).delay.delays(),
                    seq![RESET_TIME, RESET_TIME],
                )
                &&& (final(self).spi.log() != old(self).spi.log() ==> {
                    &&& final(self).reset.writes() == old(self).reset.writes() + seq![
                        1u8,
                        0u8,
                        1u8,
                    ]
                    &&& final(self).chip_select.writes() == old(self).chip_select.writes()
                        + seq![1u8]
                    &&& final(self).delay.delays() == old(self).delay.delays() + seq![
                        RESET_TIME,
                        RESET_TIME,
                    ]
                })
            },
    {
        let ghost entry_trace = self.trace@;
        let ghost entry_spi = self.spi.log();
        let ghost entry_reset = self.reset.writes();
        let ghost entry_cs = self.chip_select.writes();
        let ghost entry_delay = self.delay.delays();
        let ghost h = self.canvas_height;
        let ghost l = self.limit_spec();
        let ghost s1 = register_write_events(
            Command::DriverOutputControl.code_spec(),
            driver_output_data(h),
            l,
        );
        let ghost s2 = register_write_events(
            Command::BoosterSoftStartControl.code_spec(),
            booster_soft_start_data(),
            l,
        );
        let ghost s3 = register_write_events(Command::WriteVcomRegister.code_spec(), vcom_data(), l);
        let ghost s4 = register_write_events(
            Command::SetDummyLinePeriod.code_spec(),
            dummy_line_data(),
            l,
        );
        let ghost s5 = register_write_events(Command::SetGateTime.code_spec(), gate_time_data(), l);
        let ghost s6 = register_write_events(
            Command::DataEntryModeSetting.code_spec(),
            seq![0x03u8],
            l,
        );
        let ghost s7 = register_write_events(
            Command::WriteLutRegister.code_spec(),
            lut_full_update_spec(),
            l,
        );
        let ghost plan = init_spi_events(h, l);
        let ghost reset_plan = seq![1u8, 0u8, 1u8];
        let ghost cs_plan = seq![1u8];
        let ghost delay_plan = seq![RESET_TIME, RESET_TIME];
        match self.init_all_pin() {
            Ok(()) => {},
            Err(e) => {
                proof {
                    lemma_advanced_widen(entry_reset, self.reset.writes(), seq![1u8], seq![
                        0u8,
                        1u8,
                    ]);
                    assert(seq![1u8] + seq![0u8, 1u8] =~= reset_plan);
                    lemma_advanced_refl(entry_delay, delay_plan);
                    lemma_advanced_refl(entry_spi, plan);
                }
                return Err(e);
            },
        }
        match self.reset_panel() {
            Ok(()) => {},
            Err(e) => {
                proof {
                    lemma_advanced_compose(
                        entry_reset,
                        entry_reset + seq![1u8],
                        self.reset.writes(),
                        seq![1u8],
                        seq![0u8, 1u8],
                    );
                    assert(seq![1u8] + seq![0u8, 1u8] =~= reset_plan);
                    lemma_advanced_full(entry_cs, self.chip_select.writes(), cs_plan);
                    lemma_advanced_refl(entry_spi, plan);
                }
                return Err(e);
            },
        }
        proof {
            assert(self.reset.writes() =~= entry_reset + reset_plan);
            lemma_advanced_full(entry_reset, self.reset.writes(), reset_plan);
            lemma_advanced_full(entry_cs, self.chip_select.writes(), cs_plan);
            lemma_advanced_full(entry_delay, self.delay.delays(), delay_plan);
        }
        let ghost pin_trace_done = self.trace@;
        proof {
            assert(pin_trace_done =~= entry_trace + init_pin_trace());
        }
        match self.set_driver_output_control() {
            Ok(()) => {},
            Err(e) => {
                proof {
                    lemma_advanced_widen(
                        entry_spi,
                        self.spi.log(),
                        s1,
                        s2 + s3 + s4 + s5 + s6 + s7,
                    );
                    assert(s1 + (s2 + s3 + s4 + s5 + s6 + s7) =~= plan);
                }
                return Err(e);
            },
        }
        proof {
            assert(self.spi.log() =~= entry_spi + s1);
            assert(self.trace@ =~= pin_trace_done + spi_trace(s1));
        }
        match self.set_booster_soft_start_control() {
            Ok(()) => {},
            Err(e) => {
                proof {
                    lemma_advanced_compose(entry_spi, entry_spi + s1, self.spi.log(), s1, s2);
                    lemma_advanced_widen(
                        entry_spi,
                        self.spi.log(),
                        s1 + s2,
                        s3 + s4 + s5 + s6 + s7,
                    );
                    assert((s1 + s2) + (s3 + s4 + s5 + s6 + s7) =~= plan);
                }
                return Err(e);
            },
        }
        proof {
            assert(self.spi.log() =~= entry_spi + (s1 + s2));
            lemma_spi_trace_concat(s1, s2);
            assert(self.trace@ =~= pin_trace_done + spi_trace(s1 + s2));
        }
        match self.write_vcom_register() {
            Ok(()) => {},
            Err(e) => {
                proof {
                    lemma_advanced_compose(
                        entry_spi,
                        entry_spi + (s1 + s2),
                        self.spi.log(),
                        s1 + s2,
                        s3,
                    );
                    lemma_advanced_widen(
                        entry_spi,
                        self.spi.log(),
                        (s1 + s2) + s3,
                        s4 + s5 + s6 + s7,
                    );
                    assert(((s1 + s2) + s3) + (s4 + s5 + s6 + s7) =~= plan);
                }
                return Err(e);
            },
        }
        proof {
            assert(self.spi.log() =~= entry_spi + (s1 + s2 + s3));
            lemma_spi_trace_concat(s1 + s2, s3);
            assert(self.trace@ =~= pin_trace_done + spi_trace(s1 + s2 + s3));
        }
        match self.set_dummy_line_period() {
            Ok(()) => {},
            Err(e) => {
                proof {
                    lemma_advanced_compose(
                        entry_spi,
                        entry_spi + (s1 + s2 + s3),
                        self.spi.log(),
                        s1 + s2 + s3,
                        s4,
                    );
                    lemma_advanced_widen(
                        entry_spi,
                        self.spi.log(),
                        (s1 + s2 + s3) + s4,
                        s5 + s6 + s7,
                    );
                    assert(((s1 + s2 + s3) + s4) + (s5 + s6 + s7) =~= plan);
                }
                return Err(e);
            },
        }
        proof {
            assert(self.spi.log() =~= entry_spi + (s1 + s2 + s3 + s4));
            lemma_spi_trace_concat(s1 + s2 + s3, s4);
            assert(self.trace@ =~= pin_trace_done + spi_trace(s1 + s2 + s3 + s4));
        }
        match self.set_gate_time() {
            Ok(()) => {},
            Err(e) => {
                proof {
                    lemma_advanced_compose(
                        entry_spi,
                        entry_spi + (s1 + s2 + s3 + s4),
                        self.spi.log(),
                        s1 + s2 + s3 + s4,
                        s5,
                    );
                    lemma_advanced_widen(
                        entry_spi,
                        self.spi.log(),
                        (s1 + s2 + s3 + s4) + s5,
                        s6 + s7,
                    );
                    assert(((s1 + s2 + s3 + s4) + s5) + (s6 + s7) =~= plan);
                }
                return Err(e);
            },
        }
        proof {
            assert(self.spi.log() =~= entry_spi + (s1 + s2 + s3 + s4 + s5));
            lemma_spi_trace_concat(s1 + s2 + s3 + s4, s5);
            assert(self.trace@ =~= pin_trace_done + spi_trace(s1 + s2 + s3 + s4 + s5));
        }
        let entry_mode = DataEntryMode::default();
        proof {
            assert(seq![entry_mode.code_spec()] =~= seq![0x03u8]);
        }
        match self.set_data_entry_mode(entry_mode) {
            Ok(()) => {},
            Err(e) => {
                proof {
                    lemma_advanced_compose(
                        entry_spi,
                        entry_spi + (s1 + s2 + s3 + s4 + s5),
                        self.spi.log(),
                        s1 + s2 + s3 + s4 + s5,
                        s6,
                    );
                    lemma_advanced_widen(
                        entry_spi,
                        self.spi.log(),
                        (s1 + s2 + s3 + s4 + s5) + s6,
                        s7,
                    );
                    assert(((s1 + s2 + s3 + s4 + s5) + s6) + s7 =~= plan);
                }
                return Err(e);
            },
        }
        proof {
            assert(self.spi.log() =~= entry_spi + (s1 + s2 + s3 + s4 + s5 + s6));
            lemma_spi_trace_concat(s1 + s2 + s3 + s4 + s5, s6);
            assert(self.trace@ =~= pin_trace_done + spi_trace(s1 + s2 + s3 + s4 + s5 + s6));
        }
        match self.set_lut(Lut::FullUpdate) {
            Ok(()) => {
                proof {
                    assert(self.spi.log() =~= entry_spi + plan);
                    lemma_spi_trace_concat(s1 + s2 + s3 + s4 + s5 + s6, s7);
                    assert(self.trace@ =~= pin_trace_done + spi_trace(plan));
                    assert(self.trace@ =~= entry_trace + init_pin_trace() + spi_trace(plan));
                }
                Ok(())
            },
            Err(e) => {
                proof {
                    lemma_advanced_compose(
                        entry_spi,
                        entry_spi + (s1 + s2 + s3 + s4 + s5 + s6),
                        self.spi.log(),
                        s1 + s2 + s3 + s4 + s5 + s6,
                        s7,
                    );
                    assert((s1 + s2 + s3 + s4 + s5 + s6) + s7 =~= plan);
                }
                Err(e)
            },
        }
    }

    /// Fill the whole canvas with one color: a full-canvas byte rectangle,
    /// a buffer of all-black or all-white bytes, then a draw.
    pub fn fill(&mut self, color: EpdColor, params: DisplayUpdateControlParams) -> (r: EpdResult<
        (),
    >)
        requires
            old(self).wf(),
        ensures
            Self::config_kept(*old(self), *final(self)),
            final(self).chip_select.writes() == old(self).chip_select.writes(),
            final(self).reset.writes() == old(self).reset.writes(),
            r is Ok ==> final(self).spi.log() == old(self).spi.log() + fill_spi_events(
                color,
                old(self).canvas_width,
                old(self).canvas_height,
                params,
                old(self).limit_spec(),
            ),
            r is Ok ==> exists|probes: Seq<u8>|
                {
                    &&& final(self).busy.reads() == old(self).busy.reads() + probes
                    &&& #[trigger] busy_then_idle(probes)
                    &&& final(self).delay.delays() == old(self).delay.delays() + poll_delays(
                        probes.len(),
                    )
                    &&& final(self).trace@ == old(self).trace@ + spi_trace(
                        fill_spi_events(
                            color,
                            old(self).canvas_width,
                            old(self).canvas_height,
                            params,
                            old(self).limit_spec(),
                        ),
                    ) + poll_trace_events(probes)
                },
            r matches Err(e) ==> advanced_by_prefix(
                old(self).spi.log(),
                final(self).spi.log(),
                fill_spi_events(
                    color,
                    old(self).canvas_width,
                    old(self).canvas_height,
                    params,
                    old(self).limit_spec(),
                ),
            ) && (is_io_error(e) || e is SomethingWrong),
            r is Err ==> exists|probes: Seq<u8>|
                {
                    &&& final(self).busy.reads() == old(self).busy.reads() + probes
                    &&& #[trigger] all_busy(probes)
                },
            r is Err && final(self).busy.reads() != old(self).busy.reads() ==> {
                final(self).spi.log() == old(self).spi.log() + fill_spi_events(
                    color,
                    old(self).canvas_width,
                    old(self).canvas_height,
                    params,
                    old(self).limit_spec(),
                )
            },
    {
        let full = NormalRectangle::new(0, 0, self.canvas_width, self.canvas_height);
        let rect = EightSizedRectangle::from(full);
        proof {
            crate::geometry::lemma_byte_width_bounds(self.canvas_width as nat);
            assert(rect == full_canvas_rect(self.canvas_width, self.canvas_height));
            assert(1 <= rect.width <= 256);
            assert(rect.height == self.canvas_height);
            let w = rect.width as int;
            let h = rect.height as int;
            assert(w * h < 4294967296) by (nonlinear_arith)
                requires
                    0 <= w <= 256,
                    0 <= h <= 65535;
        }
        let n: usize = rect.width as usize * rect.height as usize;
        let fill_b = color.fill_byte();
        let mut data: Vec<u8> = Vec::new();
        let mut i: usize = 0;
        while i < n
            invariant
                i <= n,
                data@.len() == i,
                forall|j: int| 0 <= j < i ==> data@[j] == fill_b,
                fill_b == color.fill_byte_spec(),
            decreases n - i,
        {
            data.push(fill_b);
            i = i + 1;
        }
        proof {
            assert(data@ =~= fill_data(color, self.canvas_width, self.canvas_height));
            assert(!rect_is_empty(rect));
            assert(rect_in_range(rect));
            assert(data@.len() == rect_area(rect));
        }
        self.draw(rect, data.as_slice(), params)
    }
}

/// Law: the register codes any draw emits are exactly the eight-command
/// sequence — RAM X window, RAM Y window, RAM X counter, RAM Y counter,
/// write RAM, display update control, master activation, NOP — in that
/// order, for every rectangle, payload, parameter choice and transfer
/// limit. The busy-line reads that follow touch no register.
pub proof fn lemma_draw_command_order(
    rect: EightSizedRectangle,
    data: Seq<u8>,
    params: DisplayUpdateControlParams,
    limit: nat,
)
    requires
        1 <= limit,
    ensures
        command_codes(draw_spi_events(rect, data, params, limit)) == seq![
            0x44u8,
            0x45u8,
            0x4Eu8,
            0x4Fu8,
            0x24u8,
            0x22u8,
            0x20u8,
            0xFFu8,
        ],
{
    let rw_x_window = register_write_events(
        Command::SetRamXAddressStartEndPosition.code_spec(),
        ram_x_window_data(rect),
        limit,
    );
    let rw_y_window = register_write_events(
        Command::SetRamYAddressStartEndPosition.code_spec(),
        ram_y_window_data(rect),
        limit,
    );
    let rw_x_counter = register_write_events(
        Command::SetRamXAddressCounter.code_spec(),
        ram_x_counter_data(rect),
        limit,
    );
    let rw_y_counter = register_write_events(
        Command::SetRamYAddressCounter.code_spec(),
        ram_y_counter_data(rect),
        limit,
    );
    let rw_ram = register_write_events(Command::WriteRam.code_spec(), data, limit);
    let rw_control = register_write_events(
        Command::DisplayUpdateControl2.code_spec(),
        seq![params.code_spec()],
        limit,
    );
    let cmd_activate = command_events(Command::MasterActivation.code_spec());
    let cmd_nop = command_events(Command::NOP.code_spec());
    let tail_nop = cmd_nop + Seq::<SpiEvent>::empty();
    let tail_activate = cmd_activate + tail_nop;
    let tail_control = rw_control + tail_activate;
    let tail_ram = rw_ram + tail_control;
    let tail_y_counter = rw_y_counter + tail_ram;
    let tail_x_counter = rw_x_counter + tail_y_counter;
    let tail_y_window = rw_y_window + tail_x_counter;
    let whole = rw_x_window + tail_y_window;
    assert(draw_spi_events(rect, data, params, limit) =~= whole);
    lemma_codes_of_register_write(
        Command::SetRamXAddressStartEndPosition.code_spec(),
        ram_x_window_data(rect),
        limit,
        tail_y_window,
    );
    lemma_codes_of_register_write(
        Command::SetRamYAddressStartEndPosition.code_spec(),
        ram_y_window_data(rect),
        limit,
        tail_x_counter,
    );
    lemma_codes_of_register_write(
        Command::SetRamXAddressCounter.code_spec(),
        ram_x_counter_data(rect),
        limit,
        tail_y_counter,
    );
    lemma_codes_of_register_write(
        Command::SetRamYAddressCounter.code_spec(),
        ram_y_counter_data(rect),
        limit,
        tail_ram,
    );
    lemma_codes_of_register_write(Command::WriteRam.code_spec(), data, limit, tail_control);
    lemma_codes_of_register_write(
        Command::DisplayUpdateControl2.code_spec(),
        seq![params.code_spec()],
        limit,
        tail_activate,
    );
    lemma_codes_of_command(Command::MasterActivation.code_spec(), tail_nop);
    lemma_codes_of_command(Command::NOP.code_spec(), Seq::<SpiEvent>::empty());
    assert(command_codes(Seq::<SpiEvent>::empty()) == Seq::<u8>::empty());
    assert(command_codes(whole) =~= seq![
        0x44u8,
        0x45u8,
        0x4Eu8,
        0x4Fu8,
        0x24u8,
        0x22u8,
        0x20u8,
        0xFFu8,
    ]);
}

/// Law: filling with one color is idempotent at the wire. Two fills of
/// the same color on the same canvas, parameters and transfer limit
/// append byte-identical event sequences to their transport logs,
/// whatever those logs held before.
pub proof fn lemma_fill_idempotent(
    color: EpdColor,
    width: u16,
    height: u16,
    params: DisplayUpdateControlParams,
    limit: nat,
    first_before: Seq<SpiEvent>,
    first_after: Seq<SpiEvent>,
    second_before: Seq<SpiEvent>,
    second_after: Seq<SpiEvent>,
)
    requires
        first_after == first_before + fill_spi_events(color, width, height, params, limit),
        second_after == second_before + fill_spi_events(color, width, height, params, limit),
    ensures
        first_after.skip(first_before.len() as int) == second_after.skip(
            second_before.len() as int,
        ),
{
    assert(first_after.skip(first_before.len() as int) =~= fill_spi_events(
        color,
        width,
        height,
        params,
        limit,
    ));
    assert(second_after.skip(second_before.len() as int) =~= fill_spi_events(
        color,
        width,
        height,
        params,
        limit,
    ));
}

} // verus!
