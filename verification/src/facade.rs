//! The minimal public surface over the command protocol engine: init,
//! draw, fill, clear and sleep, with the display update parameters
//! defaulted to the vendor reference firmware's choice. The facade holds
//! no state of its own.

use vstd::prelude::*;
use crate::engine::{
    EpdSpiWrapper, init_spi_events, draw_spi_events, fill_spi_events, sleep_spi_events,
    rect_is_empty, rect_in_range, rect_area, is_io_error, busy_then_idle, poll_delays,
    spi_trace, poll_trace_events, init_pin_trace, RESET_TIME,
};
use crate::error::{EpdError, EpdResult};
use crate::io::{EpdGpioWriter, EpdGpioReader, RawSpiAccessor, DelayProvider};
use crate::image::EpdImage;
use crate::protocol::advanced_by_prefix;
use crate::value::{
    DeepSleep, DisplayUpdateControlParams, DisplayUpdateEnablingStep, DisplayUpdateTarget,
    DisplayUpdateDisablingStep, EpdColor,
};

verus! {

/// The display update parameters every facade operation uses: the vendor
/// reference firmware default.
pub open spec fn default_update_params() -> DisplayUpdateControlParams {
    DisplayUpdateControlParams {
        enabling: DisplayUpdateEnablingStep::ClockSignalThenCp,
        target: DisplayUpdateTarget::Pattern,
        disabling: DisplayUpdateDisablingStep::CpThenClockSignal,
    }
}

/// The facade over one panel: the engine and nothing else.
pub struct Epd<
    CS: EpdGpioWriter,
    RST: EpdGpioWriter,
    BUSY: EpdGpioReader,
    SPI: RawSpiAccessor,
    D: DelayProvider,
> {
    pub spi: EpdSpiWrapper<CS, RST, BUSY, SPI, D>,
}

impl<
    CS: EpdGpioWriter,
    RST: EpdGpioWriter,
    BUSY: EpdGpioReader,
    SPI: RawSpiAccessor,
    D: DelayProvider,
> Epd<CS, RST, BUSY, SPI, D> {
    /// A facade over the given engine.
    pub fn new(spi: EpdSpiWrapper<CS, RST, BUSY, SPI, D>) -> (r: Self)
        ensures
            r.spi == spi,
    {
        Self { spi }
    }

    /// The engine underneath.
    pub fn spi(&self) -> (r: &EpdSpiWrapper<CS, RST, BUSY, SPI, D>)
        ensures
            *r == self.spi,
    {
        &self.spi
    }

    /// Run the fixed initialization sequence.
    pub fn init(&mut self) -> (r: EpdResult<()>)
        requires
            old(self).spi.wf(),
        ensures
            EpdSpiWrapper::<CS, RST, BUSY, SPI, D>::config_kept(old(self).spi, final(self).spi),
            final(self).spi.busy.reads() == old(self).spi.busy.reads(),
            r is Ok ==> {
                &&& final(self).spi.spi.log() == old(self).spi.spi.log() + init_spi_events(
                    old(self).spi.canvas_height,
                    old(self).spi.limit_spec(),
                )
                &&& final(self).spi.reset.writes() == old(self).spi.reset.writes() + seq![
                    1u8,
                    0u8,
                    1u8,
                ]
                &&& final(self).spi.chip_select.writes() == old(self).spi.chip_select.writes()
                    + seq![1u8]
                &&& final(self).spi.delay.delays() == old(self).spi.delay.delays() + seq![
                    RESET_TIME,
                    RESET_TIME,
                ]
                &&& final(self).spi.trace@ == old(self).spi.trace@ + init_pin_trace()
                    + spi_trace(
                    init_spi_events(old(self).spi.canvas_height, old(self).spi.limit_spec()),
                )
            },
            r matches Err(e) ==> is_io_error(e) && advanced_by_prefix(
                old(self).spi.spi.log(),
                final(self).spi.spi.log(),
                init_spi_events(old(self).spi.canvas_height, old(self).spi.limit_spec()),
            ),
            r is Err && final(self).spi.spi.log() != old(self).spi.spi.log() ==> {
                &&& final(self).spi.reset.writes() == old(self).spi.reset.writes() + seq![
                    1u8,
                    0u8,
                    1u8,
                ]
                &&& final(self).spi.chip_select.writes() == old(self).spi.chip_select.writes()
                    + seq![1u8]
                &&& final(self).spi.delay.delays() == old(self).spi.delay.delays() + seq![
                    RESET_TIME,
                    RESET_TIME,
                ]
            },
    {
        self.spi.init()
    }

    /// Draw an image with the default update parameters: upload its bytes
    /// into its rectangle, then refresh. An image with an empty rectangle
    /// is a no-op; a rectangle the controller cannot address, or a byte
    /// count that does not match it, is rejected before anything is
    /// emitted.
    pub fn draw<I: EpdImage>(&mut self, image: &I) -> (r: EpdResult<()>)
        ensures
            EpdSpiWrapper::<CS, RST, BUSY, SPI, D>::config_kept(old(self).spi, final(self).spi),
            final(self).spi.chip_select.writes() == old(self).spi.chip_select.writes(),
            final(self).spi.reset.writes() == old(self).spi.reset.writes(),
            rect_is_empty(image.rect_spec()) ==> r is Ok
                && final(self).spi.spi.log() == old(self).spi.spi.log()
                && final(self).spi.trace@ == old(self).spi.trace@,
            !rect_is_empty(image.rect_spec()) && !rect_in_range(image.rect_spec()) ==> r is Err
                && (r matches Err(e) ==> e is SomethingWrong)
                && final(self).spi.spi.log() == old(self).spi.spi.log(),
            !rect_is_empty(image.rect_spec()) && rect_in_range(image.rect_spec())
                && image.bytes_spec().len() != rect_area(image.rect_spec()) ==> r is Err
                && (r matches Err(e) ==> e matches EpdError::DataTooLong(expected, actual)
                && expected == rect_area(image.rect_spec())
                && actual == image.bytes_spec().len())
                && final(self).spi.spi.log() == old(self).spi.spi.log(),
            !rect_is_empty(image.rect_spec()) && rect_in_range(image.rect_spec())
                && image.bytes_spec().len() == rect_area(image.rect_spec()) ==> {
                &&& r is Ok ==> final(self).spi.spi.log() == old(self).spi.spi.log()
                    + draw_spi_events(
                    image.rect_spec(),
                    image.bytes_spec(),
                    default_update_params(),
                    old(self).spi.limit_spec(),
                )
                &&& r is Ok ==> exists|probes: Seq<u8>|
                    {
                        &&& final(self).spi.busy.reads() == old(self).spi.busy.reads() + probes
                        &&& #[trigger] busy_then_idle(probes)
                        &&& final(self).spi.delay.delays() == old(self).spi.delay.delays()
                            + poll_delays(probes.len())
                        &&& final(self).spi.trace@ == old(self).spi.trace@ + spi_trace(
                            draw_spi_events(
                                image.rect_spec(),
                                image.bytes_spec(),
                                default_update_params(),
                                old(self).spi.limit_spec(),
                            ),
                        ) + poll_trace_events(probes)
                    }
                &&& (r matches Err(e) ==> advanced_by_prefix(
                    old(self).spi.spi.log(),
                    final(self).spi.spi.log(),
                    draw_spi_events(
                        image.rect_spec(),
                        image.bytes_spec(),
                        default_update_params(),
                        old(self).spi.limit_spec(),
                    ),
                ) && (is_io_error(e) || e is SomethingWrong))
            },
    {
        let params = DisplayUpdateControlParams::default();
        proof {
            assert(params == default_update_params());
        }
        let rect = image.rect();
        let data = image.as_vec();
        self.spi.draw(rect, data, params)
    }

    /// Fill the whole canvas with one color, with the default update
    /// parameters.
    pub fn fill(&mut self, color: EpdColor) -> (r: EpdResult<()>)
        requires
            old(self).spi.wf(),
        ensures
            EpdSpiWrapper::<CS, RST, BUSY, SPI, D>::config_kept(old(self).spi, final(self).spi),
            final(self).spi.chip_select.writes() == old(self).spi.chip_select.writes(),
            final(self).spi.reset.writes() == old(self).spi.reset.writes(),
            r is Ok ==> final(self).spi.spi.log() == old(self).spi.spi.log() + fill_spi_events(
                color,
                old(self).spi.canvas_width,
                old(self).spi.canvas_height,
                default_update_params(),
                old(self).spi.limit_spec(),
            ),
            r is Ok ==> exists|probes: Seq<u8>|
                {
                    &&& #[trigger] busy_then_idle(probes)
                    &&& final(self).spi.trace@ == old(self).spi.trace@ + spi_trace(
                        fill_spi_events(
                            color,
                            old(self).spi.canvas_width,
                            old(self).spi.canvas_height,
                            default_update_params(),
                            old(self).spi.limit_spec(),
                        ),
                    ) + poll_trace_events(probes)
                },
            r matches Err(e) ==> advanced_by_prefix(
                old(self).spi.spi.log(),
                final(self).spi.spi.log(),
                fill_spi_events(
                    color,
                    old(self).spi.canvas_width,
                    old(self).spi.canvas_height,
                    default_update_params(),
                    old(self).spi.limit_spec(),
                ),
            ) && (is_io_error(e) || e is SomethingWrong),
    {
        let params = DisplayUpdateControlParams::default();
        proof {
            assert(params == default_update_params());
        }
        self.spi.fill(color, params)
    }

    /// Fill the whole canvas with white.
    pub fn clear(&mut self) -> (r: EpdResult<()>)
        requires
            old(self).spi.wf(),
        ensures
            EpdSpiWrapper::<CS, RST, BUSY, SPI, D>::config_kept(old(self).spi, final(self).spi),
            final(self).spi.chip_select.writes() == old(self).spi.chip_select.writes(),
            final(self).spi.reset.writes() == old(self).spi.reset.writes(),
            r is Ok ==> final(self).spi.spi.log() == old(self).spi.spi.log() + fill_spi_events(
                EpdColor::White,
                old(self).spi.canvas_width,
                old(self).spi.canvas_height,
                default_update_params(),
                old(self).spi.limit_spec(),
            ),
            r matches Err(e) ==> advanced_by_prefix(
                old(self).spi.spi.log(),
                final(self).spi.spi.log(),
                fill_spi_events(
                    EpdColor::White,
                    old(self).spi.canvas_width,
                    old(self).spi.canvas_height,
                    default_update_params(),
                    old(self).spi.limit_spec(),
                ),
            ) && (is_io_error(e) || e is SomethingWrong),
    {
        self.fill(EpdColor::White)
    }

    /// Write the deep sleep mode register. After entering deep sleep only
    /// a reset pulse — a new `init` — restores the panel.
    pub fn sleep(&mut self, mode: DeepSleep) -> (r: EpdResult<()>)
        ensures
            EpdSpiWrapper::<CS, RST, BUSY, SPI, D>::config_kept(old(self).spi, final(self).spi),
            final(self).spi.chip_select.writes() == old(self).spi.chip_select.writes(),
            final(self).spi.reset.writes() == old(self).spi.reset.writes(),
            final(self).spi.busy.reads() == old(self).spi.busy.reads(),
            r is Ok ==> final(self).spi.spi.log() == old(self).spi.spi.log()
                + sleep_spi_events(mode, old(self).spi.limit_spec()),
            r is Ok ==> final(self).spi.trace@ == old(self).spi.trace@ + spi_trace(
                sleep_spi_events(mode, old(self).spi.limit_spec()),
            ),
            r matches Err(e) ==> is_io_error(e) && advanced_by_prefix(
                old(self).spi.spi.log(),
                final(self).spi.spi.log(),
                sleep_spi_events(mode, old(self).spi.limit_spec()),
            ),
    {
        self.spi.sleep(mode)
    }
}

} // verus!
