//! The minimal capability contracts a hardware backend must meet.
//!
//! Each capability carries a ghost log of what the backend has observably
//! done — levels written, levels read, transport events, delays taken — and
//! every method states exactly how one call extends that log. A completed
//! operation appends its event; a failed one appends nothing. Any concrete
//! backend honouring these contracts (real SPI/GPIO wiring, a simulator, a
//! recording fake) is a valid collaborator.

use vstd::prelude::*;
use crate::error::EpdError;
use crate::protocol::{
    SpiEvent, chunk_events, payload_events, command_events, advanced_by_prefix,
    lemma_advanced_refl,
};

verus! {

/// A digital output line: a chip-select, reset or data/command select pin.
pub trait EpdGpioWriter: Sized {
    /// The levels successfully driven onto the line so far, oldest first.
    spec fn writes(&self) -> Seq<u8>;

    /// Drive the line low (0) or high (1).
    fn write(&mut self, value: u8) -> (r: Result<(), EpdError>)
        requires
            value == 0 || value == 1,
        ensures
            r is Ok ==> final(self).writes() == old(self).writes().push(value),
            r matches Err(e) ==> final(self).writes() == old(self).writes() && e is GpioError,
    ;

    /// Drive the line high.
    fn high(&mut self) -> (r: Result<(), EpdError>)
        ensures
            r is Ok ==> final(self).writes() == old(self).writes().push(1u8),
            r matches Err(e) ==> final(self).writes() == old(self).writes() && e is GpioError,
    {
        self.write(1)
    }

    /// Drive the line low.
    fn low(&mut self) -> (r: Result<(), EpdError>)
        ensures
            r is Ok ==> final(self).writes() == old(self).writes().push(0u8),
            r matches Err(e) ==> final(self).writes() == old(self).writes() && e is GpioError,
    {
        self.write(0)
    }
}

/// A digital input line: the controller's busy signal.
pub trait EpdGpioReader: Sized {
    /// The levels successfully read off the line so far, oldest first.
    spec fn reads(&self) -> Seq<u8>;

    /// Sample the line: 0 for low, 1 for high.
    fn read(&mut self) -> (r: Result<u8, EpdError>)
        ensures
            r matches Ok(v) ==> (v == 0 || v == 1) && final(self).reads() == old(
                self,
            ).reads().push(v),
            r matches Err(e) ==> final(self).reads() == old(self).reads() && e is GpioError,
    ;

    /// Whether the line reads high.
    fn high(&mut self) -> (r: Result<bool, EpdError>)
        ensures
            r matches Ok(b) ==> final(self).reads() == old(self).reads().push(
                if b {
                    1u8
                } else {
                    0u8
                },
            ),
            r matches Err(e) ==> final(self).reads() == old(self).reads() && e is GpioError,
    {
        match self.read() {
            Ok(v) => Ok(v != 0),
            Err(e) => Err(e),
        }
    }

    /// Whether the line reads low.
    fn low(&mut self) -> (r: Result<bool, EpdError>)
        ensures
            r matches Ok(b) ==> final(self).reads() == old(self).reads().push(
                if b {
                    0u8
                } else {
                    1u8
                },
            ),
            r matches Err(e) ==> final(self).reads() == old(self).reads() && e is GpioError,
    {
        match self.read() {
            Ok(v) => Ok(v == 0),
            Err(e) => Err(e),
        }
    }
}

/// A raw byte transport owning the data/command selector line: an SPI bus
/// plus one GPIO pin in front of the panel.
///
/// The transport has a fixed single-transfer byte limit, reported by the
/// backend; `send` may only be handed that many bytes at once, and the
/// derived `send_data` splits larger payloads accordingly.
pub trait RawSpiAccessor: Sized {
    /// Selector toggles and raw transfers completed so far, oldest first.
    spec fn log(&self) -> Seq<SpiEvent>;

    /// The backend's single-transfer byte limit; always at least one.
    spec fn transfer_limit(&self) -> nat;

    /// The largest number of bytes one `send` may carry.
    fn max_transfer_size(&self) -> (n: usize)
        ensures
            n as nat == self.transfer_limit(),
            n >= 1,
    ;

    /// Set the data/command selector: 0 frames a command, 1 frames data.
    fn set_data_command_pin(&mut self, level: u8) -> (r: Result<(), EpdError>)
        requires
            level == 0 || level == 1,
        ensures
            final(self).transfer_limit() == old(self).transfer_limit(),
            r is Ok ==> final(self).log() == old(self).log().push(
                SpiEvent::Select { level },
            ),
            r matches Err(e) ==> final(self).log() == old(self).log() && e is GpioError,
    ;

    /// Transmit `data` as one raw transfer, as-is.
    fn send(&mut self, data: &[u8]) -> (r: Result<(), EpdError>)
        requires
            data@.len() <= old(self).transfer_limit(),
        ensures
            final(self).transfer_limit() == old(self).transfer_limit(),
            r is Ok ==> final(self).log() == old(self).log().push(
                SpiEvent::Chunk { bytes: data@ },
            ),
            r matches Err(e) ==> final(self).log() == old(self).log() && e is SpiIoError,
    ;

    /// The single-transfer limit is never zero.
    proof fn transfer_limit_positive(&self)
        ensures
            self.transfer_limit() >= 1,
    ;

    /// Frame and transmit one command byte: selector low, then the byte.
    fn send_command(&mut self, command: u8) -> (r: Result<(), EpdError>)
        ensures
            final(self).transfer_limit() == old(self).transfer_limit(),
            r is Ok ==> final(self).log() == old(self).log() + command_events(command),
            r matches Err(e) ==> advanced_by_prefix(
                old(self).log(),
                final(self).log(),
                command_events(command),
            ) && (e is GpioError || e is SpiIoError),
            r matches Err(e) && e is GpioError ==> final(self).log() == old(self).log(),
            r matches Err(e) && e is SpiIoError ==> final(self).log() == old(self).log().push(
                SpiEvent::Select { level: 0 },
            ),
    {
        proof {
            self.transfer_limit_positive();
        }
        match self.set_data_command_pin(0) {
            Ok(()) => {},
            Err(e) => {
                proof {
                    lemma_advanced_refl(self.log(), command_events(command));
                }
                return Err(e);
            },
        }
        let one: Vec<u8> = vec![command];
        proof {
            assert(one@ =~= seq![command]);
        }
        match self.send(one.as_slice()) {
            Ok(()) => {
                proof {
                    assert(self.log() =~= old(self).log() + command_events(command));
                }
                Ok(())
            },
            Err(e) => {
                proof {
                    assert(self.log() == old(self).log().push(
                        SpiEvent::Select { level: 0 },
                    ));
                    assert(self.log() =~= old(self).log() + command_events(command).take(1));
                }
                Err(e)
            },
        }
    }

    /// Transmit a payload: a no-op for an empty one, otherwise selector
    /// high once, then the bytes split into transfers of at most the
    /// single-transfer limit, order and boundaries preserved exactly.
    fn send_data(&mut self, data: &[u8]) -> (r: Result<(), EpdError>)
        ensures
            final(self).transfer_limit() == old(self).transfer_limit(),
            data@.len() == 0 ==> r is Ok,
            r is Ok ==> final(self).log() == old(self).log() + payload_events(
                data@,
                old(self).transfer_limit(),
            ),
            r matches Err(e) ==> advanced_by_prefix(
                old(self).log(),
                final(self).log(),
                payload_events(data@, old(self).transfer_limit()),
            ) && (e is GpioError || e is SpiIoError),
            r matches Err(e) && e is GpioError ==> final(self).log() == old(self).log(),
            r matches Err(e) && e is SpiIoError ==> final(self).log().len() > old(
                self,
            ).log().len(),
            r is Err ==> final(self).log().len() < old(self).log().len() + payload_events(
                data@,
                old(self).transfer_limit(),
            ).len(),
    {
        proof {
            self.transfer_limit_positive();
        }
        let ghost l = self.transfer_limit();
        let ghost intended = payload_events(data@, l);
        if data.len() == 0 {
            proof {
                assert(self.log() =~= self.log() + payload_events(data@, l));
            }
            return Ok(());
        }
        match self.set_data_command_pin(1) {
            Ok(()) => {},
            Err(e) => {
                proof {
                    lemma_advanced_refl(self.log(), intended);
                }
                return Err(e);
            },
        }
        let limit = self.max_transfer_size();
        let ghost entry_log = old(self).log();
        let ghost select_one = seq![SpiEvent::Select { level: 1u8 }];
        let mut i: usize = 0;
        let ghost mut done = Seq::<SpiEvent>::empty();
        proof {
            assert(self.log() =~= entry_log + select_one + done);
            assert(data@.skip(0) =~= data@);
            assert(done + chunk_events(data@, l) =~= chunk_events(data@, l));
        }
        while i < data.len()
            invariant
                1 <= limit as nat,
                limit as nat == l,
                self.transfer_limit() == l,
                l == old(self).transfer_limit(),
                entry_log == old(self).log(),
                i <= data@.len(),
                data@.len() > 0,
                self.log() == entry_log + select_one + done,
                chunk_events(data@, l) == done + chunk_events(data@.skip(i as int), l),
                intended == payload_events(data@, l),
                intended == select_one + chunk_events(data@, l),
            decreases data@.len() - i,
        {
            let remaining = data.len() - i;
            let step = if remaining < limit {
                remaining
            } else {
                limit
            };
            let piece = vstd::slice::slice_subrange(data, i, i + step);
            let ghost rest = data@.skip(i as int);
            proof {
                assert(rest.len() == data@.len() - i);
                if rest.len() <= l {
                    assert(step == remaining);
                    assert(chunk_events(rest, l) == seq![SpiEvent::Chunk { bytes: rest }]);
                    assert(piece@ =~= rest);
                } else {
                    assert(step == limit);
                    assert(chunk_events(rest, l) == seq![
                        SpiEvent::Chunk { bytes: rest.take(l as int) },
                    ] + chunk_events(rest.skip(l as int), l));
                    assert(piece@ =~= rest.take(l as int));
                    assert(rest.skip(l as int) =~= data@.skip(i + step));
                }
            }
            match self.send(piece) {
                Ok(()) => {},
                Err(e) => {
                    proof {
                        let k = 1 + done.len() as int;
                        let chunks = chunk_events(data@, l);
                        assert(chunks == done + chunk_events(data@.skip(i as int), l));
                        assert(done.len() <= chunks.len());
                        assert(k <= intended.len());
                        assert(forall|m: int|
                            0 <= m < done.len() ==> chunks[m] == #[trigger] done[m]);
                        assert(intended.take(k) =~= select_one + done);
                        assert(self.log() =~= entry_log + intended.take(k));
                    }
                    return Err(e);
                },
            }
            proof {
                let ghost piece_event = SpiEvent::Chunk { bytes: piece@ };
                assert(self.log() =~= entry_log + select_one + done.push(piece_event));
                if rest.len() <= l {
                    assert(done.push(piece_event) + chunk_events(
                        data@.skip(i + step as int),
                        l,
                    ) =~= chunk_events(data@, l)) by {
                        assert(data@.skip(i + step as int) =~= data@.skip(data@.len() as int));
                        assert(chunk_events(data@.skip(data@.len() as int), l)
                            == Seq::<SpiEvent>::empty());
                        assert(done + chunk_events(rest, l) =~= done.push(piece_event));
                    }
                } else {
                    assert(done.push(piece_event) + chunk_events(data@.skip(i + step), l)
                        =~= done + chunk_events(rest, l));
                }
                done = done.push(piece_event);
            }
            i = i + step;
        }
        proof {
            assert(data@.skip(i as int) =~= Seq::<u8>::empty());
            assert(chunk_events(data@.skip(i as int), l) == Seq::<SpiEvent>::empty());
            assert(done =~= chunk_events(data@, l));
            assert(self.log() =~= entry_log + payload_events(data@, l));
        }
        Ok(())
    }
}

/// A source of fixed pauses, counted in the driver's time units.
pub trait DelayProvider: Sized {
    /// The pauses taken so far, oldest first.
    spec fn delays(&self) -> Seq<u64>;

    /// Pause for `units` time units.
    fn delay_for(&mut self, units: u64)
        ensures
            final(self).delays() == old(self).delays().push(units),
    ;
}

} // verus!
