use epd_driver::{
    BackendDelay, BackendInputPin, BackendOutputPin, BackendTransport, DelayBackend,
    EpdSpiWrapper, InputPinBackend, OutputPinBackend, TransportBackend,
};

/// A plain output-pin backend recording the levels it was asked to drive.
struct RecordingPin {
    levels: Vec<u8>,
}

impl OutputPinBackend for RecordingPin {
    fn set_level(&mut self, level: u8) -> Result<(), String> {
        self.levels.push(level);
        Ok(())
    }
}

/// A plain input-pin backend replaying fixed levels, then zero forever.
struct ScriptedPin {
    script: Vec<u8>,
    next: usize,
}

impl InputPinBackend for ScriptedPin {
    fn level(&mut self) -> Result<u8, String> {
        let v = self.script.get(self.next).copied().unwrap_or(0);
        self.next += 1;
        Ok(v)
    }
}

/// A plain transport backend recording selector toggles and transfers.
struct RecordingTransport {
    calls: Vec<(u8, Vec<u8>)>,
}

impl TransportBackend for RecordingTransport {
    fn select(&mut self, level: u8) -> Result<(), String> {
        self.calls.push((0, vec![level]));
        Ok(())
    }

    fn transfer(&mut self, bytes: &[u8]) -> Result<(), String> {
        self.calls.push((1, bytes.to_vec()));
        Ok(())
    }
}

/// A plain delay backend recording the pauses.
struct RecordingDelay {
    pauses: Vec<u64>,
}

impl DelayBackend for RecordingDelay {
    fn pause(&mut self, units: u64) {
        self.pauses.push(units);
    }
}

#[test]
fn the_engine_runs_over_plain_backends() {
    let mut engine = EpdSpiWrapper::new(
        BackendOutputPin::new(RecordingPin { levels: Vec::new() }),
        BackendOutputPin::new(RecordingPin { levels: Vec::new() }),
        BackendInputPin::new(ScriptedPin { script: vec![1, 0], next: 0 }),
        BackendTransport::new(RecordingTransport { calls: Vec::new() }, 4096),
        BackendDelay::new(RecordingDelay { pauses: Vec::new() }),
    );
    engine.init().unwrap();
    engine.wait_until_idle().unwrap();
    assert_eq!(engine.reset_pin().backend().levels, vec![1, 0, 1]);
    assert_eq!(engine.chip_select_pin().backend().levels, vec![1]);
    assert_eq!(engine.delay_source().backend().pauses, vec![200, 200, 100, 100]);
    let calls = &engine.spi().backend().calls;
    // The first register write of init: command framing for the driver
    // output control register, then its three payload bytes.
    assert_eq!(calls[0], (0, vec![0])); // selector low
    assert_eq!(calls[1], (1, vec![0x01])); // the register address
    assert_eq!(calls[2], (0, vec![1])); // selector high
    assert_eq!(calls[3], (1, vec![199, 0, 0])); // height-1, little-endian, pad
}
