use epd_driver::{
    EpdSpiWrapper, FakeOutputPin, FakeInputPin, FakeSpi, FakeDelay, ReadOutcome,
    RecordedSpiEvent, EightSizedRectangle, EpdError, EpdColor, DeepSleep,
    DisplayUpdateControlParams, Lut, Command,
};

type FakeEngine = EpdSpiWrapper<FakeOutputPin, FakeOutputPin, FakeInputPin, FakeSpi, FakeDelay>;

fn engine_with(busy_script: Vec<ReadOutcome>, limit: usize) -> FakeEngine {
    EpdSpiWrapper::new(
        FakeOutputPin::new(),
        FakeOutputPin::new(),
        FakeInputPin::new(busy_script),
        FakeSpi::new(limit),
        FakeDelay::new(),
    )
}

fn select(level: u8) -> RecordedSpiEvent {
    RecordedSpiEvent::Select { level }
}

fn chunk(bytes: Vec<u8>) -> RecordedSpiEvent {
    RecordedSpiEvent::Chunk { bytes }
}

/// One register write as the transport sees it: command framing, then
/// payload framing when the payload is non-empty.
fn register_write(code: u8, payload: Vec<u8>) -> Vec<RecordedSpiEvent> {
    let mut events = vec![select(0), chunk(vec![code])];
    if !payload.is_empty() {
        events.push(select(1));
        events.push(chunk(payload));
    }
    events
}

/// The register codes carried by a recorded log: each one-byte transfer
/// directly following a command-select.
fn commands_of(events: &[RecordedSpiEvent]) -> Vec<u8> {
    let mut codes = Vec::new();
    let mut i = 0;
    while i < events.len() {
        if events[i] == select(0) && i + 1 < events.len() {
            if let RecordedSpiEvent::Chunk { bytes } = &events[i + 1] {
                codes.push(bytes[0]);
                i += 2;
                continue;
            }
        }
        i += 1;
    }
    codes
}

#[test]
fn ram_area_for_the_reference_rectangle() {
    let mut engine = engine_with(vec![], 4096);
    let rect = EightSizedRectangle::new(2, 10, 3, 5);
    engine.set_ram_area(rect).unwrap();
    let mut expected = register_write(0x44, vec![2, 4]);
    expected.extend(register_write(0x45, vec![10, 0, 14, 0]));
    assert_eq!(*engine.spi().recorded(), expected);
}

#[test]
fn ram_counter_for_the_reference_rectangle() {
    let mut engine = engine_with(vec![], 4096);
    let rect = EightSizedRectangle::new(2, 10, 3, 5);
    engine.set_ram_counter(rect).unwrap();
    let mut expected = register_write(0x4E, vec![2]);
    expected.extend(register_write(0x4F, vec![10, 0]));
    assert_eq!(*engine.spi().recorded(), expected);
}

#[test]
fn ram_windows_use_little_endian_rows() {
    let mut engine = engine_with(vec![], 4096);
    let rect = EightSizedRectangle::new(0, 300, 25, 300);
    engine.set_ram_area(rect).unwrap();
    let mut expected = register_write(0x44, vec![0, 24]);
    // rows 300..599: 300 = 0x012C, 599 = 0x0257, little-endian.
    expected.extend(register_write(0x45, vec![0x2C, 0x01, 0x57, 0x02]));
    assert_eq!(*engine.spi().recorded(), expected);
}

#[test]
fn init_emits_the_fixed_boot_sequence() {
    let mut engine = engine_with(vec![], 4096);
    engine.init().unwrap();
    let mut expected = register_write(0x01, vec![199, 0, 0]);
    expected.extend(register_write(0x0C, vec![0xD7, 0xD6, 0x9D]));
    expected.extend(register_write(0x2C, vec![0xA8]));
    expected.extend(register_write(0x3A, vec![0x1A]));
    expected.extend(register_write(0x3B, vec![0x08]));
    expected.extend(register_write(0x11, vec![0x03]));
    expected.extend(register_write(0x32, Lut::FullUpdate.table()));
    assert_eq!(*engine.spi().recorded(), expected);
    assert_eq!(*engine.reset_pin().recorded(), vec![1, 0, 1]);
    assert_eq!(*engine.chip_select_pin().recorded(), vec![1]);
    assert_eq!(*engine.delay_source().recorded(), vec![200, 200]);
    assert_eq!(engine.busy_pin().recorded().len(), 0);
}

#[test]
fn init_honours_an_overridden_canvas_height() {
    let mut engine = EpdSpiWrapper::with_canvas(
        FakeOutputPin::new(),
        FakeOutputPin::new(),
        FakeInputPin::new(vec![]),
        FakeSpi::new(4096),
        FakeDelay::new(),
        128,
        296,
    );
    engine.init().unwrap();
    // 295 = 0x0127, little-endian.
    let expected_head = register_write(0x01, vec![0x27, 0x01, 0]);
    assert_eq!(engine.spi().recorded()[..4], expected_head[..]);
}

#[test]
fn wait_returns_after_one_cycle_when_busy_reads_low() {
    let mut engine = engine_with(vec![ReadOutcome::Level(0)], 4096);
    engine.wait_until_idle().unwrap();
    assert_eq!(*engine.delay_source().recorded(), vec![100]);
    assert_eq!(*engine.busy_pin().recorded(), vec![0]);
    assert_eq!(engine.spi().recorded().len(), 0);
}

#[test]
fn wait_polls_until_the_line_drops() {
    let script = vec![
        ReadOutcome::Level(1),
        ReadOutcome::Level(1),
        ReadOutcome::Level(1),
        ReadOutcome::Level(0),
    ];
    let mut engine = engine_with(script, 4096);
    engine.wait_until_idle().unwrap();
    assert_eq!(*engine.delay_source().recorded(), vec![100, 100, 100, 100]);
    assert_eq!(*engine.busy_pin().recorded(), vec![1, 1, 1, 0]);
}

#[test]
fn draw_emits_the_eight_commands_in_order() {
    let mut engine = engine_with(vec![ReadOutcome::Level(0)], 4096);
    let rect = EightSizedRectangle::new(0, 0, 2, 2);
    let data = [0xA5u8, 0x5A, 0xFF, 0x00];
    engine.draw(rect, &data, DisplayUpdateControlParams::default()).unwrap();
    assert_eq!(
        commands_of(engine.spi().recorded()),
        vec![0x44, 0x45, 0x4E, 0x4F, 0x24, 0x22, 0x20, 0xFF]
    );
}

#[test]
fn draw_emits_the_exact_event_sequence() {
    let mut engine = engine_with(vec![ReadOutcome::Level(0)], 4096);
    let rect = EightSizedRectangle::new(1, 2, 2, 3);
    let data = [1u8, 2, 3, 4, 5, 6];
    engine.draw(rect, &data, DisplayUpdateControlParams::default()).unwrap();
    let mut expected = register_write(0x44, vec![1, 2]);
    expected.extend(register_write(0x45, vec![2, 0, 4, 0]));
    expected.extend(register_write(0x4E, vec![1]));
    expected.extend(register_write(0x4F, vec![2, 0]));
    expected.extend(register_write(0x24, data.to_vec()));
    expected.extend(register_write(0x22, vec![0xC7]));
    expected.extend(register_write(0x20, vec![]));
    expected.extend(register_write(0xFF, vec![]));
    assert_eq!(*engine.spi().recorded(), expected);
}

#[test]
fn draw_of_an_empty_rectangle_is_a_no_op() {
    let mut engine = engine_with(vec![], 4096);
    let rect = EightSizedRectangle::new(0, 0, 0, 5);
    engine.draw(rect, &[], DisplayUpdateControlParams::default()).unwrap();
    assert_eq!(engine.spi().recorded().len(), 0);
    let rect = EightSizedRectangle::new(0, 0, 5, 0);
    engine.draw(rect, &[], DisplayUpdateControlParams::default()).unwrap();
    assert_eq!(engine.spi().recorded().len(), 0);
}

#[test]
fn draw_rejects_an_unaddressable_rectangle() {
    let mut engine = engine_with(vec![], 4096);
    let rect = EightSizedRectangle::new(250, 0, 10, 1);
    let err = engine
        .draw(rect, &[0u8; 10], DisplayUpdateControlParams::default())
        .unwrap_err();
    assert!(matches!(err, EpdError::SomethingWrong(_)));
    assert_eq!(engine.spi().recorded().len(), 0);
}

#[test]
fn draw_rejects_a_mismatched_buffer_length() {
    let mut engine = engine_with(vec![], 4096);
    let rect = EightSizedRectangle::new(0, 0, 2, 2);
    let err = engine
        .draw(rect, &[0u8; 5], DisplayUpdateControlParams::default())
        .unwrap_err();
    match err {
        EpdError::DataTooLong(expected, actual) => {
            assert_eq!(expected, 4);
            assert_eq!(actual, 5);
        },
        other => panic!("expected DataTooLong, got {:?}", other),
    }
    assert_eq!(engine.spi().recorded().len(), 0);
}

#[test]
fn fill_white_twice_is_byte_identical() {
    let mut engine = engine_with(
        vec![ReadOutcome::Level(0), ReadOutcome::Level(0)],
        4096,
    );
    let params = DisplayUpdateControlParams::default();
    engine.fill(EpdColor::White, params).unwrap();
    let first_len = engine.spi().recorded().len();
    engine.fill(EpdColor::White, params).unwrap();
    let events = engine.spi().recorded();
    assert_eq!(events.len(), 2 * first_len);
    assert_eq!(events[..first_len], events[first_len..]);
}

#[test]
fn fill_black_streams_all_ones() {
    let mut engine = engine_with(vec![ReadOutcome::Level(0)], 4096);
    engine.fill(EpdColor::Black, DisplayUpdateControlParams::default()).unwrap();
    let events = engine.spi().recorded();
    // The write-RAM payload: 25 byte columns by 200 rows, chunked to the
    // 4096-byte transfer limit.
    let write_ram_at = events.iter().position(|e| *e == chunk(vec![0x24])).unwrap();
    assert_eq!(events[write_ram_at + 1], select(1));
    match (&events[write_ram_at + 2], &events[write_ram_at + 3]) {
        (
            RecordedSpiEvent::Chunk { bytes: first },
            RecordedSpiEvent::Chunk { bytes: second },
        ) => {
            assert_eq!(first.len(), 4096);
            assert_eq!(second.len(), 904);
            assert!(first.iter().all(|b| *b == 0xFF));
            assert!(second.iter().all(|b| *b == 0xFF));
        },
        other => panic!("expected two chunks, got {:?}", other),
    }
}

#[test]
fn busy_failure_on_the_third_read_aborts_a_draw() {
    let script = vec![
        ReadOutcome::Level(1),
        ReadOutcome::Level(1),
        ReadOutcome::Failure,
    ];
    let mut engine = engine_with(script, 4096);
    let rect = EightSizedRectangle::new(0, 0, 2, 2);
    let data = [0u8; 4];
    let before_len = engine.spi().recorded().len();
    assert_eq!(before_len, 0);
    let err = engine
        .draw(rect, &data, DisplayUpdateControlParams::default())
        .unwrap_err();
    assert!(matches!(err, EpdError::GpioError(_)));
    // All register writes happened before the wait; nothing after it.
    let mut expected = register_write(0x44, vec![0, 1]);
    expected.extend(register_write(0x45, vec![0, 0, 1, 0]));
    expected.extend(register_write(0x4E, vec![0]));
    expected.extend(register_write(0x4F, vec![0, 0]));
    expected.extend(register_write(0x24, data.to_vec()));
    expected.extend(register_write(0x22, vec![0xC7]));
    expected.extend(register_write(0x20, vec![]));
    expected.extend(register_write(0xFF, vec![]));
    assert_eq!(*engine.spi().recorded(), expected);
    assert_eq!(*engine.busy_pin().recorded(), vec![1, 1]);
    assert_eq!(*engine.delay_source().recorded(), vec![100, 100, 100]);
}

#[test]
fn failing_reset_pin_aborts_init_before_any_write() {
    let mut engine = EpdSpiWrapper::new(
        FakeOutputPin::new(),
        FakeOutputPin::failing_at(0),
        FakeInputPin::new(vec![]),
        FakeSpi::new(4096),
        FakeDelay::new(),
    );
    let err = engine.init().unwrap_err();
    assert!(matches!(err, EpdError::GpioError(_)));
    assert_eq!(engine.spi().recorded().len(), 0);
    assert_eq!(engine.reset_pin().recorded().len(), 0);
    assert_eq!(engine.chip_select_pin().recorded().len(), 0);
}

#[test]
fn failing_transfer_aborts_init_with_a_transport_error() {
    let mut engine = EpdSpiWrapper::new(
        FakeOutputPin::new(),
        FakeOutputPin::new(),
        FakeInputPin::new(vec![]),
        FakeSpi::failing_at(4096, 1),
        FakeDelay::new(),
    );
    let err = engine.init().unwrap_err();
    assert!(matches!(err, EpdError::SpiIoError(_)));
    // The pins were raised and reset pulsed before the first transfer.
    assert_eq!(*engine.reset_pin().recorded(), vec![1, 0, 1]);
    assert_eq!(*engine.spi().recorded(), vec![select(0)]);
}

#[test]
fn sleep_writes_the_mode_byte() {
    let mut engine = engine_with(vec![], 4096);
    engine.sleep(DeepSleep::EnterDeepSleep).unwrap();
    assert_eq!(*engine.spi().recorded(), register_write(0x10, vec![0x01]));
    let mut engine = engine_with(vec![], 4096);
    engine.sleep(DeepSleep::Normal).unwrap();
    assert_eq!(*engine.spi().recorded(), register_write(0x10, vec![0x00]));
}

#[test]
fn send_frames_the_command_then_the_payload() {
    let mut engine = engine_with(vec![], 4096);
    engine.send(Command::BorderWaveformControl, &[0x71]).unwrap();
    assert_eq!(*engine.spi().recorded(), register_write(0x3C, vec![0x71]));
}

#[test]
fn send_with_an_empty_payload_emits_only_the_command() {
    let mut engine = engine_with(vec![], 4096);
    engine.send(Command::SwReset, &[]).unwrap();
    assert_eq!(*engine.spi().recorded(), register_write(0x12, vec![]));
}

#[test]
fn send_command_emits_command_framing_alone() {
    let mut engine = engine_with(vec![], 4096);
    engine.send_command(Command::MasterActivation).unwrap();
    assert_eq!(*engine.spi().recorded(), vec![select(0), chunk(vec![0x20])]);
}
