use epd_driver::{FakeSpi, RawSpiAccessor, RecordedSpiEvent, EpdError};

fn select(level: u8) -> RecordedSpiEvent {
    RecordedSpiEvent::Select { level }
}

fn chunk(bytes: Vec<u8>) -> RecordedSpiEvent {
    RecordedSpiEvent::Chunk { bytes }
}

#[test]
fn send_command_emits_selector_low_then_one_byte() {
    let mut spi = FakeSpi::new(4096);
    spi.send_command(0x12).unwrap();
    assert_eq!(*spi.recorded(), vec![select(0), chunk(vec![0x12])]);
}

#[test]
fn send_data_of_nothing_emits_nothing() {
    let mut spi = FakeSpi::new(4096);
    spi.send_data(&[]).unwrap();
    assert_eq!(spi.recorded().len(), 0);
}

#[test]
fn send_data_below_the_limit_is_one_transfer() {
    let mut spi = FakeSpi::new(4096);
    spi.send_data(&[1, 2, 3]).unwrap();
    assert_eq!(*spi.recorded(), vec![select(1), chunk(vec![1, 2, 3])]);
}

#[test]
fn ten_thousand_bytes_chunk_into_4096_4096_1808() {
    let mut spi = FakeSpi::new(4096);
    let payload: Vec<u8> = (0..10_000u32).map(|i| (i % 251) as u8).collect();
    spi.send_data(&payload).unwrap();
    let events = spi.recorded();
    assert_eq!(events.len(), 4);
    assert_eq!(events[0], select(1));
    let sizes: Vec<usize> = events[1..]
        .iter()
        .map(|e| match e {
            RecordedSpiEvent::Chunk { bytes } => bytes.len(),
            RecordedSpiEvent::Select { .. } => panic!("selector raised more than once"),
        })
        .collect();
    assert_eq!(sizes, vec![4096, 4096, 1808]);
    let mut rejoined: Vec<u8> = Vec::new();
    for e in &events[1..] {
        if let RecordedSpiEvent::Chunk { bytes } = e {
            rejoined.extend_from_slice(bytes);
        }
    }
    assert_eq!(rejoined, payload);
}

#[test]
fn exact_limit_is_a_single_transfer() {
    let mut spi = FakeSpi::new(8);
    spi.send_data(&[0u8; 8]).unwrap();
    assert_eq!(*spi.recorded(), vec![select(1), chunk(vec![0u8; 8])]);
}

#[test]
fn one_over_the_limit_splits_in_two() {
    let mut spi = FakeSpi::new(8);
    spi.send_data(&[7u8; 9]).unwrap();
    assert_eq!(
        *spi.recorded(),
        vec![select(1), chunk(vec![7u8; 8]), chunk(vec![7u8])]
    );
}

#[test]
fn max_transfer_size_reports_the_limit() {
    let spi = FakeSpi::new(512);
    assert_eq!(spi.max_transfer_size(), 512);
}

#[test]
fn failing_selector_reports_a_gpio_error() {
    let mut spi = FakeSpi::failing_at(4096, 0);
    let err = spi.send_command(0x12).unwrap_err();
    assert!(matches!(err, EpdError::GpioError(_)));
    assert_eq!(spi.recorded().len(), 0);
}

#[test]
fn failing_transfer_reports_a_transport_error() {
    let mut spi = FakeSpi::failing_at(4096, 1);
    let err = spi.send_command(0x12).unwrap_err();
    assert!(matches!(err, EpdError::SpiIoError(_)));
    assert_eq!(*spi.recorded(), vec![select(0)]);
}
