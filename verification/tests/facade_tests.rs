use epd_driver::{
    Epd, EpdSpiWrapper, FakeOutputPin, FakeInputPin, FakeSpi, FakeDelay, ReadOutcome,
    RecordedSpiEvent, EpdImage, EpdMonoColorImage, NormalRectangle, EightSizedRectangle,
    EpdColor, EpdError, DeepSleep,
};

type FakeEpd = Epd<FakeOutputPin, FakeOutputPin, FakeInputPin, FakeSpi, FakeDelay>;

fn epd_with(busy_script: Vec<ReadOutcome>) -> FakeEpd {
    Epd::new(EpdSpiWrapper::new(
        FakeOutputPin::new(),
        FakeOutputPin::new(),
        FakeInputPin::new(busy_script),
        FakeSpi::new(4096),
        FakeDelay::new(),
    ))
}

fn select(level: u8) -> RecordedSpiEvent {
    RecordedSpiEvent::Select { level }
}

fn chunk(bytes: Vec<u8>) -> RecordedSpiEvent {
    RecordedSpiEvent::Chunk { bytes }
}

#[test]
fn facade_init_starts_with_driver_output_control() {
    let mut epd = epd_with(vec![]);
    epd.init().unwrap();
    let events = epd.spi().spi().recorded();
    assert_eq!(
        events[..4],
        vec![select(0), chunk(vec![0x01]), select(1), chunk(vec![199, 0, 0])][..]
    );
}

#[test]
fn facade_fill_uses_the_default_update_params() {
    let mut epd = epd_with(vec![ReadOutcome::Level(0)]);
    epd.fill(EpdColor::White).unwrap();
    let events = epd.spi().spi().recorded();
    let control_at = events.iter().position(|e| *e == chunk(vec![0x22])).unwrap();
    assert_eq!(events[control_at + 1], select(1));
    assert_eq!(events[control_at + 2], chunk(vec![0xC7]));
}

#[test]
fn facade_clear_matches_fill_white() {
    let mut cleared = epd_with(vec![ReadOutcome::Level(0)]);
    cleared.clear().unwrap();
    let mut filled = epd_with(vec![ReadOutcome::Level(0)]);
    filled.fill(EpdColor::White).unwrap();
    assert_eq!(cleared.spi().spi().recorded(), filled.spi().spi().recorded());
}

#[test]
fn facade_draw_uploads_an_image() {
    let mut epd = epd_with(vec![ReadOutcome::Level(0)]);
    let rect = EightSizedRectangle::new(0, 0, 1, 2);
    let image = EpdMonoColorImage::new_with_eight(rect, vec![0xAA, 0x55]).unwrap();
    epd.draw(&image).unwrap();
    let events = epd.spi().spi().recorded();
    let ram_at = events.iter().position(|e| *e == chunk(vec![0x24])).unwrap();
    assert_eq!(events[ram_at + 1], select(1));
    assert_eq!(events[ram_at + 2], chunk(vec![0xAA, 0x55]));
}

#[test]
fn facade_sleep_enters_deep_sleep() {
    let mut epd = epd_with(vec![]);
    epd.sleep(DeepSleep::EnterDeepSleep).unwrap();
    assert_eq!(
        *epd.spi().spi().recorded(),
        vec![select(0), chunk(vec![0x10]), select(1), chunk(vec![0x01])]
    );
}

#[test]
fn image_for_fill_builds_solid_bytes() {
    let image =
        EpdMonoColorImage::data_for_fill(NormalRectangle::new(0, 0, 20, 3), EpdColor::Black)
            .unwrap();
    assert_eq!(image.rect(), EightSizedRectangle::new(0, 0, 3, 3));
    assert_eq!(image.as_vec(), &[0xFF; 9][..]);
    let white =
        EpdMonoColorImage::data_for_fill(NormalRectangle::new(0, 0, 20, 3), EpdColor::White)
            .unwrap();
    assert_eq!(white.as_vec(), &[0x00; 9][..]);
}

#[test]
fn image_with_packed_bytes_checks_the_length() {
    let rect = EightSizedRectangle::new(0, 0, 2, 2);
    let image = EpdMonoColorImage::new_with_eight(rect, vec![1, 2, 3, 4]).unwrap();
    assert_eq!(image.rect(), rect);
    assert_eq!(image.as_vec(), &[1, 2, 3, 4][..]);
    let err = EpdMonoColorImage::new_with_eight(rect, vec![1, 2, 3]).unwrap_err();
    match err {
        EpdError::DataTooLong(expected, actual) => {
            assert_eq!(expected, 4);
            assert_eq!(actual, 3);
        },
        other => panic!("expected DataTooLong, got {:?}", other),
    }
}

#[test]
fn facade_draw_of_an_empty_image_emits_nothing() {
    let mut epd = epd_with(vec![]);
    let rect = EightSizedRectangle::new(0, 0, 2, 0);
    let image = EpdMonoColorImage::new_with_eight(rect, vec![]).unwrap();
    epd.draw(&image).unwrap();
    assert_eq!(epd.spi().spi().recorded().len(), 0);
}
