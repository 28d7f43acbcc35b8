use epd_driver::{
    Command, DeepSleep, DisplayUpdateEnablingStep, DisplayUpdateTarget,
    DisplayUpdateDisablingStep, DisplayUpdateControlParams, Lut, DataEntryAddressDirection,
    DataEntryAddressCounterDirection, DataEntryMode, BorderWaveFormControlFollowSource,
    BorderWaveFormControlSelectGsOrFix, BorderWaveFormControlFixLevelSetting,
    BorderWaveFormControlGsTransitionSetting, EpdColor,
};

#[test]
fn command_codes_match_the_register_map() {
    assert_eq!(Command::DriverOutputControl.code(), 0x01);
    assert_eq!(Command::BoosterSoftStartControl.code(), 0x0C);
    assert_eq!(Command::GateScanStartPosition.code(), 0x0F);
    assert_eq!(Command::DeepSleepMode.code(), 0x10);
    assert_eq!(Command::DataEntryModeSetting.code(), 0x11);
    assert_eq!(Command::SwReset.code(), 0x12);
    assert_eq!(Command::TemperatureSensorControl.code(), 0x1A);
    assert_eq!(Command::MasterActivation.code(), 0x20);
    assert_eq!(Command::DisplayUpdateControl1.code(), 0x21);
    assert_eq!(Command::DisplayUpdateControl2.code(), 0x22);
    assert_eq!(Command::WriteRam.code(), 0x24);
    assert_eq!(Command::WriteVcomRegister.code(), 0x2C);
    assert_eq!(Command::WriteLutRegister.code(), 0x32);
    assert_eq!(Command::SetDummyLinePeriod.code(), 0x3A);
    assert_eq!(Command::SetGateTime.code(), 0x3B);
    assert_eq!(Command::BorderWaveformControl.code(), 0x3C);
    assert_eq!(Command::SetRamXAddressStartEndPosition.code(), 0x44);
    assert_eq!(Command::SetRamYAddressStartEndPosition.code(), 0x45);
    assert_eq!(Command::SetRamXAddressCounter.code(), 0x4E);
    assert_eq!(Command::SetRamYAddressCounter.code(), 0x4F);
    assert_eq!(Command::NOP.code(), 0xFF);
}

#[test]
fn deep_sleep_codes_and_default() {
    assert_eq!(DeepSleep::Normal.code(), 0x00);
    assert_eq!(DeepSleep::EnterDeepSleep.code(), 0x01);
    assert_eq!(DeepSleep::default().code(), 0x00);
}

#[test]
fn display_update_group_codes() {
    assert_eq!(DisplayUpdateEnablingStep::ClockSignal.code(), 0x80);
    assert_eq!(DisplayUpdateEnablingStep::ClockSignalThenCp.code(), 0xC0);
    assert_eq!(DisplayUpdateTarget::Initial.code(), 0x08);
    assert_eq!(DisplayUpdateTarget::Pattern.code(), 0x04);
    assert_eq!(DisplayUpdateTarget::Both.code(), 0x0C);
    assert_eq!(DisplayUpdateDisablingStep::CpThenClockSignal.code(), 0x03);
    assert_eq!(DisplayUpdateDisablingStep::ClockSignal.code(), 0x01);
}

#[test]
fn display_update_params_default_encodes_to_c7() {
    let params = DisplayUpdateControlParams::default();
    assert_eq!(params.enabling.code(), 0xC0);
    assert_eq!(params.target.code(), 0x04);
    assert_eq!(params.disabling.code(), 0x03);
    assert_eq!(params.code(), 0xC7);
}

#[test]
fn display_update_params_or_the_three_groups() {
    let params = DisplayUpdateControlParams {
        enabling: DisplayUpdateEnablingStep::ClockSignal,
        target: DisplayUpdateTarget::Both,
        disabling: DisplayUpdateDisablingStep::ClockSignal,
    };
    assert_eq!(params.code(), 0x80 | 0x0C | 0x01);
}

#[test]
fn lut_tables_hold_thirty_bytes() {
    let full = Lut::FullUpdate.table();
    let partial = Lut::PartialUpdate.table();
    assert_eq!(full.len(), 30);
    assert_eq!(partial.len(), 30);
    assert_eq!(full[0], 0x66);
    assert_eq!(full[6], 0x80);
    assert_eq!(full[20], 0xFF);
    assert_eq!(full[29], 0x00);
    assert_eq!(partial[0], 0x10);
    assert_eq!(partial[3], 0x28);
    assert_eq!(partial[20], 0x13);
    assert_eq!(partial[23], 0x63);
}

#[test]
fn data_entry_mode_default_is_y_inc_x_inc() {
    let mode = DataEntryMode::default();
    assert_eq!(mode.direction.code(), 0x03);
    assert_eq!(mode.counter.code(), 0x00);
    assert_eq!(mode.code(), 0x03);
}

#[test]
fn data_entry_direction_codes() {
    assert_eq!(DataEntryAddressDirection::YdecXdec.code(), 0x00);
    assert_eq!(DataEntryAddressDirection::YdecXinc.code(), 0x01);
    assert_eq!(DataEntryAddressDirection::YincXdec.code(), 0x02);
    assert_eq!(DataEntryAddressDirection::YincXinc.code(), 0x03);
    assert_eq!(DataEntryAddressCounterDirection::X.code(), 0x00);
    assert_eq!(DataEntryAddressCounterDirection::Y.code(), 0x04);
    assert_eq!(DataEntryAddressDirection::default().code(), 0x03);
    assert_eq!(DataEntryAddressCounterDirection::default().code(), 0x00);
}

#[test]
fn border_waveform_codes_and_defaults() {
    assert_eq!(BorderWaveFormControlFollowSource::AtInitialUpdateDisplay.code(), 0x00);
    assert_eq!(BorderWaveFormControlFollowSource::AtInitialUpdateDisplayForVbd.code(), 0x80);
    assert_eq!(BorderWaveFormControlSelectGsOrFix::GsTransition.code(), 0x00);
    assert_eq!(BorderWaveFormControlSelectGsOrFix::FixLevelSetting.code(), 0x40);
    assert_eq!(BorderWaveFormControlFixLevelSetting::Vss.code(), 0x00);
    assert_eq!(BorderWaveFormControlFixLevelSetting::Vsh.code(), 0x10);
    assert_eq!(BorderWaveFormControlFixLevelSetting::Vsl.code(), 0x20);
    assert_eq!(BorderWaveFormControlFixLevelSetting::Hiz.code(), 0x30);
    assert_eq!(BorderWaveFormControlGsTransitionSetting::Gs0Gs1.code(), 0x01);
    assert_eq!(BorderWaveFormControlGsTransitionSetting::Gs1Gs0.code(), 0x02);
    assert_eq!(BorderWaveFormControlFollowSource::default().code(), 0x00);
    assert_eq!(BorderWaveFormControlSelectGsOrFix::default().code(), 0x40);
    assert_eq!(BorderWaveFormControlFixLevelSetting::default().code(), 0x30);
    assert_eq!(BorderWaveFormControlGsTransitionSetting::default().code(), 0x01);
}

#[test]
fn color_conversion_and_fill_bytes() {
    assert_eq!(EpdColor::from(1u8), EpdColor::Black);
    assert_eq!(EpdColor::from(0u8), EpdColor::White);
    assert_eq!(EpdColor::from(7u8), EpdColor::White);
    assert_eq!(EpdColor::Black.fill_byte(), 0xFF);
    assert_eq!(EpdColor::White.fill_byte(), 0x00);
}
