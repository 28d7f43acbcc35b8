//! The controller's register map and the closed sets of one-byte register
//! arguments, straight from the panel datasheet and the vendor reference
//! firmware. None of these are extensible at runtime.

use vstd::prelude::*;

verus! {

/// One-byte register addresses of the panel controller.
#[derive(Copy, Clone, Debug)]
pub enum Command {
    DriverOutputControl,
    BoosterSoftStartControl,
    GateScanStartPosition,
    DeepSleepMode,
    DataEntryModeSetting,
    SwReset,
    TemperatureSensorControl,
    MasterActivation,
    DisplayUpdateControl1,
    DisplayUpdateControl2,
    WriteRam,
    WriteVcomRegister,
    WriteLutRegister,
    SetDummyLinePeriod,
    SetGateTime,
    BorderWaveformControl,
    SetRamXAddressStartEndPosition,
    SetRamYAddressStartEndPosition,
    SetRamXAddressCounter,
    SetRamYAddressCounter,
    /// Has no effect on the panel, but terminates frame write/read commands.
    NOP,
}

impl Command {
    /// The register address this command is written to.
    pub open spec fn code_spec(self) -> u8 {
        match self {
            Command::DriverOutputControl => 0x01,
            Command::BoosterSoftStartControl => 0x0C,
            Command::GateScanStartPosition => 0x0F,
            Command::DeepSleepMode => 0x10,
            Command::DataEntryModeSetting => 0x11,
            Command::SwReset => 0x12,
            Command::TemperatureSensorControl => 0x1A,
            Command::MasterActivation => 0x20,
            Command::DisplayUpdateControl1 => 0x21,
            Command::DisplayUpdateControl2 => 0x22,
            Command::WriteRam => 0x24,
            Command::WriteVcomRegister => 0x2C,
            Command::WriteLutRegister => 0x32,
            Command::SetDummyLinePeriod => 0x3A,
            Command::SetGateTime => 0x3B,
            Command::BorderWaveformControl => 0x3C,
            Command::SetRamXAddressStartEndPosition => 0x44,
            Command::SetRamYAddressStartEndPosition => 0x45,
            Command::SetRamXAddressCounter => 0x4E,
            Command::SetRamYAddressCounter => 0x4F,
            Command::NOP => 0xFF,
        }
    }

    #[verifier::when_used_as_spec(code_spec)]
    pub fn code(self) -> (r: u8)
        ensures
            r == self.code_spec(),
    {
        match self {
            Command::DriverOutputControl => 0x01,
            Command::BoosterSoftStartControl => 0x0C,
            Command::GateScanStartPosition => 0x0F,
            Command::DeepSleepMode => 0x10,
            Command::DataEntryModeSetting => 0x11,
            Command::SwReset => 0x12,
            Command::TemperatureSensorControl => 0x1A,
            Command::MasterActivation => 0x20,
            Command::DisplayUpdateControl1 => 0x21,
            Command::DisplayUpdateControl2 => 0x22,
            Command::WriteRam => 0x24,
            Command::WriteVcomRegister => 0x2C,
            Command::WriteLutRegister => 0x32,
            Command::SetDummyLinePeriod => 0x3A,
            Command::SetGateTime => 0x3B,
            Command::BorderWaveformControl => 0x3C,
            Command::SetRamXAddressStartEndPosition => 0x44,
            Command::SetRamYAddressStartEndPosition => 0x45,
            Command::SetRamXAddressCounter => 0x4E,
            Command::SetRamYAddressCounter => 0x4F,
            Command::NOP => 0xFF,
        }
    }
}

/// Argument of `DeepSleepMode`: whether to stay awake or enter deep sleep.
/// After entering deep sleep only a reset pulse restores the panel.
#[derive(Copy, Clone, Debug)]
pub enum DeepSleep {
    Normal,
    EnterDeepSleep,
}

impl DeepSleep {
    pub open spec fn code_spec(self) -> u8 {
        match self {
            DeepSleep::Normal => 0x00,
            DeepSleep::EnterDeepSleep => 0x01,
        }
    }

    #[verifier::when_used_as_spec(code_spec)]
    pub fn code(self) -> (r: u8)
        ensures
            r == self.code_spec(),
    {
        match self {
            DeepSleep::Normal => 0x00,
            DeepSleep::EnterDeepSleep => 0x01,
        }
    }
}

impl Default for DeepSleep {
    fn default() -> (r: Self)
        ensures
            r is Normal,
    {
        Self::Normal
    }
}

/// Clock/charge-pump enabling step run at the start of a display update.
#[derive(Copy, Clone, Debug)]
pub enum DisplayUpdateEnablingStep {
    ClockSignal,
    ClockSignalThenCp,
}

impl DisplayUpdateEnablingStep {
    pub open spec fn code_spec(self) -> u8 {
        match self {
            DisplayUpdateEnablingStep::ClockSignal => 0x80,
            DisplayUpdateEnablingStep::ClockSignalThenCp => 0xC0,
        }
    }

    #[verifier::when_used_as_spec(code_spec)]
    pub fn code(self) -> (r: u8)
        ensures
            r == self.code_spec(),
    {
        match self {
            DisplayUpdateEnablingStep::ClockSignal => 0x80,
            DisplayUpdateEnablingStep::ClockSignalThenCp => 0xC0,
        }
    }
}

impl Default for DisplayUpdateEnablingStep {
    fn default() -> (r: Self)
        ensures
            r is ClockSignalThenCp,
    {
        Self::ClockSignalThenCp
    }
}

/// Which internal buffer a display update targets.
#[derive(Copy, Clone, Debug)]
pub enum DisplayUpdateTarget {
    Initial,
    Pattern,
    Both,
}

impl DisplayUpdateTarget {
    pub open spec fn code_spec(self) -> u8 {
        match self {
            DisplayUpdateTarget::Initial => 0x08,
            DisplayUpdateTarget::Pattern => 0x04,
            DisplayUpdateTarget::Both => 0x0C,
        }
    }

    #[verifier::when_used_as_spec(code_spec)]
    pub fn code(self) -> (r: u8)
        ensures
            r == self.code_spec(),
    {
        match self {
            DisplayUpdateTarget::Initial => 0x08,
            DisplayUpdateTarget::Pattern => 0x04,
            DisplayUpdateTarget::Both => 0x0C,
        }
    }
}

impl Default for DisplayUpdateTarget {
    fn default() -> (r: Self)
        ensures
            r is Pattern,
    {
        Self::Pattern
    }
}

/// Clock/charge-pump disabling step run at the end of a display update.
#[derive(Copy, Clone, Debug)]
pub enum DisplayUpdateDisablingStep {
    CpThenClockSignal,
    ClockSignal,
}

impl DisplayUpdateDisablingStep {
    pub open spec fn code_spec(self) -> u8 {
        match self {
            DisplayUpdateDisablingStep::CpThenClockSignal => 0x03,
            DisplayUpdateDisablingStep::ClockSignal => 0x01,
        }
    }

    #[verifier::when_used_as_spec(code_spec)]
    pub fn code(self) -> (r: u8)
        ensures
            r == self.code_spec(),
    {
        match self {
            DisplayUpdateDisablingStep::CpThenClockSignal => 0x03,
            DisplayUpdateDisablingStep::ClockSignal => 0x01,
        }
    }
}

impl Default for DisplayUpdateDisablingStep {
    fn default() -> (r: Self)
        ensures
            r is CpThenClockSignal,
    {
        Self::CpThenClockSignal
    }
}

/// The three independently selectable bit groups that form the one-byte
/// argument of `DisplayUpdateControl2`. The groups occupy disjoint bits,
/// so the encoded byte is simply their sum.
#[derive(Copy, Clone, Debug)]
pub struct DisplayUpdateControlParams {
    pub enabling: DisplayUpdateEnablingStep,
    pub target: DisplayUpdateTarget,
    pub disabling: DisplayUpdateDisablingStep,
}

impl DisplayUpdateControlParams {
    pub open spec fn code_spec(self) -> u8 {
        (self.enabling.code_spec() + self.target.code_spec()
            + self.disabling.code_spec()) as u8
    }

    #[verifier::when_used_as_spec(code_spec)]
    pub fn code(self) -> (r: u8)
        ensures
            r == self.code_spec(),
    {
        self.enabling.code() + self.target.code() + self.disabling.code()
    }
}

impl Default for DisplayUpdateControlParams {
    /// The vendor reference firmware default: enable clock then charge pump,
    /// target the pattern buffer, disable charge pump then clock.
    fn default() -> (r: Self)
        ensures
            r.enabling is ClockSignalThenCp,
            r.target is Pattern,
            r.disabling is CpThenClockSignal,
            r.code_spec() == 0xC7,
    {
        Self {
            enabling: DisplayUpdateEnablingStep::ClockSignalThenCp,
            target: DisplayUpdateTarget::Pattern,
            disabling: DisplayUpdateDisablingStep::CpThenClockSignal,
        }
    }
}

/// The 30-byte waveform timing table loaded during initialization for a
/// full refresh.
pub open spec fn lut_full_update_spec() -> Seq<u8> {
    seq![
        0x66u8, 0x66, 0x44, 0x66, 0xAA, 0x11, 0x80, 0x08, 0x11, 0x18, 0x81, 0x18, 0x11, 0x88,
        0x11, 0x88, 0x11, 0x88, 0x00, 0x00, 0xFF, 0xFF, 0xFF, 0xFF, 0x5F, 0xAF, 0xFF, 0xFF,
        0x2F, 0x00,
    ]
}

/// The 30-byte waveform timing table for a partial refresh. Defined by the
/// datasheet but not wired into any higher-level policy: selection is left
/// to the caller.
pub open spec fn lut_partial_update_spec() -> Seq<u8> {
    seq![
        0x10u8, 0x18, 0x18, 0x28, 0x18, 0x18, 0x18, 0x18, 0x08, 0x00, 0x00, 0x00, 0x00, 0x00,
        0x00, 0x00, 0x00, 0x00, 0x00, 0x00, 0x13, 0x11, 0x22, 0x63, 0x11, 0x00, 0x00, 0x00,
        0x00, 0x00,
    ]
}

/// Which waveform lookup table a refresh uses.
#[derive(Copy, Clone, Debug)]
pub enum Lut {
    FullUpdate,
    PartialUpdate,
}

impl Lut {
    pub open spec fn table_spec(self) -> Seq<u8> {
        match self {
            Lut::FullUpdate => lut_full_update_spec(),
            Lut::PartialUpdate => lut_partial_update_spec(),
        }
    }

    /// The 30 bytes of the selected waveform table.
    pub fn table(self) -> (r: Vec<u8>)
        ensures
            r@ == self.table_spec(),
            r@.len() == 30,
    {
        let r: Vec<u8> = match self {
            Lut::FullUpdate => vec![
                0x66u8, 0x66, 0x44, 0x66, 0xAA, 0x11, 0x80, 0x08, 0x11, 0x18, 0x81, 0x18, 0x11,
                0x88, 0x11, 0x88, 0x11, 0x88, 0x00, 0x00, 0xFF, 0xFF, 0xFF, 0xFF, 0x5F, 0xAF,
                0xFF, 0xFF, 0x2F, 0x00,
            ],
            Lut::PartialUpdate => vec![
                0x10u8, 0x18, 0x18, 0x28, 0x18, 0x18, 0x18, 0x18, 0x08, 0x00, 0x00, 0x00, 0x00,
                0x00, 0x00, 0x00, 0x00, 0x00, 0x00, 0x00, 0x13, 0x11, 0x22, 0x63, 0x11, 0x00,
                0x00, 0x00, 0x00, 0x00,
            ],
        };
        assert(r@ =~= self.table_spec());
        r
    }
}

/// Address auto-increment direction the controller applies while streaming
/// pixel bytes into RAM.
#[derive(Copy, Clone, Debug)]
pub enum DataEntryAddressDirection {
    YdecXdec,
    YdecXinc,
    YincXdec,
    YincXinc,
}

impl DataEntryAddressDirection {
    pub open spec fn code_spec(self) -> u8 {
        match self {
            DataEntryAddressDirection::YdecXdec => 0x00,
            DataEntryAddressDirection::YdecXinc => 0x01,
            DataEntryAddressDirection::YincXdec => 0x02,
            DataEntryAddressDirection::YincXinc => 0x03,
        }
    }

    #[verifier::when_used_as_spec(code_spec)]
    pub fn code(self) -> (r: u8)
        ensures
            r == self.code_spec(),
    {
        match self {
            DataEntryAddressDirection::YdecXdec => 0x00,
            DataEntryAddressDirection::YdecXinc => 0x01,
            DataEntryAddressDirection::YincXdec => 0x02,
            DataEntryAddressDirection::YincXinc => 0x03,
        }
    }
}

impl Default for DataEntryAddressDirection {
    fn default() -> (r: Self)
        ensures
            r is YincXinc,
    {
        Self::YincXinc
    }
}

/// Which address counter advances first while streaming.
#[derive(Copy, Clone, Debug)]
pub enum DataEntryAddressCounterDirection {
    X,
    Y,
}

impl DataEntryAddressCounterDirection {
    pub open spec fn code_spec(self) -> u8 {
        match self {
            DataEntryAddressCounterDirection::X => 0x00,
            DataEntryAddressCounterDirection::Y => 0x04,
        }
    }

    #[verifier::when_used_as_spec(code_spec)]
    pub fn code(self) -> (r: u8)
        ensures
            r == self.code_spec(),
    {
        match self {
            DataEntryAddressCounterDirection::X => 0x00,
            DataEntryAddressCounterDirection::Y => 0x04,
        }
    }
}

impl Default for DataEntryAddressCounterDirection {
    fn default() -> (r: Self)
        ensures
            r is X,
    {
        Self::X
    }
}

/// The one-byte argument of `DataEntryModeSetting`: an address direction
/// and a counter direction, in disjoint bit groups.
#[derive(Copy, Clone, Debug)]
pub struct DataEntryMode {
    pub direction: DataEntryAddressDirection,
    pub counter: DataEntryAddressCounterDirection,
}

impl DataEntryMode {
    pub open spec fn code_spec(self) -> u8 {
        (self.direction.code_spec() + self.counter.code_spec()) as u8
    }

    #[verifier::when_used_as_spec(code_spec)]
    pub fn code(self) -> (r: u8)
        ensures
            r == self.code_spec(),
    {
        self.direction.code() + self.counter.code()
    }
}

impl Default for DataEntryMode {
    /// Y-increment/X-increment with the X counter advancing first: the
    /// controller's power-on-reset default, still set explicitly during
    /// initialization for determinism.
    fn default() -> (r: Self)
        ensures
            r.direction is YincXinc,
            r.counter is X,
            r.code_spec() == 0x03,
    {
        Self {
            direction: DataEntryAddressDirection::YincXinc,
            counter: DataEntryAddressCounterDirection::X,
        }
    }
}

/// Border waveform: which update stage the border follows.
#[derive(Copy, Clone, Debug)]
pub enum BorderWaveFormControlFollowSource {
    AtInitialUpdateDisplay,
    AtInitialUpdateDisplayForVbd,
}

impl BorderWaveFormControlFollowSource {
    pub open spec fn code_spec(self) -> u8 {
        match self {
            BorderWaveFormControlFollowSource::AtInitialUpdateDisplay => 0x00,
            BorderWaveFormControlFollowSource::AtInitialUpdateDisplayForVbd => 0x80,
        }
    }

    #[verifier::when_used_as_spec(code_spec)]
    pub fn code(self) -> (r: u8)
        ensures
            r == self.code_spec(),
    {
        match self {
            BorderWaveFormControlFollowSource::AtInitialUpdateDisplay => 0x00,
            BorderWaveFormControlFollowSource::AtInitialUpdateDisplayForVbd => 0x80,
        }
    }
}

impl Default for BorderWaveFormControlFollowSource {
    fn default() -> (r: Self)
        ensures
            r is AtInitialUpdateDisplay,
    {
        Self::AtInitialUpdateDisplay
    }
}

/// Border waveform: fixed level or grey-scale transition.
#[derive(Copy, Clone, Debug)]
pub enum BorderWaveFormControlSelectGsOrFix {
    GsTransition,
    FixLevelSetting,
}

impl BorderWaveFormControlSelectGsOrFix {
    pub open spec fn code_spec(self) -> u8 {
        match self {
            BorderWaveFormControlSelectGsOrFix::GsTransition => 0x00,
            BorderWaveFormControlSelectGsOrFix::FixLevelSetting => 0x40,
        }
    }

    #[verifier::when_used_as_spec(code_spec)]
    pub fn code(self) -> (r: u8)
        ensures
            r == self.code_spec(),
    {
        match self {
            BorderWaveFormControlSelectGsOrFix::GsTransition => 0x00,
            BorderWaveFormControlSelectGsOrFix::FixLevelSetting => 0x40,
        }
    }
}

impl Default for BorderWaveFormControlSelectGsOrFix {
    fn default() -> (r: Self)
        ensures
            r is FixLevelSetting,
    {
        Self::FixLevelSetting
    }
}

/// Border waveform: the fixed voltage level.
#[derive(Copy, Clone, Debug)]
pub enum BorderWaveFormControlFixLevelSetting {
    Vss,
    Vsh,
    Vsl,
    Hiz,
}

impl BorderWaveFormControlFixLevelSetting {
    pub open spec fn code_spec(self) -> u8 {
        match self {
            BorderWaveFormControlFixLevelSetting::Vss => 0x00,
            BorderWaveFormControlFixLevelSetting::Vsh => 0x10,
            BorderWaveFormControlFixLevelSetting::Vsl => 0x20,
            BorderWaveFormControlFixLevelSetting::Hiz => 0x30,
        }
    }

    #[verifier::when_used_as_spec(code_spec)]
    pub fn code(self) -> (r: u8)
        ensures
            r == self.code_spec(),
    {
        match self {
            BorderWaveFormControlFixLevelSetting::Vss => 0x00,
            BorderWaveFormControlFixLevelSetting::Vsh => 0x10,
            BorderWaveFormControlFixLevelSetting::Vsl => 0x20,
            BorderWaveFormControlFixLevelSetting::Hiz => 0x30,
        }
    }
}

impl Default for BorderWaveFormControlFixLevelSetting {
    fn default() -> (r: Self)
        ensures
            r is Hiz,
    {
        Self::Hiz
    }
}

/// Border waveform: the grey-scale transition.
#[derive(Copy, Clone, Debug)]
pub enum BorderWaveFormControlGsTransitionSetting {
    Gs0Gs1,
    Gs1Gs0,
}

impl BorderWaveFormControlGsTransitionSetting {
    pub open spec fn code_spec(self) -> u8 {
        match self {
            BorderWaveFormControlGsTransitionSetting::Gs0Gs1 => 0x01,
            BorderWaveFormControlGsTransitionSetting::Gs1Gs0 => 0x02,
        }
    }

    #[verifier::when_used_as_spec(code_spec)]
    pub fn code(self) -> (r: u8)
        ensures
            r == self.code_spec(),
    {
        match self {
            BorderWaveFormControlGsTransitionSetting::Gs0Gs1 => 0x01,
            BorderWaveFormControlGsTransitionSetting::Gs1Gs0 => 0x02,
        }
    }
}

impl Default for BorderWaveFormControlGsTransitionSetting {
    fn default() -> (r: Self)
        ensures
            r is Gs0Gs1,
    {
        Self::Gs0Gs1
    }
}


/// The two panel colors. In packed pixel buffers Black is bit value 1 and
/// White bit value 0 — the controller's convention.
#[derive(Eq, PartialEq, Copy, Clone, Debug, Structural)]
pub enum EpdColor {
    Black,
    White,
}

impl EpdColor {
    /// The bit a pixel of this color packs to.
    pub open spec fn bit_spec(self) -> u8 {
        if self is Black {
            1
        } else {
            0
        }
    }

    /// The byte value that fills a buffer with this color alone: eight
    /// black bits are 0xFF, eight white bits 0x00.
    pub open spec fn fill_byte_spec(self) -> u8 {
        if self is Black {
            0xFF
        } else {
            0x00
        }
    }

    #[verifier::when_used_as_spec(fill_byte_spec)]
    pub fn fill_byte(self) -> (r: u8)
        ensures
            r == self.fill_byte_spec(),
    {
        match self {
            EpdColor::Black => 0xFF,
            EpdColor::White => 0x00,
        }
    }
}

impl vstd::std_specs::convert::FromSpecImpl<u8> for EpdColor {
    open spec fn obeys_from_spec() -> bool {
        true
    }

    open spec fn from_spec(n: u8) -> Self {
        if n == 1 {
            EpdColor::Black
        } else {
            EpdColor::White
        }
    }
}

impl From<u8> for EpdColor {
    /// One maps to Black, every other value to White.
    fn from(n: u8) -> (r: Self) {
        match n {
            1 => Self::Black,
            _ => Self::White,
        }
    }
}

} // verus!
