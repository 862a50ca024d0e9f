//! Bit fields of the DualSense (PS5) controller's reports, and its calibration data.
use vstd::prelude::*;
use crate::input::{hat_index, BatteryState, HatSwitch};

verus! {

/// The signed 16-bit number that two little-endian bytes hold.
pub open spec fn le_i16(lo: u8, hi: u8) -> i16 {
    (lo + 256 * hi) as i16
}

/// Read a little-endian signed 16-bit number.
fn i16_from_le_bytes(lo: u8, hi: u8) -> (r: i16)
    ensures
        r == le_i16(lo, hi),
{
    let v: u16 = ((hi as u16) << 8) | (lo as u16);
    assert(v == lo + 256 * hi) by (bit_vector)
        requires
            v == ((hi as u16) << 8) | (lo as u16),
    ;
    v as i16
}

/// One touch point of the touchpad, as the input report holds it.
#[derive(Clone, Copy, Debug)]
pub struct RawTouchState {
    pub touch_and_id: u8,
    pub locs: [u8; 3],
}

impl RawTouchState {
    /// Is the touchpad touched here? The high bit is clear while it is.
    pub fn is_touched(&self) -> (r: bool)
        ensures
            r == (self.touch_and_id < 0x80),
    {
        let t = self.touch_and_id;
        let r = t & 0x80 == 0;
        assert(r == (t < 0x80)) by (bit_vector)
            requires
                r == (t & 0x80 == 0),
        ;
        r
    }

    /// The id of the touch: the low seven bits.
    pub fn id(&self) -> (r: u8)
        ensures
            r == self.touch_and_id % 0x80,
    {
        let t = self.touch_and_id;
        let r = t & 0x7F;
        assert(r == t % 0x80) by (bit_vector)
            requires
                r == t & 0x7F,
        ;
        r
    }
}

/// The calibration data of the gyroscope and the accelerometer, as the calibration feature
/// report holds it.
#[derive(Clone, Copy, Debug)]
pub struct RawCalibrationData {
    pub gyro_pitch_bias: i16,
    pub gyro_yaw_bias: i16,
    pub gyro_roll_bias: i16,
    pub gyro_pitch_plus: i16,
    pub gyro_pitch_minus: i16,
    pub gyro_yaw_plus: i16,
    pub gyro_yaw_minus: i16,
    pub gyro_roll_plus: i16,
    pub gyro_roll_minus: i16,
    pub gyro_speed_plus: i16,
    pub gyro_speed_min: i16,
    pub accel_x_plus: i16,
    pub accel_x_minus: i16,
    pub accel_y_plus: i16,
    pub accel_y_minus: i16,
    pub accel_z_plus: i16,
    pub accel_z_minus: i16,
}

/// The `k`-th little-endian number of a report, after its one-byte id.
pub open spec fn report_i16(raw: Seq<u8>, k: int) -> i16 {
    le_i16(raw[1 + 2 * k], raw[2 + 2 * k])
}

impl RawCalibrationData {
    /// Read the calibration data from the bytes of the calibration feature report: after the
    /// report id, seventeen little-endian numbers in field order.
    pub fn from_report(raw_data: &[u8]) -> (r: Self)
        requires
            raw_data@.len() >= 35,
        ensures
            r.gyro_pitch_bias == report_i16(raw_data@, 0),
            r.gyro_yaw_bias == report_i16(raw_data@, 1),
            r.gyro_roll_bias == report_i16(raw_data@, 2),
            r.gyro_pitch_plus == report_i16(raw_data@, 3),
            r.gyro_pitch_minus == report_i16(raw_data@, 4),
            r.gyro_yaw_plus == report_i16(raw_data@, 5),
            r.gyro_yaw_minus == report_i16(raw_data@, 6),
            r.gyro_roll_plus == report_i16(raw_data@, 7),
            r.gyro_roll_minus == report_i16(raw_data@, 8),
            r.gyro_speed_plus == report_i16(raw_data@, 9),
            r.gyro_speed_min == report_i16(raw_data@, 10),
            r.accel_x_plus == report_i16(raw_data@, 11),
            r.accel_x_minus == report_i16(raw_data@, 12),
            r.accel_y_plus == report_i16(raw_data@, 13),
            r.accel_y_minus == report_i16(raw_data@, 14),
            r.accel_z_plus == report_i16(raw_data@, 15),
            r.accel_z_minus == report_i16(raw_data@, 16),
    {
        RawCalibrationData {
            gyro_pitch_bias: i16_from_le_bytes(raw_data[1], raw_data[2]),
            gyro_yaw_bias: i16_from_le_bytes(raw_data[3], raw_data[4]),
            gyro_roll_bias: i16_from_le_bytes(raw_data[5], raw_data[6]),
            gyro_pitch_plus: i16_from_le_bytes(raw_data[7], raw_data[8]),
            gyro_pitch_minus: i16_from_le_bytes(raw_data[9], raw_data[10]),
            gyro_yaw_plus: i16_from_le_bytes(raw_data[11], raw_data[12]),
            gyro_yaw_minus: i16_from_le_bytes(raw_data[13], raw_data[14]),
            gyro_roll_plus: i16_from_le_bytes(raw_data[15], raw_data[16]),
            gyro_roll_minus: i16_from_le_bytes(raw_data[17], raw_data[18]),
            gyro_speed_plus: i16_from_le_bytes(raw_data[19], raw_data[20]),
            gyro_speed_min: i16_from_le_bytes(raw_data[21], raw_data[22]),
            accel_x_plus: i16_from_le_bytes(raw_data[23], raw_data[24]),
            accel_x_minus: i16_from_le_bytes(raw_data[25], raw_data[26]),
            accel_y_plus: i16_from_le_bytes(raw_data[27], raw_data[28]),
            accel_y_minus: i16_from_le_bytes(raw_data[29], raw_data[30]),
            accel_z_plus: i16_from_le_bytes(raw_data[31], raw_data[32]),
            accel_z_minus: i16_from_le_bytes(raw_data[33], raw_data[34]),
        }
    }
}

/// Which microphone is used.
#[derive(Clone, Copy, PartialEq, Eq, Debug, Structural)]
pub enum RawMicSelect {
    Auto,
    InternalOnly,
    ExternalOnly,
    Both,
}

/// The audio output routing.
#[derive(Clone, Copy, PartialEq, Eq, Debug, Structural)]
pub enum RawOutputPathSelect {
    LRX,
    LLX,
    LLR,
    XXR,
}

/// The audio input routing ("Asr" is likely automatic speech recognition).
#[derive(Clone, Copy, PartialEq, Eq, Debug, Structural)]
pub enum RawInputPathSelect {
    ChatAsr,
    ChatChat,
    AsrAsr,
}

/// The number of a microphone selection.
pub open spec fn mic_select_bits(m: RawMicSelect) -> u8 {
    match m {
        RawMicSelect::Auto => 0,
        RawMicSelect::InternalOnly => 1,
        RawMicSelect::ExternalOnly => 2,
        RawMicSelect::Both => 3,
    }
}

/// The number of an output routing.
pub open spec fn output_path_bits(p: RawOutputPathSelect) -> u8 {
    match p {
        RawOutputPathSelect::LRX => 0,
        RawOutputPathSelect::LLX => 1,
        RawOutputPathSelect::LLR => 2,
        RawOutputPathSelect::XXR => 3,
    }
}

/// The number of an input routing.
pub open spec fn input_path_bits(p: RawInputPathSelect) -> u8 {
    match p {
        RawInputPathSelect::ChatAsr => 0,
        RawInputPathSelect::ChatChat => 1,
        RawInputPathSelect::AsrAsr => 2,
    }
}

fn mic_select_to_bits(m: RawMicSelect) -> (r: u8)
    ensures
        r == mic_select_bits(m),
{
    match m {
        RawMicSelect::Auto => 0,
        RawMicSelect::InternalOnly => 1,
        RawMicSelect::ExternalOnly => 2,
        RawMicSelect::Both => 3,
    }
}

fn output_path_to_bits(p: RawOutputPathSelect) -> (r: u8)
    ensures
        r == output_path_bits(p),
{
    match p {
        RawOutputPathSelect::LRX => 0,
        RawOutputPathSelect::LLX => 1,
        RawOutputPathSelect::LLR => 2,
        RawOutputPathSelect::XXR => 3,
    }
}

/// The audio control byte of the output report.
#[derive(Clone, Copy, PartialEq, Eq, Debug, Structural, Default)]
pub struct RawAudioControl(pub u8);

impl RawAudioControl {
    /// The microphone selection: bits 0 and 1.
    pub fn mic_select(&self) -> (r: RawMicSelect)
        ensures
            mic_select_bits(r) == self.0 % 4,
    {
        let b = self.0;
        let v = b & 0x03;
        assert(v == b % 4) by (bit_vector)
            requires
                v == b & 0x03,
        ;
        match v {
            0 => RawMicSelect::Auto,
            1 => RawMicSelect::InternalOnly,
            2 => RawMicSelect::ExternalOnly,
            _ => RawMicSelect::Both,
        }
    }

    /// Set the microphone selection, keeping the other bits.
    pub fn set_mic_select(&mut self, val: RawMicSelect)
        ensures
            final(self).0 == (old(self).0 & 0xFC) | mic_select_bits(val),
    {
        let v = mic_select_to_bits(val);
        self.0 = (self.0 & 0xFC) | v;
    }

    /// Is echo cancelling on: bit 2?
    pub fn echo_cancel(&self) -> (r: bool)
        ensures
            r == (self.0 & 0x04 != 0),
    {
        self.0 & 0x04 != 0
    }

    /// Turn echo cancelling on or off, keeping the other bits.
    pub fn set_echo_select(&mut self, enabled: bool)
        ensures
            final(self).0 == (old(self).0 & 0xFB) | (if enabled { 0x04u8 } else { 0u8 }),
    {
        let bit: u8 = if enabled { 0x04 } else { 0 };
        self.0 = (self.0 & 0xFB) | bit;
    }

    /// Is noise cancelling on: bit 3?
    pub fn noise_cancel(&self) -> (r: bool)
        ensures
            r == (self.0 & 0x08 != 0),
    {
        self.0 & 0x08 != 0
    }

    /// Turn noise cancelling on or off, keeping the other bits.
    pub fn set_noise_cancel(&mut self, enabled: bool)
        ensures
            final(self).0 == (old(self).0 & 0xF7) | (if enabled { 0x08u8 } else { 0u8 }),
    {
        let bit: u8 = if enabled { 0x08 } else { 0 };
        self.0 = (self.0 & 0xF7) | bit;
    }

    /// The output routing: bits 4 and 5.
    pub fn output_path_select(&self) -> (r: RawOutputPathSelect)
        ensures
            output_path_bits(r) == (self.0 / 16) % 4,
    {
        let b = self.0;
        let v = (b >> 4) & 0x3;
        assert(v == (b / 16) % 4) by (bit_vector)
            requires
                v == (b >> 4) & 0x3,
        ;
        match v {
            0 => RawOutputPathSelect::LRX,
            1 => RawOutputPathSelect::LLX,
            2 => RawOutputPathSelect::LLR,
            _ => RawOutputPathSelect::XXR,
        }
    }

    /// Set the output routing.  The whole byte is replaced by the routing in bits 4 and 5:
    /// the other settings are cleared.
    pub fn set_output_path_select(&mut self, path_select: RawOutputPathSelect)
        ensures
            final(self).0 == output_path_bits(path_select) * 16,
    {
        let v = output_path_to_bits(path_select);
        self.0 = self.0 & 0xCF;
        self.0 = v << 4;
        assert(v << 4 == v * 16) by (bit_vector)
            requires
                v < 4,
        ;
    }

    /// The input routing: bits 6 and 7, which never hold the number 3 for a valid setting.
    pub fn input_path_select(&self) -> (r: RawInputPathSelect)
        requires
            self.0 / 64 != 3,
        ensures
            input_path_bits(r) == self.0 / 64,
    {
        let b = self.0;
        let v = (b >> 6) & 0x3;
        assert(v == b / 64) by (bit_vector)
            requires
                v == (b >> 6) & 0x3,
        ;
        match v {
            0 => RawInputPathSelect::ChatAsr,
            1 => RawInputPathSelect::ChatChat,
            _ => RawInputPathSelect::AsrAsr,
        }
    }

    /// Set the input routing from the number of an output routing.  The whole byte is
    /// replaced by that number in bits 6 and 7: the other settings are cleared.
    pub fn set_input_path_select(&mut self, path_select: RawOutputPathSelect)
        ensures
            final(self).0 == output_path_bits(path_select) * 64,
    {
        let v = output_path_to_bits(path_select);
        self.0 = self.0 & 0x3F;
        self.0 = v << 6;
        assert(v << 6 == v * 64) by (bit_vector)
            requires
                v < 4,
        ;
    }
}

/// The second audio control byte of the output report.
#[derive(Clone, Copy, PartialEq, Eq, Debug, Structural, Default)]
pub struct RawAudioControl2(pub u8);

impl RawAudioControl2 {
    /// The speaker pre-gain: bits 0 to 2.
    pub fn speaker_comp_pre_gain(&self) -> (r: u8)
        ensures
            r == self.0 % 8,
    {
        let b = self.0;
        let r = b & 0x07;
        assert(r == b % 8) by (bit_vector)
            requires
                r == b & 0x07,
        ;
        r
    }

    /// Set the speaker pre-gain to the low three bits of `gain`, keeping the other bits.
    pub fn set_speaker_comp_pre_gain(&mut self, gain: u8)
        ensures
            final(self).0 == (old(self).0 & 0xF8) | (gain & 0x07),
    {
        self.0 = (self.0 & 0xF8) | (gain & 0x07);
    }

    /// Is beamforming on: bit 3?
    pub fn beamforming_enabled(&self) -> (r: bool)
        ensures
            r == (self.0 & 0x08 != 0),
    {
        self.0 & 0x08 != 0
    }

    /// Turn beamforming on or off, keeping the other bits.
    pub fn set_beamforming_enabled(&mut self, enabled: bool)
        ensures
            final(self).0 == (old(self).0 & 0xF7) | (if enabled { 0x08u8 } else { 0u8 }),
    {
        let bit: u8 = if enabled { 0x08 } else { 0 };
        self.0 = (self.0 & 0xF7) | bit;
    }
}

/// Dualsense button
#[derive(Clone, Copy, PartialEq, Eq, Debug, Structural)]
pub enum DualsenseButton {
    Square,
    Cross,
    Circle,
    Triangle,
    L1,
    R1,
    L2,
    R2,
    Create,
    Options,
    L3,
    R3,
    PsButton,
    Touchpad,
    Mute,
    LeftFunc,
    RightFunc,
    LeftPaddle,
    RightPaddle,
}

/// The number of dualsense buttons.
pub const DUALSENSE_BUTTON_COUNT: usize = 19;

/// The index of a button, in declaration order.
pub open spec fn dualsense_button_index(b: DualsenseButton) -> u8 {
    match b {
        DualsenseButton::Square => 0,
        DualsenseButton::Cross => 1,
        DualsenseButton::Circle => 2,
        DualsenseButton::Triangle => 3,
        DualsenseButton::L1 => 4,
        DualsenseButton::R1 => 5,
        DualsenseButton::L2 => 6,
        DualsenseButton::R2 => 7,
        DualsenseButton::Create => 8,
        DualsenseButton::Options => 9,
        DualsenseButton::L3 => 10,
        DualsenseButton::R3 => 11,
        DualsenseButton::PsButton => 12,
        DualsenseButton::Touchpad => 13,
        DualsenseButton::Mute => 14,
        DualsenseButton::LeftFunc => 15,
        DualsenseButton::RightFunc => 16,
        DualsenseButton::LeftPaddle => 17,
        DualsenseButton::RightPaddle => 18,
    }
}

impl DualsenseButton {
    /// The index of the button, in declaration order.
    pub fn index(self) -> (r: usize)
        ensures
            r == dualsense_button_index(self),
    {
        match self {
            DualsenseButton::Square => 0,
            DualsenseButton::Cross => 1,
            DualsenseButton::Circle => 2,
            DualsenseButton::Triangle => 3,
            DualsenseButton::L1 => 4,
            DualsenseButton::R1 => 5,
            DualsenseButton::L2 => 6,
            DualsenseButton::R2 => 7,
            DualsenseButton::Create => 8,
            DualsenseButton::Options => 9,
            DualsenseButton::L3 => 10,
            DualsenseButton::R3 => 11,
            DualsenseButton::PsButton => 12,
            DualsenseButton::Touchpad => 13,
            DualsenseButton::Mute => 14,
            DualsenseButton::LeftFunc => 15,
            DualsenseButton::RightFunc => 16,
            DualsenseButton::LeftPaddle => 17,
            DualsenseButton::RightPaddle => 18,
        }
    }

    /// The button with the given index, if there is one.
    pub fn from_idx(idx: usize) -> (r: Option<DualsenseButton>)
        ensures
            r matches Some(b) ==> dualsense_button_index(b) == idx,
            r is None <==> idx >= DUALSENSE_BUTTON_COUNT,
    {
        match idx {
            0 => Some(DualsenseButton::Square),
            1 => Some(DualsenseButton::Cross),
            2 => Some(DualsenseButton::Circle),
            3 => Some(DualsenseButton::Triangle),
            4 => Some(DualsenseButton::L1),
            5 => Some(DualsenseButton::R1),
            6 => Some(DualsenseButton::L2),
            7 => Some(DualsenseButton::R2),
            8 => Some(DualsenseButton::Create),
            9 => Some(DualsenseButton::Options),
            10 => Some(DualsenseButton::L3),
            11 => Some(DualsenseButton::R3),
            12 => Some(DualsenseButton::PsButton),
            13 => Some(DualsenseButton::Touchpad),
            14 => Some(DualsenseButton::Mute),
            15 => Some(DualsenseButton::LeftFunc),
            16 => Some(DualsenseButton::RightFunc),
            17 => Some(DualsenseButton::LeftPaddle),
            18 => Some(DualsenseButton::RightPaddle),
            _ => None,
        }
    }
}

/// Is bit `k` of the three button bytes of an input report set?  They start at byte 8, the
/// least significant first.
pub open spec fn report_button_bit(raw: Seq<u8>, k: int) -> bool {
    (raw[8 + k / 8] >> ((k % 8) as u8)) & 1u8 == 1u8
}

/// The direction of the hat switch numbered `n` in an input report: clockwise from up,
/// with 8 for neutral.
pub open spec fn hat_from_report(n: u8) -> HatSwitch {
    match n {
        0 => HatSwitch::Up,
        1 => HatSwitch::UpRight,
        2 => HatSwitch::Right,
        3 => HatSwitch::DownRight,
        4 => HatSwitch::Down,
        5 => HatSwitch::DownLeft,
        6 => HatSwitch::Left,
        7 => HatSwitch::UpLeft,
        _ => HatSwitch::Neutral,
    }
}

/// A hat switch number of a report names the position with the index one higher, and 8
/// names neutral.
pub proof fn law_report_hat_follows_index(n: u8)
    requires
        n <= 8,
    ensures
        n < 8 ==> hat_index(hat_from_report(n)) == n + 1,
        n == 8 ==> hat_from_report(n) == HatSwitch::Neutral,
{
}

/// What an input report of the controller holds, in the report's own units.
pub struct DualsenseReport {
    /// Whether each button is pressed, by button index.
    pub pressed: Vec<bool>,
    /// The direction of the hat switch.
    pub dpad: HatSwitch,
    /// The left stick, x and y, 0 to 255.
    pub left_stick: (u8, u8),
    /// The right stick, x and y, 0 to 255.
    pub right_stick: (u8, u8),
    /// The left trigger, 0 to 255.
    pub left_trigger: u8,
    /// The right trigger, 0 to 255.
    pub right_trigger: u8,
    /// The gyroscope: pitch, yaw and roll.
    pub gyro: (i16, i16, i16),
    /// The accelerometer: x, y and z.
    pub accel: (i16, i16, i16),
    /// The battery byte: its state in the high nibble, its charge in the low one.
    pub battery: u8,
}

impl DualsenseReport {
    /// Read an input report of 64 bytes: after the report id the sticks and triggers, the
    /// buttons from bit 4 of byte 8 on behind the hat switch in its low four bits, the
    /// gyroscope and accelerometer from byte 16 on, and the battery at byte 53.
    pub fn from_input_report(report: &[u8]) -> (r: Self)
        requires
            report@.len() == 64,
            report@[8] & 0xFu8 <= 8,
        ensures
            r.pressed@.len() == DUALSENSE_BUTTON_COUNT,
            forall|i: int| 0 <= i < DUALSENSE_BUTTON_COUNT ==> r.pressed@[i] == report_button_bit(report@, 4 + i),
            r.dpad == hat_from_report(report@[8] & 0xFu8),
            r.left_stick == (report@[1], report@[2]),
            r.right_stick == (report@[3], report@[4]),
            r.left_trigger == report@[5],
            r.right_trigger == report@[6],
            r.gyro == (le_i16(report@[16], report@[17]), le_i16(report@[18], report@[19]), le_i16(report@[20], report@[21])),
            r.accel == (le_i16(report@[22], report@[23]), le_i16(report@[24], report@[25]), le_i16(report@[26], report@[27])),
            r.battery == report@[53],
    {
        let mut pressed: Vec<bool> = Vec::new();
        let mut i: usize = 0;
        while i < DUALSENSE_BUTTON_COUNT
            invariant
                i <= DUALSENSE_BUTTON_COUNT,
                report@.len() == 64,
                pressed@.len() == i,
                forall|j: int| 0 <= j < i ==> pressed@[j] == report_button_bit(report@, 4 + j),
            decreases DUALSENSE_BUTTON_COUNT - i,
        {
            let k: usize = 4 + i;
            let byte: u8 = report[8 + k / 8];
            let shift: u8 = (k % 8) as u8;
            pressed.push((byte >> shift) & 1u8 == 1u8);
            i = i + 1;
        }
        let hat: u8 = report[8] & 0xFu8;
        let dpad = match hat {
            0 => HatSwitch::Up,
            1 => HatSwitch::UpRight,
            2 => HatSwitch::Right,
            3 => HatSwitch::DownRight,
            4 => HatSwitch::Down,
            5 => HatSwitch::DownLeft,
            6 => HatSwitch::Left,
            7 => HatSwitch::UpLeft,
            _ => HatSwitch::Neutral,
        };
        DualsenseReport {
            pressed,
            dpad,
            left_stick: (report[1], report[2]),
            right_stick: (report[3], report[4]),
            left_trigger: report[5],
            right_trigger: report[6],
            gyro: (
                i16_from_le_bytes(report[16], report[17]),
                i16_from_le_bytes(report[18], report[19]),
                i16_from_le_bytes(report[20], report[21]),
            ),
            accel: (
                i16_from_le_bytes(report[22], report[23]),
                i16_from_le_bytes(report[24], report[25]),
                i16_from_le_bytes(report[26], report[27]),
            ),
            battery: report[53],
        }
    }
}

/// The battery state that the high nibble of the battery byte codes.
pub open spec fn battery_state_code(code: u8) -> Option<BatteryState> {
    match code {
        0x0 => Some(BatteryState::Discharging),
        0x1 => Some(BatteryState::Charging),
        0x2 => Some(BatteryState::Neutral),
        0xA => Some(BatteryState::AbnormalVoltage),
        0xB => Some(BatteryState::AbnomralTemperature),
        0xF => Some(BatteryState::Error),
        _ => None,
    }
}

/// The state of the battery from the battery byte of an input report: discharging,
/// charging, or full and neither, or an abnormal voltage or temperature, or an error.
pub fn battery_state(battery: u8) -> (r: BatteryState)
    requires
        battery_state_code(battery >> 4u8) is Some,
    ensures
        Some(r) == battery_state_code(battery >> 4u8),
{
    match battery >> 4u8 {
        0x0 => BatteryState::Discharging,
        0x1 => BatteryState::Charging,
        0x2 => BatteryState::Neutral,
        0xA => BatteryState::AbnormalVoltage,
        0xB => BatteryState::AbnomralTemperature,
        _ => BatteryState::Error,
    }
}

/// The mode of the mute button's light.
#[derive(Clone, Copy, PartialEq, Eq, Debug, Structural)]
pub enum RawMuteLight {
    Off,
    On,
    Breathing,
}

/// The byte a mute light mode is sent as.
pub open spec fn mute_light_byte(m: RawMuteLight) -> u8 {
    match m {
        RawMuteLight::Off => 0,
        RawMuteLight::On => 1,
        RawMuteLight::Breathing => 2,
    }
}

/// The brightness of the lights.
#[derive(Clone, Copy, PartialEq, Eq, Debug, Structural)]
pub enum LightBrightness {
    Bright,
    Dim,
    Mid,
}

/// The byte a light brightness is sent as.
pub open spec fn brightness_byte(b: LightBrightness) -> u8 {
    match b {
        LightBrightness::Bright => 0,
        LightBrightness::Dim => 1,
        LightBrightness::Mid => 2,
    }
}

/// The fade animation of the lights.
#[derive(Clone, Copy, PartialEq, Eq, Debug, Structural)]
pub enum LightFadeAnimation {
    Nothing,
    FadeIn,
    FadeOut,
}

/// The byte a fade animation is sent as.
pub open spec fn fade_byte(f: LightFadeAnimation) -> u8 {
    match f {
        LightFadeAnimation::Nothing => 0,
        LightFadeAnimation::FadeIn => 1,
        LightFadeAnimation::FadeOut => 2,
    }
}

/// The output flag: emulate rumble (at half strength).
pub const OUTPUT_ENABLE_RUMBLE_EMULATION: u16 = 0x0001;
/// The output flag: haptics off, rumble on.
pub const OUTPUT_DISABLE_AUDIO_HAPTICS: u16 = 0x0002;
/// The output flag: the right trigger's force feedback is set.
pub const OUTPUT_ALLOW_RIGHT_TRIGGER_FFB: u16 = 0x0004;
/// The output flag: the left trigger's force feedback is set.
pub const OUTPUT_ALLOW_LEFT_TRIGGER_FFB: u16 = 0x0008;
/// The output flag: the headphone volume is set.
pub const OUTPUT_ALLOW_HEADPHONE_VOLUME: u16 = 0x0010;
/// The output flag: the speaker volume is set.
pub const OUTPUT_ALLOW_SPEAKER_VOLUME: u16 = 0x0020;
/// The output flag: the microphone volume is set.
pub const OUTPUT_ALLOW_MIC_VOLUME: u16 = 0x0040;
/// The output flag: the audio control is set.
pub const OUTPUT_ALLOW_AUDIO_CONTROL: u16 = 0x0080;
/// The output flag: the mute light is set.
pub const OUTPUT_ALLOW_MUTE_LIGHT: u16 = 0x0100;
/// The output flag: the audio mute is set.
pub const OUTPUT_ALLOW_AUDIO_MUTE: u16 = 0x0200;
/// The output flag: the light bar's color is set.
pub const OUTPUT_ALLOW_LED_COLOR: u16 = 0x0400;
/// The output flag: release the lights from the wireless firmware's control.
pub const OUTPUT_RESET_LIGHTS: u16 = 0x0800;
/// The output flag: the player indicators are set.
pub const OUTPUT_ALLOW_PLAYER_INDICATORS: u16 = 0x1000;
/// The output flag: the haptic low pass filter is set.
pub const OUTPUT_ALLOW_HAPTIC_LOW_PASS_FILTER: u16 = 0x2000;
/// The output flag: the motor power level is set.
pub const OUTPUT_ALLOW_MOTOR_POWER_LEVEL: u16 = 0x4000;
/// The output flag: the second audio control is set.
pub const OUTPUT_ALLOW_AUDIO_CONTROL2: u16 = 0x8000;

/// The report id of the output report.
pub const OUTPUT_REPORT_ID: u8 = 2;

/// The player indicator lights for a player: the middle light for the first, then the
/// lights left and right of it, three, and four; none for other players.
pub open spec fn player_light_bits(player_id: u8) -> u8 {
    if player_id == 1 {
        0x04
    } else if player_id == 2 {
        0x0A
    } else if player_id == 3 {
        0x15
    } else if player_id == 4 {
        0x1B
    } else {
        0
    }
}

/// The player indicator lights for a player.
pub fn player_lights(player_id: u8) -> (r: u8)
    ensures
        r == player_light_bits(player_id),
{
    match player_id {
        1 => 0x04,
        2 => 0x0A,
        3 => 0x15,
        4 => 0x1B,
        _ => 0,
    }
}

/// The output report of the controller, field by field.
#[derive(Clone, Copy, Debug)]
pub struct RawOutputState {
    pub report_id: u8,
    pub flags: u16,
    /// Emulated right rumble
    pub rumble_right: u8,
    /// Emulated left rumble
    pub rumble_left: u8,
    /// Maximum of 0x1F
    pub volume_headphone: u8,
    /// Seems to be in range 0x3D-0x64
    pub volume_speaker: u8,
    /// Not linear, range [0-64], with 0 not muted.
    pub volume_mic: u8,
    pub audio_control: RawAudioControl,
    pub mute_light_mode: RawMuteLight,
    pub mute_control: u8,
    pub right_trigger_ffb: [u8; 11],
    pub left_trigger_ffb: [u8; 11],
    pub host_timestamp: u32,
    pub power_reduction: u8,
    pub audio_control2: RawAudioControl2,
    pub led_flags: u8,
    pub haptic_filter: u8,
    pub unknown: u8,
    pub light_fade_animation: LightFadeAnimation,
    pub light_brightness: LightBrightness,
    pub player_light: u8,
    pub led_red: u8,
    pub led_green: u8,
    pub led_blue: u8,
}

/// The 48 bytes of an output report: its fields in order, the numbers of more than one byte
/// least significant first.
pub open spec fn output_report_bytes(s: RawOutputState) -> Seq<u8> {
    seq![
        s.report_id,
        (s.flags % 256) as u8,
        (s.flags / 256) as u8,
        s.rumble_right,
        s.rumble_left,
        s.volume_headphone,
        s.volume_speaker,
        s.volume_mic,
        s.audio_control.0,
        mute_light_byte(s.mute_light_mode),
        s.mute_control,
    ] + s.right_trigger_ffb@ + s.left_trigger_ffb@ + seq![
        (s.host_timestamp % 0x100) as u8,
        ((s.host_timestamp / 0x100) % 0x100) as u8,
        ((s.host_timestamp / 0x10000) % 0x100) as u8,
        (s.host_timestamp / 0x1000000) as u8,
        s.power_reduction,
        s.audio_control2.0,
        s.led_flags,
        s.haptic_filter,
        s.unknown,
        fade_byte(s.light_fade_animation),
        brightness_byte(s.light_brightness),
        s.player_light,
        s.led_red,
        s.led_green,
        s.led_blue,
    ]
}

impl RawOutputState {
    /// An output report that sets nothing: its id, and every other field zero.
    pub fn new() -> (r: Self)
        ensures
            r.report_id == OUTPUT_REPORT_ID,
            r.flags == 0,
            r.rumble_right == 0 && r.rumble_left == 0,
            r.volume_headphone == 0 && r.volume_speaker == 0 && r.volume_mic == 0,
            r.audio_control.0 == 0 && r.mute_light_mode == RawMuteLight::Off && r.mute_control == 0,
            r.right_trigger_ffb@ == Seq::new(11, |i: int| 0u8),
            r.left_trigger_ffb@ == Seq::new(11, |i: int| 0u8),
            r.host_timestamp == 0 && r.power_reduction == 0 && r.audio_control2.0 == 0,
            r.led_flags == 0 && r.haptic_filter == 0 && r.unknown == 0,
            r.light_fade_animation == LightFadeAnimation::Nothing,
            r.light_brightness == LightBrightness::Bright,
            r.player_light == 0 && r.led_red == 0 && r.led_green == 0 && r.led_blue == 0,
    {
        let r = RawOutputState {
            report_id: OUTPUT_REPORT_ID,
            flags: 0,
            rumble_right: 0,
            rumble_left: 0,
            volume_headphone: 0,
            volume_speaker: 0,
            volume_mic: 0,
            audio_control: RawAudioControl(0),
            mute_light_mode: RawMuteLight::Off,
            mute_control: 0,
            right_trigger_ffb: [0u8; 11],
            left_trigger_ffb: [0u8; 11],
            host_timestamp: 0,
            power_reduction: 0,
            audio_control2: RawAudioControl2(0),
            led_flags: 0,
            haptic_filter: 0,
            unknown: 0,
            light_fade_animation: LightFadeAnimation::Nothing,
            light_brightness: LightBrightness::Bright,
            player_light: 0,
            led_red: 0,
            led_green: 0,
            led_blue: 0,
        };
        assert(r.right_trigger_ffb@ =~= Seq::new(11, |i: int| 0u8));
        assert(r.left_trigger_ffb@ =~= Seq::new(11, |i: int| 0u8));
        r
    }

    /// The bytes of the report, as they are sent to the controller.
    pub fn to_bytes(&self) -> (r: Vec<u8>)
        ensures
            r@ == output_report_bytes(*self),
            r@.len() == 48,
    {
        let flags = self.flags;
        let f_lo = (flags & 0xFF) as u8;
        let f_hi = (flags >> 8u16) as u8;
        assert(f_lo == flags % 256 && f_hi == flags / 256) by (bit_vector)
            requires
                f_lo == (flags & 0xFF) as u8,
                f_hi == (flags >> 8u16) as u8,
        ;
        let t = self.host_timestamp;
        let t0 = (t & 0xFF) as u8;
        let t1 = ((t >> 8u32) & 0xFF) as u8;
        let t2 = ((t >> 16u32) & 0xFF) as u8;
        let t3 = (t >> 24u32) as u8;
        assert(t0 == t % 0x100 && t1 == (t / 0x100) % 0x100 && t2 == (t / 0x10000) % 0x100 && t3 == t
            / 0x1000000) by (bit_vector)
            requires
                t0 == (t & 0xFF) as u8,
                t1 == ((t >> 8u32) & 0xFF) as u8,
                t2 == ((t >> 16u32) & 0xFF) as u8,
                t3 == (t >> 24u32) as u8,
        ;
        let mute: u8 = match self.mute_light_mode {
            RawMuteLight::Off => 0,
            RawMuteLight::On => 1,
            RawMuteLight::Breathing => 2,
        };
        let fade: u8 = match self.light_fade_animation {
            LightFadeAnimation::Nothing => 0,
            LightFadeAnimation::FadeIn => 1,
            LightFadeAnimation::FadeOut => 2,
        };
        let brightness: u8 = match self.light_brightness {
            LightBrightness::Bright => 0,
            LightBrightness::Dim => 1,
            LightBrightness::Mid => 2,
        };
        let mut v: Vec<u8> = Vec::new();
        v.push(self.report_id);
        v.push(f_lo);
        v.push(f_hi);
        v.push(self.rumble_right);
        v.push(self.rumble_left);
        v.push(self.volume_headphone);
        v.push(self.volume_speaker);
        v.push(self.volume_mic);
        v.push(self.audio_control.0);
        v.push(mute);
        v.push(self.mute_control);
        v.extend_from_slice(self.right_trigger_ffb.as_slice());
        v.extend_from_slice(self.left_trigger_ffb.as_slice());
        v.push(t0);
        v.push(t1);
        v.push(t2);
        v.push(t3);
        v.push(self.power_reduction);
        v.push(self.audio_control2.0);
        v.push(self.led_flags);
        v.push(self.haptic_filter);
        v.push(self.unknown);
        v.push(fade);
        v.push(brightness);
        v.push(self.player_light);
        v.push(self.led_red);
        v.push(self.led_green);
        v.push(self.led_blue);
        assert(v@ =~= output_report_bytes(*self));
        v
    }
}

} // verus!
