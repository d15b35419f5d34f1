//! What the sensor hub sends back, and how it is laid out in a cargo.
//!
//! Each kind of cargo is described twice: as the values that the driver hands
//! to its caller, and as the spec functions that say which value a given
//! buffer holds and on which buffers the driver can read it at all.

use vstd::prelude::*;
use crate::codec::{
    le_bytes16, le_bytes32, lemma_le16_roundtrip, lemma_le16_signed_roundtrip,
    lemma_le32_roundtrip, lemma_le32_signed_roundtrip, signed32, u16_le, u32_le,
};
use crate::imu::interface::{
    header_of, i16_at, lemma_quaternion_decode, lemma_report_id_code_roundtrip, quaternion_bytes,
    quaternion_of, Channel, Quaternion, ReportID,
};

verus! {

/// Bytes of a command response on the control channel.
pub const COMMAND_RESPONSE_REPORT_SIZE: usize = 16;

/// Bytes of a base timestamp report.
pub const BASE_TIMESTAMP_REPORT_SIZE: usize = 5;

/// Bytes of a get-feature response.
pub const GET_FEATURE_REPORT_SIZE: usize = 17;

/// Bytes of a rotation vector report.
pub const ROTATION_VECTOR_REPORT_SIZE: usize = 14;

/// The commands that arrive on the SHTP command channel.
#[derive(Clone, Copy, Debug, PartialEq, Eq, Structural)]
pub enum SHTPCommandID {
    Advertisement,
    ErrorList,
    Undefined,
}

impl SHTPCommandID {
    /// The command number on the wire.
    pub open spec fn code(self) -> u8 {
        match self {
            SHTPCommandID::Advertisement => 0,
            SHTPCommandID::ErrorList => 1,
            SHTPCommandID::Undefined => 0xFF,
        }
    }

    /// The command that a command number names.
    pub open spec fn from_code(command_id: u8) -> SHTPCommandID {
        if command_id == 0 {
            SHTPCommandID::Advertisement
        } else if command_id == 1 {
            SHTPCommandID::ErrorList
        } else {
            SHTPCommandID::Undefined
        }
    }

    /// The command that a command number names.
    pub fn from_u8(command_id: u8) -> (c: Self)
        ensures
            c == SHTPCommandID::from_code(command_id),
    {
        match command_id {
            0 => SHTPCommandID::Advertisement,
            1 => SHTPCommandID::ErrorList,
            _ => SHTPCommandID::Undefined,
        }
    }
}

/// The tags of the entries of an advertisement.
#[derive(Clone, Copy, Debug, PartialEq, Eq, Structural)]
pub enum SHTPTag {
    Reserved,
    GUID,
    MaxCargoPlusHeaderWrite,
    MaxCargoPlusHeaderRead,
    MaxTransferWrite,
    MaxTransferRead,
    NormalChannel,
    WakeChannel,
    AppName,
    ChannelName,
    Version,
    ReportLengths,
    Undefined,
}

impl SHTPTag {
    /// The tag number on the wire.
    pub open spec fn code(self) -> u8 {
        match self {
            SHTPTag::Reserved => 0,
            SHTPTag::GUID => 1,
            SHTPTag::MaxCargoPlusHeaderWrite => 2,
            SHTPTag::MaxCargoPlusHeaderRead => 3,
            SHTPTag::MaxTransferWrite => 4,
            SHTPTag::MaxTransferRead => 5,
            SHTPTag::NormalChannel => 6,
            SHTPTag::WakeChannel => 7,
            SHTPTag::AppName => 8,
            SHTPTag::ChannelName => 9,
            SHTPTag::Version => 0x80,
            SHTPTag::ReportLengths => 0x81,
            SHTPTag::Undefined => 0xFF,
        }
    }

    /// The tag that a tag number names.
    pub open spec fn from_code(i: u8) -> SHTPTag {
        if i == 0 {
            SHTPTag::Reserved
        } else if i == 1 {
            SHTPTag::GUID
        } else if i == 2 {
            SHTPTag::MaxCargoPlusHeaderWrite
        } else if i == 3 {
            SHTPTag::MaxCargoPlusHeaderRead
        } else if i == 4 {
            SHTPTag::MaxTransferWrite
        } else if i == 5 {
            SHTPTag::MaxTransferRead
        } else if i == 6 {
            SHTPTag::NormalChannel
        } else if i == 7 {
            SHTPTag::WakeChannel
        } else if i == 8 {
            SHTPTag::AppName
        } else if i == 9 {
            SHTPTag::ChannelName
        } else if i == 0x80 {
            SHTPTag::Version
        } else if i == 0x81 {
            SHTPTag::ReportLengths
        } else {
            SHTPTag::Undefined
        }
    }

    /// The tag that a tag number names.
    pub fn from_u8(i: u8) -> (t: Self)
        ensures
            t == SHTPTag::from_code(i),
    {
        match i {
            0 => SHTPTag::Reserved,
            1 => SHTPTag::GUID,
            2 => SHTPTag::MaxCargoPlusHeaderWrite,
            3 => SHTPTag::MaxCargoPlusHeaderRead,
            4 => SHTPTag::MaxTransferWrite,
            5 => SHTPTag::MaxTransferRead,
            6 => SHTPTag::NormalChannel,
            7 => SHTPTag::WakeChannel,
            8 => SHTPTag::AppName,
            9 => SHTPTag::ChannelName,
            0x80 => SHTPTag::Version,
            0x81 => SHTPTag::ReportLengths,
            _ => SHTPTag::Undefined,
        }
    }
}

/// The commands that a command response on the control channel answers.
#[derive(Clone, Copy, Debug, PartialEq, Eq, Structural)]
pub enum ControlCommandID {
    Initialization,
    InitializationUnsolicited,
    Undefined,
}

impl ControlCommandID {
    /// The command number on the wire.
    pub open spec fn code(self) -> u8 {
        match self {
            ControlCommandID::Initialization => 0x4,
            ControlCommandID::InitializationUnsolicited => 0x84,
            ControlCommandID::Undefined => 0xFF,
        }
    }

    /// The command that a command number names.
    pub open spec fn from_code(id: u8) -> ControlCommandID {
        if id == 0x4 {
            ControlCommandID::Initialization
        } else if id == 0x84 {
            ControlCommandID::InitializationUnsolicited
        } else {
            ControlCommandID::Undefined
        }
    }

    /// The command that a command number names.
    pub fn from_u8(id: u8) -> (c: Self)
        ensures
            c == ControlCommandID::from_code(id),
    {
        match id {
            0x4 => ControlCommandID::Initialization,
            0x84 => ControlCommandID::InitializationUnsolicited,
            _ => ControlCommandID::Undefined,
        }
    }
}

/// The value of an advertisement entry, read as its tag says.
#[derive(Debug)]
pub enum AdvertisementValue {
    /// The GUID, a little-endian 32-bit number.
    Guid(u32),
    /// A size limit, a little-endian 16-bit number.
    Size(u16),
    /// A channel number.
    ChannelNumber(u8),
    /// A name or a version, as UTF-8 bytes.
    Text(Vec<u8>),
    /// Pairs of a report identifier and the length of that report.
    ReportLengths(Vec<(u8, u8)>),
    /// The length of a value that the driver does not read.
    Length(u8),
}

/// What an [`AdvertisementValue`] holds.
pub enum AdvertisementValueView {
    Guid(u32),
    Size(u16),
    ChannelNumber(u8),
    Text(Seq<u8>),
    ReportLengths(Seq<(u8, u8)>),
    Length(u8),
}

impl View for AdvertisementValue {
    type V = AdvertisementValueView;

    open spec fn view(&self) -> AdvertisementValueView {
        match self {
            AdvertisementValue::Guid(v) => AdvertisementValueView::Guid(*v),
            AdvertisementValue::Size(v) => AdvertisementValueView::Size(*v),
            AdvertisementValue::ChannelNumber(v) => AdvertisementValueView::ChannelNumber(*v),
            AdvertisementValue::Text(v) => AdvertisementValueView::Text(v@),
            AdvertisementValue::ReportLengths(v) => AdvertisementValueView::ReportLengths(v@),
            AdvertisementValue::Length(v) => AdvertisementValueView::Length(*v),
        }
    }
}

/// One entry of an advertisement.
#[derive(Debug)]
pub struct AdvertisementEntry {
    pub tag: SHTPTag,
    pub value: AdvertisementValue,
}

impl View for AdvertisementEntry {
    type V = (SHTPTag, AdvertisementValueView);

    open spec fn view(&self) -> (SHTPTag, AdvertisementValueView) {
        (self.tag, self.value@)
    }
}

/// What the entries of an advertisement hold.
pub open spec fn entries_view(v: Seq<AdvertisementEntry>) -> Seq<(SHTPTag, AdvertisementValueView)> {
    v.map_values(|e: AdvertisementEntry| e@)
}

/// A cargo on the SHTP command channel.
#[derive(Debug)]
pub enum ShtpCommandResponse {
    /// The advertisement that the hub sends after a reset.
    Advertisement(Vec<AdvertisementEntry>),
    /// The error codes that the hub lists.
    ErrorList(Vec<u8>),
    /// A command that the driver does not know, with its number.
    Undefined(u8),
}

/// What a [`ShtpCommandResponse`] holds.
pub enum ShtpCommandResponseView {
    Advertisement(Seq<(SHTPTag, AdvertisementValueView)>),
    ErrorList(Seq<u8>),
    Undefined(u8),
}

impl View for ShtpCommandResponse {
    type V = ShtpCommandResponseView;

    open spec fn view(&self) -> ShtpCommandResponseView {
        match self {
            ShtpCommandResponse::Advertisement(v) => ShtpCommandResponseView::Advertisement(
                entries_view(v@),
            ),
            ShtpCommandResponse::ErrorList(v) => ShtpCommandResponseView::ErrorList(v@),
            ShtpCommandResponse::Undefined(c) => ShtpCommandResponseView::Undefined(*c),
        }
    }
}

/// A report on the control channel.
#[derive(Debug)]
pub enum ControlReport {
    /// The answer to a command.
    CommandResponse {
        seq_num: u8,
        /// Whether the hub sent it on its own, not as an answer.
        autonomous: bool,
        command: ControlCommandID,
        command_seq_num: u8,
        response_seq_num: u8,
        vals: Vec<u8>,
    },
    /// The configuration of a sensor.
    GetFeature {
        feature_report_id: ReportID,
        feature_flags: u8,
        change_sensitivity: u16,
        report_interval: u32,
        batch_interval: u32,
        misc_config: u32,
    },
    /// A report that the driver does not read, with its identifier; the
    /// driver reads nothing after it.
    Unsupported(u8),
}

/// What a [`ControlReport`] holds.
pub enum ControlReportView {
    CommandResponse {
        seq_num: u8,
        autonomous: bool,
        command: ControlCommandID,
        command_seq_num: u8,
        response_seq_num: u8,
        vals: Seq<u8>,
    },
    GetFeature {
        feature_report_id: ReportID,
        feature_flags: u8,
        change_sensitivity: u16,
        report_interval: u32,
        batch_interval: u32,
        misc_config: u32,
    },
    Unsupported(u8),
}

impl View for ControlReport {
    type V = ControlReportView;

    open spec fn view(&self) -> ControlReportView {
        match self {
            ControlReport::CommandResponse {
                seq_num,
                autonomous,
                command,
                command_seq_num,
                response_seq_num,
                vals,
            } => ControlReportView::CommandResponse {
                seq_num: *seq_num,
                autonomous: *autonomous,
                command: *command,
                command_seq_num: *command_seq_num,
                response_seq_num: *response_seq_num,
                vals: vals@,
            },
            ControlReport::GetFeature {
                feature_report_id,
                feature_flags,
                change_sensitivity,
                report_interval,
                batch_interval,
                misc_config,
            } => ControlReportView::GetFeature {
                feature_report_id: *feature_report_id,
                feature_flags: *feature_flags,
                change_sensitivity: *change_sensitivity,
                report_interval: *report_interval,
                batch_interval: *batch_interval,
                misc_config: *misc_config,
            },
            ControlReport::Unsupported(id) => ControlReportView::Unsupported(*id),
        }
    }
}

/// What a list of control reports holds.
pub open spec fn control_view(v: Seq<ControlReport>) -> Seq<ControlReportView> {
    v.map_values(|r: ControlReport| r@)
}

/// A report on the normal input channel.
#[derive(Clone, Copy, Debug, PartialEq, Eq, Structural)]
pub enum InputReport {
    /// The rotation of the sensor, with its accuracy estimate (a signed
    /// fixed-point number with 12 fractional bits, in radians).
    RotationVector { seq_num: u8, status: u8, delay: u8, rotation: Quaternion, accuracy: i16 },
    /// The base of the timestamps of a batch, in units of 100 microseconds.
    BaseTimestamp { base_delta: i32 },
    /// A report that the driver does not read, with its identifier; the
    /// driver reads nothing after it.
    Unsupported(u8),
}

/// A cargo as the driver reads it.
#[derive(Debug)]
pub enum ShtpResponse {
    /// A cargo on the SHTP command channel.
    Command(ShtpCommandResponse),
    /// A cargo on the device channel; the hub answers 1 once it has reset.
    Device { response: u8, reset_complete: bool },
    /// The reports of a cargo on the control channel.
    Control(Vec<ControlReport>),
    /// The reports of a cargo on the normal input channel.
    Input(Vec<InputReport>),
    /// A cargo on a channel that the driver does not read.
    Unsupported(Channel),
}

/// What a [`ShtpResponse`] holds.
pub enum ShtpResponseView {
    Command(ShtpCommandResponseView),
    Device { response: u8, reset_complete: bool },
    Control(Seq<ControlReportView>),
    Input(Seq<InputReport>),
    Unsupported(Channel),
}

impl View for ShtpResponse {
    type V = ShtpResponseView;

    open spec fn view(&self) -> ShtpResponseView {
        match self {
            ShtpResponse::Command(c) => ShtpResponseView::Command(c@),
            ShtpResponse::Device { response, reset_complete } => ShtpResponseView::Device {
                response: *response,
                reset_complete: *reset_complete,
            },
            ShtpResponse::Control(v) => ShtpResponseView::Control(control_view(v@)),
            ShtpResponse::Input(v) => ShtpResponseView::Input(v@),
            ShtpResponse::Unsupported(c) => ShtpResponseView::Unsupported(*c),
        }
    }
}

/// How far a walk from position `i` is from the end `len` of a cargo.
pub open spec fn remaining(len: int, i: int) -> int {
    if i < len {
        len - i
    } else {
        0
    }
}

/// The value of an entry with tag `tag` whose `n` value bytes start at `b[s]`.
pub open spec fn advertisement_value(tag: SHTPTag, b: Seq<u8>, s: int, n: u8) -> AdvertisementValueView {
    match tag {
        SHTPTag::GUID => AdvertisementValueView::Guid(
            u32_le(b[s], b[s + 1], b[s + 2], b[s + 3]) as u32,
        ),
        SHTPTag::MaxCargoPlusHeaderWrite | SHTPTag::MaxCargoPlusHeaderRead
        | SHTPTag::MaxTransferWrite | SHTPTag::MaxTransferRead => AdvertisementValueView::Size(
            u16_le(b[s], b[s + 1]) as u16,
        ),
        SHTPTag::NormalChannel | SHTPTag::WakeChannel => AdvertisementValueView::ChannelNumber(b[s]),
        SHTPTag::AppName | SHTPTag::ChannelName | SHTPTag::Version => AdvertisementValueView::Text(
            b.subrange(s, s + n),
        ),
        SHTPTag::ReportLengths => AdvertisementValueView::ReportLengths(
            Seq::new(((n + 1) / 2) as nat, |k: int| (b[s + 2 * k], b[s + 2 * k + 1])),
        ),
        SHTPTag::Reserved | SHTPTag::Undefined => AdvertisementValueView::Length(n),
    }
}

/// Whether the value of an entry with tag `tag` whose `n` value bytes start
/// at `b[s]` can be read: a number must have exactly its width and lie in the
/// buffer, a text must lie in the buffer, and each pair of report lengths is
/// read whole (the last pair of an odd length reaches one byte past it).
pub open spec fn advertisement_value_readable(tag: SHTPTag, b: Seq<u8>, s: int, n: u8) -> bool {
    match tag {
        SHTPTag::GUID => n == 4 && s + 4 <= b.len(),
        SHTPTag::MaxCargoPlusHeaderWrite | SHTPTag::MaxCargoPlusHeaderRead
        | SHTPTag::MaxTransferWrite | SHTPTag::MaxTransferRead => n == 2 && s + 2 <= b.len(),
        SHTPTag::NormalChannel | SHTPTag::WakeChannel => n == 1 && s + 1 <= b.len(),
        SHTPTag::AppName | SHTPTag::ChannelName | SHTPTag::Version => s + n <= b.len(),
        SHTPTag::ReportLengths => n == 0 || s + 2 * ((n - 1) / 2) + 1 < b.len(),
        SHTPTag::Reserved | SHTPTag::Undefined => true,
    }
}

/// The entries of the advertisement in `b[i..len)`: each is a tag byte, a
/// length byte and that many value bytes.
pub open spec fn advertisement_from(b: Seq<u8>, len: int, i: int) -> Seq<
    (SHTPTag, AdvertisementValueView),
>
    decreases remaining(len, i),
{
    if i < len && i + 1 < b.len() {
        let tag = SHTPTag::from_code(b[i]);
        let n = b[i + 1];
        seq![(tag, advertisement_value(tag, b, i + 2, n))] + advertisement_from(b, len, i + 2 + n)
    } else {
        seq![]
    }
}

/// Whether every entry of the advertisement in `b[i..len)` can be read.
pub open spec fn advertisement_readable(b: Seq<u8>, len: int, i: int) -> bool
    decreases remaining(len, i),
{
    i < len ==> {
        &&& i + 1 < b.len()
        &&& advertisement_value_readable(SHTPTag::from_code(b[i]), b, i + 2, b[i + 1])
        &&& advertisement_readable(b, len, i + 2 + b[i + 1])
    }
}

/// The cargo on the SHTP command channel in `b[0..len)`; its command number
/// is `b[4]`.
pub open spec fn command_response_of(b: Seq<u8>, len: int) -> ShtpCommandResponseView {
    match SHTPCommandID::from_code(b[4]) {
        SHTPCommandID::Advertisement => ShtpCommandResponseView::Advertisement(
            advertisement_from(b, len, 5),
        ),
        SHTPCommandID::ErrorList => ShtpCommandResponseView::ErrorList(
            if len > 5 {
                b.subrange(5, len)
            } else {
                seq![]
            },
        ),
        SHTPCommandID::Undefined => ShtpCommandResponseView::Undefined(b[4]),
    }
}

/// Whether the cargo on the SHTP command channel in `b[0..len)` can be read.
pub open spec fn command_response_readable(b: Seq<u8>, len: int) -> bool {
    match SHTPCommandID::from_code(b[4]) {
        SHTPCommandID::Advertisement => advertisement_readable(b, len, 5),
        SHTPCommandID::ErrorList => len <= b.len(),
        SHTPCommandID::Undefined => true,
    }
}

/// The command response that starts at `b[i]`; its values run up to the
/// sixteenth byte of the buffer.
pub open spec fn command_report_of(b: Seq<u8>, i: int) -> ControlReportView {
    ControlReportView::CommandResponse {
        seq_num: b[i + 1],
        autonomous: b[i + 2] >= 0x80,
        command: ControlCommandID::from_code((b[i + 2] % 0x80) as u8),
        command_seq_num: b[i + 3],
        response_seq_num: b[i + 4],
        vals: b.subrange(i + 5, 16),
    }
}

/// The get-feature response that starts at `b[i]`; its numbers are
/// little-endian.
pub open spec fn get_feature_report_of(b: Seq<u8>, i: int) -> ControlReportView {
    ControlReportView::GetFeature {
        feature_report_id: ReportID::from_code(b[i + 1]),
        feature_flags: b[i + 2],
        change_sensitivity: u16_le(b[i + 3], b[i + 4]) as u16,
        report_interval: u32_le(b[i + 5], b[i + 6], b[i + 7], b[i + 8]) as u32,
        batch_interval: u32_le(b[i + 9], b[i + 10], b[i + 11], b[i + 12]) as u32,
        misc_config: u32_le(b[i + 13], b[i + 14], b[i + 15], b[i + 16]) as u32,
    }
}

/// The reports on the control channel in `b[i..len)`, up to and including
/// the first one that the driver does not read.
pub open spec fn control_reports_from(b: Seq<u8>, len: int, i: int) -> Seq<ControlReportView>
    decreases remaining(len, i),
{
    if i < len && i < b.len() {
        match ReportID::from_code(b[i]) {
            ReportID::CommandResponse => if i + 5 <= 16 && 16 <= b.len() {
                seq![command_report_of(b, i)] + control_reports_from(b, len, i + 16)
            } else {
                seq![]
            },
            ReportID::GetFeature => if i + 16 < b.len() {
                seq![get_feature_report_of(b, i)] + control_reports_from(b, len, i + 17)
            } else {
                seq![]
            },
            _ => seq![ControlReportView::Unsupported(b[i])],
        }
    } else {
        seq![]
    }
}

/// Whether every report on the control channel in `b[i..len)` can be read: a
/// command response takes its values from its own sixth byte up to the
/// sixteenth byte of the buffer, so it can only stand where that range is not
/// reversed.
pub open spec fn control_reports_readable(b: Seq<u8>, len: int, i: int) -> bool
    decreases remaining(len, i),
{
    i < len ==> {
        &&& i < b.len()
        &&& match ReportID::from_code(b[i]) {
            ReportID::CommandResponse => i + 5 <= 16 && 16 <= b.len()
                && control_reports_readable(b, len, i + 16),
            ReportID::GetFeature => i + 16 < b.len() && control_reports_readable(b, len, i + 17),
            _ => true,
        }
    }
}

/// The rotation vector report that starts at `b[i]`.
pub open spec fn rotation_report_of(b: Seq<u8>, i: int) -> InputReport {
    InputReport::RotationVector {
        seq_num: b[i + 1],
        status: b[i + 2],
        delay: b[i + 3],
        rotation: quaternion_of(b.subrange(i + 4, i + 12)),
        accuracy: i16_at(b, i + 12),
    }
}

/// The base timestamp report that starts at `b[i]`.
pub open spec fn timestamp_report_of(b: Seq<u8>, i: int) -> InputReport {
    InputReport::BaseTimestamp {
        base_delta: signed32(u32_le(b[i + 1], b[i + 2], b[i + 3], b[i + 4])) as i32,
    }
}

/// The reports on the normal input channel in `b[i..len)`, up to and
/// including the first one that the driver does not read.
pub open spec fn input_reports_from(b: Seq<u8>, len: int, i: int) -> Seq<InputReport>
    decreases remaining(len, i),
{
    if i < len && i < b.len() {
        match ReportID::from_code(b[i]) {
            ReportID::RotationVector => if i + 13 < b.len() {
                seq![rotation_report_of(b, i)] + input_reports_from(b, len, i + 14)
            } else {
                seq![]
            },
            ReportID::BaseTimestamp => if i + 4 < b.len() {
                seq![timestamp_report_of(b, i)] + input_reports_from(b, len, i + 5)
            } else {
                seq![]
            },
            _ => seq![InputReport::Unsupported(b[i])],
        }
    } else {
        seq![]
    }
}

/// Whether every report on the normal input channel in `b[i..len)` can be
/// read.
pub open spec fn input_reports_readable(b: Seq<u8>, len: int, i: int) -> bool
    decreases remaining(len, i),
{
    i < len ==> {
        &&& i < b.len()
        &&& match ReportID::from_code(b[i]) {
            ReportID::RotationVector => i + 13 < b.len() && input_reports_readable(b, len, i + 14),
            ReportID::BaseTimestamp => i + 4 < b.len() && input_reports_readable(b, len, i + 5),
            _ => true,
        }
    }
}

/// The rotation that `current` becomes after the reports `reports`: the one
/// of the last rotation vector report among them, if there is one.
pub open spec fn latest_rotation(reports: Seq<InputReport>, current: Quaternion) -> Quaternion
    decreases reports.len(),
{
    if reports.len() == 0 {
        current
    } else {
        match reports.last() {
            InputReport::RotationVector { rotation, .. } => rotation,
            _ => latest_rotation(reports.drop_last(), current),
        }
    }
}

/// The cargo in `b`, read as its header says.
pub open spec fn response_of(b: Seq<u8>) -> ShtpResponseView {
    let h = header_of(b);
    let len = h.cargo_len as int;
    match h.channel {
        Channel::SHTPCommand => ShtpResponseView::Command(command_response_of(b, len)),
        Channel::Device => ShtpResponseView::Device { response: b[4], reset_complete: b[4] == 1 },
        Channel::Control => ShtpResponseView::Control(control_reports_from(b, len, 4)),
        Channel::InputNormal => ShtpResponseView::Input(input_reports_from(b, len, 4)),
        _ => ShtpResponseView::Unsupported(h.channel),
    }
}

/// Whether the driver can read the cargo in `b` without reading past the
/// buffer or taking a value of the wrong width.
pub open spec fn response_readable(b: Seq<u8>) -> bool {
    let h = header_of(b);
    let len = h.cargo_len as int;
    match h.channel {
        Channel::SHTPCommand => command_response_readable(b, len),
        Channel::Control => control_reports_readable(b, len, 4),
        Channel::InputNormal => input_reports_readable(b, len, 4),
        _ => true,
    }
}

/// The driver reads nothing after a control report that it does not know:
/// among the reports of a cargo, such a report can only come last.
pub proof fn lemma_unsupported_control_report_is_last(b: Seq<u8>, len: int, i: int, k: int)
    requires
        0 <= k < control_reports_from(b, len, i).len() - 1,
    ensures
        !(control_reports_from(b, len, i)[k] is Unsupported),
    decreases remaining(len, i),
{
    if i < len && i < b.len() {
        match ReportID::from_code(b[i]) {
            ReportID::CommandResponse => {
                if k > 0 {
                    lemma_unsupported_control_report_is_last(b, len, i + 16, k - 1);
                }
            },
            ReportID::GetFeature => {
                if k > 0 {
                    lemma_unsupported_control_report_is_last(b, len, i + 17, k - 1);
                }
            },
            _ => {},
        }
    }
}

/// The driver reads nothing after an input report that it does not know:
/// among the reports of a cargo, such a report can only come last.
pub proof fn lemma_unsupported_input_report_is_last(b: Seq<u8>, len: int, i: int, k: int)
    requires
        0 <= k < input_reports_from(b, len, i).len() - 1,
    ensures
        !(input_reports_from(b, len, i)[k] is Unsupported),
    decreases remaining(len, i),
{
    if i < len && i < b.len() {
        match ReportID::from_code(b[i]) {
            ReportID::RotationVector => {
                if k > 0 {
                    lemma_unsupported_input_report_is_last(b, len, i + 14, k - 1);
                }
            },
            ReportID::BaseTimestamp => {
                if k > 0 {
                    lemma_unsupported_input_report_is_last(b, len, i + 5, k - 1);
                }
            },
            _ => {},
        }
    }
}

/// Every SHTP command, advertisement tag and control command survives the
/// trip through its number, and a number that names one of them survives the
/// trip back.
pub proof fn lemma_command_and_tag_codes(c: SHTPCommandID, t: SHTPTag, k: ControlCommandID, i: u8)
    ensures
        SHTPCommandID::from_code(c.code()) == c,
        SHTPTag::from_code(t.code()) == t,
        ControlCommandID::from_code(k.code()) == k,
        SHTPCommandID::from_code(i) != SHTPCommandID::Undefined ==> SHTPCommandID::from_code(
            i,
        ).code() == i,
        SHTPTag::from_code(i) != SHTPTag::Undefined ==> SHTPTag::from_code(i).code() == i,
        ControlCommandID::from_code(i) != ControlCommandID::Undefined ==> ControlCommandID::from_code(
            i,
        ).code() == i,
{
}

/// A report-lengths entry with `n` value bytes at `b[s]` gives one pair per
/// two value bytes, rounding up (an odd count takes one byte past the
/// value), and the `k`-th pair is the two bytes at `b[s + 2k]`.
pub proof fn lemma_report_lengths_pairs(b: Seq<u8>, s: int, n: u8)
    ensures
        match advertisement_value(SHTPTag::ReportLengths, b, s, n) {
            AdvertisementValueView::ReportLengths(p) => {
                &&& 2 * p.len() >= n
                &&& 2 * p.len() < n + 2
                &&& forall|k: int| 0 <= k < p.len() ==> #[trigger] p[k] == (b[s + 2 * k], b[s + 2 * k + 1])
            },
            _ => false,
        },
{
}

/// A report-lengths entry can be read exactly when its pairs lie in the
/// buffer: for an even length, when the value lies in the buffer; for an odd
/// one, when one more byte does.
pub proof fn lemma_report_lengths_readable(b: Seq<u8>, s: int, n: u8)
    requires
        0 <= s,
    ensures
        advertisement_value_readable(SHTPTag::ReportLengths, b, s, n) <==> (n == 0 || s + n + n % 2
            <= b.len()),
{
}

/// The numbers of an advertisement read back from their bytes: a GUID from
/// four little-endian bytes, a size limit from two, a channel number from
/// one; a text is its value bytes.
pub proof fn lemma_advertisement_numbers_decode(b: Seq<u8>, s: int, guid: u32, size: u16)
    requires
        0 <= s,
        s + 4 <= b.len(),
    ensures
        b.subrange(s, s + 4) == le_bytes32(guid as int) ==> advertisement_value(
            SHTPTag::GUID,
            b,
            s,
            4,
        ) == AdvertisementValueView::Guid(guid),
        b.subrange(s, s + 2) == le_bytes16(size as int) ==> advertisement_value(
            SHTPTag::MaxTransferRead,
            b,
            s,
            2,
        ) == AdvertisementValueView::Size(size) && advertisement_value(
            SHTPTag::MaxCargoPlusHeaderWrite,
            b,
            s,
            2,
        ) == AdvertisementValueView::Size(size),
        advertisement_value(SHTPTag::WakeChannel, b, s, 1) == AdvertisementValueView::ChannelNumber(
            b[s],
        ),
        advertisement_value(SHTPTag::Version, b, s, 4) == AdvertisementValueView::Text(
            b.subrange(s, s + 4),
        ),
{
    if b.subrange(s, s + 4) == le_bytes32(guid as int) {
        lemma_le32_roundtrip(guid as int);
        assert(b[s] == b.subrange(s, s + 4)[0] && b[s + 1] == b.subrange(s, s + 4)[1]);
        assert(b[s + 2] == b.subrange(s, s + 4)[2] && b[s + 3] == b.subrange(s, s + 4)[3]);
    }
    if b.subrange(s, s + 2) == le_bytes16(size as int) {
        lemma_le16_roundtrip(size as int);
        assert(b[s] == b.subrange(s, s + 2)[0] && b[s + 1] == b.subrange(s, s + 2)[1]);
    }
}

/// Every get-feature response reads back from its bytes: after the report
/// identifier come the feature's identifier, the flags, the change
/// sensitivity, then the report interval, the batch interval and the
/// configuration word, all little-endian.
pub proof fn lemma_get_feature_report_decode(
    b: Seq<u8>,
    i: int,
    feature_report_id: ReportID,
    feature_flags: u8,
    change_sensitivity: u16,
    report_interval: u32,
    batch_interval: u32,
    misc_config: u32,
)
    requires
        0 <= i,
        i + 17 <= b.len(),
        b.subrange(i + 1, i + 17) == seq![feature_report_id.code(), feature_flags] + le_bytes16(
            change_sensitivity as int,
        ) + le_bytes32(report_interval as int) + le_bytes32(batch_interval as int) + le_bytes32(
            misc_config as int,
        ),
    ensures
        get_feature_report_of(b, i) == (ControlReportView::GetFeature {
            feature_report_id,
            feature_flags,
            change_sensitivity,
            report_interval,
            batch_interval,
            misc_config,
        }),
{
    let w = b.subrange(i + 1, i + 17);
    assert forall|k: int| 0 <= k < 16 implies b[i + 1 + k] == #[trigger] w[k] by {}
    let s16 = le_bytes16(change_sensitivity as int);
    let ri = le_bytes32(report_interval as int);
    let bi = le_bytes32(batch_interval as int);
    let mc = le_bytes32(misc_config as int);
    assert(w =~= seq![
        feature_report_id.code(),
        feature_flags,
        s16[0],
        s16[1],
        ri[0],
        ri[1],
        ri[2],
        ri[3],
        bi[0],
        bi[1],
        bi[2],
        bi[3],
        mc[0],
        mc[1],
        mc[2],
        mc[3],
    ]);
    assert(b[i + 1] == w[0] && b[i + 2] == w[1] && b[i + 3] == w[2] && b[i + 4] == w[3]);
    assert(b[i + 5] == w[4] && b[i + 6] == w[5] && b[i + 7] == w[6] && b[i + 8] == w[7]);
    assert(b[i + 9] == w[8] && b[i + 10] == w[9] && b[i + 11] == w[10] && b[i + 12] == w[11]);
    assert(b[i + 13] == w[12] && b[i + 14] == w[13] && b[i + 15] == w[14] && b[i + 16] == w[15]);
    lemma_report_id_code_roundtrip(feature_report_id, 0);
    lemma_le16_roundtrip(change_sensitivity as int);
    lemma_le32_roundtrip(report_interval as int);
    lemma_le32_roundtrip(batch_interval as int);
    lemma_le32_roundtrip(misc_config as int);
}

/// Every command response reads back from its bytes: the byte after the
/// sequence number holds the command, with its top bit set when the hub sent
/// the response on its own.
pub proof fn lemma_command_report_decode(
    b: Seq<u8>,
    i: int,
    seq_num: u8,
    autonomous: bool,
    command: ControlCommandID,
    command_seq_num: u8,
    response_seq_num: u8,
)
    requires
        0 <= i,
        i + 5 <= 16 <= b.len(),
        command.code() < 0x80,
        b[i + 1] == seq_num,
        b[i + 2] == (if autonomous {
            0x80int
        } else {
            0int
        }) + command.code(),
        b[i + 3] == command_seq_num,
        b[i + 4] == response_seq_num,
    ensures
        command_report_of(b, i) == (ControlReportView::CommandResponse {
            seq_num,
            autonomous,
            command,
            command_seq_num,
            response_seq_num,
            vals: b.subrange(i + 5, 16),
        }),
{
    lemma_command_and_tag_codes(SHTPCommandID::Undefined, SHTPTag::Undefined, command, 0);
}

/// Every rotation vector report reads back from its bytes: after the report
/// identifier come the sequence number, the status and the delay, then the
/// quaternion and the accuracy estimate, each component little-endian in
/// two's complement.
pub proof fn lemma_rotation_report_decode(
    b: Seq<u8>,
    i: int,
    seq_num: u8,
    status: u8,
    delay: u8,
    rotation: Quaternion,
    accuracy: i16,
)
    requires
        0 <= i,
        i + 14 <= b.len(),
        b.subrange(i + 1, i + 14) == seq![seq_num, status, delay] + quaternion_bytes(rotation)
            + le_bytes16(accuracy as int),
    ensures
        rotation_report_of(b, i) == (InputReport::RotationVector {
            seq_num,
            status,
            delay,
            rotation,
            accuracy,
        }),
{
    let w = b.subrange(i + 1, i + 14);
    let q = quaternion_bytes(rotation);
    let a = le_bytes16(accuracy as int);
    assert(q.len() == 8);
    assert(b.subrange(i + 4, i + 12) =~= q + Seq::<u8>::empty()) by {
        assert forall|k: int| 0 <= k < 8 implies b[i + 4 + k] == q[k] by {
            assert(b[i + 4 + k] == w[3 + k]);
        }
    }
    lemma_quaternion_decode(rotation, Seq::<u8>::empty());
    assert(b[i + 1] == w[0] && b[i + 2] == w[1] && b[i + 3] == w[2]);
    assert(b[i + 12] == w[11] && w[11] == a[0]);
    assert(b[i + 13] == w[12] && w[12] == a[1]);
    lemma_le16_signed_roundtrip(accuracy as int);
}

/// Every base timestamp report reads back from its bytes: after the report
/// identifier comes the base, little-endian in two's complement.
pub proof fn lemma_timestamp_report_decode(b: Seq<u8>, i: int, base_delta: i32)
    requires
        0 <= i,
        i + 5 <= b.len(),
        b.subrange(i + 1, i + 5) == le_bytes32(base_delta as int),
    ensures
        timestamp_report_of(b, i) == (InputReport::BaseTimestamp { base_delta }),
{
    let w = b.subrange(i + 1, i + 5);
    assert(b[i + 1] == w[0] && b[i + 2] == w[1] && b[i + 3] == w[2] && b[i + 4] == w[3]);
    lemma_le32_signed_roundtrip(base_delta as int);
}

/// What a cargo holds follows its channel number (the third header byte):
/// channel 0 carries SHTP commands, 1 device answers, 2 control reports and 3
/// normal input reports; no other channel is read. A device answer of 1 means
/// that the hub has reset.
pub proof fn lemma_response_kind(b: Seq<u8>)
    requires
        b.len() >= 5,
    ensures
        response_of(b) is Command <==> b[2] == 0,
        response_of(b) is Device <==> b[2] == 1,
        response_of(b) is Control <==> b[2] == 2,
        response_of(b) is Input <==> b[2] == 3,
        response_of(b) is Unsupported <==> b[2] > 3,
        response_of(b) matches ShtpResponseView::Device { response, reset_complete } ==> response
            == b[4] && (reset_complete <==> b[4] == 1),
{
}

/// An error list holds the bytes of the cargo after its command byte.
pub proof fn lemma_error_list_bytes(b: Seq<u8>, len: int)
    requires
        b.len() >= 5,
        b[4] == 1,
        5 <= len <= b.len(),
    ensures
        command_response_of(b, len) == ShtpCommandResponseView::ErrorList(b.subrange(5, len)),
{
    if len == 5 {
        assert(b.subrange(5, len) =~= Seq::<u8>::empty());
    }
}

/// An advertisement entry takes two bytes (tag and length) and then as many
/// value bytes as its length says; the next entry starts right after them.
pub proof fn lemma_advertisement_step(b: Seq<u8>, len: int, i: int)
    requires
        0 <= i < len,
        i + 1 < b.len(),
    ensures
        advertisement_from(b, len, i).len() >= 1,
        advertisement_from(b, len, i)[0].0 == SHTPTag::from_code(b[i]),
        advertisement_from(b, len, i).drop_first() == advertisement_from(b, len, i + 2 + b[i + 1]),
{
    assert(advertisement_from(b, len, i).drop_first() =~= advertisement_from(b, len, i + 2 + b[i + 1]));
}

/// On the control channel a command response (0xF1) takes 16 bytes and a
/// get-feature response (0xFC) takes 17, and the next report starts right
/// after; after any other report identifier nothing more is read.
pub proof fn lemma_control_step(b: Seq<u8>, len: int, i: int)
    requires
        0 <= i < len,
        i < b.len(),
        control_reports_readable(b, len, i),
    ensures
        b[i] == 0xF1 ==> control_reports_from(b, len, i) == seq![command_report_of(b, i)]
            + control_reports_from(b, len, i + 16),
        b[i] == 0xFC ==> control_reports_from(b, len, i) == seq![get_feature_report_of(b, i)]
            + control_reports_from(b, len, i + 17),
        b[i] != 0xF1 && b[i] != 0xFC ==> control_reports_from(b, len, i) == seq![
            ControlReportView::Unsupported(b[i]),
        ],
{
}

/// On the normal input channel a rotation vector report (0x05) takes 14
/// bytes and a base timestamp report (0xFB) takes 5, and the next report
/// starts right after; after any other report identifier nothing more is
/// read.
pub proof fn lemma_input_step(b: Seq<u8>, len: int, i: int)
    requires
        0 <= i < len,
        i < b.len(),
        input_reports_readable(b, len, i),
    ensures
        b[i] == 0x05 ==> input_reports_from(b, len, i) == seq![rotation_report_of(b, i)]
            + input_reports_from(b, len, i + 14),
        b[i] == 0xFB ==> input_reports_from(b, len, i) == seq![timestamp_report_of(b, i)]
            + input_reports_from(b, len, i + 5),
        b[i] != 0x05 && b[i] != 0xFB ==> input_reports_from(b, len, i) == seq![
            InputReport::Unsupported(b[i]),
        ],
{
}

/// The rotation after some reports is the one of the last rotation vector
/// report among them, and is left alone by reports of other kinds.
pub proof fn lemma_latest_rotation(reports: Seq<InputReport>, current: Quaternion, k: int)
    requires
        0 <= k < reports.len(),
        reports[k] is RotationVector,
        forall|j: int| k < j < reports.len() ==> !(#[trigger] reports[j] is RotationVector),
    ensures
        latest_rotation(reports, current) == reports[k]->rotation,
    decreases reports.len(),
{
    if k < reports.len() - 1 {
        assert(!(reports[reports.len() - 1] is RotationVector));
        let shorter = reports.drop_last();
        assert forall|j: int| k < j < shorter.len() implies !(#[trigger] shorter[j] is RotationVector) by {
            assert(shorter[j] == reports[j]);
        }
        lemma_latest_rotation(shorter, current, k);
    }
}

} // verus!
