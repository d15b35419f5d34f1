//! SHTP framing and the report layouts that the host and the sensor hub share.

use vstd::prelude::*;
use crate::codec::{
    be_bytes32, le_bytes16, le_bytes32, lemma_be32_roundtrip, lemma_le16_roundtrip,
    lemma_le16_signed_roundtrip, lemma_le32_roundtrip, read_i16_le, read_u16_le, signed16, u16_le,
    u16_to_le_bytes, u32_le, u32_to_be_bytes, u32_to_le_bytes,
};

verus! {

/// Bytes in the SHTP header that precedes every cargo.
pub const CARGO_HEADER_SIZE: usize = 4;

/// Bytes of the header that hold the cargo length.
pub const CARGO_LEN_FIELD_SIZE: usize = 2;

/// The bits of the length field that hold the cargo length; the top bit
/// marks a continued transfer.
pub const CARGO_LENGTH_MASK: u16 = 0x7FFF;

/// Position of the channel number in the header.
pub const CARGO_CHANNEL_INDEX: usize = 2;

/// Position of the sequence number in the header.
pub const CARGO_SEQ_NUM_INDEX: usize = 3;

/// Bytes of a set-feature command.
pub const SET_FEATURE_REPORT_SIZE: usize = 17;

/// A rotation, as the sensor hub reports it: four signed fixed-point numbers
/// with 14 fractional bits.
#[derive(Clone, Copy, Debug, PartialEq, Eq, Structural)]
pub struct Quaternion {
    pub i: i16,
    pub j: i16,
    pub k: i16,
    pub r: i16,
}

impl Default for Quaternion {
    fn default() -> (q: Self)
        ensures
            q == (Quaternion { i: 0, j: 0, k: 0, r: 0 }),
    {
        Quaternion { i: 0, j: 0, k: 0, r: 0 }
    }
}

/// The signed 16-bit number stored least significant byte first at `s[at]`.
pub open spec fn i16_at(s: Seq<u8>, at: int) -> i16 {
    signed16(u16_le(s[at], s[at + 1])) as i16
}

/// The quaternion stored in the first eight bytes of `s`, components `i`,
/// `j`, `k`, `r` in that order, each little-endian.
pub open spec fn quaternion_of(s: Seq<u8>) -> Quaternion {
    Quaternion { i: i16_at(s, 0), j: i16_at(s, 2), k: i16_at(s, 4), r: i16_at(s, 6) }
}

impl Quaternion {
    /// Reads a quaternion from the first eight bytes of `byte_arr`.
    pub fn from_byte_array(byte_arr: &[u8]) -> (q: Self)
        requires
            byte_arr@.len() >= 8,
        ensures
            q == quaternion_of(byte_arr@),
    {
        Quaternion {
            i: read_i16_le(byte_arr[0], byte_arr[1]),
            j: read_i16_le(byte_arr[2], byte_arr[3]),
            k: read_i16_le(byte_arr[4], byte_arr[5]),
            r: read_i16_le(byte_arr[6], byte_arr[7]),
        }
    }
}

/// The SHTP channels of the sensor hub.
#[derive(Clone, Copy, Debug, PartialEq, Eq, Structural)]
pub enum Channel {
    SHTPCommand,
    Device,
    Control,
    InputNormal,
    InputWake,
    InputGyroRv,
    Undefined,
}

impl Default for Channel {
    fn default() -> (c: Self)
        ensures
            c == Channel::Undefined,
    {
        Channel::Undefined
    }
}

impl Channel {
    /// The channel number on the wire.
    pub open spec fn code(self) -> u8 {
        match self {
            Channel::SHTPCommand => 0,
            Channel::Device => 1,
            Channel::Control => 2,
            Channel::InputNormal => 3,
            Channel::InputWake => 4,
            Channel::InputGyroRv => 5,
            Channel::Undefined => 255,
        }
    }

    /// The channel that a channel number names; unknown numbers name `Undefined`.
    pub open spec fn from_code(channel_id: u8) -> Channel {
        if channel_id == 0 {
            Channel::SHTPCommand
        } else if channel_id == 1 {
            Channel::Device
        } else if channel_id == 2 {
            Channel::Control
        } else if channel_id == 3 {
            Channel::InputNormal
        } else if channel_id == 4 {
            Channel::InputWake
        } else if channel_id == 5 {
            Channel::InputGyroRv
        } else {
            Channel::Undefined
        }
    }

    /// The channel that a channel number names.
    pub fn from_u8(channel_id: u8) -> (c: Self)
        ensures
            c == Channel::from_code(channel_id),
    {
        match channel_id {
            0 => Channel::SHTPCommand,
            1 => Channel::Device,
            2 => Channel::Control,
            3 => Channel::InputNormal,
            4 => Channel::InputWake,
            5 => Channel::InputGyroRv,
            _ => Channel::Undefined,
        }
    }

    /// The channel number on the wire.
    pub fn to_u8(self) -> (id: u8)
        ensures
            id == self.code(),
    {
        match self {
            Channel::SHTPCommand => 0,
            Channel::Device => 1,
            Channel::Control => 2,
            Channel::InputNormal => 3,
            Channel::InputWake => 4,
            Channel::InputGyroRv => 5,
            Channel::Undefined => 255,
        }
    }
}

/// Every channel survives the trip through its channel number, and a number
/// that names a channel survives the trip through the channel.
pub proof fn lemma_channel_code_roundtrip(c: Channel, id: u8)
    ensures
        Channel::from_code(c.code()) == c,
        (id <= 5 || id == 255) ==> Channel::from_code(id).code() == id,
{
}

/// The header that precedes every SHTP cargo.
#[derive(Clone, Copy, Debug, PartialEq, Eq, Structural)]
pub struct SHTPHeader {
    pub cargo_len: usize,
    pub channel: Channel,
    pub seq_num: usize,
}

impl Default for SHTPHeader {
    fn default() -> (h: Self)
        ensures
            h == (SHTPHeader { cargo_len: 0, channel: Channel::Undefined, seq_num: 0 }),
    {
        SHTPHeader { cargo_len: 0, channel: Channel::Undefined, seq_num: 0 }
    }
}

/// The header stored in the first four bytes of `buf`: the length without
/// its continuation bit, the channel and the sequence number.
pub open spec fn header_of(buf: Seq<u8>) -> SHTPHeader {
    SHTPHeader {
        cargo_len: (u16_le(buf[0], buf[1]) % 0x8000) as usize,
        channel: Channel::from_code(buf[2]),
        seq_num: buf[3] as usize,
    }
}

/// The four bytes that encode `h`: the length (modulo `2^16`) little-endian,
/// the channel number, and the sequence number modulo 256.
pub open spec fn header_bytes(h: SHTPHeader) -> Seq<u8> {
    le_bytes16(h.cargo_len as int) + seq![h.channel.code(), (h.seq_num % 256) as u8]
}

impl SHTPHeader {
    /// Reads the header from the first four bytes of `buf`.
    pub fn from_byte_array(buf: &[u8]) -> (h: Self)
        requires
            buf@.len() >= CARGO_HEADER_SIZE,
        ensures
            h == header_of(buf@),
    {
        let temp_len: u16 = read_u16_le(buf[0], buf[1]);
        let len: u16 = temp_len & CARGO_LENGTH_MASK;
        assert(temp_len & 0x7FFF == temp_len % 0x8000) by (bit_vector);
        SHTPHeader {
            cargo_len: len as usize,
            channel: Channel::from_u8(buf[CARGO_CHANNEL_INDEX]),
            seq_num: buf[CARGO_SEQ_NUM_INDEX] as usize,
        }
    }

    /// Writes the header into the first four bytes of `buf`.
    pub fn write_to_byte_array(&self, buf: &mut [u8])
        requires
            old(buf)@.len() >= CARGO_HEADER_SIZE,
        ensures
            final(buf)@ == header_bytes(*self) + old(buf)@.subrange(4, old(buf)@.len() as int),
    {
        let len_bytes: [u8; 2] = u16_to_le_bytes((self.cargo_len % 0x1_0000) as u16);
        buf[0] = len_bytes[0];
        buf[1] = len_bytes[1];
        buf[2] = self.channel.to_u8();
        buf[3] = (self.seq_num % 256) as u8;
        assert(buf@ =~= header_bytes(*self) + old(buf)@.subrange(4, old(buf)@.len() as int));
    }
}

/// A header whose fields fit their encoding survives being written and read
/// back, whatever follows it.
pub proof fn lemma_header_roundtrip(h: SHTPHeader, rest: Seq<u8>)
    requires
        h.cargo_len <= 0x7FFF,
        h.seq_num <= 255,
    ensures
        header_of(header_bytes(h) + rest) == h,
{
    let b = header_bytes(h) + rest;
    lemma_le16_roundtrip(h.cargo_len as int);
    lemma_channel_code_roundtrip(h.channel, 0);
    assert(b[0] == le_bytes16(h.cargo_len as int)[0]);
    assert(b[1] == le_bytes16(h.cargo_len as int)[1]);
    assert(b[2] == h.channel.code());
    assert(b[3] == h.seq_num as u8);
}

/// Reading a header and writing it back gives the same four bytes, except
/// that the continuation bit is cleared, as long as the channel number names
/// a channel.
pub proof fn lemma_header_rewrite(buf: Seq<u8>)
    requires
        buf.len() >= 4,
        buf[2] <= 5 || buf[2] == 255,
    ensures
        header_bytes(header_of(buf)) == seq![buf[0], (buf[1] % 128) as u8, buf[2], buf[3]],
{
    let v = u16_le(buf[0], buf[1]) % 0x8000;
    let b0 = buf[0];
    let b1 = buf[1];
    assert((v % 256) as u8 == b0 && ((v / 256) % 256) as u8 == (b1 % 128) as u8) by (nonlinear_arith)
        requires
            v == (b0 + 256 * b1) % 0x8000,
            0 <= b0 < 256,
            0 <= b1 < 256,
    ;
    lemma_channel_code_roundtrip(Channel::Undefined, buf[2]);
    assert(header_bytes(header_of(buf)) =~= seq![buf[0], (buf[1] % 128) as u8, buf[2], buf[3]]);
}

/// The report identifiers that the driver knows.
#[derive(Clone, Copy, Debug, PartialEq, Eq, Structural)]
pub enum ReportID {
    RotationVector,
    CommandResponse,
    BaseTimestamp,
    GetFeature,
    SetFeature,
    Undefined,
}

impl ReportID {
    /// The report identifier on the wire.
    pub open spec fn code(self) -> u8 {
        match self {
            ReportID::RotationVector => 0x05,
            ReportID::CommandResponse => 0xF1,
            ReportID::BaseTimestamp => 0xFB,
            ReportID::GetFeature => 0xFC,
            ReportID::SetFeature => 0xFD,
            ReportID::Undefined => 0xFF,
        }
    }

    /// The report that an identifier names; unknown identifiers name `Undefined`.
    pub open spec fn from_code(id: u8) -> ReportID {
        if id == 0x05 {
            ReportID::RotationVector
        } else if id == 0xF1 {
            ReportID::CommandResponse
        } else if id == 0xFB {
            ReportID::BaseTimestamp
        } else if id == 0xFC {
            ReportID::GetFeature
        } else if id == 0xFD {
            ReportID::SetFeature
        } else {
            ReportID::Undefined
        }
    }

    /// The report that an identifier names.
    pub fn from_u8(id: u8) -> (r: Self)
        ensures
            r == ReportID::from_code(id),
    {
        match id {
            0x05 => ReportID::RotationVector,
            0xF1 => ReportID::CommandResponse,
            0xFB => ReportID::BaseTimestamp,
            0xFC => ReportID::GetFeature,
            0xFD => ReportID::SetFeature,
            _ => ReportID::Undefined,
        }
    }

    /// The report identifier on the wire.
    pub fn to_u8(self) -> (id: u8)
        ensures
            id == self.code(),
    {
        match self {
            ReportID::RotationVector => 0x05,
            ReportID::CommandResponse => 0xF1,
            ReportID::BaseTimestamp => 0xFB,
            ReportID::GetFeature => 0xFC,
            ReportID::SetFeature => 0xFD,
            ReportID::Undefined => 0xFF,
        }
    }
}

/// Every report identifier survives the trip through its number, and a
/// number that names a report survives the trip through the identifier.
pub proof fn lemma_report_id_code_roundtrip(r: ReportID, id: u8)
    ensures
        ReportID::from_code(r.code()) == r,
        (id == 0x05 || id == 0xF1 || id == 0xFB || id == 0xFC || id == 0xFD || id == 0xFF)
            ==> ReportID::from_code(id).code() == id,
{
}

/// A set-feature command, which turns a sensor on (a positive report
/// interval, in microseconds) or off.
pub struct SetFeatureReport {
    pub report_id: ReportID,
    pub feature_report_id: ReportID,
    pub feature_flags: u8,
    pub change_sensitivy: u16,
    pub report_interval: u32,
    pub batch_interval: u32,
    pub misc_config: u32,
}

/// The seventeen bytes that encode a set-feature command: the two report
/// identifiers, the flags, then the change sensitivity, the report interval
/// and the configuration word little-endian, with the batch interval between
/// the last two most significant byte first.
pub open spec fn set_feature_bytes(r: SetFeatureReport) -> Seq<u8> {
    seq![r.report_id.code(), r.feature_report_id.code(), r.feature_flags]
        + le_bytes16(r.change_sensitivy as int) + le_bytes32(r.report_interval as int)
        + be_bytes32(r.batch_interval as int) + le_bytes32(r.misc_config as int)
}

impl SetFeatureReport {
    /// Writes the command into the first seventeen bytes of `buf`.
    pub fn write_to_byte_array(&self, buf: &mut [u8])
        requires
            old(buf)@.len() >= SET_FEATURE_REPORT_SIZE,
        ensures
            final(buf)@ == set_feature_bytes(*self) + old(buf)@.subrange(
                17,
                old(buf)@.len() as int,
            ),
    {
        buf[0] = self.report_id.to_u8();
        buf[1] = self.feature_report_id.to_u8();
        buf[2] = self.feature_flags;
        let sensitivity: [u8; 2] = u16_to_le_bytes(self.change_sensitivy);
        buf[3] = sensitivity[0];
        buf[4] = sensitivity[1];
        let interval: [u8; 4] = u32_to_le_bytes(self.report_interval);
        buf[5] = interval[0];
        buf[6] = interval[1];
        buf[7] = interval[2];
        buf[8] = interval[3];
        let batch: [u8; 4] = u32_to_be_bytes(self.batch_interval);
        buf[9] = batch[0];
        buf[10] = batch[1];
        buf[11] = batch[2];
        buf[12] = batch[3];
        let misc: [u8; 4] = u32_to_le_bytes(self.misc_config);
        buf[13] = misc[0];
        buf[14] = misc[1];
        buf[15] = misc[2];
        buf[16] = misc[3];
        assert(buf@ =~= set_feature_bytes(*self) + old(buf)@.subrange(17, old(buf)@.len() as int));
    }
}

/// Every field of a set-feature command reads back from its bytes: the two
/// report identifiers and the flags from the first three bytes, the change
/// sensitivity, the report interval and the configuration word little-endian,
/// and the batch interval most significant byte first.
pub proof fn lemma_set_feature_bytes_decode(r: SetFeatureReport)
    ensures
        ({
            let c = set_feature_bytes(r);
            &&& c.len() == SET_FEATURE_REPORT_SIZE
            &&& ReportID::from_code(c[0]) == r.report_id
            &&& ReportID::from_code(c[1]) == r.feature_report_id
            &&& c[2] == r.feature_flags
            &&& u16_le(c[3], c[4]) == r.change_sensitivy
            &&& u32_le(c[5], c[6], c[7], c[8]) == r.report_interval
            &&& u32_le(c[12], c[11], c[10], c[9]) == r.batch_interval
            &&& u32_le(c[13], c[14], c[15], c[16]) == r.misc_config
        }),
{
    let c = set_feature_bytes(r);
    let s16 = le_bytes16(r.change_sensitivy as int);
    let ri = le_bytes32(r.report_interval as int);
    let bi = be_bytes32(r.batch_interval as int);
    let mc = le_bytes32(r.misc_config as int);
    assert(c =~= seq![
        r.report_id.code(),
        r.feature_report_id.code(),
        r.feature_flags,
        s16[0],
        s16[1],
        ri[0],
        ri[1],
        ri[2],
        ri[3],
        bi[0],
        bi[1],
        bi[2],
        bi[3],
        mc[0],
        mc[1],
        mc[2],
        mc[3],
    ]);
    lemma_report_id_code_roundtrip(r.report_id, 0);
    lemma_report_id_code_roundtrip(r.feature_report_id, 0);
    lemma_le16_roundtrip(r.change_sensitivy as int);
    lemma_le32_roundtrip(r.report_interval as int);
    lemma_be32_roundtrip(r.batch_interval as int);
    lemma_le32_roundtrip(r.misc_config as int);
}

/// The bytes of a quaternion: its four components, each little-endian in two's
/// complement.
pub open spec fn quaternion_bytes(q: Quaternion) -> Seq<u8> {
    le_bytes16(q.i as int) + le_bytes16(q.j as int) + le_bytes16(q.k as int) + le_bytes16(
        q.r as int,
    )
}

/// Every quaternion reads back from its bytes, whatever follows them.
pub proof fn lemma_quaternion_decode(q: Quaternion, rest: Seq<u8>)
    ensures
        quaternion_of(quaternion_bytes(q) + rest) == q,
{
    let b = quaternion_bytes(q) + rest;
    let (i, j, k, r) = (
        le_bytes16(q.i as int),
        le_bytes16(q.j as int),
        le_bytes16(q.k as int),
        le_bytes16(q.r as int),
    );
    assert(b[0] == i[0] && b[1] == i[1] && b[2] == j[0] && b[3] == j[1]);
    assert(b[4] == k[0] && b[5] == k[1] && b[6] == r[0] && b[7] == r[1]);
    lemma_le16_signed_roundtrip(q.i as int);
    lemma_le16_signed_roundtrip(q.j as int);
    lemma_le16_signed_roundtrip(q.k as int);
    lemma_le16_signed_roundtrip(q.r as int);
}

} // verus!
