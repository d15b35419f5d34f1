//! The state of a BNO085 driver, and what it does with each transfer.
//!
//! The driver keeps a sequence number per channel and direction, one cargo
//! buffer that every transfer goes through, and the latest rotation vector.
//! The transfers themselves (resetting the hub, reading and writing cargo)
//! are the caller's: it hands each received buffer to
//! [`BNO085::get_shtp_response`] and sends the bytes that
//! [`BNO085::set_feature_request`] returns.

use vstd::prelude::*;
use crate::codec::{read_i16_le, read_i32_le, read_u16_le, read_u32_le};
use crate::imu::interface::{
    header_bytes, header_of, lemma_header_roundtrip, set_feature_bytes, Channel, Quaternion,
    ReportID, SHTPHeader, SetFeatureReport, CARGO_HEADER_SIZE, SET_FEATURE_REPORT_SIZE,
};
use crate::imu::responses::{
    advertisement_from, advertisement_readable, advertisement_value, advertisement_value_readable,
    command_response_of, command_response_readable, entries_view, AdvertisementEntry,
    AdvertisementValue, AdvertisementValueView, SHTPCommandID, SHTPTag, ShtpCommandResponse,
    command_report_of, control_reports_from, control_reports_readable, control_view,
    get_feature_report_of, input_reports_from, input_reports_readable, latest_rotation,
    response_of, response_readable, rotation_report_of, timestamp_report_of, ControlCommandID,
    ControlReport, ControlReportView, InputReport, ShtpResponse, BASE_TIMESTAMP_REPORT_SIZE,
    COMMAND_RESPONSE_REPORT_SIZE, GET_FEATURE_REPORT_SIZE, ROTATION_VECTOR_REPORT_SIZE,
};

verus! {

/// The largest cargo that a header can announce.
pub const MAX_CARGO_SIZE: usize = 0x7FFE;

/// Bytes of the buffer that every transfer goes through.
pub const CARGO_BUFFER_SIZE: usize = 2048;

/// Channels that have sequence numbers.
pub const NUM_SHTP_CHANNELS: usize = 6;

/// Index of the sequence numbers of received cargo.
pub const SHTP_INPUT: usize = 0;

/// Index of the sequence numbers of sent cargo.
pub const SHTP_OUTPUT: usize = 1;

/// Directions that have sequence numbers.
pub const SHTP_IO_SIZE: usize = 2;

/// The state of a BNO085 driver.
pub struct BNO085 {
    seq_nums: [[u8; NUM_SHTP_CHANNELS]; SHTP_IO_SIZE],
    cargo_buffer: Vec<u8>,
    rotation_vector: Quaternion,
}

/// The sequence numbers of received cargo after the cargo in `b` has been
/// read: the number in its header is recorded for the four channels that the
/// driver reads.
pub open spec fn input_seq_nums_after(seq_nums: Seq<u8>, b: Seq<u8>) -> Seq<u8> {
    let h = header_of(b);
    match h.channel {
        Channel::SHTPCommand | Channel::Device | Channel::Control | Channel::InputNormal => seq_nums.update(
            h.channel.code() as int,
            b[3],
        ),
        _ => seq_nums,
    }
}

/// A cargo records its sequence number (the fourth header byte) for its
/// channel when that is one of the four channels that the driver reads
/// (numbers 0 to 3); no other received sequence number changes.
pub proof fn lemma_input_seq_nums_after(seq_nums: Seq<u8>, b: Seq<u8>, c: int)
    requires
        seq_nums.len() == NUM_SHTP_CHANNELS,
        b.len() >= CARGO_HEADER_SIZE,
        0 <= c < NUM_SHTP_CHANNELS,
    ensures
        input_seq_nums_after(seq_nums, b).len() == NUM_SHTP_CHANNELS,
        input_seq_nums_after(seq_nums, b)[c] == (if c == b[2] && b[2] <= 3 {
            b[3]
        } else {
            seq_nums[c]
        }),
{
}

/// The latest rotation vector after the cargo in `b` has been read.
pub open spec fn rotation_after(current: Quaternion, b: Seq<u8>) -> Quaternion {
    let h = header_of(b);
    match h.channel {
        Channel::InputNormal => latest_rotation(input_reports_from(b, h.cargo_len as int, 4), current),
        _ => current,
    }
}

/// The sequence number that follows `s`.
pub open spec fn next_seq_num(s: u8) -> u8 {
    ((s + 1) % 256) as u8
}

/// The sequence number after `n` steps from `s`.
pub open spec fn seq_num_after(s: u8, n: nat) -> u8
    decreases n,
{
    if n == 0 {
        s
    } else {
        next_seq_num(seq_num_after(s, (n - 1) as nat))
    }
}

/// Over `n` set-feature requests in a row, each of which moves the sequence
/// number of sent cargo on the control channel to the next one, the sequence
/// number moves from `s` to `s + n` modulo 256, and the request made after
/// `n` others carries that number in its header.
pub proof fn lemma_feature_request_seq_nums(s: u8, n: nat)
    ensures
        seq_num_after(s, n) == ((s + n) % 256) as u8,
        set_feature_header(seq_num_after(s, n)).seq_num == (s + n) % 256,
    decreases n,
{
    if n > 0 {
        lemma_feature_request_seq_nums(s, (n - 1) as nat);
        let a: int = s + n - 1;
        assert(((a % 256) + 1) % 256 == (a + 1) % 256) by (nonlinear_arith)
            requires
                a >= 0,
        ;
    }
}

/// The header of the set-feature request that goes out with sequence number `seq`.
pub open spec fn set_feature_header(seq: u8) -> SHTPHeader {
    SHTPHeader { cargo_len: 21, channel: Channel::Control, seq_num: seq as usize }
}

proof fn lemma_control_view_push(v: Seq<ControlReport>, r: ControlReport)
    ensures
        control_view(v.push(r)) == control_view(v).push(r@),
{
    assert(control_view(v.push(r)) =~= control_view(v).push(r@));
}

proof fn lemma_latest_rotation_push(v: Seq<InputReport>, r: InputReport, q: Quaternion)
    ensures
        latest_rotation(v.push(r), q) == (match r {
            InputReport::RotationVector { rotation, .. } => rotation,
            _ => latest_rotation(v, q),
        }),
{
    assert(v.push(r).drop_last() =~= v);
}

proof fn lemma_entries_view_push(v: Seq<AdvertisementEntry>, e: AdvertisementEntry)
    ensures
        entries_view(v.push(e)) == entries_view(v).push(e@),
{
    assert(entries_view(v.push(e)) =~= entries_view(v).push(e@));
}

/// Reads the value of an advertisement entry with tag `tag` whose
/// `value_len` bytes start at `buf[start]`; `None` where it cannot be read.
fn read_advertisement_value(buf: &[u8], tag: SHTPTag, start: usize, value_len: u8) -> (r: Option<
    AdvertisementValue,
>)
    requires
        buf@.len() == CARGO_BUFFER_SIZE,
        start < 0x1_0000,
    ensures
        r is Some <==> advertisement_value_readable(tag, buf@, start as int, value_len),
        r matches Some(v) ==> v@ == advertisement_value(tag, buf@, start as int, value_len),
{
    let n = value_len as usize;
    match tag {
        SHTPTag::GUID => {
            if n != 4 || start + 4 > buf.len() {
                return None;
            }
            Some(
                AdvertisementValue::Guid(
                    read_u32_le(buf[start], buf[start + 1], buf[start + 2], buf[start + 3]),
                ),
            )
        },
        SHTPTag::MaxCargoPlusHeaderWrite | SHTPTag::MaxCargoPlusHeaderRead
        | SHTPTag::MaxTransferWrite | SHTPTag::MaxTransferRead => {
            if n != 2 || start + 2 > buf.len() {
                return None;
            }
            Some(AdvertisementValue::Size(read_u16_le(buf[start], buf[start + 1])))
        },
        SHTPTag::NormalChannel | SHTPTag::WakeChannel => {
            if n != 1 || start + 1 > buf.len() {
                return None;
            }
            Some(AdvertisementValue::ChannelNumber(buf[start]))
        },
        SHTPTag::AppName | SHTPTag::ChannelName | SHTPTag::Version => {
            if start + n > buf.len() {
                return None;
            }
            let text = vstd::slice::slice_to_vec(vstd::slice::slice_subrange(buf, start, start + n));
            Some(AdvertisementValue::Text(text))
        },
        SHTPTag::ReportLengths => {
            if n > 0 && start + 2 * ((n - 1) / 2) + 1 >= buf.len() {
                return None;
            }
            let mut pairs: Vec<(u8, u8)> = Vec::new();
            let mut pair_offset: usize = 0;
            while pair_offset < n
                invariant
                    buf@.len() == CARGO_BUFFER_SIZE,
                    start < 0x1_0000,
                    n == value_len,
                    n == 0 || start + 2 * ((n - 1) / 2) + 1 < buf@.len(),
                    pair_offset % 2 == 0,
                    pair_offset <= n + 1,
                    pairs@.len() == pair_offset / 2,
                    forall|k: int|
                        0 <= k < pairs@.len() ==> #[trigger] pairs@[k] == (
                            buf@[start + 2 * k],
                            buf@[start + 2 * k + 1],
                        ),
                decreases n + 1 - pair_offset,
            {
                assert(pair_offset <= 2 * ((n - 1) / 2));
                pairs.push((buf[start + pair_offset], buf[start + pair_offset + 1]));
                pair_offset = pair_offset + 2;
            }
            assert(pairs@.len() == (n + 1) / 2);
            let ghost expected = Seq::new(
                ((n + 1) / 2) as nat,
                |k: int| (buf@[start + 2 * k], buf@[start + 2 * k + 1]),
            );
            assert(pairs@ =~= expected);
            Some(AdvertisementValue::ReportLengths(pairs))
        },
        SHTPTag::Reserved | SHTPTag::Undefined => Some(AdvertisementValue::Length(value_len)),
    }
}

impl BNO085 {
    /// Whether the cargo buffer has its full size.
    pub closed spec fn wf(&self) -> bool {
        self.cargo_buffer@.len() == CARGO_BUFFER_SIZE
    }

    /// The sequence numbers of received cargo, by channel number.
    pub closed spec fn input_seq_nums(&self) -> Seq<u8> {
        self.seq_nums@[SHTP_INPUT as int]@
    }

    /// The sequence numbers of sent cargo, by channel number.
    pub closed spec fn output_seq_nums(&self) -> Seq<u8> {
        self.seq_nums@[SHTP_OUTPUT as int]@
    }

    /// What the cargo buffer holds.
    pub closed spec fn cargo(&self) -> Seq<u8> {
        self.cargo_buffer@
    }

    /// The latest rotation vector.
    pub closed spec fn rotation(&self) -> Quaternion {
        self.rotation_vector
    }

    /// A well-formed driver has a full cargo buffer, and six sequence numbers
    /// in each direction.
    pub proof fn lemma_wf_lengths(&self)
        requires
            self.wf(),
        ensures
            self.cargo().len() == CARGO_BUFFER_SIZE,
            self.input_seq_nums().len() == NUM_SHTP_CHANNELS,
            self.output_seq_nums().len() == NUM_SHTP_CHANNELS,
    {
    }

    /// A driver that has sent and received nothing: all sequence numbers and
    /// the whole cargo buffer are zero, and so is the rotation vector.
    pub fn new() -> (s: Self)
        ensures
            s.wf(),
            s.input_seq_nums() == seq![0u8, 0, 0, 0, 0, 0],
            s.output_seq_nums() == seq![0u8, 0, 0, 0, 0, 0],
            s.cargo() == Seq::new(CARGO_BUFFER_SIZE as nat, |_i: int| 0u8),
            s.rotation() == (Quaternion { i: 0, j: 0, k: 0, r: 0 }),
    {
        let row: [u8; NUM_SHTP_CHANNELS] = [0, 0, 0, 0, 0, 0];
        let s = BNO085 {
            seq_nums: [row, row],
            cargo_buffer: vec![0u8; CARGO_BUFFER_SIZE],
            rotation_vector: Quaternion::default(),
        };
        assert(s.cargo_buffer@ =~= Seq::new(CARGO_BUFFER_SIZE as nat, |_i: int| 0u8));
        assert(s.input_seq_nums() =~= seq![0u8, 0, 0, 0, 0, 0]);
        assert(s.output_seq_nums() =~= seq![0u8, 0, 0, 0, 0, 0]);
        s
    }

    fn set_seq_num(&mut self, io: usize, channel: usize, value: u8)
        requires
            io < SHTP_IO_SIZE,
            channel < NUM_SHTP_CHANNELS,
        ensures
            final(self).cargo_buffer == old(self).cargo_buffer,
            final(self).rotation_vector == old(self).rotation_vector,
            io == SHTP_INPUT ==> final(self).input_seq_nums() == old(self).input_seq_nums().update(
                channel as int,
                value,
            ) && final(self).output_seq_nums() == old(self).output_seq_nums(),
            io == SHTP_OUTPUT ==> final(self).output_seq_nums()
                == old(self).output_seq_nums().update(channel as int, value)
                && final(self).input_seq_nums() == old(self).input_seq_nums(),
    {
        let mut row: [u8; NUM_SHTP_CHANNELS] = self.seq_nums[io];
        row[channel] = value;
        self.seq_nums[io] = row;
    }

    /// Reads the reports of a cargo on the control channel whose header is
    /// `header`, and records its sequence number. Gives `None`, and leaves the
    /// driver as it was, where a report cannot be read.
    fn process_control_response(&mut self, header: SHTPHeader) -> (r: Option<Vec<ControlReport>>)
        requires
            old(self).wf(),
            header == header_of(old(self).cargo()),
            header.channel == Channel::Control,
        ensures
            final(self).wf(),
            final(self).cargo() == old(self).cargo(),
            final(self).rotation() == old(self).rotation(),
            final(self).output_seq_nums() == old(self).output_seq_nums(),
            r is Some <==> control_reports_readable(old(self).cargo(), header.cargo_len as int, 4),
            r matches Some(v) ==> control_view(v@) == control_reports_from(
                old(self).cargo(),
                header.cargo_len as int,
                4,
            ),
            final(self).input_seq_nums() == (if r is Some {
                old(self).input_seq_nums().update(2, header.seq_num as u8)
            } else {
                old(self).input_seq_nums()
            }),
    {
        let len = header.cargo_len;
        let ghost b = self.cargo_buffer@;
        let ghost l = len as int;
        let mut reports: Vec<ControlReport> = Vec::new();
        let mut buf_index: usize = CARGO_HEADER_SIZE;
        assert(control_view(reports@) =~= Seq::<ControlReportView>::empty());
        while buf_index < len
            invariant
                *self == *old(self),
                b == self.cargo_buffer@,
                b.len() == CARGO_BUFFER_SIZE,
                l == len,
                len == header.cargo_len,
                len < 0x8000,
                4 <= buf_index <= len + GET_FEATURE_REPORT_SIZE,
                control_reports_readable(b, l, 4) <==> control_reports_readable(
                    b,
                    l,
                    buf_index as int,
                ),
                control_reports_from(b, l, 4) == control_view(reports@) + control_reports_from(
                    b,
                    l,
                    buf_index as int,
                ),
            decreases len + GET_FEATURE_REPORT_SIZE - buf_index,
        {
            let i = buf_index;
            if i >= self.cargo_buffer.len() {
                return None;
            }
            let id = ReportID::from_u8(self.cargo_buffer[i]);
            let ghost before = control_view(reports@);
            match id {
                ReportID::CommandResponse => {
                    if i + 5 > COMMAND_RESPONSE_REPORT_SIZE {
                        return None;
                    }
                    let seq_num = self.cargo_buffer[i + 1];
                    let command_byte = self.cargo_buffer[i + 2];
                    let command_seq_num = self.cargo_buffer[i + 3];
                    let response_seq_num = self.cargo_buffer[i + 4];
                    let vals = vstd::slice::slice_to_vec(
                        vstd::slice::slice_subrange(
                            self.cargo_buffer.as_slice(),
                            i + 5,
                            COMMAND_RESPONSE_REPORT_SIZE,
                        ),
                    );
                    let autonomous = (command_byte & 0x80) != 0;
                    let command = command_byte & 0x7F;
                    assert((command_byte & 0x80 != 0) == (command_byte >= 0x80)) by (bit_vector);
                    assert(command_byte & 0x7F == command_byte % 0x80) by (bit_vector);
                    let report = ControlReport::CommandResponse {
                        seq_num,
                        autonomous,
                        command: ControlCommandID::from_u8(command),
                        command_seq_num,
                        response_seq_num,
                        vals,
                    };
                    assert(report@ == command_report_of(b, i as int));
                    proof {
                        lemma_control_view_push(reports@, report);
                    }
                    reports.push(report);
                    buf_index = i + COMMAND_RESPONSE_REPORT_SIZE;
                    assert(control_reports_from(b, l, i as int) == seq![report@]
                        + control_reports_from(b, l, buf_index as int));
                    assert(before + (seq![report@] + control_reports_from(b, l, buf_index as int))
                        =~= control_view(reports@) + control_reports_from(b, l, buf_index as int));
                },
                ReportID::GetFeature => {
                    if i + 16 >= self.cargo_buffer.len() {
                        return None;
                    }
                    let report = ControlReport::GetFeature {
                        feature_report_id: ReportID::from_u8(self.cargo_buffer[i + 1]),
                        feature_flags: self.cargo_buffer[i + 2],
                        change_sensitivity: read_u16_le(
                            self.cargo_buffer[i + 3],
                            self.cargo_buffer[i + 4],
                        ),
                        report_interval: read_u32_le(
                            self.cargo_buffer[i + 5],
                            self.cargo_buffer[i + 6],
                            self.cargo_buffer[i + 7],
                            self.cargo_buffer[i + 8],
                        ),
                        batch_interval: read_u32_le(
                            self.cargo_buffer[i + 9],
                            self.cargo_buffer[i + 10],
                            self.cargo_buffer[i + 11],
                            self.cargo_buffer[i + 12],
                        ),
                        misc_config: read_u32_le(
                            self.cargo_buffer[i + 13],
                            self.cargo_buffer[i + 14],
                            self.cargo_buffer[i + 15],
                            self.cargo_buffer[i + 16],
                        ),
                    };
                    assert(report@ == get_feature_report_of(b, i as int));
                    proof {
                        lemma_control_view_push(reports@, report);
                    }
                    reports.push(report);
                    buf_index = i + GET_FEATURE_REPORT_SIZE;
                    assert(control_reports_from(b, l, i as int) == seq![report@]
                        + control_reports_from(b, l, buf_index as int));
                    assert(before + (seq![report@] + control_reports_from(b, l, buf_index as int))
                        =~= control_view(reports@) + control_reports_from(b, l, buf_index as int));
                },
                _ => {
                    let report = ControlReport::Unsupported(self.cargo_buffer[i]);
                    proof {
                        lemma_control_view_push(reports@, report);
                    }
                    reports.push(report);
                    buf_index = len;
                    assert(control_reports_from(b, l, i as int) == seq![report@]);
                    assert(control_reports_from(b, l, l) == Seq::<ControlReportView>::empty());
                    assert(before + seq![report@] =~= control_view(reports@)
                        + control_reports_from(b, l, l));
                },
            }
        }
        assert(control_reports_from(b, l, buf_index as int) == Seq::<ControlReportView>::empty());
        assert(control_view(reports@) + Seq::<ControlReportView>::empty() =~= control_view(reports@));
        self.set_seq_num(SHTP_INPUT, 2, header.seq_num as u8);
        Some(reports)
    }

    /// Reads the reports of a cargo on the normal input channel whose header
    /// is `header`, records its sequence number and keeps the rotation of the
    /// last rotation vector report. Gives `None`, and leaves the driver as it
    /// was, where a report cannot be read.
    fn process_report_response(&mut self, header: SHTPHeader) -> (r: Option<Vec<InputReport>>)
        requires
            old(self).wf(),
            header == header_of(old(self).cargo()),
            header.channel == Channel::InputNormal,
        ensures
            final(self).wf(),
            final(self).cargo() == old(self).cargo(),
            final(self).output_seq_nums() == old(self).output_seq_nums(),
            r is Some <==> input_reports_readable(old(self).cargo(), header.cargo_len as int, 4),
            r matches Some(v) ==> v@ == input_reports_from(old(self).cargo(), header.cargo_len as int, 4),
            final(self).input_seq_nums() == (if r is Some {
                old(self).input_seq_nums().update(3, header.seq_num as u8)
            } else {
                old(self).input_seq_nums()
            }),
            final(self).rotation() == (if r is Some {
                latest_rotation(
                    input_reports_from(old(self).cargo(), header.cargo_len as int, 4),
                    old(self).rotation(),
                )
            } else {
                old(self).rotation()
            }),
    {
        let len = header.cargo_len;
        let ghost b = self.cargo_buffer@;
        let ghost l = len as int;
        let mut reports: Vec<InputReport> = Vec::new();
        let mut latest: Quaternion = self.rotation_vector;
        let mut buf_index: usize = CARGO_HEADER_SIZE;
        assert(reports@ =~= Seq::<InputReport>::empty());
        while buf_index < len
            invariant
                *self == *old(self),
                b == self.cargo_buffer@,
                b.len() == CARGO_BUFFER_SIZE,
                l == len,
                len == header.cargo_len,
                len < 0x8000,
                4 <= buf_index <= len + ROTATION_VECTOR_REPORT_SIZE,
                input_reports_readable(b, l, 4) <==> input_reports_readable(b, l, buf_index as int),
                input_reports_from(b, l, 4) == reports@ + input_reports_from(b, l, buf_index as int),
                latest == latest_rotation(reports@, self.rotation_vector),
            decreases len + ROTATION_VECTOR_REPORT_SIZE - buf_index,
        {
            let i = buf_index;
            if i >= self.cargo_buffer.len() {
                return None;
            }
            let id = ReportID::from_u8(self.cargo_buffer[i]);
            let ghost before = reports@;
            match id {
                ReportID::RotationVector => {
                    if i + 13 >= self.cargo_buffer.len() {
                        return None;
                    }
                    let rotation = Quaternion::from_byte_array(
                        vstd::slice::slice_subrange(self.cargo_buffer.as_slice(), i + 4, i + 12),
                    );
                    let report = InputReport::RotationVector {
                        seq_num: self.cargo_buffer[i + 1],
                        status: self.cargo_buffer[i + 2],
                        delay: self.cargo_buffer[i + 3],
                        rotation,
                        accuracy: read_i16_le(self.cargo_buffer[i + 12], self.cargo_buffer[i + 13]),
                    };
                    assert(report == rotation_report_of(b, i as int));
                    proof {
                        lemma_latest_rotation_push(reports@, report, self.rotation_vector);
                    }
                    reports.push(report);
                    latest = rotation;
                    buf_index = i + ROTATION_VECTOR_REPORT_SIZE;
                    assert(input_reports_from(b, l, i as int) == seq![report] + input_reports_from(
                        b,
                        l,
                        buf_index as int,
                    ));
                    assert(before + (seq![report] + input_reports_from(b, l, buf_index as int))
                        =~= reports@ + input_reports_from(b, l, buf_index as int));
                },
                ReportID::BaseTimestamp => {
                    if i + 4 >= self.cargo_buffer.len() {
                        return None;
                    }
                    let report = InputReport::BaseTimestamp {
                        base_delta: read_i32_le(
                            self.cargo_buffer[i + 1],
                            self.cargo_buffer[i + 2],
                            self.cargo_buffer[i + 3],
                            self.cargo_buffer[i + 4],
                        ),
                    };
                    assert(report == timestamp_report_of(b, i as int));
                    proof {
                        lemma_latest_rotation_push(reports@, report, self.rotation_vector);
                    }
                    reports.push(report);
                    buf_index = i + BASE_TIMESTAMP_REPORT_SIZE;
                    assert(input_reports_from(b, l, i as int) == seq![report] + input_reports_from(
                        b,
                        l,
                        buf_index as int,
                    ));
                    assert(before + (seq![report] + input_reports_from(b, l, buf_index as int))
                        =~= reports@ + input_reports_from(b, l, buf_index as int));
                },
                _ => {
                    let report = InputReport::Unsupported(self.cargo_buffer[i]);
                    proof {
                        lemma_latest_rotation_push(reports@, report, self.rotation_vector);
                    }
                    reports.push(report);
                    buf_index = len;
                    assert(input_reports_from(b, l, i as int) == seq![report]);
                    assert(input_reports_from(b, l, l) == Seq::<InputReport>::empty());
                    assert(before + seq![report] =~= reports@ + input_reports_from(b, l, l));
                },
            }
        }
        assert(input_reports_from(b, l, buf_index as int) == Seq::<InputReport>::empty());
        assert(reports@ + Seq::<InputReport>::empty() =~= reports@);
        self.set_seq_num(SHTP_INPUT, 3, header.seq_num as u8);
        self.rotation_vector = latest;
        Some(reports)
    }

    /// Reads a cargo on the SHTP command channel whose header is `header`,
    /// and records its sequence number. Gives `None`, and leaves the driver as
    /// it was, where an entry cannot be read.
    fn process_shtp_command_response(&mut self, header: SHTPHeader) -> (r: Option<ShtpCommandResponse>)
        requires
            old(self).wf(),
            header == header_of(old(self).cargo()),
            header.channel == Channel::SHTPCommand,
        ensures
            final(self).wf(),
            final(self).cargo() == old(self).cargo(),
            final(self).rotation() == old(self).rotation(),
            final(self).output_seq_nums() == old(self).output_seq_nums(),
            r is Some <==> command_response_readable(old(self).cargo(), header.cargo_len as int),
            r matches Some(v) ==> v@ == command_response_of(old(self).cargo(), header.cargo_len as int),
            final(self).input_seq_nums() == (if r is Some {
                old(self).input_seq_nums().update(0, header.seq_num as u8)
            } else {
                old(self).input_seq_nums()
            }),
    {
        let len = header.cargo_len;
        let ghost b = self.cargo_buffer@;
        let ghost l = len as int;
        let command = SHTPCommandID::from_u8(self.cargo_buffer[CARGO_HEADER_SIZE]);
        let response = match command {
            SHTPCommandID::Advertisement => {
                let mut entries: Vec<AdvertisementEntry> = Vec::new();
                let mut buf_index: usize = CARGO_HEADER_SIZE + 1;
                assert(entries_view(entries@) =~= Seq::<(SHTPTag, AdvertisementValueView)>::empty());
                while buf_index < len
                    invariant
                        *self == *old(self),
                        b == self.cargo_buffer@,
                        b.len() == CARGO_BUFFER_SIZE,
                        l == len,
                        len == header.cargo_len,
                        len < 0x8000,
                        5 <= buf_index <= len + 257,
                        SHTPCommandID::from_code(b[4]) == SHTPCommandID::Advertisement,
                        advertisement_readable(b, l, 5) <==> advertisement_readable(
                            b,
                            l,
                            buf_index as int,
                        ),
                        advertisement_from(b, l, 5) == entries_view(entries@) + advertisement_from(
                            b,
                            l,
                            buf_index as int,
                        ),
                    decreases len + 257 - buf_index,
                {
                    let i = buf_index;
                    if i + 1 >= self.cargo_buffer.len() {
                        return None;
                    }
                    let tag = SHTPTag::from_u8(self.cargo_buffer[i]);
                    let value_len = self.cargo_buffer[i + 1];
                    let value = match read_advertisement_value(
                        self.cargo_buffer.as_slice(),
                        tag,
                        i + 2,
                        value_len,
                    ) {
                        Some(v) => v,
                        None => {
                            return None;
                        },
                    };
                    let entry = AdvertisementEntry { tag, value };
                    let ghost before = entries_view(entries@);
                    proof {
                        lemma_entries_view_push(entries@, entry);
                    }
                    entries.push(entry);
                    buf_index = i + 2 + value_len as usize;
                    assert(advertisement_from(b, l, i as int) == seq![entry@] + advertisement_from(
                        b,
                        l,
                        buf_index as int,
                    ));
                    assert(before + (seq![entry@] + advertisement_from(b, l, buf_index as int))
                        =~= entries_view(entries@) + advertisement_from(b, l, buf_index as int));
                }
                assert(advertisement_from(b, l, buf_index as int) =~= Seq::<
                    (SHTPTag, AdvertisementValueView),
                >::empty());
                assert(entries_view(entries@) + Seq::<(SHTPTag, AdvertisementValueView)>::empty()
                    =~= entries_view(entries@));
                ShtpCommandResponse::Advertisement(entries)
            },
            SHTPCommandID::ErrorList => {
                if len > self.cargo_buffer.len() {
                    return None;
                }
                let errors = if len > CARGO_HEADER_SIZE + 1 {
                    vstd::slice::slice_to_vec(
                        vstd::slice::slice_subrange(
                            self.cargo_buffer.as_slice(),
                            CARGO_HEADER_SIZE + 1,
                            len,
                        ),
                    )
                } else {
                    Vec::new()
                };
                ShtpCommandResponse::ErrorList(errors)
            },
            SHTPCommandID::Undefined => ShtpCommandResponse::Undefined(
                self.cargo_buffer[CARGO_HEADER_SIZE],
            ),
        };
        self.set_seq_num(SHTP_INPUT, 0, header.seq_num as u8);
        Some(response)
    }

    /// Reads the answer in a cargo on the device channel whose header is
    /// `header`, and records its sequence number.
    fn process_device_response(&mut self, header: SHTPHeader) -> (response: u8)
        requires
            old(self).wf(),
            header == header_of(old(self).cargo()),
            header.channel == Channel::Device,
        ensures
            final(self).wf(),
            final(self).cargo() == old(self).cargo(),
            final(self).rotation() == old(self).rotation(),
            final(self).output_seq_nums() == old(self).output_seq_nums(),
            final(self).input_seq_nums() == old(self).input_seq_nums().update(
                1,
                header.seq_num as u8,
            ),
            response == old(self).cargo()[4],
    {
        self.set_seq_num(SHTP_INPUT, 1, header.seq_num as u8);
        self.cargo_buffer[CARGO_HEADER_SIZE]
    }

    /// Takes in the cargo buffer that a transfer from the hub filled, and
    /// reads it as its header says.
    ///
    /// The cargo buffer becomes `received`. Where the cargo can be read, the
    /// result is what it holds, its sequence number is recorded for its
    /// channel (on the four channels that the driver reads) and the latest
    /// rotation vector is the one of its last rotation vector report. Where
    /// an entry or a report cannot be read (it reaches past the buffer, or a
    /// number has a width other than its own), the result is `None` and
    /// nothing but the buffer changes.
    pub fn get_shtp_response(&mut self, received: &[u8]) -> (resp: Option<ShtpResponse>)
        requires
            old(self).wf(),
            received@.len() == CARGO_BUFFER_SIZE,
        ensures
            final(self).wf(),
            final(self).cargo() == received@,
            resp is Some <==> response_readable(received@),
            resp matches Some(r) ==> r@ == response_of(received@),
            final(self).output_seq_nums() == old(self).output_seq_nums(),
            final(self).input_seq_nums() == (if resp is Some {
                input_seq_nums_after(old(self).input_seq_nums(), received@)
            } else {
                old(self).input_seq_nums()
            }),
            final(self).rotation() == (if resp is Some {
                rotation_after(old(self).rotation(), received@)
            } else {
                old(self).rotation()
            }),
    {
        self.cargo_buffer = vstd::slice::slice_to_vec(received);
        let header = SHTPHeader::from_byte_array(self.cargo_buffer.as_slice());
        match header.channel {
            Channel::SHTPCommand => match self.process_shtp_command_response(header) {
                Some(c) => Some(ShtpResponse::Command(c)),
                None => None,
            },
            Channel::Device => {
                let response = self.process_device_response(header);
                Some(ShtpResponse::Device { response, reset_complete: response == 1 })
            },
            Channel::Control => match self.process_control_response(header) {
                Some(v) => Some(ShtpResponse::Control(v)),
                None => None,
            },
            Channel::InputNormal => match self.process_report_response(header) {
                Some(v) => Some(ShtpResponse::Input(v)),
                None => None,
            },
            _ => Some(ShtpResponse::Unsupported(header.channel)),
        }
    }

    /// Prepares a set-feature request on the control channel and gives the
    /// bytes to send: the header (cargo length 21, the control channel, the
    /// next sequence number of sent cargo on it) followed by the command. The
    /// bytes are left at the start of the cargo buffer, and the sequence
    /// number moves on by one, wrapping after 255.
    pub fn set_feature_request(&mut self, report: SetFeatureReport) -> (packet: Vec<u8>)
        requires
            old(self).wf(),
        ensures
            final(self).wf(),
            packet@ == header_bytes(set_feature_header(old(self).output_seq_nums()[2]))
                + set_feature_bytes(report),
            header_of(packet@) == set_feature_header(old(self).output_seq_nums()[2]),
            final(self).cargo() == packet@ + old(self).cargo().subrange(21, CARGO_BUFFER_SIZE as int),
            final(self).output_seq_nums() == old(self).output_seq_nums().update(
                2,
                next_seq_num(old(self).output_seq_nums()[2]),
            ),
            final(self).input_seq_nums() == old(self).input_seq_nums(),
            final(self).rotation() == old(self).rotation(),
    {
        let channel = Channel::Control;
        let channel_index = channel.to_u8() as usize;
        let seq = self.seq_nums[SHTP_OUTPUT][channel_index];
        let header = SHTPHeader {
            cargo_len: CARGO_HEADER_SIZE + SET_FEATURE_REPORT_SIZE,
            channel,
            seq_num: seq as usize,
        };
        self.set_seq_num(SHTP_OUTPUT, channel_index, seq.wrapping_add(1));
        let mut head: [u8; 4] = [0, 0, 0, 0];
        header.write_to_byte_array(&mut head);
        let mut body: [u8; 17] = [0, 0, 0, 0, 0, 0, 0, 0, 0, 0, 0, 0, 0, 0, 0, 0, 0];
        report.write_to_byte_array(&mut body);
        let ghost old_cargo = self.cargo_buffer@;
        let ghost seqs = self.seq_nums;
        let ghost rotation = self.rotation_vector;
        let mut k: usize = 0;
        while k < CARGO_HEADER_SIZE
            invariant
                self.seq_nums == seqs,
                self.rotation_vector == rotation,
                k <= CARGO_HEADER_SIZE,
                self.cargo_buffer@.len() == CARGO_BUFFER_SIZE,
                old_cargo.len() == CARGO_BUFFER_SIZE,
                forall|j: int| 0 <= j < k ==> self.cargo_buffer@[j] == head@[j],
                forall|j: int| k <= j < CARGO_BUFFER_SIZE ==> self.cargo_buffer@[j] == old_cargo[j],
            decreases CARGO_HEADER_SIZE - k,
        {
            self.cargo_buffer[k] = head[k];
            k = k + 1;
        }
        let mut k: usize = 0;
        while k < SET_FEATURE_REPORT_SIZE
            invariant
                self.seq_nums == seqs,
                self.rotation_vector == rotation,
                k <= SET_FEATURE_REPORT_SIZE,
                self.cargo_buffer@.len() == CARGO_BUFFER_SIZE,
                old_cargo.len() == CARGO_BUFFER_SIZE,
                forall|j: int| 0 <= j < 4 ==> self.cargo_buffer@[j] == head@[j],
                forall|j: int| 0 <= j < k ==> self.cargo_buffer@[4 + j] == body@[j],
                forall|j: int|
                    4 + k <= j < CARGO_BUFFER_SIZE ==> self.cargo_buffer@[j] == old_cargo[j],
            decreases SET_FEATURE_REPORT_SIZE - k,
        {
            self.cargo_buffer[CARGO_HEADER_SIZE + k] = body[k];
            k = k + 1;
        }
        let packet = vstd::slice::slice_to_vec(
            vstd::slice::slice_subrange(
                self.cargo_buffer.as_slice(),
                0,
                CARGO_HEADER_SIZE + SET_FEATURE_REPORT_SIZE,
            ),
        );
        assert(head@ =~= header_bytes(header));
        assert(body@ =~= set_feature_bytes(report));
        assert(packet@ =~= header_bytes(header) + set_feature_bytes(report));
        assert(self.cargo_buffer@ =~= packet@ + old_cargo.subrange(21, CARGO_BUFFER_SIZE as int));
        proof {
            lemma_header_roundtrip(header, set_feature_bytes(report));
        }
        packet
    }

    /// The sequence number of the last cargo received on channel `channel`.
    pub fn input_seq_num(&self, channel: usize) -> (s: u8)
        requires
            channel < NUM_SHTP_CHANNELS,
        ensures
            s == self.input_seq_nums()[channel as int],
    {
        self.seq_nums[SHTP_INPUT][channel]
    }

    /// The sequence number that the next cargo sent on channel `channel` carries.
    pub fn output_seq_num(&self, channel: usize) -> (s: u8)
        requires
            channel < NUM_SHTP_CHANNELS,
        ensures
            s == self.output_seq_nums()[channel as int],
    {
        self.seq_nums[SHTP_OUTPUT][channel]
    }

    /// The latest rotation vector.
    pub fn rotation_vector(&self) -> (q: Quaternion)
        ensures
            q == self.rotation(),
    {
        self.rotation_vector
    }

    /// What the cargo buffer holds.
    pub fn cargo_buffer(&self) -> (b: &[u8])
        ensures
            b@ == self.cargo(),
    {
        self.cargo_buffer.as_slice()
    }
}

} // verus!
