//! The coprocessor's side of its serial link to the brain, in zero-delimited
//! COBS frames. The brain sends command packets `[id, payload..]`, and the
//! coprocessor answers each with a frame of its own. The coprocessor also
//! reports lidar measurements (`l`) and OTOS registers (`o`), and asks (`r`)
//! for the commands the brain has queued, which come back as a run of
//! `c` (calibrate), `p` and a pose (set the position), and `s`, an offset
//! pose and two scalars (set the offsets and scalars).
use vstd::prelude::*;
use crate::copro::{CoproRequest, LidarReport, request_bytes, requests_bytes};
use crate::cobs_frame::{FrameError, cobs_decoding, decode_frame, encode_frame, frame_of};
use crate::otos::{
    OtosAction, OtosPose, OtosScalars, READINGS_LEN, READINGS_LOWER, POSITION_X_L, VELOCITY_X_L,
    POSITION_STDDEV_X_L, OFFSET_X_L, LINEAR_SCALAR, le_i16, byte_as_i8, action_write,
    lemma_pose_bytes_round_trip, lemma_pose_value_round_trip, lemma_scalar_byte_round_trip, pose_bytes,
    i8_byte,
};

verus! {

/// The largest frame the coprocessor collects from the brain.
pub const MTU: usize = 1024;

/// Read the cached position registers.
pub const GET_POSITION: u8 = 0x70;
/// Set the position (six register bytes follow).
pub const SET_POSITION: u8 = 0x50;
/// Read the cached velocity registers.
pub const GET_VELOCITY: u8 = 0x76;
/// Calibrate the sensor and reset its position.
pub const CALIBRATE: u8 = 0x63;
/// Set the mounting offsets (six register bytes follow).
pub const SET_OFFSETS: u8 = 0x6F;
/// Set the scalars (two register bytes follow).
pub const SET_SCALARS: u8 = 0x73;
/// Read the cached position standard deviation registers.
pub const GET_STDDEV: u8 = 0x53;
/// Ping, answered with 32 zero bytes.
pub const PING: u8 = 0x61;
/// Set the LEDs.
pub const SET_LEDS: u8 = 0x6C;
/// The answer to a command that changes something.
pub const DONE: u8 = 0x64;

/// Whether a packet holds its command byte and the payload that command reads.
pub open spec fn packet_complete(p: Seq<u8>) -> bool {
    &&& p.len() >= 1
    &&& (p[0] == SET_POSITION || p[0] == SET_OFFSETS) ==> p.len() >= 7
    &&& p[0] == SET_SCALARS ==> p.len() >= 3
}

/// The pose in the six register bytes that start at `p[1]`.
pub open spec fn packet_pose(p: Seq<u8>) -> OtosPose {
    OtosPose {
        x: le_i16(p[1], p[2]) as i16,
        y: le_i16(p[3], p[4]) as i16,
        h: le_i16(p[5], p[6]) as i16,
    }
}

/// The scalars in the two register bytes that start at `p[1]`.
pub open spec fn packet_scalars(p: Seq<u8>) -> OtosScalars {
    OtosScalars { linear: byte_as_i8(p[1]) as i8, angular: byte_as_i8(p[2]) as i8 }
}

/// The six cached registers from register `first` on.
pub open spec fn cached_registers(readings: Seq<u8>, first: u8) -> Seq<u8> {
    readings.subrange(first - READINGS_LOWER, first - READINGS_LOWER + 6)
}

/// What the coprocessor asks of the OTOS for a packet, in order.
pub open spec fn packet_actions(p: Seq<u8>) -> Seq<OtosAction> {
    if p[0] == SET_POSITION {
        seq![OtosAction::SetPosition(packet_pose(p))]
    } else if p[0] == CALIBRATE {
        seq![OtosAction::Calibrate, OtosAction::SetPosition(OtosPose { x: 0, y: 0, h: 0 })]
    } else if p[0] == SET_OFFSETS {
        seq![OtosAction::SetOffsets(packet_pose(p))]
    } else if p[0] == SET_SCALARS {
        seq![OtosAction::SetScalars(packet_scalars(p))]
    } else {
        Seq::empty()
    }
}

/// The answer to a packet: the cached registers it asks for, 32 zeros for a
/// ping, `d` for a command that changes something, and nothing for an
/// unknown command.
pub open spec fn packet_reply(p: Seq<u8>, readings: Seq<u8>) -> Seq<u8> {
    if p[0] == GET_POSITION {
        cached_registers(readings, POSITION_X_L)
    } else if p[0] == GET_VELOCITY {
        cached_registers(readings, VELOCITY_X_L)
    } else if p[0] == GET_STDDEV {
        cached_registers(readings, POSITION_STDDEV_X_L)
    } else if p[0] == PING {
        Seq::new(32, |i: int| 0u8)
    } else if p[0] == SET_POSITION || p[0] == CALIBRATE || p[0] == SET_OFFSETS || p[0] == SET_SCALARS
        || p[0] == SET_LEDS {
        seq![DONE]
    } else {
        Seq::empty()
    }
}

/// Whether `packet` holds its command byte and the payload that command reads.
pub fn is_complete_packet(packet: &[u8]) -> (r: bool)
    ensures
        r == packet_complete(packet@),
{
    if packet.len() < 1 {
        false
    } else if packet[0] == SET_POSITION || packet[0] == SET_OFFSETS {
        packet.len() >= 7
    } else if packet[0] == SET_SCALARS {
        packet.len() >= 3
    } else {
        true
    }
}

fn copy_registers(readings: &[u8; READINGS_LEN], first: u8, buf: &mut [u8]) -> (n: usize)
    requires
        READINGS_LOWER <= first,
        first - READINGS_LOWER + 6 <= READINGS_LEN,
        old(buf)@.len() >= 6,
    ensures
        n == 6,
        final(buf)@.len() == old(buf)@.len(),
        final(buf)@.take(6) == cached_registers(readings@, first),
        final(buf)@.skip(6) == old(buf)@.skip(6),
{
    let start = (first - READINGS_LOWER) as usize;
    let ghost old_buf = buf@;
    let mut i: usize = 0;
    while i < 6
        invariant
            i <= 6,
            start + 6 <= READINGS_LEN,
            start == first - READINGS_LOWER,
            buf@.len() == old_buf.len(),
            old_buf.len() >= 6,
            forall|j: int| 0 <= j < i ==> buf@[j] == readings@[start + j],
            forall|j: int| i <= j < buf@.len() ==> buf@[j] == old_buf[j],
        decreases 6 - i,
    {
        buf[i] = readings[start + i];
        i = i + 1;
    }
    assert(buf@.take(6) =~= cached_registers(readings@, first));
    assert(buf@.skip(6) =~= old_buf.skip(6));
    6
}

/// Carries out a command packet from the brain: returns what to ask of the
/// OTOS, in order, and writes the answer at the start of `buf`, returning
/// its length. `readings` holds the latest block of sensor registers.
pub fn handle_brain_packet(packet: &[u8], readings: &[u8; READINGS_LEN], buf: &mut [u8]) -> (r: (
    Vec<OtosAction>,
    usize,
))
    requires
        packet_complete(packet@),
        old(buf)@.len() >= packet_reply(packet@, readings@).len(),
    ensures
        r.0@ == packet_actions(packet@),
        r.1 == packet_reply(packet@, readings@).len(),
        final(buf)@.len() == old(buf)@.len(),
        final(buf)@.take(r.1 as int) == packet_reply(packet@, readings@),
        final(buf)@.skip(r.1 as int) == old(buf)@.skip(r.1 as int),
{
    let ghost old_buf = buf@;
    let mut actions: Vec<OtosAction> = Vec::new();
    let id = packet[0];
    let len = if id == GET_POSITION {
        copy_registers(readings, POSITION_X_L, buf)
    } else if id == GET_VELOCITY {
        copy_registers(readings, VELOCITY_X_L, buf)
    } else if id == GET_STDDEV {
        copy_registers(readings, POSITION_STDDEV_X_L, buf)
    } else if id == PING {
        let mut i: usize = 0;
        while i < 32
            invariant
                i <= 32,
                buf@.len() == old_buf.len(),
                buf@.len() >= 32,
                forall|j: int| 0 <= j < i ==> buf@[j] == 0u8,
                forall|j: int| i <= j < buf@.len() ==> buf@[j] == old_buf[j],
            decreases 32 - i,
        {
            buf[i] = 0;
            i = i + 1;
        }
        assert(buf@.take(32) =~= Seq::new(32, |i: int| 0u8));
        assert(buf@.skip(32) =~= old_buf.skip(32));
        32
    } else if id == SET_POSITION || id == CALIBRATE || id == SET_OFFSETS || id == SET_SCALARS
        || id == SET_LEDS {
        if id == SET_POSITION || id == SET_OFFSETS {
            let pose = OtosPose::from_bytes(
                &[packet[1], packet[2], packet[3], packet[4], packet[5], packet[6]],
            );
            if id == SET_POSITION {
                actions.push(OtosAction::SetPosition(pose));
            } else {
                actions.push(OtosAction::SetOffsets(pose));
            }
        } else if id == CALIBRATE {
            actions.push(OtosAction::Calibrate);
            actions.push(OtosAction::SetPosition(OtosPose { x: 0, y: 0, h: 0 }));
        } else if id == SET_SCALARS {
            actions.push(OtosAction::SetScalars(OtosScalars::from_bytes(&[packet[1], packet[2]])));
        }
        buf[0] = DONE;
        assert(buf@.take(1) =~= seq![DONE]);
        assert(buf@.skip(1) =~= old_buf.skip(1));
        1
    } else {
        assert(buf@.take(0) =~= Seq::<u8>::empty());
        assert(buf@.skip(0) =~= old_buf);
        0
    };
    assert(actions@ =~= packet_actions(packet@));
    (actions, len)
}

/// The little-endian bytes of a `u32`.
pub open spec fn u32_le_bytes(v: u32) -> Seq<u8> {
    seq![(v % 256) as u8, ((v / 256) % 256) as u8, ((v / 65536) % 256) as u8, ((v / 16777216) % 256) as u8]
}

/// The bytes of one lidar measurement in a report: angle bits, distance
/// bits, quality.
pub open spec fn lidar_report_bytes(m: LidarReport) -> Seq<u8> {
    u32_le_bytes(m.angle_bits) + u32_le_bytes(m.distance_bits) + seq![m.quality]
}

/// The bytes of a sequence of measurements, one after the other.
pub open spec fn lidar_reports_bytes(ms: Seq<LidarReport>) -> Seq<u8>
    decreases ms.len(),
{
    if ms.len() == 0 {
        Seq::empty()
    } else {
        lidar_reports_bytes(ms.drop_last()) + lidar_report_bytes(ms.last())
    }
}

/// The kind byte of a lidar report.
pub const LIDAR_REPORT: u8 = 0x6C;
/// The kind byte of an OTOS register dump.
pub const OTOS_REPORT: u8 = 0x6F;
/// The kind byte of a request for pending commands.
pub const COMMAND_REQUEST: u8 = 0x72;

fn push_u32_le(out: &mut Vec<u8>, v: u32)
    ensures
        final(out)@ == old(out)@ + u32_le_bytes(v),
{
    out.push((v % 256) as u8);
    out.push(((v / 256) % 256) as u8);
    out.push(((v / 65536) % 256) as u8);
    out.push(((v / 16777216) % 256) as u8);
    assert(final(out)@ =~= old(out)@ + u32_le_bytes(v));
}

/// The payload that reports lidar measurements to the brain: `l`, then
/// each measurement's angle and distance bits (little-endian) and quality.
pub fn encode_lidar_report(measurements: &[LidarReport]) -> (p: Vec<u8>)
    ensures
        p@ == seq![LIDAR_REPORT] + lidar_reports_bytes(measurements@),
{
    let mut p: Vec<u8> = Vec::new();
    p.push(LIDAR_REPORT);
    let mut i: usize = 0;
    while i < measurements.len()
        invariant
            i <= measurements@.len(),
            p@ == seq![LIDAR_REPORT] + lidar_reports_bytes(measurements@.take(i as int)),
        decreases measurements@.len() - i,
    {
        let m = measurements[i];
        let ghost before = p@;
        push_u32_le(&mut p, m.angle_bits);
        push_u32_le(&mut p, m.distance_bits);
        p.push(m.quality);
        proof {
            assert(measurements@.take(i + 1).drop_last() =~= measurements@.take(i as int));
            assert(p@ =~= before + lidar_report_bytes(m));
        }
        i = i + 1;
    }
    assert(measurements@.take(measurements@.len() as int) =~= measurements@);
    p
}

/// The payload that reports the OTOS registers to the brain: `o`, then the
/// registers.
pub fn encode_otos_report(readings: &[u8; READINGS_LEN]) -> (p: Vec<u8>)
    ensures
        p@ == seq![OTOS_REPORT] + readings@,
{
    let mut p: Vec<u8> = Vec::new();
    p.push(OTOS_REPORT);
    let mut i: usize = 0;
    while i < READINGS_LEN
        invariant
            i <= READINGS_LEN,
            readings@.len() == READINGS_LEN,
            p@ == seq![OTOS_REPORT] + readings@.take(i as int),
        decreases READINGS_LEN - i,
    {
        p.push(readings[i]);
        assert(readings@.take(i + 1) =~= readings@.take(i as int).push(readings@[i as int]));
        i = i + 1;
    }
    assert(readings@.take(READINGS_LEN as int) =~= readings@);
    p
}

/// A command that sets the position or the offsets writes the six pose
/// bytes of the packet to the sensor unchanged, after the first register
/// of the pose.
pub proof fn lemma_pose_commands_forward_bytes(p: Seq<u8>)
    requires
        packet_complete(p),
        p[0] == SET_POSITION || p[0] == SET_OFFSETS,
    ensures
        packet_actions(p).len() == 1,
        p[0] == SET_POSITION ==> action_write(packet_actions(p)[0]) == seq![POSITION_X_L] + p.subrange(1, 7),
        p[0] == SET_OFFSETS ==> action_write(packet_actions(p)[0]) == seq![OFFSET_X_L] + p.subrange(1, 7),
{
    let b = p.subrange(1, 7);
    let pose = packet_pose(p);
    assert(b[0] == p[1] && b[1] == p[2] && b[2] == p[3] && b[3] == p[4] && b[4] == p[5] && b[5] == p[6]);
    lemma_pose_bytes_round_trip(b, pose);
}

/// A command that sets the scalars writes its two bytes to the sensor
/// unchanged, after the linear scalar register.
pub proof fn lemma_scalar_command_forwards_bytes(p: Seq<u8>)
    requires
        packet_complete(p),
        p[0] == SET_SCALARS,
    ensures
        packet_actions(p) == seq![OtosAction::SetScalars(packet_scalars(p))],
        action_write(packet_actions(p)[0]) == seq![LINEAR_SCALAR, p[1], p[2]],
{
    assert(action_write(packet_actions(p)[0]) =~= seq![LINEAR_SCALAR, p[1], p[2]]);
}

proof fn lemma_u32_le_round_trip(v: u32)
    ensures
        u32_le_bytes(v)[0] + 256 * u32_le_bytes(v)[1] + 65536 * u32_le_bytes(v)[2] + 16777216
            * u32_le_bytes(v)[3] == v,
{
    let b = u32_le_bytes(v);
    assert(b[0] + 256 * b[1] + 65536 * b[2] + 16777216 * b[3] == v) by (nonlinear_arith)
        requires
            b[0] == v % 256,
            b[1] == (v / 256) % 256,
            b[2] == (v / 65536) % 256,
            b[3] == (v / 16777216) % 256,
            0 <= v < 0x1_0000_0000,
    ;
}

proof fn lemma_reports_bytes_at(ms: Seq<LidarReport>)
    ensures
        lidar_reports_bytes(ms).len() == 9 * ms.len(),
        forall|i: int, j: int|
            0 <= i < ms.len() && 0 <= j < 9 ==> #[trigger] lidar_reports_bytes(ms)[9 * i + j]
                == lidar_report_bytes(ms[i])[j],
    decreases ms.len(),
{
    if ms.len() > 0 {
        let init = ms.drop_last();
        lemma_reports_bytes_at(init);
        let a = lidar_reports_bytes(init);
        let last = lidar_report_bytes(ms.last());
        assert(lidar_reports_bytes(ms) == a + last);
        assert forall|i: int, j: int| 0 <= i < ms.len() && 0 <= j < 9 implies #[trigger] lidar_reports_bytes(ms)[9
            * i + j] == lidar_report_bytes(ms[i])[j] by {
            if i < ms.len() - 1 {
                assert(9 * i + j < 9 * init.len()) by (nonlinear_arith)
                    requires
                        i < init.len(),
                        0 <= j < 9,
                ;
                assert(init[i] == ms[i]);
                assert(a[9 * i + j] == lidar_report_bytes(init[i])[j]);
            } else {
                assert(9 * i + j - 9 * init.len() == j) by (nonlinear_arith)
                    requires
                        i == init.len(),
                ;
            }
        }
    }
}

/// The brain reads back every measurement of a lidar report, in order,
/// just as the coprocessor wrote them.
pub proof fn lemma_lidar_report_round_trip(ms: Seq<LidarReport>)
    ensures
        ({
            let p = seq![LIDAR_REPORT] + lidar_reports_bytes(ms);
            &&& crate::copro::copro_frame_complete(p)
            &&& p[0] == 0x6Cu8
            &&& crate::copro::lidar_records(p) == ms
        }),
{
    lemma_reports_bytes_at(ms);
    let b = lidar_reports_bytes(ms);
    let p = seq![LIDAR_REPORT] + b;
    assert((p.len() - 1) / 9 == ms.len());
    assert forall|i: int| 0 <= i < ms.len() implies #[trigger] crate::copro::lidar_record_at(p, 1 + 9 * i)
        == ms[i] by {
        let m = ms[i];
        let r = lidar_report_bytes(m);
        assert forall|j: int| 0 <= j < 9 implies p[1 + 9 * i + j] == r[j] by {
            assert(p[1 + 9 * i + j] == b[9 * i + j]);
        }
        assert(p[1 + 9 * i] == r[0] && p[1 + 9 * i + 1] == r[1] && p[1 + 9 * i + 2] == r[2] && p[1 + 9 * i + 3] == r[3]);
        assert(p[1 + 9 * i + 4] == r[4] && p[1 + 9 * i + 5] == r[5] && p[1 + 9 * i + 6] == r[6] && p[1 + 9 * i + 7] == r[7]);
        assert(p[1 + 9 * i + 8] == r[8]);
        lemma_u32_le_round_trip(m.angle_bits);
        lemma_u32_le_round_trip(m.distance_bits);
    }
    assert(crate::copro::lidar_records(p) =~= ms);
}

/// In the brain's answer to a request: calibrate the OTOS.
pub const REPLY_CALIBRATE: u8 = 0x63;
/// In the brain's answer to a request: set the OTOS position (six register bytes follow).
pub const REPLY_SET_POSITION: u8 = 0x70;
/// In the brain's answer to a request: set the OTOS offsets and scalars
/// (six offset bytes, then the linear and angular scalar bytes, follow).
pub const REPLY_CONFIGURE: u8 = 0x73;

/// The actions `a` put before those of `rest`, when `rest` has any.
pub open spec fn prepend_actions(a: Seq<OtosAction>, rest: Option<Seq<OtosAction>>) -> Option<Seq<OtosAction>> {
    match rest {
        Some(r) => Some(a + r),
        None => None,
    }
}

/// The scalars in the two bytes at `p[7]` and `p[8]`.
pub open spec fn command_scalars(p: Seq<u8>) -> OtosScalars {
    OtosScalars { linear: byte_as_i8(p[7]) as i8, angular: byte_as_i8(p[8]) as i8 }
}

/// What the commands in the brain's answer to a request ask of the OTOS,
/// in order: `c` calibrates; `p` and a pose sets the position; `s`, an
/// offset pose and two scalar bytes sets the scalars and the offsets.
/// `None` when a command is unknown or its payload is cut short.
pub open spec fn brain_commands(d: Seq<u8>) -> Option<Seq<OtosAction>>
    decreases d.len(),
{
    if d.len() == 0 {
        Some(Seq::empty())
    } else if d[0] == REPLY_CALIBRATE {
        prepend_actions(seq![OtosAction::Calibrate], brain_commands(d.skip(1)))
    } else if d[0] == REPLY_SET_POSITION {
        if d.len() < 7 {
            None
        } else {
            prepend_actions(seq![OtosAction::SetPosition(packet_pose(d))], brain_commands(d.skip(7)))
        }
    } else if d[0] == REPLY_CONFIGURE {
        if d.len() < 9 {
            None
        } else {
            prepend_actions(
                seq![OtosAction::SetScalars(command_scalars(d)), OtosAction::SetOffsets(packet_pose(d))],
                brain_commands(d.skip(9)),
            )
        }
    } else {
        None
    }
}

proof fn lemma_prepend_actions_assoc(a: Seq<OtosAction>, b: Seq<OtosAction>, rest: Option<Seq<OtosAction>>)
    ensures
        prepend_actions(a, prepend_actions(b, rest)) == prepend_actions(a + b, rest),
{
    if let Some(r) = rest {
        assert(a + (b + r) =~= (a + b) + r);
    }
}

proof fn lemma_skip_skip(d: Seq<u8>, i: int, k: int)
    requires
        0 <= i,
        0 <= k,
        i + k <= d.len(),
    ensures
        d.skip(i).skip(k) == d.skip(i + k),
{
    assert(d.skip(i).skip(k) =~= d.skip(i + k));
}

/// Parses the commands in the brain's answer to a request.
pub fn parse_brain_commands(decoded: &[u8]) -> (r: Option<Vec<OtosAction>>)
    ensures
        match r {
            Some(v) => brain_commands(decoded@) == Some(v@),
            None => brain_commands(decoded@) is None,
        },
{
    let len = decoded.len();
    let mut acts: Vec<OtosAction> = Vec::new();
    let mut i: usize = 0;
    proof {
        assert(decoded@.skip(0) =~= decoded@);
        assert(Seq::<OtosAction>::empty() + Seq::<OtosAction>::empty() =~= Seq::<OtosAction>::empty());
        if let Some(v) = brain_commands(decoded@) {
            assert(Seq::<OtosAction>::empty() + v =~= v);
        }
    }
    while i < len
        invariant
            i <= len,
            len == decoded@.len(),
            brain_commands(decoded@) == prepend_actions(acts@, brain_commands(decoded@.skip(i as int))),
        decreases len - i,
    {
        let ghost rest = decoded@.skip(i as int);
        let ghost before = acts@;
        let id = decoded[i];
        assert(rest[0] == id);
        if id == REPLY_CALIBRATE {
            acts.push(OtosAction::Calibrate);
            proof {
                lemma_skip_skip(decoded@, i as int, 1);
                lemma_prepend_actions_assoc(before, seq![OtosAction::Calibrate], brain_commands(rest.skip(1)));
                assert(before.push(OtosAction::Calibrate) =~= before + seq![OtosAction::Calibrate]);
            }
            i = i + 1;
        } else if id == REPLY_SET_POSITION {
            if len - i < 7 {
                return None;
            }
            let pose = OtosPose::from_bytes(
                &[decoded[i + 1], decoded[i + 2], decoded[i + 3], decoded[i + 4], decoded[i + 5], decoded[i + 6]],
            );
            assert(pose == packet_pose(rest));
            acts.push(OtosAction::SetPosition(pose));
            proof {
                lemma_skip_skip(decoded@, i as int, 7);
                let a = seq![OtosAction::SetPosition(pose)];
                lemma_prepend_actions_assoc(before, a, brain_commands(rest.skip(7)));
                assert(before.push(OtosAction::SetPosition(pose)) =~= before + a);
            }
            i = i + 7;
        } else if id == REPLY_CONFIGURE {
            if len - i < 9 {
                return None;
            }
            let offset = OtosPose::from_bytes(
                &[decoded[i + 1], decoded[i + 2], decoded[i + 3], decoded[i + 4], decoded[i + 5], decoded[i + 6]],
            );
            let scalars = OtosScalars::from_bytes(&[decoded[i + 7], decoded[i + 8]]);
            assert(offset == packet_pose(rest));
            assert(scalars == command_scalars(rest));
            acts.push(OtosAction::SetScalars(scalars));
            acts.push(OtosAction::SetOffsets(offset));
            proof {
                lemma_skip_skip(decoded@, i as int, 9);
                let a = seq![OtosAction::SetScalars(scalars), OtosAction::SetOffsets(offset)];
                lemma_prepend_actions_assoc(before, a, brain_commands(rest.skip(9)));
                assert(before.push(OtosAction::SetScalars(scalars)).push(OtosAction::SetOffsets(offset)) =~= before + a);
            }
            i = i + 9;
        } else {
            return None;
        }
    }
    proof {
        assert(decoded@.skip(len as int) =~= Seq::<u8>::empty());
        assert(acts@ + Seq::<OtosAction>::empty() =~= acts@);
    }
    Some(acts)
}

/// What the coprocessor asks of the OTOS for a command the brain queued.
pub open spec fn request_actions(r: CoproRequest) -> Seq<OtosAction> {
    match r {
        CoproRequest::CalibrateOTOS => seq![OtosAction::Calibrate],
        CoproRequest::SetOTOSPosition(p) => seq![OtosAction::SetPosition(p)],
        CoproRequest::ConfigureOTOS { offset, scalars } => seq![
            OtosAction::SetScalars(scalars),
            OtosAction::SetOffsets(offset),
        ],
    }
}

/// What the coprocessor asks of the OTOS for a sequence of queued commands.
pub open spec fn requests_actions(rs: Seq<CoproRequest>) -> Seq<OtosAction>
    decreases rs.len(),
{
    if rs.len() == 0 {
        Seq::empty()
    } else {
        requests_actions(rs.drop_last()) + request_actions(rs.last())
    }
}

proof fn lemma_command_then(r: CoproRequest, t: Seq<u8>)
    ensures
        brain_commands(request_bytes(r) + t) == prepend_actions(request_actions(r), brain_commands(t)),
{
    let x = request_bytes(r) + t;
    match r {
        CoproRequest::CalibrateOTOS => {
            assert(x.skip(1) =~= t);
        },
        CoproRequest::SetOTOSPosition(p) => {
            lemma_pose_value_round_trip(p);
            let b = pose_bytes(p);
            assert(x[1] == b[0] && x[2] == b[1] && x[3] == b[2] && x[4] == b[3] && x[5] == b[4] && x[6] == b[5]);
            assert(packet_pose(x) == p);
            assert(x.skip(7) =~= t);
        },
        CoproRequest::ConfigureOTOS { offset, scalars } => {
            lemma_pose_value_round_trip(offset);
            lemma_scalar_byte_round_trip(0, scalars.linear);
            lemma_scalar_byte_round_trip(0, scalars.angular);
            let b = pose_bytes(offset);
            assert(x[1] == b[0] && x[2] == b[1] && x[3] == b[2] && x[4] == b[3] && x[5] == b[4] && x[6] == b[5]);
            assert(x[7] == i8_byte(scalars.linear) && x[8] == i8_byte(scalars.angular));
            assert(packet_pose(x) == offset);
            assert(command_scalars(x) == scalars);
            assert(x.skip(9) =~= t);
        },
    }
}

proof fn lemma_commands_then(rs: Seq<CoproRequest>, t: Seq<u8>)
    ensures
        brain_commands(requests_bytes(rs) + t) == prepend_actions(requests_actions(rs), brain_commands(t)),
    decreases rs.len(),
{
    if rs.len() == 0 {
        assert(requests_bytes(rs) + t =~= t);
        if let Some(v) = brain_commands(t) {
            assert(Seq::<OtosAction>::empty() + v =~= v);
        }
    } else {
        let init = rs.drop_last();
        let last = rs.last();
        assert(requests_bytes(rs) + t =~= requests_bytes(init) + (request_bytes(last) + t));
        lemma_commands_then(init, request_bytes(last) + t);
        lemma_command_then(last, t);
        lemma_prepend_actions_assoc(requests_actions(init), request_actions(last), brain_commands(t));
    }
}

/// Every command the brain queues reaches the coprocessor's OTOS: the
/// coprocessor parses the brain's answer back into the actions of the
/// queued commands, in the order they were queued.
pub proof fn lemma_brain_commands_round_trip(rs: Seq<CoproRequest>)
    ensures
        brain_commands(requests_bytes(rs)) == Some(requests_actions(rs)),
{
    lemma_commands_then(rs, Seq::empty());
    assert(requests_bytes(rs) + Seq::<u8>::empty() =~= requests_bytes(rs));
    assert(requests_actions(rs) + Seq::<OtosAction>::empty() =~= requests_actions(rs));
}

/// The longest answer to a packet.
pub proof fn lemma_packet_reply_len(p: Seq<u8>, readings: Seq<u8>)
    requires
        packet_complete(p),
        readings.len() == READINGS_LEN,
    ensures
        packet_reply(p, readings).len() <= 32,
{
}

/// Answers a frame from the brain, given the bytes before its terminating
/// zero: decodes the packet, carries it out with [handle_brain_packet], and
/// returns the OTOS actions and the one frame that answers it. A frame that
/// does not decode, or whose packet is cut short, gets no answer.
pub fn answer_brain_frame(frame: &[u8], readings: &[u8; READINGS_LEN]) -> (r: Option<(Vec<OtosAction>, Vec<u8>)>)
    ensures
        match cobs_decoding(frame@.push(0u8)) {
            Some(p) => if packet_complete(p) {
                &&& r matches Some((actions, answer))
                &&& actions@ == packet_actions(p)
                &&& answer@ == frame_of(packet_reply(p, readings@))
                &&& cobs_decoding(answer@) == Some(packet_reply(p, readings@))
            } else {
                r is None
            },
            None => r is None,
        },
{
    let packet = match decode_frame(frame) {
        Ok(p) => p,
        Err(FrameError::Decode) => return None,
    };
    if !is_complete_packet(packet.as_slice()) {
        return None;
    }
    proof {
        lemma_packet_reply_len(packet@, readings@);
    }
    let mut reply = vec![0u8; 32];
    let (actions, n) = handle_brain_packet(packet.as_slice(), readings, reply.as_mut_slice());
    reply.truncate(n);
    assert(reply@ =~= packet_reply(packet@, readings@));
    let answer = encode_frame(reply.as_slice());
    Some((actions, answer))
}

/// The frame that asks the brain for the commands it has queued: `r`.
pub fn command_request_frame() -> (f: Vec<u8>)
    ensures
        f@ == frame_of(seq![COMMAND_REQUEST]),
        cobs_decoding(f@) == Some(seq![COMMAND_REQUEST]),
{
    let request = [COMMAND_REQUEST];
    assert(request@ =~= seq![COMMAND_REQUEST]);
    encode_frame(&request)
}

/// The OTOS actions in the brain's answer to a request, given the bytes
/// before its terminating zero; `None` when it does not decode or holds a
/// command that cannot be read.
pub fn brain_reply_actions(frame: &[u8]) -> (r: Option<Vec<OtosAction>>)
    ensures
        match cobs_decoding(frame@.push(0u8)) {
            Some(d) => match brain_commands(d) {
                Some(a) => r matches Some(v) && v@ == a,
                None => r is None,
            },
            None => r is None,
        },
{
    match decode_frame(frame) {
        Ok(d) => parse_brain_commands(d.as_slice()),
        Err(FrameError::Decode) => None,
    }
}

} // verus!
