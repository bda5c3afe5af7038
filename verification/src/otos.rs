//! The SparkFun optical tracking odometry sensor (OTOS) on the coprocessor:
//! its registers, the commands the brain sends for it, and the bytes written
//! to it over I2C.
//!
//! Register map: SparkFun OTOS register map (OTOS_Register_Map.pdf).
use vstd::prelude::*;

verus! {

/// The I2C address of the sensor.
pub const ADDR: u8 = 0x17;

// Product info
pub const PRODUCT_ID: u8 = 0x00;
pub const HARDWARE_VERSION: u8 = 0x01;
pub const FIRMWARE_VERSION: u8 = 0x02;
// Scalars
pub const LINEAR_SCALAR: u8 = 0x04;
pub const ANGULAR_SCALAR: u8 = 0x05;
// Control registers
pub const IMU_CALIBRATION: u8 = 0x06;
pub const RESET: u8 = 0x07;
pub const SIGNAL_PROCESS_CONFIG: u8 = 0x0E;
pub const SELF_TEST: u8 = 0x0F;
// Offsets
pub const OFFSET_X_L: u8 = 0x10;
pub const OFFSET_X_H: u8 = 0x11;
pub const OFFSET_Y_L: u8 = 0x12;
pub const OFFSET_Y_H: u8 = 0x13;
pub const OFFSET_H_L: u8 = 0x14;
pub const OFFSET_H_H: u8 = 0x15;
// Sensor status
pub const STATUS: u8 = 0x1F;
// Position
pub const POSITION_X_L: u8 = 0x20;
pub const POSITION_X_H: u8 = 0x21;
pub const POSITION_Y_L: u8 = 0x22;
pub const POSITION_Y_H: u8 = 0x23;
pub const POSITION_H_L: u8 = 0x24;
pub const POSITION_H_H: u8 = 0x25;
// Velocity
pub const VELOCITY_X_L: u8 = 0x26;
pub const VELOCITY_X_H: u8 = 0x27;
pub const VELOCITY_Y_L: u8 = 0x28;
pub const VELOCITY_Y_H: u8 = 0x29;
pub const VELOCITY_H_L: u8 = 0x2A;
pub const VELOCITY_H_H: u8 = 0x2B;
// Acceleration
pub const ACCELERATION_X_L: u8 = 0x2C;
pub const ACCELERATION_X_H: u8 = 0x2D;
pub const ACCELERATION_Y_L: u8 = 0x2E;
pub const ACCELERATION_Y_H: u8 = 0x2F;
pub const ACCELERATION_H_L: u8 = 0x30;
pub const ACCELERATION_H_H: u8 = 0x31;
// Position standard deviation
pub const POSITION_STDDEV_X_L: u8 = 0x32;
pub const POSITION_STDDEV_X_H: u8 = 0x33;
pub const POSITION_STDDEV_Y_L: u8 = 0x34;
pub const POSITION_STDDEV_Y_H: u8 = 0x35;
pub const POSITION_STDDEV_H_L: u8 = 0x36;
pub const POSITION_STDDEV_H_H: u8 = 0x37;
// Position standard deviation
pub const VELOCITY_STDDEV_X_L: u8 = 0x38;
pub const VELOCITY_STDDEV_X_H: u8 = 0x39;
pub const VELOCITY_STDDEV_Y_L: u8 = 0x3A;
pub const VELOCITY_STDDEV_Y_H: u8 = 0x3B;
pub const VELOCITY_STDDEV_H_L: u8 = 0x3C;
pub const VELOCITY_STDDEV_H_H: u8 = 0x3D;
// Position standard deviation
pub const ACCELERATION_STDDEV_X_L: u8 = 0x3E;
pub const ACCELERATION_STDDEV_X_H: u8 = 0x3F;
pub const ACCELERATION_STDDEV_Y_L: u8 = 0x40;
pub const ACCELERATION_STDDEV_Y_H: u8 = 0x41;
pub const ACCELERATION_STDDEV_H_L: u8 = 0x42;
pub const ACCELERATION_STDDEV_H_H: u8 = 0x43;
// LSM6DS0 data
pub const LSM6DSO_OUTX_L_G: u8 = 0x44;
pub const LSM6DSO_OUTX_H_G: u8 = 0x45;
pub const LSM6DSO_OUTY_L_G: u8 = 0x46;
pub const LSM6DSO_OUTY_H_G: u8 = 0x47;
pub const LSM6DSO_OUTZ_L_G: u8 = 0x48;
pub const LSM6DSO_OUTZ_H_G: u8 = 0x49;
pub const LSM6DSO_OUTX_L_A: u8 = 0x4A;
pub const LSM6DSO_OUTX_H_A: u8 = 0x4B;
pub const LSM6DSO_OUTY_L_A: u8 = 0x4C;
pub const LSM6DSO_OUTY_H_A: u8 = 0x4D;
pub const LSM6DSO_OUTZ_L_A: u8 = 0x4E;
pub const LSM6DSO_OUTZ_H_A: u8 = 0x4F;
// PAA5160 data
pub const PAA5160_BURST_0: u8 = 0x50;
pub const PAA5160_BURST_1: u8 = 0x51;
pub const PAA5160_BURST_2: u8 = 0x52;
pub const PAA5160_BURST_3: u8 = 0x53;
pub const PAA5160_BURST_4: u8 = 0x54;
pub const PAA5160_BURST_5: u8 = 0x55;
pub const PAA5160_BURST_6: u8 = 0x56;
pub const PAA5160_BURST_7: u8 = 0x57;
pub const PAA5160_BURST_8: u8 = 0x58;
pub const PAA5160_BURST_9: u8 = 0x59;
pub const PAA5160_BURST_10: u8 = 0x5A;
pub const PAA5160_BURST_11: u8 = 0x5B;
pub const PAA5160_BURST_12: u8 = 0x5C;

/// The first register of the block read from the sensor on every update.
pub const READINGS_LOWER: u8 = STATUS;
/// The last register of the block read from the sensor on every update.
pub const READINGS_UPPER: u8 = ACCELERATION_STDDEV_H_H;
/// The number of registers read on every update.
pub const READINGS_LEN: usize = 37;
/// The product ID the sensor reports.
pub const OTOS_PRODUCT_ID: u8 = 0x5F;

/// The value of a little-endian `i16` with low byte `lo` and high byte `hi`.
pub open spec fn le_i16(lo: u8, hi: u8) -> int {
    if hi < 128 {
        lo + 256 * hi
    } else {
        lo + 256 * hi - 65536
    }
}

/// The little-endian bytes of `v`.
pub open spec fn i16_le_bytes(v: i16) -> Seq<u8> {
    seq![(v as int % 256) as u8, ((v as int / 256) % 256) as u8]
}

fn i16_from_le_bytes(lo: u8, hi: u8) -> (v: i16)
    ensures
        v as int == le_i16(lo, hi),
{
    let u: u32 = lo as u32 + 256 * hi as u32;
    if hi < 128 {
        u as i16
    } else {
        (u as i32 - 65536) as i16
    }
}

fn i16_to_le_bytes(v: i16) -> (b: (u8, u8))
    ensures
        seq![b.0, b.1] == i16_le_bytes(v),
{
    let u: u32 = if v >= 0 { v as u32 } else { (v as i32 + 65536) as u32 };
    assert(u as int % 256 == v as int % 256);
    assert((u as int / 256) % 256 == (v as int / 256) % 256);
    ((u % 256) as u8, (u / 256) as u8)
}

/// The linear and angular scalar registers of the sensor.
#[derive(Clone, Copy, Debug, PartialEq, Eq, Structural)]
pub struct OtosScalars {
    pub linear: i8,
    pub angular: i8,
}

/// The value of a byte read as an `i8`.
pub open spec fn byte_as_i8(b: u8) -> int {
    if b < 128 {
        b as int
    } else {
        b - 256
    }
}

/// The byte of an `i8`.
pub open spec fn i8_byte(v: i8) -> u8 {
    (v as int % 256) as u8
}

impl OtosScalars {
    /// The scalars from their two register bytes, linear first.
    pub fn from_bytes(value: &[u8; 2]) -> (r: Self)
        ensures
            r.linear as int == byte_as_i8(value[0]),
            r.angular as int == byte_as_i8(value[1]),
    {
        let l = value[0];
        let a = value[1];
        Self {
            linear: if l < 128 { l as i8 } else { (l as i16 - 256) as i8 },
            angular: if a < 128 { a as i8 } else { (a as i16 - 256) as i8 },
        }
    }

    /// The two register bytes of the scalars, linear first.
    pub fn to_bytes(&self) -> (b: [u8; 2])
        ensures
            b@ == seq![i8_byte(self.linear), i8_byte(self.angular)],
    {
        let l: u8 = if self.linear >= 0 { self.linear as u8 } else { (self.linear as i16 + 256) as u8 };
        let a: u8 = if self.angular >= 0 { self.angular as u8 } else { (self.angular as i16 + 256) as u8 };
        let b = [l, a];
        assert(b@ =~= seq![i8_byte(self.linear), i8_byte(self.angular)]);
        b
    }
}

impl<'a> From<&'a [u8; 2]> for OtosScalars {
    /// The scalars from their two register bytes, linear first.
    fn from(value: &'a [u8; 2]) -> (r: Self) {
        OtosScalars::from_bytes(value)
    }
}

impl<'a> vstd::std_specs::convert::FromSpecImpl<&'a [u8; 2]> for OtosScalars {
    open spec fn obeys_from_spec() -> bool {
        true
    }

    open spec fn from_spec(value: &'a [u8; 2]) -> Self {
        OtosScalars { linear: byte_as_i8(value[0]) as i8, angular: byte_as_i8(value[1]) as i8 }
    }
}

/// A pose in the sensor's register units: position and heading.
#[derive(Clone, Copy, Debug, PartialEq, Eq, Structural)]
pub struct OtosPose {
    pub x: i16,
    pub y: i16,
    pub h: i16,
}

/// The six little-endian register bytes of a pose: x, y, then heading.
pub open spec fn pose_bytes(p: OtosPose) -> Seq<u8> {
    i16_le_bytes(p.x) + i16_le_bytes(p.y) + i16_le_bytes(p.h)
}

impl OtosPose {
    /// The pose from its six register bytes, little-endian x, y, heading.
    pub fn from_bytes(value: &[u8; 6]) -> (r: Self)
        ensures
            r.x as int == le_i16(value[0], value[1]),
            r.y as int == le_i16(value[2], value[3]),
            r.h as int == le_i16(value[4], value[5]),
    {
        Self {
            x: i16_from_le_bytes(value[0], value[1]),
            y: i16_from_le_bytes(value[2], value[3]),
            h: i16_from_le_bytes(value[4], value[5]),
        }
    }

    /// The six register bytes of the pose.
    pub fn to_bytes(&self) -> (b: [u8; 6])
        ensures
            b@ == pose_bytes(*self),
    {
        let (x0, x1) = i16_to_le_bytes(self.x);
        let (y0, y1) = i16_to_le_bytes(self.y);
        let (h0, h1) = i16_to_le_bytes(self.h);
        let b = [x0, x1, y0, y1, h0, h1];
        assert(b@ =~= pose_bytes(*self));
        b
    }
}

impl<'a> From<&'a [u8; 6]> for OtosPose {
    /// The pose from its six register bytes, little-endian x, y, heading.
    fn from(value: &'a [u8; 6]) -> (r: Self) {
        OtosPose::from_bytes(value)
    }
}

impl<'a> vstd::std_specs::convert::FromSpecImpl<&'a [u8; 6]> for OtosPose {
    open spec fn obeys_from_spec() -> bool {
        true
    }

    open spec fn from_spec(value: &'a [u8; 6]) -> Self {
        OtosPose {
            x: le_i16(value[0], value[1]) as i16,
            y: le_i16(value[2], value[3]) as i16,
            h: le_i16(value[4], value[5]) as i16,
        }
    }
}

/// A change the brain asks of the sensor.
#[derive(Clone, Copy, Debug, PartialEq, Eq, Structural)]
pub enum OtosAction {
    Calibrate,
    SetOffsets(OtosPose),
    SetPosition(OtosPose),
    SetScalars(OtosScalars),
}

/// The I2C write that carries out an action other than calibration: the
/// first register to write, then the values.
pub open spec fn action_write(a: OtosAction) -> Seq<u8> {
    match a {
        OtosAction::SetOffsets(p) => seq![OFFSET_X_L] + pose_bytes(p),
        OtosAction::SetPosition(p) => seq![POSITION_X_L] + pose_bytes(p),
        OtosAction::SetScalars(s) => seq![LINEAR_SCALAR, i8_byte(s.linear), i8_byte(s.angular)],
        OtosAction::Calibrate => Seq::empty(),
    }
}

impl OtosAction {
    /// The bytes to write to the sensor for this action; calibration is a
    /// sequence of its own and writes nothing here.
    pub fn i2c_write(&self) -> (w: Vec<u8>)
        ensures
            w@ == action_write(*self),
    {
        let mut w: Vec<u8> = Vec::new();
        match self {
            OtosAction::SetOffsets(p) => {
                w.push(OFFSET_X_L);
                let b = p.to_bytes();
                let mut i: usize = 0;
                while i < 6
                    invariant
                        i <= 6,
                        b@ == pose_bytes(*p),
                        w@ == seq![OFFSET_X_L] + b@.take(i as int),
                    decreases 6 - i,
                {
                    w.push(b[i]);
                    assert(b@.take(i + 1) =~= b@.take(i as int).push(b@[i as int]));
                    i = i + 1;
                }
                assert(b@.take(6) =~= b@);
            },
            OtosAction::SetPosition(p) => {
                w.push(POSITION_X_L);
                let b = p.to_bytes();
                let mut i: usize = 0;
                while i < 6
                    invariant
                        i <= 6,
                        b@ == pose_bytes(*p),
                        w@ == seq![POSITION_X_L] + b@.take(i as int),
                    decreases 6 - i,
                {
                    w.push(b[i]);
                    assert(b@.take(i + 1) =~= b@.take(i as int).push(b@[i as int]));
                    i = i + 1;
                }
                assert(b@.take(6) =~= b@);
            },
            OtosAction::SetScalars(s) => {
                let b = s.to_bytes();
                w.push(LINEAR_SCALAR);
                w.push(b[0]);
                w.push(b[1]);
                assert(w@ =~= action_write(*self));
            },
            OtosAction::Calibrate => {
                assert(w@ =~= action_write(*self));
            },
        }
        w
    }
}

/// The two little-endian bytes of an `i16` give back its value, and its
/// value gives back the bytes.
pub proof fn lemma_i16_round_trip(lo: u8, hi: u8, v: i16)
    requires
        v as int == le_i16(lo, hi),
    ensures
        i16_le_bytes(v) == seq![lo, hi],
{
    let vi = v as int;
    if hi < 128 {
        assert(vi % 256 == lo as int && (vi / 256) % 256 == hi as int) by (nonlinear_arith)
            requires
                vi == lo + 256 * hi,
                0 <= lo < 256,
                0 <= hi < 128,
        ;
    } else {
        assert(vi % 256 == lo as int && (vi / 256) % 256 == hi as int) by (nonlinear_arith)
            requires
                vi == lo + 256 * hi - 65536,
                0 <= lo < 256,
                128 <= hi < 256,
        ;
    }
    assert(i16_le_bytes(v) =~= seq![lo, hi]);
}

/// Decoding six register bytes as a pose and writing the pose back gives
/// the same bytes.
pub proof fn lemma_pose_bytes_round_trip(b: Seq<u8>, p: OtosPose)
    requires
        b.len() == 6,
        p.x as int == le_i16(b[0], b[1]),
        p.y as int == le_i16(b[2], b[3]),
        p.h as int == le_i16(b[4], b[5]),
    ensures
        pose_bytes(p) == b,
{
    lemma_i16_round_trip(b[0], b[1], p.x);
    lemma_i16_round_trip(b[2], b[3], p.y);
    lemma_i16_round_trip(b[4], b[5], p.h);
    assert(pose_bytes(p) =~= b);
}

/// Writing a pose as register bytes and decoding them gives the same pose.
pub proof fn lemma_pose_value_round_trip(p: OtosPose)
    ensures
        le_i16(pose_bytes(p)[0], pose_bytes(p)[1]) == p.x as int,
        le_i16(pose_bytes(p)[2], pose_bytes(p)[3]) == p.y as int,
        le_i16(pose_bytes(p)[4], pose_bytes(p)[5]) == p.h as int,
{
}

/// A scalar register byte read as an `i8` and written back gives the same
/// byte, and an `i8` written and read back gives the same value.
pub proof fn lemma_scalar_byte_round_trip(b: u8, v: i8)
    ensures
        i8_byte(byte_as_i8(b) as i8) == b,
        byte_as_i8(i8_byte(v)) == v as int,
{
}

/// How often the driver polls while waiting for the sensor, in milliseconds.
pub const PROBE_INTERVAL_MS: u64 = 1000;
/// How often the driver updates its readings and polls calibration, in milliseconds.
pub const UPDATE_INTERVAL_MS: u64 = 5;
/// How many samples the IMU calibration takes.
pub const CALIBRATION_SAMPLES: u8 = 255;

/// Where the OTOS driver stands.
#[derive(Debug, Clone, PartialEq, Eq)]
pub enum OtosPhase {
    /// Reading the product ID to see whether the sensor answers; at start-up
    /// a calibration follows, otherwise serving requests.
    Probe { startup: bool },
    /// Waiting before probing again.
    ProbePause { startup: bool },
    /// Starting an IMU calibration; `reply` when a request asked for it.
    CalibrationStart { reply: bool },
    /// Reading how many calibration samples are left.
    CalibrationPoll { reply: bool },
    /// Waiting before looking at the samples left again.
    CalibrationWait { reply: bool, samples: u8 },
    /// Resetting the position registers after calibrating.
    CalibrationResetPosition { reply: bool },
    /// Resetting the scalar registers after calibrating.
    CalibrationResetScalars { reply: bool },
    /// Looking for a request.
    Serve,
    /// Writing the registers that a request changes.
    Apply { action: OtosAction },
    /// Answering a request; then probing the sensor when it failed to take
    /// a write, else updating the readings.
    Reply { ok: bool, probe_after: bool },
    /// Reading the block of sensor registers.
    ReadReadings,
    /// Handing on the registers read.
    Publish { readings: Vec<u8> },
    /// Waiting for the next update.
    Pause,
}

/// The next thing the OTOS driver needs done.
#[derive(Debug, Clone, PartialEq, Eq)]
pub enum OtosStep {
    /// Write these bytes to the sensor.
    Write(Vec<u8>),
    /// Write these bytes to the sensor, then read this many bytes back.
    WriteRead(Vec<u8>, usize),
    /// Wait for the next tick of a ticker with this period in milliseconds.
    Tick(u64),
    /// Look for a request, without waiting.
    Poll,
    /// Answer the request being served: `true` for success.
    Respond(bool),
    /// Store these register bytes as the latest readings.
    Store(Vec<u8>),
}

/// What came of an [OtosStep].
#[derive(Debug, Clone, PartialEq, Eq)]
pub enum OtosEvent {
    /// The wait, answer or store is done.
    Done,
    /// The write succeeded (`true`) or failed.
    Wrote(bool),
    /// The bytes read back, or `None` when the transfer failed.
    Read(Option<Vec<u8>>),
    /// The request found, if any.
    Polled(Option<OtosAction>),
}

/// Whether `s` is what phase `p` asks to be done.
pub open spec fn is_otos_step(p: OtosPhase, s: OtosStep) -> bool {
    match p {
        OtosPhase::Probe { .. } => s matches OtosStep::WriteRead(w, 1) && w@ == seq![PRODUCT_ID],
        OtosPhase::ProbePause { .. } => s == OtosStep::Tick(PROBE_INTERVAL_MS),
        OtosPhase::CalibrationStart { .. } => s matches OtosStep::Write(w) && w@ == seq![IMU_CALIBRATION, CALIBRATION_SAMPLES],
        OtosPhase::CalibrationPoll { .. } => s matches OtosStep::WriteRead(w, 1) && w@ == seq![IMU_CALIBRATION],
        OtosPhase::CalibrationWait { .. } => s == OtosStep::Tick(UPDATE_INTERVAL_MS),
        OtosPhase::CalibrationResetPosition { .. } => s matches OtosStep::Write(w) && w@ == seq![
            POSITION_X_L,
            0u8,
            0u8,
            0u8,
            0u8,
            0u8,
            0u8,
        ],
        OtosPhase::CalibrationResetScalars { .. } => s matches OtosStep::Write(w) && w@ == seq![LINEAR_SCALAR, 0u8, 0u8],
        OtosPhase::Serve => s == OtosStep::Poll,
        OtosPhase::Apply { action } => s matches OtosStep::Write(w) && w@ == action_write(action),
        OtosPhase::Reply { ok, .. } => s == OtosStep::Respond(ok),
        OtosPhase::ReadReadings => s matches OtosStep::WriteRead(w, n) && w@ == seq![READINGS_LOWER] && n == READINGS_LEN,
        OtosPhase::Publish { readings } => s matches OtosStep::Store(r) && r@ == readings@,
        OtosPhase::Pause => s == OtosStep::Tick(UPDATE_INTERVAL_MS),
    }
}

/// Where a calibration ends: back to serving after the start-up one, else
/// answering the request that asked for it.
pub open spec fn calibration_done(reply: bool, ok: bool) -> OtosPhase {
    if reply {
        OtosPhase::Reply { ok, probe_after: false }
    } else {
        OtosPhase::Serve
    }
}

/// Where the driver goes on an event. Events that do not answer the
/// phase's step leave it where it is.
pub open spec fn otos_transition(p: OtosPhase, e: OtosEvent) -> OtosPhase {
    match (p, e) {
        (OtosPhase::Probe { startup }, OtosEvent::Read(r)) => if r matches Some(b) && b@.len() >= 1 && b@[0]
            == OTOS_PRODUCT_ID {
            if startup {
                OtosPhase::CalibrationStart { reply: false }
            } else {
                OtosPhase::Serve
            }
        } else {
            OtosPhase::ProbePause { startup }
        },
        (OtosPhase::ProbePause { startup }, OtosEvent::Done) => OtosPhase::Probe { startup },
        (OtosPhase::CalibrationStart { reply }, OtosEvent::Wrote(ok)) => if ok {
            OtosPhase::CalibrationPoll { reply }
        } else {
            calibration_done(reply, false)
        },
        (OtosPhase::CalibrationPoll { reply }, OtosEvent::Read(r)) => match r {
            Some(b) => if b@.len() >= 1 {
                OtosPhase::CalibrationWait { reply, samples: b@[0] }
            } else {
                calibration_done(reply, false)
            },
            None => calibration_done(reply, false),
        },
        (OtosPhase::CalibrationWait { reply, samples }, OtosEvent::Done) => if samples != 0 {
            OtosPhase::CalibrationPoll { reply }
        } else {
            OtosPhase::CalibrationResetPosition { reply }
        },
        (OtosPhase::CalibrationResetPosition { reply }, OtosEvent::Wrote(ok)) => if ok {
            OtosPhase::CalibrationResetScalars { reply }
        } else {
            calibration_done(reply, false)
        },
        (OtosPhase::CalibrationResetScalars { reply }, OtosEvent::Wrote(ok)) => calibration_done(reply, ok),
        (OtosPhase::Serve, OtosEvent::Polled(req)) => match req {
            None => OtosPhase::ReadReadings,
            Some(OtosAction::Calibrate) => OtosPhase::CalibrationStart { reply: true },
            Some(action) => OtosPhase::Apply { action },
        },
        (OtosPhase::Apply { .. }, OtosEvent::Wrote(ok)) => OtosPhase::Reply { ok, probe_after: !ok },
        (OtosPhase::Reply { probe_after, .. }, OtosEvent::Done) => if probe_after {
            OtosPhase::Probe { startup: false }
        } else {
            OtosPhase::ReadReadings
        },
        (OtosPhase::ReadReadings, OtosEvent::Read(r)) => match r {
            Some(b) => if b@.len() == READINGS_LEN {
                OtosPhase::Publish { readings: b }
            } else {
                OtosPhase::Probe { startup: false }
            },
            None => OtosPhase::Probe { startup: false },
        },
        (OtosPhase::Publish { .. }, OtosEvent::Done) => OtosPhase::Pause,
        (OtosPhase::Pause, OtosEvent::Done) => OtosPhase::Serve,
        (p, _) => p,
    }
}

/// The bytes of a register write, as a `Vec`.
fn register_bytes(bytes: &[u8]) -> (v: Vec<u8>)
    ensures
        v@ == bytes@,
{
    let mut v: Vec<u8> = Vec::new();
    let mut i: usize = 0;
    while i < bytes.len()
        invariant
            i <= bytes@.len(),
            v@ == bytes@.take(i as int),
        decreases bytes@.len() - i,
    {
        v.push(bytes[i]);
        assert(bytes@.take(i + 1) =~= bytes@.take(i as int).push(bytes@[i as int]));
        i = i + 1;
    }
    assert(bytes@.take(bytes@.len() as int) =~= bytes@);
    v
}

/// The OTOS driver: waits for the sensor to answer, calibrates it, then
/// every tick serves one request from the brain and reads the sensor's
/// registers. A failed transfer sends it back to waiting for the sensor.
pub struct OtosDriver {
    phase: OtosPhase,
}

impl OtosDriver {
    /// Where the driver stands.
    pub closed spec fn spec_phase(&self) -> OtosPhase {
        self.phase
    }

    /// A driver that starts by waiting for the sensor.
    pub fn new() -> (r: Self)
        ensures
            r.spec_phase() == (OtosPhase::Probe { startup: true }),
    {
        OtosDriver { phase: OtosPhase::Probe { startup: true } }
    }

    /// The next thing to do.
    pub fn step(&self) -> (s: OtosStep)
        ensures
            is_otos_step(self.spec_phase(), s),
    {
        match &self.phase {
            OtosPhase::Probe { .. } => {
                let w = register_bytes(&[PRODUCT_ID]);
                assert(w@ =~= seq![PRODUCT_ID]);
                OtosStep::WriteRead(w, 1)
            },
            OtosPhase::ProbePause { .. } => OtosStep::Tick(PROBE_INTERVAL_MS),
            OtosPhase::CalibrationStart { .. } => {
                let w = register_bytes(&[IMU_CALIBRATION, CALIBRATION_SAMPLES]);
                assert(w@ =~= seq![IMU_CALIBRATION, CALIBRATION_SAMPLES]);
                OtosStep::Write(w)
            },
            OtosPhase::CalibrationPoll { .. } => {
                let w = register_bytes(&[IMU_CALIBRATION]);
                assert(w@ =~= seq![IMU_CALIBRATION]);
                OtosStep::WriteRead(w, 1)
            },
            OtosPhase::CalibrationWait { .. } => OtosStep::Tick(UPDATE_INTERVAL_MS),
            OtosPhase::CalibrationResetPosition { .. } => {
                let w = register_bytes(&[POSITION_X_L, 0, 0, 0, 0, 0, 0]);
                assert(w@ =~= seq![POSITION_X_L, 0u8, 0u8, 0u8, 0u8, 0u8, 0u8]);
                OtosStep::Write(w)
            },
            OtosPhase::CalibrationResetScalars { .. } => {
                let w = register_bytes(&[LINEAR_SCALAR, 0, 0]);
                assert(w@ =~= seq![LINEAR_SCALAR, 0u8, 0u8]);
                OtosStep::Write(w)
            },
            OtosPhase::Serve => OtosStep::Poll,
            OtosPhase::Apply { action } => OtosStep::Write(action.i2c_write()),
            OtosPhase::Reply { ok, .. } => OtosStep::Respond(*ok),
            OtosPhase::ReadReadings => {
                let w = register_bytes(&[READINGS_LOWER]);
                assert(w@ =~= seq![READINGS_LOWER]);
                OtosStep::WriteRead(w, READINGS_LEN)
            },
            OtosPhase::Publish { readings } => OtosStep::Store(readings.clone()),
            OtosPhase::Pause => OtosStep::Tick(UPDATE_INTERVAL_MS),
        }
    }

    /// Takes in what came of the last step, and moves on.
    pub fn on_event(&mut self, event: OtosEvent)
        ensures
            final(self).spec_phase() == otos_transition(old(self).spec_phase(), event),
            old(self).spec_phase() is ProbePause && event == OtosEvent::Done ==> final(self).spec_phase() == (
            OtosPhase::Probe { startup: old(self).spec_phase()->ProbePause_startup }),
    {
        let next: Option<OtosPhase> = Some(match (&self.phase, event) {
            (OtosPhase::Probe { startup }, OtosEvent::Read(r)) => {
                let answered = match &r {
                    Some(b) => b.len() >= 1 && b[0] == OTOS_PRODUCT_ID,
                    None => false,
                };
                if answered {
                    if *startup {
                        OtosPhase::CalibrationStart { reply: false }
                    } else {
                        OtosPhase::Serve
                    }
                } else {
                    OtosPhase::ProbePause { startup: *startup }
                }
            },
            (OtosPhase::ProbePause { startup }, OtosEvent::Done) => OtosPhase::Probe { startup: *startup },
            (OtosPhase::CalibrationStart { reply }, OtosEvent::Wrote(ok)) => if ok {
                OtosPhase::CalibrationPoll { reply: *reply }
            } else {
                Self::calibration_done(*reply, false)
            },
            (OtosPhase::CalibrationPoll { reply }, OtosEvent::Read(r)) => match r {
                Some(b) => if b.len() >= 1 {
                    OtosPhase::CalibrationWait { reply: *reply, samples: b[0] }
                } else {
                    Self::calibration_done(*reply, false)
                },
                None => Self::calibration_done(*reply, false),
            },
            (OtosPhase::CalibrationWait { reply, samples }, OtosEvent::Done) => if *samples != 0 {
                OtosPhase::CalibrationPoll { reply: *reply }
            } else {
                OtosPhase::CalibrationResetPosition { reply: *reply }
            },
            (OtosPhase::CalibrationResetPosition { reply }, OtosEvent::Wrote(ok)) => if ok {
                OtosPhase::CalibrationResetScalars { reply: *reply }
            } else {
                Self::calibration_done(*reply, false)
            },
            (OtosPhase::CalibrationResetScalars { reply }, OtosEvent::Wrote(ok)) => Self::calibration_done(*reply, ok),
            (OtosPhase::Serve, OtosEvent::Polled(req)) => match req {
                None => OtosPhase::ReadReadings,
                Some(OtosAction::Calibrate) => OtosPhase::CalibrationStart { reply: true },
                Some(action) => OtosPhase::Apply { action },
            },
            (OtosPhase::Apply { .. }, OtosEvent::Wrote(ok)) => OtosPhase::Reply { ok, probe_after: !ok },
            (OtosPhase::Reply { probe_after, .. }, OtosEvent::Done) => if *probe_after {
                OtosPhase::Probe { startup: false }
            } else {
                OtosPhase::ReadReadings
            },
            (OtosPhase::ReadReadings, OtosEvent::Read(r)) => match r {
                Some(b) => if b.len() == READINGS_LEN {
                    OtosPhase::Publish { readings: b }
                } else {
                    OtosPhase::Probe { startup: false }
                },
                None => OtosPhase::Probe { startup: false },
            },
            (OtosPhase::Publish { .. }, OtosEvent::Done) => OtosPhase::Pause,
            (OtosPhase::Pause, OtosEvent::Done) => OtosPhase::Serve,
            _ => return,
        });
        match next {
            Some(p) => self.phase = p,
            None => {},
        }
    }

    fn calibration_done(reply: bool, ok: bool) -> (p: OtosPhase)
        ensures
            p == calibration_done(reply, ok),
    {
        if reply {
            OtosPhase::Reply { ok, probe_after: false }
        } else {
            OtosPhase::Serve
        }
    }
}

/// Every request gets one answer: a calibration asked for by the brain and
/// a register write each end in a reply, and a failed write or read while
/// serving sends the driver back to waiting for the sensor.
pub proof fn lemma_otos_recovers(action: OtosAction, ok: bool)
    requires
        action != OtosAction::Calibrate,
    ensures
        otos_transition(OtosPhase::Serve, OtosEvent::Polled(Some(action))) == (OtosPhase::Apply { action }),
        otos_transition(OtosPhase::Apply { action }, OtosEvent::Wrote(ok)) == (OtosPhase::Reply {
            ok,
            probe_after: !ok,
        }),
        otos_transition(OtosPhase::Reply { ok: false, probe_after: true }, OtosEvent::Done) == (OtosPhase::Probe {
            startup: false,
        }),
        otos_transition(OtosPhase::ReadReadings, OtosEvent::Read(None)) == (OtosPhase::Probe { startup: false }),
        otos_transition(OtosPhase::CalibrationStart { reply: true }, OtosEvent::Wrote(false)) == (OtosPhase::Reply {
            ok: false,
            probe_after: false,
        }),
        otos_transition(OtosPhase::CalibrationResetScalars { reply: true }, OtosEvent::Wrote(ok)) == (
        OtosPhase::Reply { ok, probe_after: false }),
{
}

/// The readings handed on are only ever a successful read of the whole
/// block of sensor registers, and the driver stores exactly them.
pub proof fn lemma_readings_from_full_read(p: OtosPhase, e: OtosEvent, s: OtosStep)
    requires
        otos_transition(p, e) is Publish,
        !(p is Publish),
        is_otos_step(otos_transition(p, e), s),
    ensures
        p == OtosPhase::ReadReadings,
        e matches OtosEvent::Read(Some(b)) && b@.len() == READINGS_LEN && otos_transition(p, e) == (
        OtosPhase::Publish { readings: b }),
        s matches OtosStep::Store(r) && r@ == otos_transition(p, e)->readings@,
{
}

/// Whether a phase belongs to serving rather than to start-up: probing and
/// pausing after start-up, and a calibration only when a request asked for it.
pub open spec fn serving_phase(p: OtosPhase) -> bool {
    match p {
        OtosPhase::Probe { startup } => !startup,
        OtosPhase::ProbePause { startup } => !startup,
        OtosPhase::CalibrationStart { reply } => reply,
        OtosPhase::CalibrationPoll { reply } => reply,
        OtosPhase::CalibrationWait { reply, .. } => reply,
        OtosPhase::CalibrationResetPosition { reply } => reply,
        OtosPhase::CalibrationResetScalars { reply } => reply,
        _ => true,
    }
}

/// Where the driver ends up after a sequence of events.
pub open spec fn otos_run(p: OtosPhase, events: Seq<OtosEvent>) -> OtosPhase
    decreases events.len(),
{
    if events.len() == 0 {
        p
    } else {
        otos_run(otos_transition(p, events[0]), events.drop_first())
    }
}

/// Once serving, the driver never goes back to start-up: a failed transfer
/// sends it to probing, and pausing between probes keeps it there, so when
/// the sensor answers again it serves on without calibrating; a calibration
/// starts only when a request asks for one.
pub proof fn lemma_serving_never_recalibrates(p: OtosPhase, e: OtosEvent)
    requires
        serving_phase(p),
    ensures
        serving_phase(otos_transition(p, e)),
        otos_transition(p, e) is CalibrationStart && !(p is CalibrationStart) ==> p == OtosPhase::Serve && e
            == OtosEvent::Polled(Some(OtosAction::Calibrate)),
        p is ProbePause && e == OtosEvent::Done ==> otos_transition(p, e) == (OtosPhase::Probe {
            startup: false,
        }),
        p is Probe && e is Read && e->Read_0 is Some && (e->Read_0->0)@.len() >= 1 && (e->Read_0->0)@[0]
            == OTOS_PRODUCT_ID ==> otos_transition(p, e) == OtosPhase::Serve,
{
}

/// Over any sequence of events, a serving driver stays serving, and so
/// never runs the start-up calibration again.
pub proof fn lemma_serving_run(p: OtosPhase, events: Seq<OtosEvent>)
    requires
        serving_phase(p),
    ensures
        serving_phase(otos_run(p, events)),
        !(otos_run(p, events) matches OtosPhase::CalibrationStart { reply } && !reply),
    decreases events.len(),
{
    if events.len() > 0 {
        lemma_serving_never_recalibrates(p, events[0]);
        lemma_serving_run(otos_transition(p, events[0]), events.drop_first());
    }
}

} // verus!
