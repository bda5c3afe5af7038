//! Driving an RPLIDAR over a serial line: finding a response descriptor in
//! the incoming bytes, and the session that resets the LIDAR, waits for it to
//! report good health, starts a scan and reads its measurements.
//!
//! The serial I/O and the timers stay with the caller: a [LidarSession]
//! names the next thing to do as a [LidarAction], and is told what came of
//! it by a [LidarEvent].
use vstd::prelude::*;
use crate::protocol::{
    BUFFER_SIZE, ParsingState, Request, Response, ResponseDescriptor, ResponseType, request_frame,
    response_descriptor_from, lemma_descriptor_prefix_not_invalid, lemma_descriptor_tag_bytes,
    lemma_response_descriptor_unfinished,
};
use crate::protocol::bits::BitCursor;
use crate::protocol::get_health::{GetHealthRequest, GetHealthResponse, HealthStatus, health_response_from};
use crate::protocol::reset::ResetRequest;
use crate::protocol::scan::{ScanRequest, ScanResponse, scan_response_from};

verus! {

/// Whether the bytes of a candidate descriptor, still unfinished, need
/// `wanted` more.
pub open spec fn search_consistent(read: Seq<u8>, wanted: nat) -> bool {
    &&& wanted >= 1
    &&& read.len() + wanted <= ResponseDescriptor::SIZE
    &&& read.len() > 0 ==> response_descriptor_from(read, 0) == ParsingState::<ResponseDescriptor>::Unfinished(
        wanted as usize,
    )
}

/// A parse of the first bytes of a stream that is unfinished asks for the
/// rest of the seven descriptor bytes.
pub proof fn lemma_descriptor_unfinished_len(read: Seq<u8>, n: usize)
    requires
        response_descriptor_from(read, 0) == ParsingState::<ResponseDescriptor>::Unfinished(n),
    ensures
        read.len() + n == ResponseDescriptor::SIZE,
        n >= 1,
{
}

/// Where a search for a descriptor of kind `kind` settles with the bytes
/// `candidate`: a descriptor of that kind is returned; one of another kind
/// is dropped; bytes that may still start a descriptor are kept, with how
/// many more it needs; and bytes that cannot are dropped one at a time from
/// the front, so that a descriptor that starts later is still found.
pub open spec fn search_settle(candidate: Seq<u8>, kind: ResponseType) -> (
    Option<ResponseDescriptor>,
    Seq<u8>,
    nat,
)
    decreases candidate.len(),
{
    if candidate.len() == 0 {
        (None, Seq::empty(), 1)
    } else {
        match response_descriptor_from(candidate, 0) {
            ParsingState::Done(rd) => if rd.response_type == kind {
                (Some(rd), Seq::empty(), 1)
            } else {
                (None, Seq::empty(), 1)
            },
            ParsingState::Unfinished(n) => (None, candidate, n as nat),
            ParsingState::Invalid => search_settle(candidate.drop_first(), kind),
        }
    }
}

/// What a search for a descriptor of kind `kind` that holds the bytes
/// `read` does with the bytes `bytes` read next: the descriptor it returns,
/// and the bytes it then holds and how many it asks for next.
pub open spec fn search_feed(read: Seq<u8>, bytes: Seq<u8>, kind: ResponseType) -> (
    Option<ResponseDescriptor>,
    Seq<u8>,
    nat,
) {
    search_settle(read + bytes, kind)
}

/// Where a search settles, it holds bytes that may start a descriptor and
/// asks for the rest of them.
pub proof fn lemma_search_settle_consistent(candidate: Seq<u8>, kind: ResponseType)
    ensures
        search_consistent(search_settle(candidate, kind).1, search_settle(candidate, kind).2),
    decreases candidate.len(),
{
    if candidate.len() > 0 {
        match response_descriptor_from(candidate, 0) {
            ParsingState::Unfinished(n) => lemma_descriptor_unfinished_len(candidate, n),
            ParsingState::Invalid => lemma_search_settle_consistent(candidate.drop_first(), kind),
            _ => {},
        }
    }
}

/// Watches the bytes coming from the RPLIDAR for a response descriptor of
/// one kind, reading as many bytes at a time as the descriptor still needs.
/// Bytes that cannot start a descriptor are dropped one at a time, so the
/// search re-aligns past junk; descriptors of another kind are dropped whole.
pub struct DescriptorSearch {
    kind: ResponseType,
    read: Vec<u8>,
    wanted: usize,
}

impl DescriptorSearch {
    /// The kind of descriptor searched for.
    pub closed spec fn spec_kind(&self) -> ResponseType {
        self.kind
    }

    /// The bytes of the current candidate descriptor.
    pub closed spec fn spec_read(&self) -> Seq<u8> {
        self.read@
    }

    /// How many bytes to read next.
    pub closed spec fn spec_wanted(&self) -> nat {
        self.wanted as nat
    }

    pub open spec fn wf(&self) -> bool {
        search_consistent(self.spec_read(), self.spec_wanted())
    }

    /// Starts searching for a descriptor of the given kind, one byte first.
    pub fn new(kind: ResponseType) -> (r: Self)
        ensures
            r.spec_kind() == kind,
            r.spec_read() == Seq::<u8>::empty(),
            r.spec_wanted() == 1,
            r.wf(),
    {
        DescriptorSearch { kind, read: Vec::new(), wanted: 1 }
    }

    /// How many bytes to read next.
    pub fn wanted(&self) -> (r: usize)
        ensures
            r == self.spec_wanted(),
    {
        self.wanted
    }

    /// Takes in the bytes read. Returns the descriptor once the bytes held
    /// form one of the kind searched for; keeps them and asks for the rest
    /// while they may start a descriptor; drops their first byte while they
    /// cannot; and drops a descriptor of another kind.
    pub fn feed(&mut self, bytes: &[u8]) -> (r: Option<ResponseDescriptor>)
        requires
            old(self).wf(),
            bytes@.len() == old(self).spec_wanted(),
        ensures
            final(self).wf(),
            final(self).spec_kind() == old(self).spec_kind(),
            search_feed(old(self).spec_read(), bytes@, old(self).spec_kind()) == (
                r,
                final(self).spec_read(),
                final(self).spec_wanted(),
            ),
    {
        let ghost candidate = self.read@ + bytes@;
        let mut i: usize = 0;
        let ghost start = self.read@;
        while i < bytes.len()
            invariant
                i <= bytes.len(),
                self.read@ == start + bytes@.take(i as int),
                self.kind == old(self).kind,
            decreases bytes.len() - i,
        {
            self.read.push(bytes[i]);
            assert(bytes@.take(i + 1) =~= bytes@.take(i as int).push(bytes@[i as int]));
            i = i + 1;
        }
        assert(bytes@.take(bytes@.len() as int) =~= bytes@);
        assert(self.read@ == candidate);
        proof {
            lemma_search_settle_consistent(candidate, self.kind);
        }
        loop
            invariant
                self.kind == old(self).kind,
                candidate == old(self).spec_read() + bytes@,
                search_settle(self.read@, self.kind) == search_settle(candidate, self.kind),
                search_consistent(search_settle(candidate, self.kind).1, search_settle(candidate, self.kind).2),
            decreases self.read@.len(),
        {
            if self.read.len() == 0 {
                assert(self.read@ =~= Seq::<u8>::empty());
                self.wanted = 1;
                return None;
            }
            let ghost held = self.read@;
            let parsed = {
                let mut reader = BitCursor::new(self.read.as_slice());
                ResponseDescriptor::parse(&mut reader)
            };
            match parsed {
                ParsingState::Done(rd) => {
                    assert(search_settle(held, self.kind) == (if rd.response_type == self.kind {
                        (Some(rd), Seq::<u8>::empty(), 1nat)
                    } else {
                        (None, Seq::<u8>::empty(), 1nat)
                    }));
                    self.read = Vec::new();
                    self.wanted = 1;
                    return if rd.response_type == self.kind {
                        Some(rd)
                    } else {
                        None
                    };
                },
                ParsingState::Unfinished(rest) => {
                    proof {
                        lemma_descriptor_unfinished_len(self.read@, rest);
                    }
                    assert(search_settle(held, self.kind) == (None::<ResponseDescriptor>, held, rest as nat));
                    self.wanted = rest;
                    return None;
                },
                ParsingState::Invalid => {
                    let ghost before = self.read@;
                    let _ = self.read.remove(0);
                    assert(self.read@ =~= before.drop_first());
                },
            }
        }
    }
}

/// How long to wait between health requests, in milliseconds.
pub const HEALTH_RETRY_MS: u64 = 1000;
/// How long to wait for a response descriptor, in milliseconds.
pub const DESCRIPTOR_TIMEOUT_MS: u64 = 1000;
/// How long to wait for the first scan data after starting a scan, in milliseconds.
pub const SCAN_START_TIMEOUT_MS: u64 = 5000;
/// How long to wait for each scan measurement, in milliseconds.
pub const SCAN_READ_TIMEOUT_MS: u64 = 1000;
/// How many measurements in a row may fail to parse before the LIDAR is reset.
pub const MAX_SCAN_ERRORS: u8 = 5;

/// Where a [LidarSession] stands.
#[derive(Debug, Clone, Copy, PartialEq, Eq, Structural)]
pub enum LidarPhase {
    /// Sending a reset request.
    Resetting,
    /// Waiting before asking for the health status.
    HealthPause,
    /// Sending a health request.
    HealthRequest,
    /// Waiting for the health response descriptor.
    HealthDescriptor,
    /// Reading a health response of this many bytes.
    HealthResponse { length: usize },
    /// Sending a scan request.
    ScanRequest,
    /// Waiting for the scan response descriptor.
    ScanDescriptor,
    /// Waiting for the LIDAR to start sending measurements of this many bytes.
    ScanStart { length: usize },
    /// Reading measurements of this many bytes, after `errors` failed ones in a row.
    Streaming { length: usize, errors: u8 },
    /// Handing on a measurement, then reading the next.
    Publishing { length: usize, measurement: ScanResponse },
}

/// The next thing a [LidarSession] needs done.
#[derive(Debug, Clone, PartialEq, Eq)]
pub enum LidarAction {
    /// Write these bytes to the LIDAR.
    Send(Vec<u8>),
    /// Wait this many milliseconds.
    Sleep(u64),
    /// Search the incoming bytes for a descriptor of this kind (see
    /// [DescriptorSearch]), giving up after this many milliseconds.
    AwaitDescriptor(ResponseType, u64),
    /// Read exactly this many bytes.
    Read(usize),
    /// Wait until bytes arrive, giving up after this many milliseconds.
    AwaitData(u64),
    /// Read exactly this many bytes, giving up after this many milliseconds.
    ReadWithTimeout(usize, u64),
    /// Hand on this measurement.
    Publish(ScanResponse),
}

/// What came of a [LidarAction].
#[derive(Debug, Clone, PartialEq, Eq)]
pub enum LidarEvent {
    /// The bytes were written, or the wait is over, or the measurement was handed on.
    Done,
    /// The descriptor searched for, or `None` when the search timed out.
    Descriptor(Option<ResponseDescriptor>),
    /// The bytes read.
    Bytes(Vec<u8>),
    /// Reading failed.
    ReadError,
    /// The wait for bytes timed out.
    TimedOut,
}

/// Whether `a` is the action that phase `p` asks for.
pub open spec fn is_phase_action(p: LidarPhase, a: LidarAction) -> bool {
    match p {
        LidarPhase::Resetting => a matches LidarAction::Send(v) && v@ == request_frame(0x40, 0, Seq::empty()),
        LidarPhase::HealthPause => a == LidarAction::Sleep(HEALTH_RETRY_MS),
        LidarPhase::HealthRequest => a matches LidarAction::Send(v) && v@ == request_frame(0x52, 0, Seq::empty()),
        LidarPhase::HealthDescriptor => a == LidarAction::AwaitDescriptor(ResponseType::GetHealth, DESCRIPTOR_TIMEOUT_MS),
        LidarPhase::HealthResponse { length } => a == LidarAction::Read(length),
        LidarPhase::ScanRequest => a matches LidarAction::Send(v) && v@ == request_frame(0x20, 0, Seq::empty()),
        LidarPhase::ScanDescriptor => a == LidarAction::AwaitDescriptor(ResponseType::Scan, DESCRIPTOR_TIMEOUT_MS),
        LidarPhase::ScanStart { .. } => a == LidarAction::AwaitData(SCAN_START_TIMEOUT_MS),
        LidarPhase::Streaming { length, .. } => a == LidarAction::ReadWithTimeout(length, SCAN_READ_TIMEOUT_MS),
        LidarPhase::Publishing { measurement, .. } => a == LidarAction::Publish(measurement),
    }
}

/// Where a phase goes on an event. Events that do not answer the phase's
/// action leave it where it is.
pub open spec fn lidar_transition(p: LidarPhase, e: LidarEvent) -> LidarPhase {
    match (p, e) {
        (LidarPhase::Resetting, LidarEvent::Done) => LidarPhase::HealthPause,
        (LidarPhase::HealthPause, LidarEvent::Done) => LidarPhase::HealthRequest,
        (LidarPhase::HealthRequest, LidarEvent::Done) => LidarPhase::HealthDescriptor,
        (LidarPhase::HealthDescriptor, LidarEvent::Descriptor(Some(rd))) => LidarPhase::HealthResponse {
            length: rd.length,
        },
        (LidarPhase::HealthDescriptor, LidarEvent::Descriptor(None)) => LidarPhase::HealthPause,
        (LidarPhase::HealthResponse { .. }, LidarEvent::Bytes(b)) => match health_response_from(b@, 0) {
            ParsingState::Done(h) => if h.status == HealthStatus::Error {
                LidarPhase::HealthPause
            } else {
                LidarPhase::ScanRequest
            },
            _ => LidarPhase::HealthPause,
        },
        (LidarPhase::HealthResponse { .. }, LidarEvent::ReadError) => LidarPhase::HealthPause,
        (LidarPhase::ScanRequest, LidarEvent::Done) => LidarPhase::ScanDescriptor,
        (LidarPhase::ScanDescriptor, LidarEvent::Descriptor(Some(rd))) => LidarPhase::ScanStart {
            length: rd.length,
        },
        (LidarPhase::ScanDescriptor, LidarEvent::Descriptor(None)) => LidarPhase::Resetting,
        (LidarPhase::ScanStart { length }, LidarEvent::Done) => LidarPhase::Streaming { length, errors: 0 },
        (LidarPhase::ScanStart { .. }, LidarEvent::TimedOut) => LidarPhase::Resetting,
        (LidarPhase::Streaming { length, errors }, LidarEvent::Bytes(b)) => match scan_response_from(b@, 0) {
            ParsingState::Done(m) => if m.distance_q2 != 0 {
                LidarPhase::Publishing { length, measurement: m }
            } else {
                LidarPhase::Streaming { length, errors: 0 }
            },
            _ => if errors + 1 > MAX_SCAN_ERRORS {
                LidarPhase::Resetting
            } else {
                LidarPhase::Streaming { length, errors: (errors + 1) as u8 }
            },
        },
        (LidarPhase::Streaming { .. }, LidarEvent::ReadError) => p,
        (LidarPhase::Streaming { .. }, LidarEvent::TimedOut) => LidarPhase::Resetting,
        (LidarPhase::Publishing { length, .. }, LidarEvent::Done) => LidarPhase::Streaming { length, errors: 0 },
        _ => p,
    }
}

/// A phase the session can be in: read lengths fit the I/O buffer, and no
/// more failed measurements in a row than are tolerated.
pub open spec fn phase_wf(p: LidarPhase) -> bool {
    match p {
        LidarPhase::HealthResponse { length } => length <= BUFFER_SIZE,
        LidarPhase::ScanStart { length } => length <= BUFFER_SIZE,
        LidarPhase::Streaming { length, errors } => length <= BUFFER_SIZE && errors <= MAX_SCAN_ERRORS,
        LidarPhase::Publishing { length, .. } => length <= BUFFER_SIZE,
        _ => true,
    }
}

/// Whether an event can be taken in: a descriptor must announce responses
/// that fit the I/O buffer.
pub open spec fn event_acceptable(e: LidarEvent) -> bool {
    e matches LidarEvent::Descriptor(Some(rd)) ==> rd.length <= BUFFER_SIZE
}

fn serialized<R: Request>(request: &R) -> (v: Vec<u8>)
    ensures
        v@ == request_frame(R::spec_tag(), R::spec_max_payload_length(), request.spec_payload()),
{
    let mut buf = vec![0u8; BUFFER_SIZE];
    proof {
        assert(crate::protocol::request_max_len(R::spec_max_payload_length()) <= 259);
    }
    if R::max_length() > BUFFER_SIZE {
        buf = vec![0u8; R::max_length()];
    }
    let n = request.serialize(buf.as_mut_slice());
    let ghost frame = request_frame(R::spec_tag(), R::spec_max_payload_length(), request.spec_payload());
    assert(n <= buf@.len());
    buf.truncate(n);
    assert(buf@ =~= frame);
    buf
}

/// The RPLIDAR session: reset the LIDAR, ask for its health until it
/// reports good health or a warning, start a scan, then read measurements,
/// handing on those with a distance. A scan that does not start, a read that
/// times out, or more than [MAX_SCAN_ERRORS] measurements in a row that do
/// not parse, reset the LIDAR and start over.
pub struct LidarSession {
    phase: LidarPhase,
}

impl LidarSession {
    /// Where the session stands.
    pub closed spec fn spec_phase(&self) -> LidarPhase {
        self.phase
    }

    pub open spec fn wf(&self) -> bool {
        phase_wf(self.spec_phase())
    }

    /// A session that starts by resetting the LIDAR.
    pub fn new() -> (r: Self)
        ensures
            r.spec_phase() == LidarPhase::Resetting,
            r.wf(),
    {
        LidarSession { phase: LidarPhase::Resetting }
    }

    /// Where the session stands.
    pub fn phase(&self) -> (r: LidarPhase)
        ensures
            r == self.spec_phase(),
    {
        self.phase
    }

    /// The next thing to do.
    pub fn action(&self) -> (r: LidarAction)
        ensures
            is_phase_action(self.spec_phase(), r),
    {
        match self.phase {
            LidarPhase::Resetting => LidarAction::Send(serialized(&ResetRequest)),
            LidarPhase::HealthPause => LidarAction::Sleep(HEALTH_RETRY_MS),
            LidarPhase::HealthRequest => LidarAction::Send(serialized(&GetHealthRequest)),
            LidarPhase::HealthDescriptor => LidarAction::AwaitDescriptor(ResponseType::GetHealth, DESCRIPTOR_TIMEOUT_MS),
            LidarPhase::HealthResponse { length } => LidarAction::Read(length),
            LidarPhase::ScanRequest => LidarAction::Send(serialized(&ScanRequest)),
            LidarPhase::ScanDescriptor => LidarAction::AwaitDescriptor(ResponseType::Scan, DESCRIPTOR_TIMEOUT_MS),
            LidarPhase::ScanStart { .. } => LidarAction::AwaitData(SCAN_START_TIMEOUT_MS),
            LidarPhase::Streaming { length, .. } => LidarAction::ReadWithTimeout(length, SCAN_READ_TIMEOUT_MS),
            LidarPhase::Publishing { measurement, .. } => LidarAction::Publish(measurement),
        }
    }

    /// Takes in what came of the last action, and moves on.
    pub fn on_event(&mut self, event: LidarEvent)
        requires
            old(self).wf(),
            event_acceptable(event),
        ensures
            final(self).spec_phase() == lidar_transition(old(self).spec_phase(), event),
            final(self).wf(),
    {
        let next = match (self.phase, event) {
            (LidarPhase::Resetting, LidarEvent::Done) => LidarPhase::HealthPause,
            (LidarPhase::HealthPause, LidarEvent::Done) => LidarPhase::HealthRequest,
            (LidarPhase::HealthRequest, LidarEvent::Done) => LidarPhase::HealthDescriptor,
            (LidarPhase::HealthDescriptor, LidarEvent::Descriptor(Some(rd))) => LidarPhase::HealthResponse {
                length: rd.length,
            },
            (LidarPhase::HealthDescriptor, LidarEvent::Descriptor(None)) => LidarPhase::HealthPause,
            (LidarPhase::HealthResponse { .. }, LidarEvent::Bytes(b)) => {
                let mut reader = BitCursor::new(b.as_slice());
                match GetHealthResponse::parse(&mut reader) {
                    ParsingState::Done(h) => match h.status {
                        HealthStatus::Error => LidarPhase::HealthPause,
                        _ => LidarPhase::ScanRequest,
                    },
                    _ => LidarPhase::HealthPause,
                }
            },
            (LidarPhase::HealthResponse { .. }, LidarEvent::ReadError) => LidarPhase::HealthPause,
            (LidarPhase::ScanRequest, LidarEvent::Done) => LidarPhase::ScanDescriptor,
            (LidarPhase::ScanDescriptor, LidarEvent::Descriptor(Some(rd))) => LidarPhase::ScanStart {
                length: rd.length,
            },
            (LidarPhase::ScanDescriptor, LidarEvent::Descriptor(None)) => LidarPhase::Resetting,
            (LidarPhase::ScanStart { length }, LidarEvent::Done) => LidarPhase::Streaming { length, errors: 0 },
            (LidarPhase::ScanStart { .. }, LidarEvent::TimedOut) => LidarPhase::Resetting,
            (LidarPhase::Streaming { length, errors }, LidarEvent::Bytes(b)) => {
                let mut reader = BitCursor::new(b.as_slice());
                match ScanResponse::parse(&mut reader) {
                    ParsingState::Done(m) => if m.distance_q2 != 0 {
                        LidarPhase::Publishing { length, measurement: m }
                    } else {
                        LidarPhase::Streaming { length, errors: 0 }
                    },
                    _ => if errors >= MAX_SCAN_ERRORS {
                        LidarPhase::Resetting
                    } else {
                        LidarPhase::Streaming { length, errors: errors + 1 }
                    },
                }
            },
            (LidarPhase::Streaming { length, errors }, LidarEvent::ReadError) => LidarPhase::Streaming {
                length,
                errors,
            },
            (LidarPhase::Streaming { .. }, LidarEvent::TimedOut) => LidarPhase::Resetting,
            (LidarPhase::Publishing { length, .. }, LidarEvent::Done) => LidarPhase::Streaming { length, errors: 0 },
            (p, _) => p,
        };
        self.phase = next;
    }
}

/// A search that has just started over finds a whole descriptor of its
/// kind: it asks for one byte, then for the other six, and then returns the
/// descriptor.
pub proof fn lemma_search_finds_descriptor(d: Seq<u8>, kind: ResponseType, rd: ResponseDescriptor)
    requires
        d.len() == ResponseDescriptor::SIZE,
        response_descriptor_from(d, 0) == ParsingState::Done(rd),
        rd.response_type == kind,
    ensures
        search_feed(Seq::empty(), d.take(1), kind) == (None::<ResponseDescriptor>, d.take(1), 6nat),
        search_feed(d.take(1), d.skip(1), kind).0 == Some(rd),
{
    assert(Seq::<u8>::empty() + d.take(1) =~= d.take(1));
    assert(d.take(1) + d.skip(1) =~= d);
}

/// The search re-aligns past a junk byte: whatever byte comes before a
/// descriptor of the kind searched for, the search holds it, then drops it
/// together with none of the descriptor's bytes, and returns the descriptor.
pub proof fn lemma_search_skips_junk_byte(b: u8, d: Seq<u8>, kind: ResponseType, rd: ResponseDescriptor)
    requires
        d.len() == ResponseDescriptor::SIZE,
        response_descriptor_from(d, 0) == ParsingState::Done(rd),
        rd.response_type == kind,
    ensures
        search_feed(Seq::empty(), seq![b], kind) == (None::<ResponseDescriptor>, seq![b], 6nat),
        search_feed(seq![b], d.take(6), kind) == (None::<ResponseDescriptor>, d.take(6), 1nat),
        search_feed(d.take(6), d.skip(6), kind).0 == Some(rd),
{
    assert(Seq::<u8>::empty() + seq![b] =~= seq![b]);
    let x = seq![b] + d.take(6);
    lemma_descriptor_tag_bytes(d);
    lemma_descriptor_tag_bytes(x);
    assert(x[0] == b && x[1] == d[0]);
    assert(response_descriptor_from(x, 0) is Invalid);
    assert(x.drop_first() =~= d.take(6));
    lemma_descriptor_prefix_not_invalid(d, 6);
    lemma_response_descriptor_unfinished(d.take(6));
    let t = d.take(6);
    assert(!(response_descriptor_from(t, 0) is Done));
    assert(response_descriptor_from(t, 0) == ParsingState::<ResponseDescriptor>::Unfinished(1));
    assert(search_settle(t, kind) == (None::<ResponseDescriptor>, t, 1nat));
    assert(search_settle(x, kind) == search_settle(x.drop_first(), kind));
    assert(d.take(6) + d.skip(6) =~= d);
}

/// What a search that holds `read` and asks for `wanted` bytes returns when
/// it is fed, as it asks, the bytes of `stream`: the first descriptor it
/// returns, or `None` when the stream runs out first.
pub open spec fn search_stream(read: Seq<u8>, wanted: nat, stream: Seq<u8>, kind: ResponseType) -> Option<
    ResponseDescriptor,
>
    decreases stream.len(),
{
    if wanted == 0 || stream.len() < wanted {
        None
    } else {
        let (r, next_read, next_wanted) = search_feed(read, stream.take(wanted as int), kind);
        if r is Some {
            r
        } else {
            search_stream(next_read, next_wanted, stream.skip(wanted as int), kind)
        }
    }
}

/// Whether the window of seven bytes of `t` from `i` on parses as a
/// descriptor.
pub open spec fn descriptor_window(t: Seq<u8>, i: int) -> ParsingState<ResponseDescriptor> {
    response_descriptor_from(t.subrange(i, i + 7), 0)
}

/// Whether `t` is junk of length `jl` followed by a descriptor `rd` of
/// kind `kind`, where no descriptor starts in the junk but whole ones of
/// other kinds.
pub open spec fn junk_then_descriptor(t: Seq<u8>, jl: int, kind: ResponseType, rd: ResponseDescriptor) -> bool {
    &&& 0 <= jl
    &&& t.len() == jl + ResponseDescriptor::SIZE
    &&& descriptor_window(t, jl) == ParsingState::Done(rd)
    &&& rd.response_type == kind
    &&& forall|i: int|
        0 <= i < jl ==> (#[trigger] descriptor_window(t, i) matches ParsingState::Done(x) ==> i + 7 <= jl
            && x.response_type != kind)
}

/// The bytes a search that holds `read` asks for.
pub open spec fn search_wanted(read: Seq<u8>) -> nat {
    if read.len() == 0 {
        1
    } else {
        (ResponseDescriptor::SIZE - read.len()) as nat
    }
}

proof fn lemma_settle_window(t: Seq<u8>, jl: int, kind: ResponseType, rd: ResponseDescriptor, s: int, c: int) -> (s2:
    int)
    requires
        junk_then_descriptor(t, jl, kind, rd),
        0 <= s <= jl,
        s <= c <= t.len(),
        c - s <= 7,
    ensures
        ({
            let (r, read2, w2) = search_settle(t.subrange(s, c), kind);
            ||| r == Some(rd) && c == t.len()
            ||| {
                &&& r is None
                &&& s <= s2 <= jl
                &&& s2 <= c
                &&& c - s2 < 7
                &&& read2 == t.subrange(s2, c)
                &&& w2 == search_wanted(read2)
            }
        }),
    decreases c - s,
{
    let cand = t.subrange(s, c);
    let d = t.subrange(jl, jl + 7);
    if s == c {
        assert(cand =~= Seq::<u8>::empty());
        s
    } else {
        match response_descriptor_from(cand, 0) {
            ParsingState::Done(x) => {
                assert(c - s == 7);
                assert(cand == t.subrange(s, s + 7));
                if s < jl {
                    assert(descriptor_window(t, s) == ParsingState::Done(x));
                    assert(t.subrange(c, c) =~= Seq::<u8>::empty());
                    c
                } else {
                    s
                }
            },
            ParsingState::Unfinished(n) => {
                lemma_descriptor_unfinished_len(cand, n);
                s
            },
            ParsingState::Invalid => {
                if s == jl {
                    assert(d.take(c - s) =~= cand);
                    lemma_descriptor_prefix_not_invalid(d, c - s);
                }
                assert(cand.drop_first() =~= t.subrange(s + 1, c));
                lemma_settle_window(t, jl, kind, rd, s + 1, c)
            },
        }
    }
}

proof fn lemma_stream_window(t: Seq<u8>, jl: int, kind: ResponseType, rd: ResponseDescriptor, s: int, c: int)
    requires
        junk_then_descriptor(t, jl, kind, rd),
        0 <= s <= jl,
        s <= c <= t.len(),
        c - s < 7,
    ensures
        search_stream(t.subrange(s, c), search_wanted(t.subrange(s, c)), t.skip(c), kind) == Some(rd),
    decreases t.len() - c,
{
    let read = t.subrange(s, c);
    let w = search_wanted(read);
    let stream = t.skip(c);
    assert(c + w <= t.len());
    assert(read + stream.take(w as int) =~= t.subrange(s, c + w));
    let s2 = lemma_settle_window(t, jl, kind, rd, s, c + w);
    let (r, read2, w2) = search_settle(t.subrange(s, c + w), kind);
    if r is None {
        assert(stream.skip(w as int) =~= t.skip(c + w));
        lemma_stream_window(t, jl, kind, rd, s2, c + w);
    }
}

/// The search re-aligns past junk: fed, as it asks, junk in which no
/// descriptor starts (but whole ones of other kinds) and then a descriptor
/// of the kind searched for, a search that has just started over returns
/// that descriptor.
pub proof fn lemma_search_finds_after_junk(junk: Seq<u8>, d: Seq<u8>, kind: ResponseType, rd: ResponseDescriptor)
    requires
        junk_then_descriptor(junk + d, junk.len() as int, kind, rd),
    ensures
        search_stream(Seq::empty(), 1, junk + d, kind) == Some(rd),
{
    let t = junk + d;
    lemma_stream_window(t, junk.len() as int, kind, rd, 0, 0);
    assert(t.subrange(0, 0) =~= Seq::<u8>::empty());
    assert(t.skip(0) =~= t);
}

/// Where a phase ends up after a sequence of events.
pub open spec fn lidar_run(p: LidarPhase, events: Seq<LidarEvent>) -> LidarPhase
    decreases events.len(),
{
    if events.len() == 0 {
        p
    } else {
        lidar_run(lidar_transition(p, events[0]), events.drop_first())
    }
}

/// Whether an event brings a measurement that does not parse.
pub open spec fn is_bad_measurement(e: LidarEvent) -> bool {
    e matches LidarEvent::Bytes(b) && !(scan_response_from(b@, 0) is Done)
}

/// While streaming, measurements that do not parse are tolerated up to
/// [MAX_SCAN_ERRORS] in a row; one more resets the LIDAR.
pub proof fn lemma_scan_errors_reset(length: usize, events: Seq<LidarEvent>)
    requires
        events.len() <= MAX_SCAN_ERRORS + 1,
        forall|i: int| 0 <= i < events.len() ==> is_bad_measurement(#[trigger] events[i]),
    ensures
        events.len() <= MAX_SCAN_ERRORS ==> lidar_run(LidarPhase::Streaming { length, errors: 0 }, events)
            == (LidarPhase::Streaming { length, errors: events.len() as u8 }),
        events.len() == MAX_SCAN_ERRORS + 1 ==> lidar_run(
            LidarPhase::Streaming { length, errors: 0 },
            events,
        ) == LidarPhase::Resetting,
    decreases events.len(),
{
    lemma_scan_errors_from(length, 0, events);
}

proof fn lemma_scan_errors_from(length: usize, errors: u8, events: Seq<LidarEvent>)
    requires
        errors + events.len() <= MAX_SCAN_ERRORS + 1,
        forall|i: int| 0 <= i < events.len() ==> is_bad_measurement(#[trigger] events[i]),
    ensures
        errors + events.len() <= MAX_SCAN_ERRORS ==> lidar_run(LidarPhase::Streaming { length, errors }, events)
            == (LidarPhase::Streaming { length, errors: (errors + events.len()) as u8 }),
        errors + events.len() == MAX_SCAN_ERRORS + 1 && events.len() > 0 ==> lidar_run(
            LidarPhase::Streaming { length, errors },
            events,
        ) == LidarPhase::Resetting,
    decreases events.len(),
{
    if events.len() > 0 {
        let e = events[0];
        assert(is_bad_measurement(e));
        if errors + 1 > MAX_SCAN_ERRORS {
            assert(lidar_transition(LidarPhase::Streaming { length, errors }, e) == LidarPhase::Resetting);
            assert(events.len() == 1);
            assert(events.drop_first().len() == 0);
            assert(lidar_run(LidarPhase::Resetting, events.drop_first()) == LidarPhase::Resetting);
        } else {
            let next = LidarPhase::Streaming { length, errors: (errors + 1) as u8 };
            assert(lidar_transition(LidarPhase::Streaming { length, errors }, e) == next);
            assert forall|i: int| 0 <= i < events.drop_first().len() implies is_bad_measurement(
                #[trigger] events.drop_first()[i],
            ) by {
                assert(events.drop_first()[i] == events[i + 1]);
            }
            lemma_scan_errors_from(length, (errors + 1) as u8, events.drop_first());
            assert(lidar_run(LidarPhase::Streaming { length, errors }, events) == lidar_run(
                next,
                events.drop_first(),
            ));
        }
    }
}

/// A scan is only started after a health response that parsed and did not
/// report an error.
pub proof fn lemma_scan_needs_health(p: LidarPhase, e: LidarEvent)
    requires
        lidar_transition(p, e) == LidarPhase::ScanRequest,
        p != LidarPhase::ScanRequest,
    ensures
        p is HealthResponse,
        e matches LidarEvent::Bytes(b) && health_response_from(b@, 0) matches ParsingState::Done(h)
            && h.status != HealthStatus::Error,
{
}

/// Only measurements that parsed from the bytes read and hold a distance
/// are handed on.
pub proof fn lemma_published_measurements(p: LidarPhase, e: LidarEvent)
    requires
        lidar_transition(p, e) matches LidarPhase::Publishing { measurement, .. } && !(p is Publishing),
    ensures
        e matches LidarEvent::Bytes(b) && scan_response_from(b@, 0) matches ParsingState::Done(m) && m
            == lidar_transition(p, e)->measurement && m.distance_q2 != 0,
{
}

/// A measurement that parses clears the count of failed measurements in a
/// row, whatever it was: with a distance it is handed on, and without one
/// the session goes on reading with no failure counted.
pub proof fn lemma_parsed_measurement_clears_errors(length: usize, errors: u8, b: Vec<u8>)
    requires
        scan_response_from(b@, 0) is Done,
    ensures
        ({
            let m = scan_response_from(b@, 0)->Done_0;
            let next = lidar_transition(LidarPhase::Streaming { length, errors }, LidarEvent::Bytes(b));
            &&& m.distance_q2 == 0 ==> next == (LidarPhase::Streaming { length, errors: 0 })
            &&& m.distance_q2 != 0 ==> next == (LidarPhase::Publishing { length, measurement: m })
            &&& lidar_transition(next, LidarEvent::Done) == (LidarPhase::Streaming { length, errors: 0 })
                || m.distance_q2 == 0
        }),
{
}

} // verus!
