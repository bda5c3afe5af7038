use vex_override::lidar::{
    DescriptorSearch, LidarAction, LidarEvent, LidarPhase, LidarSession, DESCRIPTOR_TIMEOUT_MS, HEALTH_RETRY_MS,
    MAX_SCAN_ERRORS, SCAN_READ_TIMEOUT_MS, SCAN_START_TIMEOUT_MS,
};
use vex_override::protocol::scan::ScanResponse;
use vex_override::protocol::{ResponseDescriptor, ResponseMode, ResponseType};

const HEALTH_DESCRIPTOR: [u8; 7] = [0xA5, 0x5A, 0x03, 0x00, 0x00, 0x00, 0x06];
const SCAN_DESCRIPTOR: [u8; 7] = [0xA5, 0x5A, 0x05, 0x00, 0x00, 0x40, 0x81];
const MEASUREMENT: [u8; 5] = [0x3E, 0x01, 0x2D, 0xA0, 0x0F];

fn health_descriptor() -> ResponseDescriptor {
    ResponseDescriptor { length: 3, mode: ResponseMode::SingleResponse, response_type: ResponseType::GetHealth }
}

fn scan_descriptor() -> ResponseDescriptor {
    ResponseDescriptor { length: 5, mode: ResponseMode::MultipleResponse, response_type: ResponseType::Scan }
}

#[test]
fn search_reads_one_byte_then_the_rest() {
    let mut search = DescriptorSearch::new(ResponseType::GetHealth);
    assert_eq!(search.wanted(), 1);
    assert_eq!(search.feed(&HEALTH_DESCRIPTOR[..1]), None);
    assert_eq!(search.wanted(), 6);
    assert_eq!(search.feed(&HEALTH_DESCRIPTOR[1..]), Some(health_descriptor()));
    assert_eq!(search.wanted(), 1);
}

#[test]
fn search_skips_descriptor_of_other_kind() {
    let mut search = DescriptorSearch::new(ResponseType::GetHealth);
    assert_eq!(search.feed(&SCAN_DESCRIPTOR[..1]), None);
    assert_eq!(search.feed(&SCAN_DESCRIPTOR[1..]), None);
    assert_eq!(search.wanted(), 1);
    assert_eq!(search.feed(&HEALTH_DESCRIPTOR[..1]), None);
    assert_eq!(search.feed(&HEALTH_DESCRIPTOR[1..]), Some(health_descriptor()));
}

#[test]
fn search_realigns_after_junk_byte() {
    let mut search = DescriptorSearch::new(ResponseType::Scan);
    assert_eq!(search.feed(&[0x00]), None);
    assert_eq!(search.wanted(), 6);
    assert_eq!(search.feed(&SCAN_DESCRIPTOR[..6]), None);
    assert_eq!(search.wanted(), 1);
    assert_eq!(search.feed(&SCAN_DESCRIPTOR[6..]), Some(scan_descriptor()));
    assert_eq!(search.wanted(), 1);
}

#[test]
fn search_realigns_after_several_junk_bytes() {
    let mut stream = vec![0x12u8, 0x34, 0xA5];
    stream.extend_from_slice(&SCAN_DESCRIPTOR);
    let mut search = DescriptorSearch::new(ResponseType::Scan);
    let mut at = 0;
    let mut found = None;
    while found.is_none() {
        let n = search.wanted();
        assert!(at + n <= stream.len(), "the descriptor was missed");
        found = search.feed(&stream[at..at + n]);
        at += n;
    }
    assert_eq!(found, Some(scan_descriptor()));
    assert_eq!(at, stream.len());
}

#[test]
fn search_keeps_a_byte_that_may_start_a_descriptor() {
    let mut search = DescriptorSearch::new(ResponseType::Scan);
    assert_eq!(search.feed(&[0x00]), None);
    assert_eq!(search.feed(&[0x5A, 0, 0, 0, 0, 0]), None);
    // every byte was dropped but the last, which alone may still start one
    assert_eq!(search.wanted(), 6);
}

fn send(bytes: &[u8]) -> LidarAction {
    LidarAction::Send(bytes.to_vec())
}

/// Drives a session from reset to streaming.
fn streaming_session() -> LidarSession {
    let mut s = LidarSession::new();
    assert_eq!(s.phase(), LidarPhase::Resetting);
    assert_eq!(s.action(), send(&[0xA5, 0x40]));
    s.on_event(LidarEvent::Done);
    assert_eq!(s.action(), LidarAction::Sleep(HEALTH_RETRY_MS));
    s.on_event(LidarEvent::Done);
    assert_eq!(s.action(), send(&[0xA5, 0x52]));
    s.on_event(LidarEvent::Done);
    assert_eq!(s.action(), LidarAction::AwaitDescriptor(ResponseType::GetHealth, DESCRIPTOR_TIMEOUT_MS));
    s.on_event(LidarEvent::Descriptor(Some(health_descriptor())));
    assert_eq!(s.action(), LidarAction::Read(3));
    s.on_event(LidarEvent::Bytes(vec![0x00, 0x00, 0x00]));
    assert_eq!(s.action(), send(&[0xA5, 0x20]));
    s.on_event(LidarEvent::Done);
    assert_eq!(s.action(), LidarAction::AwaitDescriptor(ResponseType::Scan, DESCRIPTOR_TIMEOUT_MS));
    s.on_event(LidarEvent::Descriptor(Some(scan_descriptor())));
    assert_eq!(s.action(), LidarAction::AwaitData(SCAN_START_TIMEOUT_MS));
    s.on_event(LidarEvent::Done);
    assert_eq!(s.phase(), LidarPhase::Streaming { length: 5, errors: 0 });
    assert_eq!(s.action(), LidarAction::ReadWithTimeout(5, SCAN_READ_TIMEOUT_MS));
    s
}

#[test]
fn session_starts_scan_after_good_health() {
    let _ = streaming_session();
    assert_eq!(DESCRIPTOR_TIMEOUT_MS, 1000);
}

#[test]
fn session_publishes_measurements_with_distance() {
    let mut s = streaming_session();
    s.on_event(LidarEvent::Bytes(MEASUREMENT.to_vec()));
    let m = ScanResponse { start: false, quality: 15, angle_q6: 5760, distance_q2: 4000 };
    assert_eq!(s.action(), LidarAction::Publish(m));
    s.on_event(LidarEvent::Done);
    assert_eq!(s.phase(), LidarPhase::Streaming { length: 5, errors: 0 });
    // a measurement without distance is read past
    s.on_event(LidarEvent::Bytes(vec![0xFD, 0x01, 0x00, 0x00, 0x00]));
    assert_eq!(s.phase(), LidarPhase::Streaming { length: 5, errors: 0 });
}

#[test]
fn session_resets_after_too_many_bad_measurements() {
    let mut s = streaming_session();
    for i in 1..=MAX_SCAN_ERRORS {
        s.on_event(LidarEvent::Bytes(vec![0xFF, 0, 0, 0, 0]));
        assert_eq!(s.phase(), LidarPhase::Streaming { length: 5, errors: i });
    }
    s.on_event(LidarEvent::Bytes(vec![0xFF, 0, 0, 0, 0]));
    assert_eq!(s.phase(), LidarPhase::Resetting);
}

#[test]
fn good_measurement_clears_error_count() {
    let mut s = streaming_session();
    s.on_event(LidarEvent::Bytes(vec![0xFF, 0, 0, 0, 0]));
    s.on_event(LidarEvent::Bytes(vec![0x3E]));
    assert_eq!(s.phase(), LidarPhase::Streaming { length: 5, errors: 2 });
    s.on_event(LidarEvent::Bytes(MEASUREMENT.to_vec()));
    s.on_event(LidarEvent::Done);
    assert_eq!(s.phase(), LidarPhase::Streaming { length: 5, errors: 0 });
    // a failed read is retried without counting
    s.on_event(LidarEvent::ReadError);
    assert_eq!(s.phase(), LidarPhase::Streaming { length: 5, errors: 0 });
}

#[test]
fn session_resets_on_read_timeout() {
    let mut s = streaming_session();
    s.on_event(LidarEvent::TimedOut);
    assert_eq!(s.phase(), LidarPhase::Resetting);
}

#[test]
fn unhealthy_lidar_is_asked_again() {
    let mut s = LidarSession::new();
    s.on_event(LidarEvent::Done);
    s.on_event(LidarEvent::Done);
    s.on_event(LidarEvent::Done);
    s.on_event(LidarEvent::Descriptor(Some(health_descriptor())));
    s.on_event(LidarEvent::Bytes(vec![0x02, 0x01, 0x00]));
    assert_eq!(s.phase(), LidarPhase::HealthPause);
    s.on_event(LidarEvent::Done);
    s.on_event(LidarEvent::Done);
    s.on_event(LidarEvent::Descriptor(None));
    assert_eq!(s.phase(), LidarPhase::HealthPause);
    s.on_event(LidarEvent::Done);
    s.on_event(LidarEvent::Done);
    s.on_event(LidarEvent::Descriptor(Some(health_descriptor())));
    // a warning is good enough to scan
    s.on_event(LidarEvent::Bytes(vec![0x01, 0x00, 0x00]));
    assert_eq!(s.phase(), LidarPhase::ScanRequest);
}

#[test]
fn health_read_failure_or_garbage_waits_and_retries() {
    let mut s = LidarSession::new();
    s.on_event(LidarEvent::Done);
    s.on_event(LidarEvent::Done);
    s.on_event(LidarEvent::Done);
    s.on_event(LidarEvent::Descriptor(Some(health_descriptor())));
    s.on_event(LidarEvent::ReadError);
    assert_eq!(s.phase(), LidarPhase::HealthPause);
    s.on_event(LidarEvent::Done);
    s.on_event(LidarEvent::Done);
    s.on_event(LidarEvent::Descriptor(Some(health_descriptor())));
    s.on_event(LidarEvent::Bytes(vec![0x07, 0x00, 0x00]));
    assert_eq!(s.phase(), LidarPhase::HealthPause);
}

#[test]
fn scan_that_does_not_start_resets() {
    let mut s = LidarSession::new();
    s.on_event(LidarEvent::Done);
    s.on_event(LidarEvent::Done);
    s.on_event(LidarEvent::Done);
    s.on_event(LidarEvent::Descriptor(Some(health_descriptor())));
    s.on_event(LidarEvent::Bytes(vec![0x00, 0x00, 0x00]));
    s.on_event(LidarEvent::Done);
    s.on_event(LidarEvent::Descriptor(None));
    assert_eq!(s.phase(), LidarPhase::Resetting);
    s.on_event(LidarEvent::Done);
    s.on_event(LidarEvent::Done);
    s.on_event(LidarEvent::Done);
    s.on_event(LidarEvent::Descriptor(Some(health_descriptor())));
    s.on_event(LidarEvent::Bytes(vec![0x00, 0x00, 0x00]));
    s.on_event(LidarEvent::Done);
    s.on_event(LidarEvent::Descriptor(Some(scan_descriptor())));
    s.on_event(LidarEvent::TimedOut);
    assert_eq!(s.phase(), LidarPhase::Resetting);
}

#[test]
fn unrelated_events_leave_phase() {
    let mut s = LidarSession::new();
    s.on_event(LidarEvent::TimedOut);
    assert_eq!(s.phase(), LidarPhase::Resetting);
    s.on_event(LidarEvent::Bytes(vec![1, 2, 3]));
    assert_eq!(s.phase(), LidarPhase::Resetting);
}
