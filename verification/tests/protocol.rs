use vex_override::protocol::bits::BitCursor;
use vex_override::protocol::get_health::{GetHealthRequest, GetHealthResponse, HealthStatus};
use vex_override::protocol::get_info::{GetInfoRequest, GetInfoResponse};
use vex_override::protocol::get_sample_rate::{GetSampleRateRequest, GetSampleRateResponse};
use vex_override::protocol::motor_speed_ctrl::MotorSpeedCtrlRequest;
use vex_override::protocol::reset::ResetRequest;
use vex_override::protocol::scan::{ScanRequest, ScanResponse};
use vex_override::protocol::stop::StopRequest;
use vex_override::protocol::{
    ParsingState, Request, Response, ResponseDescriptor, ResponseMode, ResponseType, BUFFER_SIZE,
    MAX_RESPONSE_SIZE, REQUEST_TAG,
};

fn serialize_into<R: Request>(request: &R) -> (usize, [u8; 8]) {
    let mut buf = [0xEEu8; 8];
    let n = request.serialize(&mut buf);
    (n, buf)
}

fn parse_descriptor(bytes: &[u8]) -> ParsingState<ResponseDescriptor> {
    ResponseDescriptor::parse(&mut BitCursor::new(bytes))
}

fn parse_health(bytes: &[u8]) -> ParsingState<GetHealthResponse> {
    GetHealthResponse::parse(&mut BitCursor::new(bytes))
}

fn parse_scan(bytes: &[u8]) -> ParsingState<ScanResponse> {
    ScanResponse::parse(&mut BitCursor::new(bytes))
}

#[test]
fn requests_without_payload_are_two_bytes() {
    assert_eq!(serialize_into(&GetHealthRequest), (2, [0xA5, 0x52, 0xEE, 0xEE, 0xEE, 0xEE, 0xEE, 0xEE]));
    assert_eq!(serialize_into(&GetInfoRequest).1[..2], [0xA5, 0x50]);
    assert_eq!(serialize_into(&GetSampleRateRequest).1[..2], [0xA5, 0x59]);
    assert_eq!(serialize_into(&ResetRequest).1[..2], [0xA5, 0x40]);
    assert_eq!(serialize_into(&StopRequest).1[..2], [0xA5, 0x25]);
    assert_eq!(serialize_into(&ScanRequest).1[..2], [0xA5, 0x20]);
    assert_eq!(GetHealthRequest::max_length(), 2);
    assert_eq!(ScanRequest::max_length(), 2);
    assert_eq!(ResetRequest::tag(), 0x40);
    assert_eq!(StopRequest::max_payload_length(), 0);
    assert_eq!(REQUEST_TAG, 0xA5);
}

#[test]
fn motor_speed_request_carries_checksummed_payload() {
    let request = MotorSpeedCtrlRequest { rpm: 600 };
    let (n, buf) = serialize_into(&request);
    assert_eq!(n, 6);
    assert_eq!(buf, [0xA5, 0x02, 0x02, 0x58, 0x02, 0xFF, 0xEE, 0xEE]);
    assert_eq!(buf[..n].iter().fold(0u8, |acc, b| acc ^ b), 0);
    assert_eq!(MotorSpeedCtrlRequest::max_length(), 6);
    assert_eq!(MotorSpeedCtrlRequest::max_payload_length(), 2);
}

#[test]
fn motor_speed_idle_request() {
    let (n, buf) = serialize_into(&MotorSpeedCtrlRequest { rpm: 0 });
    assert_eq!(n, 6);
    assert_eq!(buf[..6], [0xA5, 0x02, 0x02, 0x00, 0x00, 0xA5]);
}

#[test]
fn motor_speed_payload_is_little_endian() {
    let mut buf = [7u8; 4];
    let n = MotorSpeedCtrlRequest { rpm: 0xBEEF }.serialize_payload(&mut buf);
    assert_eq!(n, 2);
    assert_eq!(buf, [0xEF, 0xBE, 7, 7]);
}

#[test]
fn health_descriptor_parses() {
    let bytes = [0xA5, 0x5A, 0x03, 0x00, 0x00, 0x00, 0x06];
    assert_eq!(
        parse_descriptor(&bytes),
        ParsingState::Done(ResponseDescriptor {
            length: 3,
            mode: ResponseMode::SingleResponse,
            response_type: ResponseType::GetHealth,
        })
    );
}

#[test]
fn scan_descriptor_is_multiple_response() {
    let bytes = [0xA5, 0x5A, 0x05, 0x00, 0x00, 0x40, 0x81];
    assert_eq!(
        parse_descriptor(&bytes),
        ParsingState::Done(ResponseDescriptor {
            length: 5,
            mode: ResponseMode::MultipleResponse,
            response_type: ResponseType::Scan,
        })
    );
}

#[test]
fn info_and_sample_rate_descriptors() {
    let info = [0xA5, 0x5A, 0x14, 0x00, 0x00, 0x00, 0x04];
    assert_eq!(
        parse_descriptor(&info),
        ParsingState::Done(ResponseDescriptor {
            length: 20,
            mode: ResponseMode::SingleResponse,
            response_type: ResponseType::GetInfo,
        })
    );
    let rate = [0xA5, 0x5A, 0x04, 0x00, 0x00, 0x00, 0x15];
    match parse_descriptor(&rate) {
        ParsingState::Done(rd) => assert_eq!(rd.response_type, ResponseType::GetSampleRate),
        other => panic!("unexpected {:?}", other),
    }
    let conf = [0xA5, 0x5A, 0x04, 0x00, 0x00, 0x00, 0x20];
    match parse_descriptor(&conf) {
        ParsingState::Done(rd) => assert_eq!(rd.response_type, ResponseType::GetLidarConf),
        other => panic!("unexpected {:?}", other),
    }
}

#[test]
fn descriptor_unfinished_counts_missing_bytes() {
    assert_eq!(parse_descriptor(&[]), ParsingState::Unfinished(7));
    assert_eq!(parse_descriptor(&[0xA5]), ParsingState::Unfinished(6));
    assert_eq!(parse_descriptor(&[0xA5, 0x5A]), ParsingState::Unfinished(5));
    assert_eq!(parse_descriptor(&[0xA5, 0x5A, 0x05, 0x00]), ParsingState::Unfinished(3));
    assert_eq!(parse_descriptor(&[0xA5, 0x5A, 0x05, 0x00, 0x00, 0x40]), ParsingState::Unfinished(1));
}

#[test]
fn descriptor_invalid_inputs() {
    assert_eq!(parse_descriptor(&[0xA5, 0x5B]), ParsingState::Invalid);
    assert_eq!(parse_descriptor(&[0x5A, 0xA5, 0, 0, 0, 0, 0x06]), ParsingState::Invalid);
    // unknown data type
    assert_eq!(parse_descriptor(&[0xA5, 0x5A, 0x03, 0x00, 0x00, 0x00, 0x99]), ParsingState::Invalid);
    // send modes 2 and 3 are reserved
    assert_eq!(parse_descriptor(&[0xA5, 0x5A, 0x03, 0x00, 0x00, 0x80, 0x06]), ParsingState::Invalid);
    assert_eq!(parse_descriptor(&[0xA5, 0x5A, 0x03, 0x00, 0x00, 0xC0, 0x06]), ParsingState::Invalid);
}

#[test]
fn descriptor_length_uses_thirty_bits() {
    let bytes = [0xA5, 0x5A, 0xFF, 0xFF, 0xFF, 0x3F, 0x06];
    match parse_descriptor(&bytes) {
        ParsingState::Done(rd) => {
            assert_eq!(rd.length, 0x3FFF_FFFF);
            assert_eq!(rd.mode, ResponseMode::SingleResponse);
        }
        other => panic!("unexpected {:?}", other),
    }
    assert_eq!(ResponseDescriptor::SIZE, 7);
}

#[test]
fn health_response_parses() {
    assert_eq!(
        parse_health(&[0x00, 0x00, 0x00]),
        ParsingState::Done(GetHealthResponse { status: HealthStatus::Good, error_code: 0 })
    );
    assert_eq!(
        parse_health(&[0x02, 0x34, 0x12]),
        ParsingState::Done(GetHealthResponse { status: HealthStatus::Error, error_code: 0x1234 })
    );
    assert_eq!(
        parse_health(&[0x01, 0x00, 0x80, 0xAA]),
        ParsingState::Done(GetHealthResponse { status: HealthStatus::Warning, error_code: 0x8000 })
    );
}

#[test]
fn health_response_unfinished_and_invalid() {
    assert_eq!(parse_health(&[]), ParsingState::Unfinished(3));
    assert_eq!(parse_health(&[0x00]), ParsingState::Unfinished(2));
    assert_eq!(parse_health(&[0x00, 0x01]), ParsingState::Unfinished(1));
    assert_eq!(parse_health(&[0x03, 0x00, 0x00]), ParsingState::Invalid);
    assert_eq!(parse_health(&[0xFF]), ParsingState::Invalid);
}

#[test]
fn health_status_codes() {
    assert_eq!(HealthStatus::from_integer(0), Some(HealthStatus::Good));
    assert_eq!(HealthStatus::from_integer(1), Some(HealthStatus::Warning));
    assert_eq!(HealthStatus::from_integer(2), Some(HealthStatus::Error));
    assert_eq!(HealthStatus::from_integer(3), None);
    assert_eq!(HealthStatus::Error.into_integer(), 2);
    assert_eq!(HealthStatus::Good.into_integer(), 0);
    assert_eq!(HealthStatus::Warning.into_integer(), 1);
}

#[test]
fn sample_rate_response_parses() {
    let parsed = GetSampleRateResponse::parse(&mut BitCursor::new(&[0x10, 0x02, 0x20, 0x01]));
    match parsed {
        ParsingState::Done(r) => {
            assert_eq!(r.standard, 528);
            assert_eq!(r.express, 288);
        }
        ParsingState::Unfinished(n) => panic!("unfinished {}", n),
        ParsingState::Invalid => panic!("invalid"),
    }
}

#[test]
fn sample_rate_response_unfinished() {
    let unfinished = |bytes: &[u8]| match GetSampleRateResponse::parse(&mut BitCursor::new(bytes)) {
        ParsingState::Unfinished(n) => Some(n),
        _ => None,
    };
    assert_eq!(unfinished(&[]), Some(4));
    assert_eq!(unfinished(&[0x10]), Some(3));
    assert_eq!(unfinished(&[0x10, 0x02]), Some(2));
    assert_eq!(unfinished(&[0x10, 0x02, 0x20]), Some(1));
}

#[test]
fn scan_measurement_parses() {
    // start flag set, inverse clear, quality 15, angle 90 degrees, distance 1000 mm
    let bytes = [0x3D, 0x01, 0x2D, 0xA0, 0x0F];
    let expected = ScanResponse { start: true, quality: 15, angle_q6: 90 * 64, distance_q2: 4000 };
    assert_eq!(parse_scan(&bytes), ParsingState::Done(expected));
    assert!(expected.has_distance());
}

#[test]
fn scan_measurement_without_start_flag() {
    // start flag clear, inverse set: not the start of a scan; quality 63, angle 0, distance 0
    let bytes = [0xFE, 0x01, 0x00, 0x00, 0x00];
    let expected = ScanResponse { start: false, quality: 63, angle_q6: 0, distance_q2: 0 };
    assert_eq!(parse_scan(&bytes), ParsingState::Done(expected));
    assert!(!expected.has_distance());
}

#[test]
fn scan_measurement_largest_angle() {
    let bytes = [0x06, 0xFF, 0xFF, 0xFF, 0xFF];
    assert_eq!(
        parse_scan(&bytes),
        ParsingState::Done(ScanResponse { start: false, quality: 1, angle_q6: 0x7FFF, distance_q2: 0xFFFF })
    );
}

#[test]
fn scan_measurement_invalid_flags_and_check_bit() {
    assert_eq!(parse_scan(&[0x3F, 0x01, 0x2D, 0xA0, 0x0F]), ParsingState::Invalid);
    assert_eq!(parse_scan(&[0x3C, 0x01, 0x2D, 0xA0, 0x0F]), ParsingState::Invalid);
    assert_eq!(parse_scan(&[0x3E, 0x00, 0x2D, 0xA0, 0x0F]), ParsingState::Invalid);
    assert_eq!(parse_scan(&[0x3F]), ParsingState::Invalid);
}

#[test]
fn scan_measurement_unfinished() {
    assert_eq!(parse_scan(&[]), ParsingState::Unfinished(5));
    assert_eq!(parse_scan(&[0x3E]), ParsingState::Unfinished(4));
    assert_eq!(parse_scan(&[0x3E, 0x01]), ParsingState::Unfinished(3));
    assert_eq!(parse_scan(&[0x3E, 0x01, 0x2D, 0xA0]), ParsingState::Unfinished(1));
}

fn info_bytes(first: u8) -> [u8; 20] {
    let mut bytes = [0u8; 20];
    bytes[0] = first;
    bytes[1] = 0x18;
    bytes[2] = 0x01;
    bytes[3] = 0x12;
    for i in 0..16 {
        bytes[4 + i] = (i as u8) * 17;
    }
    bytes
}

fn parse_info(bytes: &[u8]) -> ParsingState<GetInfoResponse> {
    GetInfoResponse::parse(&mut BitCursor::new(bytes))
}

#[test]
fn device_info_parses() {
    let bytes = info_bytes(0x71);
    let info = match parse_info(&bytes) {
        ParsingState::Done(info) => info,
        other => panic!("unexpected {:?}", other),
    };
    assert_eq!(info.sub_model, 1);
    assert_eq!(info.major_model, 7);
    assert_eq!(info.firmware_minor, 0x18);
    assert_eq!(info.firmware_major, 0x01);
    assert_eq!(info.hardware, 0x12);
    assert_eq!(info.serial_number[0], 0);
    assert_eq!(info.serial_number[1], 17);
    assert_eq!(info.serial_number[15], 255);
    // RPLIDAR S2M1
    assert_eq!(info.major_model_category(), 'S');
    assert_eq!(info.major_model_version(), 2);
}

#[test]
fn device_info_unfinished() {
    let bytes = info_bytes(0x71);
    assert_eq!(parse_info(&bytes[..5]), ParsingState::Unfinished(15));
    assert_eq!(parse_info(&[]), ParsingState::Unfinished(20));
    assert_eq!(parse_info(&bytes[..19]), ParsingState::Unfinished(1));
}

#[test]
fn model_categories() {
    let model = |major: u8| match parse_info(&info_bytes(major << 4)) {
        ParsingState::Done(info) => (info.major_model_category(), info.major_model_version()),
        other => panic!("unexpected {:?}", other),
    };
    assert_eq!(model(0), ('A', 0));
    assert_eq!(model(1), ('C', 1));
    assert_eq!(model(2), ('A', 2));
    assert_eq!(model(3), ('A', 3));
    assert_eq!(model(4), ('C', 1));
    assert_eq!(model(5), ('C', 2));
    assert_eq!(model(6), ('S', 1));
    assert_eq!(model(9), ('T', 1));
    assert_eq!(model(11), ('T', 3));
    assert_eq!(model(12), ('M', 1));
    assert_eq!(model(15), ('M', 4));
}

#[test]
fn device_info_prints_model_versions_and_serial() {
    let info = match parse_info(&info_bytes(0x71)) {
        ParsingState::Done(info) => info,
        other => panic!("unexpected {:?}", other),
    };
    assert_eq!(
        info.to_string(),
        "RPLIDAR S2M1, firmware v1.24, hardware v18, serial 0112233445566778899AABBCCDDEEFF"
    );
}

#[test]
fn c1_prints_its_model() {
    let mut bytes = [0u8; 20];
    bytes[0] = 0x11;
    bytes[2] = 1;
    let info = match parse_info(&bytes) {
        ParsingState::Done(info) => info,
        other => panic!("unexpected {:?}", other),
    };
    assert_eq!(info.to_string(), format!("RPLIDAR C1M1, firmware v1.0, hardware v0, serial {}", "0".repeat(16)));
}

#[test]
fn serial_number_prints_without_leading_zeros() {
    let mut info = match parse_info(&info_bytes(0x40)) {
        ParsingState::Done(info) => info,
        other => panic!("unexpected {:?}", other),
    };
    info.serial_number = [0x0A, 0x1B, 0x00, 0xFF, 0, 0, 0, 0, 0, 0, 0, 0, 0, 0, 0, 0x10];
    info.firmware_major = 0;
    info.firmware_minor = 5;
    info.hardware = 200;
    assert_eq!(info.to_string(), "RPLIDAR C1M0, firmware v0.5, hardware v200, serial A1B0FF0000000000010");
}

#[test]
fn bit_cursor_reads_little_endian_fields() {
    let data = [0xB4u8, 0x01, 0x34, 0x12];
    let mut cursor = BitCursor::new(&data);
    assert_eq!(cursor.bytes_remaining(), 4);
    assert_eq!(cursor.read_bits(4), Some(0x4));
    assert_eq!(cursor.read_bits(4), Some(0xB));
    assert_eq!(cursor.read_bit(), Some(true));
    assert_eq!(cursor.read_bits(7), Some(0));
    assert_eq!(cursor.read_u16(), Some(0x1234));
    assert_eq!(cursor.read_u8(), None);
    assert_eq!(cursor.read_bit(), None);
    assert_eq!(cursor.bytes_remaining(), 0);
}

#[test]
fn bit_cursor_reads_bytes_or_nothing() {
    let data = [1u8, 2, 3];
    let mut cursor = BitCursor::new(&data);
    assert_eq!(cursor.read_u8(), Some(1));
    let mut too_many = [9u8; 3];
    assert!(!cursor.read_bytes(&mut too_many));
    assert_eq!(too_many, [9, 9, 9]);
    let mut two = [0u8; 2];
    assert!(cursor.read_bytes(&mut two));
    assert_eq!(two, [2, 3]);
}

#[test]
fn buffer_size_holds_largest_response() {
    assert_eq!(BUFFER_SIZE, 20);
    assert_eq!(MAX_RESPONSE_SIZE, 20);
}
