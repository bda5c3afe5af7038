use vex_override::brain_link::{
    answer_brain_frame, brain_reply_actions, command_request_frame, encode_lidar_report, encode_otos_report,
    handle_brain_packet, is_complete_packet, parse_brain_commands, CALIBRATE, DONE, GET_POSITION, GET_STDDEV,
    GET_VELOCITY, LIDAR_REPORT, OTOS_REPORT, PING, SET_LEDS, SET_OFFSETS, SET_POSITION, SET_SCALARS,
};
use vex_override::cobs_frame::{decode_frame, encode_frame, FrameCollector, FrameError};
use vex_override::copro::{is_complete_copro_frame, CoproAction, CoproRequest, CoprocessorLink, LidarReport};
use vex_override::otos::{OtosAction, OtosPose, OtosScalars, READINGS_LEN};

fn readings() -> [u8; READINGS_LEN] {
    let mut r = [0u8; READINGS_LEN];
    for (i, b) in r.iter_mut().enumerate() {
        *b = i as u8;
    }
    r
}

fn handle(packet: &[u8]) -> (Vec<OtosAction>, Vec<u8>, [u8; 40]) {
    let mut buf = [0xEEu8; 40];
    let (actions, n) = handle_brain_packet(packet, &readings(), &mut buf);
    (actions, buf[..n].to_vec(), buf)
}

#[test]
fn packet_completeness() {
    assert!(!is_complete_packet(&[]));
    assert!(is_complete_packet(&[GET_POSITION]));
    assert!(!is_complete_packet(&[SET_POSITION, 1, 2, 3, 4, 5]));
    assert!(is_complete_packet(&[SET_POSITION, 1, 2, 3, 4, 5, 6]));
    assert!(!is_complete_packet(&[SET_OFFSETS, 1]));
    assert!(!is_complete_packet(&[SET_SCALARS, 1]));
    assert!(is_complete_packet(&[SET_SCALARS, 1, 2]));
    assert!(is_complete_packet(&[0x01]));
}

#[test]
fn get_commands_answer_cached_registers() {
    let (actions, reply, _) = handle(&[GET_POSITION]);
    assert!(actions.is_empty());
    assert_eq!(reply, vec![1, 2, 3, 4, 5, 6]);
    let (_, reply, _) = handle(&[GET_VELOCITY]);
    assert_eq!(reply, vec![7, 8, 9, 10, 11, 12]);
    let (_, reply, buf) = handle(&[GET_STDDEV]);
    assert_eq!(reply, vec![19, 20, 21, 22, 23, 24]);
    assert!(buf[6..].iter().all(|b| *b == 0xEE));
}

#[test]
fn ping_answers_zeros() {
    let (actions, reply, buf) = handle(&[PING]);
    assert!(actions.is_empty());
    assert_eq!(reply, vec![0u8; 32]);
    assert_eq!(buf[32..], [0xEE; 8]);
}

#[test]
fn set_position_forwards_pose() {
    let (actions, reply, _) = handle(&[SET_POSITION, 0x10, 0x00, 0xFF, 0xFF, 0x00, 0x80]);
    assert_eq!(actions, vec![OtosAction::SetPosition(OtosPose { x: 16, y: -1, h: -32768 })]);
    assert_eq!(reply, vec![DONE]);
    assert_eq!(
        actions[0].i2c_write(),
        vec![0x20, 0x10, 0x00, 0xFF, 0xFF, 0x00, 0x80]
    );
}

#[test]
fn set_offsets_forwards_pose() {
    let (actions, reply, _) = handle(&[SET_OFFSETS, 1, 0, 2, 0, 3, 0]);
    assert_eq!(actions, vec![OtosAction::SetOffsets(OtosPose { x: 1, y: 2, h: 3 })]);
    assert_eq!(reply, vec![b'd']);
    assert_eq!(actions[0].i2c_write(), vec![0x10, 1, 0, 2, 0, 3, 0]);
}

#[test]
fn calibrate_resets_position() {
    let (actions, reply, _) = handle(&[CALIBRATE]);
    assert_eq!(
        actions,
        vec![OtosAction::Calibrate, OtosAction::SetPosition(OtosPose { x: 0, y: 0, h: 0 })]
    );
    assert_eq!(reply, vec![DONE]);
}

#[test]
fn set_scalars_forwards_bytes() {
    let (actions, reply, _) = handle(&[SET_SCALARS, 0x05, 0xFB]);
    assert_eq!(actions, vec![OtosAction::SetScalars(OtosScalars { linear: 5, angular: -5 })]);
    assert_eq!(reply, vec![DONE]);
    assert_eq!(actions[0].i2c_write(), vec![0x04, 0x05, 0xFB]);
}

#[test]
fn set_leds_and_unknown_commands() {
    let (actions, reply, _) = handle(&[SET_LEDS, 1, 2, 3]);
    assert!(actions.is_empty());
    assert_eq!(reply, vec![DONE]);
    let (actions, reply, buf) = handle(&[0x01, 2, 3]);
    assert!(actions.is_empty());
    assert!(reply.is_empty());
    assert_eq!(buf, [0xEE; 40]);
}

#[test]
fn lidar_report_layout() {
    let m = LidarReport { angle_bits: 90.0f32.to_bits(), distance_bits: 1000.0f32.to_bits(), quality: 15 };
    let payload = encode_lidar_report(&[m, m]);
    assert_eq!(payload.len(), 19);
    assert_eq!(payload[..10], [LIDAR_REPORT, 0x00, 0x00, 0xB4, 0x42, 0x00, 0x00, 0x7A, 0x44, 15]);
    assert_eq!(payload[10..], payload[1..10]);
    assert_eq!(encode_lidar_report(&[]), vec![b'l']);
}

#[test]
fn otos_report_layout() {
    let r = readings();
    let payload = encode_otos_report(&r);
    assert_eq!(payload[0], OTOS_REPORT);
    assert_eq!(payload[1..], r[..]);
}

#[test]
fn lidar_report_read_back_by_brain() {
    let m = LidarReport { angle_bits: 0x1234_5678, distance_bits: 0x9ABC_DEF0, quality: 200 };
    let payload = encode_lidar_report(&[m]);
    let mut link = CoprocessorLink::new();
    assert!(is_complete_copro_frame(&payload));
    assert_eq!(link.handle_frame(&payload), CoproAction::Lidar(vec![m]));
}

#[test]
fn every_record_of_a_lidar_frame_is_read() {
    let a = LidarReport { angle_bits: 1.5f32.to_bits(), distance_bits: 250.0f32.to_bits(), quality: 3 };
    let b = LidarReport { angle_bits: 359.0f32.to_bits(), distance_bits: f32::NAN.to_bits(), quality: 0 };
    let c = LidarReport { angle_bits: 7, distance_bits: 8, quality: 9 };
    let payload = encode_lidar_report(&[a, b, c]);
    assert_eq!(payload.len(), 28);
    let mut link = CoprocessorLink::new();
    assert_eq!(link.handle_frame(&payload), CoproAction::Lidar(vec![a, b, c]));
    // a record cut short is not read
    assert_eq!(link.handle_frame(&payload[..25]), CoproAction::Lidar(vec![a, b]));
    assert_eq!(link.handle_frame(&[b'l']), CoproAction::Lidar(vec![]));
}

#[test]
fn frames_round_trip() {
    let payload = [0x11u8, 0x22, 0x00, 0x33];
    let frame = encode_frame(&payload);
    assert_eq!(frame, vec![0x03, 0x11, 0x22, 0x02, 0x33, 0x00]);
    assert_eq!(decode_frame(&frame[..frame.len() - 1]), Ok(payload.to_vec()));
    assert_eq!(encode_frame(&[]), vec![0x01, 0x00]);
    assert_eq!(decode_frame(&[0x01]), Ok(vec![]));
    assert_eq!(decode_frame(&[]), Ok(vec![]));
}

#[test]
fn long_payload_round_trips() {
    let payload: Vec<u8> = (0..600u32).map(|i| (i % 7) as u8).collect();
    let frame = encode_frame(&payload);
    assert_eq!(*frame.last().unwrap(), 0);
    assert!(frame[..frame.len() - 1].iter().all(|b| *b != 0));
    assert_eq!(decode_frame(&frame[..frame.len() - 1]), Ok(payload));
}

#[test]
fn bad_frame_is_refused() {
    assert_eq!(decode_frame(&[0x05, 0x11]), Err(FrameError::Decode));
}

#[test]
fn collector_splits_frames_on_zero() {
    let mut c = FrameCollector::new(8);
    assert_eq!(c.push(1), None);
    assert_eq!(c.push(2), None);
    assert_eq!(c.bytes(), &[1, 2]);
    assert_eq!(c.push(0), Some(vec![1, 2]));
    assert!(c.bytes().is_empty());
    assert_eq!(c.push(0), Some(vec![]));
}

#[test]
fn collector_drops_overlong_frame() {
    let mut c = FrameCollector::new(2);
    assert_eq!(c.push(1), None);
    assert_eq!(c.push(2), None);
    assert_eq!(c.push(3), None);
    assert_eq!(c.bytes(), &[3]);
    assert_eq!(c.push(4), None);
    assert_eq!(c.bytes(), &[3, 4]);
    // a terminator that arrives with the collection full ends an empty frame
    assert_eq!(c.push(0), Some(vec![]));
    let mut roomy = FrameCollector::new(3);
    for b in [1u8, 2, 3, 4, 5] {
        assert_eq!(roomy.push(b), None);
    }
    assert_eq!(roomy.push(0), Some(vec![4, 5]));
    let mut full = FrameCollector::new(1);
    assert_eq!(full.push(9), None);
    assert_eq!(full.push(0), Some(vec![]));
}

#[test]
fn queued_commands_are_sent_once_in_order() {
    let mut link = CoprocessorLink::new();
    link.calibrate_otos();
    link.set_otos_position(OtosPose { x: 1, y: -2, h: 3 });
    let frame = match link.handle_frame(&[b'r']) {
        CoproAction::Reply(frame) => frame,
        other => panic!("unexpected {:?}", other),
    };
    assert_eq!(*frame.last().unwrap(), 0);
    let payload = decode_frame(&frame[..frame.len() - 1]).unwrap();
    assert_eq!(payload, vec![b'c', b'p', 1, 0, 0xFE, 0xFF, 3, 0]);
    assert_eq!(link.handle_frame(&[b'r']), CoproAction::Reply(vec![0x01, 0x00]));
}

#[test]
fn configure_command_bytes() {
    let mut link = CoprocessorLink::new();
    link.set_otos_config(OtosPose { x: -1, y: 256, h: 0 }, OtosScalars { linear: -1, angular: 2 });
    let frame = match link.handle_frame(&[b'r', 0xAA]) {
        CoproAction::Reply(frame) => frame,
        other => panic!("unexpected {:?}", other),
    };
    let payload = decode_frame(&frame[..frame.len() - 1]).unwrap();
    assert_eq!(payload, vec![b's', 0xFF, 0xFF, 0x00, 0x01, 0x00, 0x00, 0xFF, 0x02]);
}

#[test]
fn request_encoding() {
    let mut out = vec![9u8];
    CoproRequest::CalibrateOTOS.encode(&mut out);
    CoproRequest::SetOTOSPosition(OtosPose { x: 0x0102, y: 0, h: -256 }).encode(&mut out);
    assert_eq!(out, vec![9, b'c', b'p', 0x02, 0x01, 0, 0, 0x00, 0xFF]);
}

#[test]
fn other_frames_are_ignored_or_unknown() {
    let mut link = CoprocessorLink::new();
    link.calibrate_otos();
    assert_eq!(link.handle_frame(&[b'o', 1, 2, 3]), CoproAction::Ignore);
    assert_eq!(link.handle_frame(&[0x41]), CoproAction::Unknown(0x41));
    // the queued command is still waiting
    match link.handle_frame(&[b'r']) {
        CoproAction::Reply(frame) => assert_eq!(frame, encode_frame(&[b'c'])),
        other => panic!("unexpected {:?}", other),
    }
}

#[test]
fn copro_frame_completeness() {
    assert!(!is_complete_copro_frame(&[]));
    assert!(is_complete_copro_frame(&[b'l', 1, 2, 3]));
    assert!(is_complete_copro_frame(&[b'r']));
}

#[test]
fn reply_fits_a_small_buffer() {
    let mut buf = [0xFFu8; 8];
    let (actions, n) = handle_brain_packet(&[GET_STDDEV], &readings(), &mut buf);
    assert!(actions.is_empty());
    assert_eq!(n, 6);
    assert_eq!(buf, [19, 20, 21, 22, 23, 24, 0xFF, 0xFF]);
    let mut four = [7u8; 4];
    let (actions, n) = handle_brain_packet(&[b'x'], &readings(), &mut four);
    assert!(actions.is_empty());
    assert_eq!(n, 0);
    assert_eq!(four, [7u8; 4]);
    let mut one = [0u8; 1];
    let (actions, n) = handle_brain_packet(&[CALIBRATE], &readings(), &mut one);
    assert_eq!(actions.len(), 2);
    assert_eq!((n, one), (1, [DONE]));
    let (actions, n) = handle_brain_packet(&[SET_SCALARS, 0x80, 0x01], &readings(), &mut one);
    assert_eq!(actions, vec![OtosAction::SetScalars(OtosScalars { linear: -128, angular: 1 })]);
    assert_eq!((n, one), (1, [DONE]));
}

#[test]
fn brain_frame_gets_one_answer() {
    let frame = encode_frame(&[GET_POSITION]);
    let (actions, answer) = answer_brain_frame(&frame[..frame.len() - 1], &readings()).unwrap();
    assert!(actions.is_empty());
    assert_eq!(answer, encode_frame(&[1, 2, 3, 4, 5, 6]));
    let frame = encode_frame(&[SET_POSITION, 1, 0, 2, 0, 3, 0]);
    let (actions, answer) = answer_brain_frame(&frame[..frame.len() - 1], &readings()).unwrap();
    assert_eq!(actions, vec![OtosAction::SetPosition(OtosPose { x: 1, y: 2, h: 3 })]);
    assert_eq!(answer, vec![0x02, b'd', 0x00]);
    // a frame that does not decode, or a packet cut short, gets no answer
    assert_eq!(answer_brain_frame(&[0x05, 0x11], &readings()), None);
    let short = encode_frame(&[SET_POSITION, 1]);
    assert_eq!(answer_brain_frame(&short[..short.len() - 1], &readings()), None);
}

#[test]
fn request_frame_bytes() {
    assert_eq!(command_request_frame(), vec![0x02, b'r', 0x00]);
}

#[test]
fn brain_commands_parse() {
    let pose = OtosPose { x: -2, y: 300, h: 1 };
    let scalars = OtosScalars { linear: -1, angular: 5 };
    let mut bytes = vec![b'c', b'p', 0xFE, 0xFF, 0x2C, 0x01, 0x01, 0x00, b's'];
    bytes.extend_from_slice(&[0xFE, 0xFF, 0x2C, 0x01, 0x01, 0x00, 0xFF, 0x05]);
    assert_eq!(
        parse_brain_commands(&bytes),
        Some(vec![
            OtosAction::Calibrate,
            OtosAction::SetPosition(pose),
            OtosAction::SetScalars(scalars),
            OtosAction::SetOffsets(pose),
        ])
    );
    assert_eq!(parse_brain_commands(&[]), Some(vec![]));
    assert_eq!(parse_brain_commands(&[b'p', 1, 2, 3]), None);
    assert_eq!(parse_brain_commands(&bytes[..bytes.len() - 1]), None);
    assert_eq!(parse_brain_commands(&[b'c', b'x']), None);
}

#[test]
fn queued_commands_reach_the_coprocessor() {
    let mut link = CoprocessorLink::new();
    let pose = OtosPose { x: 100, y: -100, h: 12 };
    let offset = OtosPose { x: 0, y: 1, h: -1 };
    let scalars = OtosScalars { linear: 3, angular: -3 };
    link.set_otos_position(pose);
    link.calibrate_otos();
    link.set_otos_config(offset, scalars);
    let frame = match link.handle_frame(&[b'r']) {
        CoproAction::Reply(frame) => frame,
        other => panic!("unexpected {:?}", other),
    };
    assert_eq!(
        brain_reply_actions(&frame[..frame.len() - 1]),
        Some(vec![
            OtosAction::SetPosition(pose),
            OtosAction::Calibrate,
            OtosAction::SetScalars(scalars),
            OtosAction::SetOffsets(offset),
        ])
    );
    assert_eq!(brain_reply_actions(&[0x05, 0x11]), None);
}
