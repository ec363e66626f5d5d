use moqt::control::{
    FullTrackName, MoqtAnnounce, MoqtClientSetup, MoqtFetch, MoqtObjectAck, MoqtServerSetup,
    MoqtSubscribe, MoqtSubscribeDone, MoqtSubscribeOk, MoqtSubscribeParameters,
    MoqtSubscribeUpdate, MoqtUnsubscribe,
};
use moqt::data_parser::{parse_datagram, MoqtDataParser, MoqtDataParserEvent};
use moqt::framer::{get_filter_type, signed_var_int_serialized_form, FramerError, MoqtFramer};
use moqt::messages::{
    FullSequence, MoqtDataStreamType, MoqtError, MoqtFilterType, MoqtObject, MoqtObjectStatus,
    MoqtRole, SubscribeDoneCode,
};
use moqt::parser::{MoqtControlParser, MoqtControlParserEvent};
use moqt::priority::MoqtDeliveryOrder;
use moqt::reader::DataReader;
use moqt::varint::{get_var_int62_len, VARINT62_MAX};
use moqt::wire_types::{
    serialize_into_buffer, WireOptional, WireSpan, WireStringWithVarInt62Length, WireType,
    WireUint16, WireUint32, WireUint64, WireUint8, WireVarInt62,
};
use moqt::writer::DataWriter;

fn encode(v: u64) -> Vec<u8> {
    let mut w = DataWriter::new();
    assert!(w.write_var_int62(v));
    w.into_bytes()
}

fn parse_all(bytes: &[u8], fin: bool) -> Vec<MoqtControlParserEvent> {
    let mut p = MoqtControlParser::new(false);
    p.process_data(bytes, fin);
    p.take_events()
}

fn is_error(e: &MoqtControlParserEvent, kind: MoqtError) -> bool {
    matches!(e, MoqtControlParserEvent::OnParsingError(k, _) if *k == kind)
}

fn no_params() -> MoqtSubscribeParameters {
    MoqtSubscribeParameters::new()
}

#[test]
fn varint_shortest_encodings() {
    assert_eq!(encode(0), vec![0x00]);
    assert_eq!(encode(63), vec![0x3f]);
    assert_eq!(encode(64), vec![0x40, 0x40]);
    assert_eq!(encode(16383), vec![0x7f, 0xff]);
    assert_eq!(encode(16384), vec![0x80, 0x00, 0x40, 0x00]);
    assert_eq!(encode(0x3fff_ffff), vec![0xbf, 0xff, 0xff, 0xff]);
    assert_eq!(encode(0x4000_0000), vec![0xc0, 0, 0, 0, 0x40, 0, 0, 0]);
    assert_eq!(encode(VARINT62_MAX), vec![0xff; 8]);
}

#[test]
fn varint_out_of_range_is_refused() {
    let mut w = DataWriter::new();
    assert!(!w.write_var_int62(VARINT62_MAX + 1));
    assert_eq!(w.length(), 0);
    assert_eq!(get_var_int62_len(VARINT62_MAX + 1), 0);
}

#[test]
fn varint_lengths() {
    assert_eq!(get_var_int62_len(0), 1);
    assert_eq!(get_var_int62_len(64), 2);
    assert_eq!(get_var_int62_len(16384), 4);
    assert_eq!(get_var_int62_len(1 << 30), 8);
}

#[test]
fn varint_round_trip_values() {
    for v in [0u64, 1, 63, 64, 300, 16383, 16384, 1 << 29, 1 << 30, 1 << 40, VARINT62_MAX] {
        let bytes = encode(v);
        assert_eq!(bytes.len(), get_var_int62_len(v));
        let mut r = DataReader::new(&bytes);
        assert_eq!(r.read_var_int62(), Some(v));
        assert_eq!(r.remaining(), 0);
    }
}

#[test]
fn varint_forced_lengths() {
    let mut w = DataWriter::new();
    assert!(w.write_var_int62_with_forced_length(37, 2));
    assert_eq!(w.into_bytes(), vec![0x40, 0x25]);
    let mut w = DataWriter::new();
    assert!(w.write_var_int62_with_forced_length(300, 8));
    let bytes = w.into_bytes();
    assert_eq!(bytes, vec![0xc0, 0, 0, 0, 0, 0, 0x01, 0x2c]);
    let mut r = DataReader::new(&bytes);
    assert_eq!(r.read_var_int62(), Some(300));
    let mut w = DataWriter::new();
    assert!(!w.write_var_int62_with_forced_length(300, 1));
    assert!(!w.write_var_int62_with_forced_length(5, 3));
    assert_eq!(w.length(), 0);
}

#[test]
fn varint_truncated_does_not_decode() {
    let mut r = DataReader::new(&[0x80, 0x00, 0x40]);
    assert_eq!(r.read_var_int62(), None);
    let mut r = DataReader::new(&[]);
    assert_eq!(r.read_var_int62(), None);
}

#[test]
fn unsubscribe_scenario() {
    let events = parse_all(&[0x0a, 0x01, 0x03], false);
    assert_eq!(
        events,
        vec![MoqtControlParserEvent::OnUnsubscribeMessage(MoqtUnsubscribe { subscribe_id: 3 })]
    );
    let framer = MoqtFramer::new(false);
    assert_eq!(
        framer.serialize_unsubscribe(&MoqtUnsubscribe { subscribe_id: 3 }),
        Ok(vec![0x0a, 0x01, 0x03])
    );
}

#[test]
fn announce_ok_length_mismatch_scenario() {
    let events = parse_all(&[0x07, 0x05, 0x02, 0x66, 0x6f, 0x6f, 0x00], false);
    assert_eq!(events.len(), 1);
    assert!(is_error(&events[0], MoqtError::kProtocolViolation));
}

#[test]
fn subscribe_done_scenario_bytes_as_given() {
    // The declared payload length (8) exceeds the six bytes that follow.
    let bytes = [0x0b, 0x08, 0x02, 0x03, 0x02, 0x68, 0x69, 0x00];
    assert!(parse_all(&bytes, false).is_empty());
    let events = parse_all(&bytes, true);
    assert_eq!(events.len(), 1);
    assert!(is_error(&events[0], MoqtError::kProtocolViolation));
}

#[test]
fn subscribe_done_without_final_id() {
    let events = parse_all(&[0x0b, 0x06, 0x02, 0x03, 0x02, 0x68, 0x69, 0x00], false);
    assert_eq!(
        events,
        vec![MoqtControlParserEvent::OnSubscribeDoneMessage(MoqtSubscribeDone {
            subscribe_id: 2,
            status_code: SubscribeDoneCode::kTrackEnded,
            reason_phrase: b"hi".to_vec(),
            final_id: None,
        })]
    );
}

#[test]
fn subscribe_done_with_final_id() {
    let bytes = [0x0b, 0x08, 0x02, 0x03, 0x02, 0x68, 0x69, 0x01, 0x08, 0x0c];
    let expected = MoqtSubscribeDone {
        subscribe_id: 2,
        status_code: SubscribeDoneCode::kTrackEnded,
        reason_phrase: b"hi".to_vec(),
        final_id: Some(FullSequence::new(8, 0, 12)),
    };
    assert_eq!(
        parse_all(&bytes, false),
        vec![MoqtControlParserEvent::OnSubscribeDoneMessage(expected.clone())]
    );
    assert_eq!(MoqtFramer::new(false).serialize_subscribe_done(&expected), Ok(bytes.to_vec()));
}

#[test]
fn subscribe_done_bad_content_exists() {
    let events = parse_all(&[0x0b, 0x06, 0x02, 0x03, 0x02, 0x68, 0x69, 0x02], false);
    assert_eq!(events.len(), 1);
    assert!(is_error(&events[0], MoqtError::kProtocolViolation));
}

#[test]
fn server_setup_scenario() {
    let setup = MoqtServerSetup {
        selected_version: 0xff000007,
        role: Some(MoqtRole::kPubSub),
        max_subscribe_id: None,
        supports_object_ack: false,
    };
    let bytes = vec![
        0x40, 0x41, 0x0c, 0xc0, 0x00, 0x00, 0x00, 0xff, 0x00, 0x00, 0x07, 0x01, 0x00, 0x01, 0x03,
    ];
    assert_eq!(MoqtFramer::new(false).serialize_server_setup(&setup), Ok(bytes.clone()));
    assert_eq!(parse_all(&bytes, false), vec![MoqtControlParserEvent::OnServerSetupMessage(setup)]);
}

#[test]
fn server_setup_scenario_bytes_as_given() {
    // Ten payload bytes are announced, nine follow.
    let bytes = [0x40, 0x41, 0x0a, 0x04, 0xff, 0x00, 0x00, 0x07, 0x01, 0x00, 0x01, 0x03];
    assert!(parse_all(&bytes, false).is_empty());
}

#[test]
fn server_setup_without_role_is_refused() {
    // Version 1, no parameter.
    let events = parse_all(&[0x41, 0x02, 0x01, 0x00], false);
    assert_eq!(events.len(), 1);
    assert!(is_error(&events[0], MoqtError::kProtocolViolation));
}

#[test]
fn client_setup_round_trip_over_quic() {
    let setup = MoqtClientSetup {
        supported_versions: vec![0xff000007, 1],
        role: Some(MoqtRole::kSubscriber),
        path: Some(b"/moq".to_vec()),
        max_subscribe_id: Some(100),
        supports_object_ack: true,
    };
    let bytes = MoqtFramer::new(false).serialize_client_setup(&setup).unwrap();
    assert_eq!(parse_all(&bytes, false), vec![MoqtControlParserEvent::OnClientSetupMessage(setup)]);
}

#[test]
fn client_setup_over_webtransport_drops_path() {
    let setup = MoqtClientSetup {
        supported_versions: vec![1],
        role: Some(MoqtRole::kPublisher),
        path: Some(b"/moq".to_vec()),
        max_subscribe_id: None,
        supports_object_ack: false,
    };
    let bytes = MoqtFramer::new(true).serialize_client_setup(&setup).unwrap();
    assert_eq!(bytes, vec![0x40, 0x40, 0x06, 0x01, 0x01, 0x01, 0x00, 0x01, 0x01]);
    let mut p = MoqtControlParser::new(true);
    p.process_data(&bytes, false);
    let expected = MoqtClientSetup { path: None, ..setup };
    assert_eq!(p.take_events(), vec![MoqtControlParserEvent::OnClientSetupMessage(expected)]);
    // Over native QUIC the path is required.
    let events = parse_all(&bytes, false);
    assert!(is_error(&events[0], MoqtError::kProtocolViolation));
}

fn sample_subscribe() -> MoqtSubscribe {
    MoqtSubscribe {
        subscribe_id: 1,
        track_alias: 2,
        full_track_name: FullTrackName::new_with_namespace_and_name("foo", "abcd"),
        subscriber_priority: 0x20,
        group_order: Some(MoqtDeliveryOrder::kDescending),
        start_group: Some(4),
        start_object: Some(1),
        end_group: Some(7),
        end_object: Some(2),
        parameters: MoqtSubscribeParameters {
            authorization_info: Some(b"bar".to_vec()),
            delivery_timeout: Some(10000),
            max_cache_duration: Some(2000),
            object_ack_window: None,
        },
    }
}

#[test]
fn subscribe_round_trip() {
    let m = sample_subscribe();
    assert_eq!(get_filter_type(&m), MoqtFilterType::kAbsoluteRange);
    let bytes = MoqtFramer::new(false).serialize_subscribe(&m).unwrap();
    assert_eq!(&bytes[..3], &[0x03, bytes.len() as u8 - 2, 0x01]);
    assert_eq!(parse_all(&bytes, false), vec![MoqtControlParserEvent::OnSubscribeMessage(m)]);
}

#[test]
fn subscribe_filters() {
    let mut m = sample_subscribe();
    m.end_group = None;
    m.end_object = None;
    assert_eq!(get_filter_type(&m), MoqtFilterType::kAbsoluteStart);
    m.start_group = None;
    m.start_object = None;
    assert_eq!(get_filter_type(&m), MoqtFilterType::kLatestObject);
    m.start_object = Some(0);
    assert_eq!(get_filter_type(&m), MoqtFilterType::kLatestGroup);
    let bytes = MoqtFramer::new(false).serialize_subscribe(&m).unwrap();
    assert_eq!(parse_all(&bytes, false), vec![MoqtControlParserEvent::OnSubscribeMessage(m)]);
}

#[test]
fn subscribe_invalid_ranges_are_refused() {
    let framer = MoqtFramer::new(false);
    let mut m = sample_subscribe();
    m.end_group = Some(3);
    assert_eq!(get_filter_type(&m), MoqtFilterType::kNone);
    assert_eq!(framer.serialize_subscribe(&m), Err(FramerError::InvalidInput));
    let mut m = sample_subscribe();
    m.end_group = Some(4);
    m.end_object = Some(0);
    assert_eq!(framer.serialize_subscribe(&m), Err(FramerError::InvalidInput));
    let mut m = sample_subscribe();
    m.end_group = None;
    assert_eq!(framer.serialize_subscribe(&m), Err(FramerError::InvalidInput));
}

#[test]
fn framer_validation_errors() {
    let framer = MoqtFramer::new(false);
    let ok = MoqtSubscribeOk {
        subscribe_id: 1,
        expires: 3,
        group_order: MoqtDeliveryOrder::kAscending,
        largest_id: None,
        parameters: MoqtSubscribeParameters {
            authorization_info: Some(b"x".to_vec()),
            ..no_params()
        },
    };
    assert_eq!(framer.serialize_subscribe_ok(&ok), Err(FramerError::InvalidInput));
    let update = MoqtSubscribeUpdate {
        subscribe_id: 1,
        start_group: 2,
        start_object: 3,
        end_group: None,
        end_object: Some(4),
        subscriber_priority: 1,
        parameters: no_params(),
    };
    assert_eq!(framer.serialize_subscribe_update(&update), Err(FramerError::InvalidInput));
    let announce = MoqtAnnounce {
        track_namespace: FullTrackName::new_with_elements(vec!["foo".to_string()]),
        parameters: MoqtSubscribeParameters { delivery_timeout: Some(5), ..no_params() },
    };
    assert_eq!(framer.serialize_announce(&announce), Err(FramerError::InvalidInput));
    let fetch = MoqtFetch {
        subscribe_id: 1,
        full_track_name: FullTrackName::new_with_namespace_and_name("foo", "bar"),
        subscriber_priority: 2,
        group_order: None,
        start_object: FullSequence::new(5, 0, 3),
        end_group: 5,
        end_object: Some(2),
        parameters: no_params(),
    };
    assert_eq!(framer.serialize_fetch(&fetch), Err(FramerError::InvalidInput));
    let fetch_ok = MoqtFetch { end_object: Some(3), ..fetch };
    let bytes = framer.serialize_fetch(&fetch_ok).unwrap();
    assert_eq!(parse_all(&bytes, false), vec![MoqtControlParserEvent::OnFetchMessage(fetch_ok)]);
}

#[test]
fn subscribe_update_round_trip() {
    let update = MoqtSubscribeUpdate {
        subscribe_id: 1,
        start_group: 2,
        start_object: 3,
        end_group: Some(4),
        end_object: Some(5),
        subscriber_priority: 0xaa,
        parameters: MoqtSubscribeParameters { object_ack_window: Some(7000), ..no_params() },
    };
    let bytes = MoqtFramer::new(false).serialize_subscribe_update(&update).unwrap();
    assert_eq!(&bytes[..8], &[0x02, bytes.len() as u8 - 2, 0x01, 0x02, 0x03, 0x05, 0x06, 0xaa]);
    assert_eq!(
        parse_all(&bytes, false),
        vec![MoqtControlParserEvent::OnSubscribeUpdateMessage(update)]
    );
}

#[test]
fn object_ack_signed_delta() {
    assert_eq!(signed_var_int_serialized_form(-5), 11);
    assert_eq!(signed_var_int_serialized_form(5), 10);
    for delta in [-5i64, 0, 7] {
        let m = MoqtObjectAck { subscribe_id: 1, group_id: 2, object_id: 3, delta_from_deadline: delta };
        let bytes = MoqtFramer::new(false).serialize_object_ack(&m).unwrap();
        assert_eq!(&bytes[..2], &[0x71, 0x84]);
        assert_eq!(parse_all(&bytes, false), vec![MoqtControlParserEvent::OnObjectAckMessage(m)]);
    }
}

#[test]
fn two_messages_in_one_buffer() {
    let framer = MoqtFramer::new(false);
    let mut bytes = framer.serialize_unsubscribe(&MoqtUnsubscribe { subscribe_id: 9 }).unwrap();
    let done = MoqtSubscribeDone {
        subscribe_id: 4,
        status_code: SubscribeDoneCode::kExpired,
        reason_phrase: b"bye".to_vec(),
        final_id: None,
    };
    bytes.extend(framer.serialize_subscribe_done(&done).unwrap());
    let mut p = MoqtControlParser::new(false);
    p.process_data(&bytes, false);
    assert_eq!(
        p.take_events(),
        vec![
            MoqtControlParserEvent::OnUnsubscribeMessage(MoqtUnsubscribe { subscribe_id: 9 }),
            MoqtControlParserEvent::OnSubscribeDoneMessage(done),
        ]
    );
}

#[test]
fn message_delivered_byte_by_byte() {
    let bytes = MoqtFramer::new(false).serialize_subscribe(&sample_subscribe()).unwrap();
    let mut p = MoqtControlParser::new(false);
    for (i, b) in bytes.iter().enumerate() {
        p.process_data(&[*b], false);
        if i + 1 < bytes.len() {
            assert!(p.events().is_empty());
        }
    }
    assert_eq!(
        p.take_events(),
        vec![MoqtControlParserEvent::OnSubscribeMessage(sample_subscribe())]
    );
}

#[test]
fn parser_stream_errors() {
    // Bytes after the end of the stream.
    let mut p = MoqtControlParser::new(false);
    p.process_data(&[], true);
    p.process_data(&[0x0a, 0x01, 0x03], false);
    let events = p.take_events();
    assert_eq!(events.len(), 1);
    assert!(is_error(&events[0], MoqtError::kProtocolViolation));
    // End of stream inside a message.
    let events = parse_all(&[0x0a, 0x01], true);
    assert!(is_error(&events[0], MoqtError::kProtocolViolation));
    // Too much buffered without a whole message.
    let mut big = vec![0x03, 0x4b, 0xb8];
    big.extend(vec![0u8; 2100]);
    let events = parse_all(&big, false);
    assert_eq!(events.len(), 1);
    assert!(is_error(&events[0], MoqtError::kInternalError));
    // Unknown message type.
    let events = parse_all(&[0x20, 0x00], false);
    assert!(is_error(&events[0], MoqtError::kProtocolViolation));
}

#[test]
fn parser_reports_one_error_only() {
    let mut p = MoqtControlParser::new(false);
    p.process_data(&[0x20, 0x00, 0x0a, 0x01, 0x03], false);
    p.process_data(&[0x0a, 0x01, 0x03], false);
    let events = p.take_events();
    assert_eq!(events.len(), 1);
    assert!(is_error(&events[0], MoqtError::kProtocolViolation));
}

#[test]
fn parameter_errors() {
    // Two delivery timeouts in SUBSCRIBE_ANNOUNCES.
    let events = parse_all(&[0x11, 0x08, 0x00, 0x02, 0x03, 0x01, 0x01, 0x03, 0x01, 0x01], false);
    assert!(is_error(&events[0], MoqtError::kProtocolViolation));
    // A two-byte value that holds a one-byte varint.
    let events = parse_all(&[0x11, 0x06, 0x00, 0x01, 0x03, 0x02, 0x05, 0x00], false);
    assert!(is_error(&events[0], MoqtError::kParameterLengthMismatch));
}

fn sample_object(status: MoqtObjectStatus, len: u64, subgroup: Option<u64>) -> MoqtObject {
    MoqtObject {
        track_alias: 4,
        group_id: 5,
        object_id: 6,
        publisher_priority: 7,
        object_status: status,
        subgroup_id: subgroup,
        payload_length: len,
    }
}

#[test]
fn subgroup_stream_scenario() {
    let o = sample_object(MoqtObjectStatus::kNormal, 3, Some(8));
    let header = MoqtFramer::new(false)
        .serialize_object_header(&o, MoqtDataStreamType::kStreamHeaderSubgroup, true)
        .unwrap();
    assert_eq!(header, vec![0x04, 0x04, 0x05, 0x08, 0x07, 0x06, 0x03]);
    let mut p = MoqtDataParser::new();
    p.process_data(&header, false);
    assert!(p.events().is_empty());
    p.process_data(b"bar", false);
    assert_eq!(
        p.events(),
        &vec![MoqtDataParserEvent::OnObjectMessage(o, b"bar".to_vec(), true)]
    );
    assert_eq!(p.stream_type(), Some(MoqtDataStreamType::kStreamHeaderSubgroup));
}

#[test]
fn subgroup_stream_scenario_bytes_as_given() {
    // Read by the stream layout, `06 00 03` is object 6 with an empty payload
    // and status 3; "bar" then starts an incomplete object.
    let mut p = MoqtDataParser::new();
    p.process_data(&[0x04, 0x04, 0x05, 0x08, 0x07, 0x06, 0x00, 0x03, 0x62, 0x61, 0x72], false);
    assert_eq!(
        p.events(),
        &vec![MoqtDataParserEvent::OnObjectMessage(
            sample_object(MoqtObjectStatus::kEndOfGroup, 0, Some(8)),
            vec![],
            true
        )]
    );
}

#[test]
fn subgroup_stream_fin_mid_object() {
    let mut p = MoqtDataParser::new();
    p.process_data(&[0x04, 0x04, 0x05, 0x08, 0x07, 0x06, 0x03, 0x62], true);
    assert!(matches!(
        p.events()[0],
        MoqtDataParserEvent::OnParsingError(MoqtError::kProtocolViolation, _)
    ));
}

#[test]
fn fetch_stream_objects() {
    let framer = MoqtFramer::new(false);
    let o = sample_object(MoqtObjectStatus::kNormal, 2, Some(1));
    let mut bytes =
        framer.serialize_object_header(&o, MoqtDataStreamType::kStreamHeaderFetch, true).unwrap();
    bytes.extend(b"hi");
    let end = sample_object(MoqtObjectStatus::kEndOfTrack, 0, Some(1));
    bytes.extend(
        framer.serialize_object_header(&end, MoqtDataStreamType::kStreamHeaderFetch, false).unwrap(),
    );
    let mut p = MoqtDataParser::new();
    p.process_data(&bytes, true);
    assert_eq!(
        p.events(),
        &vec![
            MoqtDataParserEvent::OnObjectMessage(o, b"hi".to_vec(), true),
            MoqtDataParserEvent::OnObjectMessage(end, vec![], true),
        ]
    );
}

#[test]
fn padding_stream_is_ignored() {
    let mut p = MoqtDataParser::new();
    p.process_data(&[0x66, 0xd3, 0x01, 0x02, 0x03], false);
    p.process_data(&[0xff, 0xff], true);
    p.process_data(&[0x01], true);
    assert!(p.events().is_empty());
    assert_eq!(p.stream_type(), Some(MoqtDataStreamType::kPadding));
}

#[test]
fn unknown_stream_type_is_refused() {
    let mut p = MoqtDataParser::new();
    p.process_data(&[0x02, 0x00], false);
    assert!(matches!(
        p.events()[0],
        MoqtDataParserEvent::OnParsingError(MoqtError::kProtocolViolation, _)
    ));
}

#[test]
fn object_metadata_validation() {
    let framer = MoqtFramer::new(false);
    let bad = sample_object(MoqtObjectStatus::kEndOfGroup, 3, Some(1));
    assert_eq!(
        framer.serialize_object_header(&bad, MoqtDataStreamType::kStreamHeaderSubgroup, true),
        Err(FramerError::InvalidInput)
    );
    let no_subgroup = sample_object(MoqtObjectStatus::kNormal, 3, None);
    assert_eq!(
        framer.serialize_object_header(&no_subgroup, MoqtDataStreamType::kStreamHeaderSubgroup, true),
        Err(FramerError::InvalidInput)
    );
    assert_eq!(
        framer.serialize_object_header(&no_subgroup, MoqtDataStreamType::kObjectDatagram, true),
        Err(FramerError::InvalidInput)
    );
}

#[test]
fn datagram_round_trip() {
    let framer = MoqtFramer::new(false);
    let o = sample_object(MoqtObjectStatus::kNormal, 3, None);
    let bytes = framer.serialize_object_datagram(&o, b"foo").unwrap();
    assert_eq!(bytes, vec![0x01, 0x04, 0x05, 0x06, 0x07, 0x03, 0x66, 0x6f, 0x6f]);
    assert_eq!(parse_datagram(&bytes), Ok((o, b"foo".to_vec())));
    let status = sample_object(MoqtObjectStatus::kObjectDoesNotExist, 0, None);
    let bytes = framer.serialize_object_datagram(&status, b"").unwrap();
    assert_eq!(bytes, vec![0x01, 0x04, 0x05, 0x06, 0x07, 0x00, 0x01]);
    assert_eq!(parse_datagram(&bytes), Ok((status, vec![])));
}

#[test]
fn datagram_errors() {
    let framer = MoqtFramer::new(false);
    let o = sample_object(MoqtObjectStatus::kNormal, 4, None);
    assert_eq!(framer.serialize_object_datagram(&o, b"foo"), Err(FramerError::InvalidInput));
    assert_eq!(
        parse_datagram(&[0x01, 0x04, 0x05, 0x06, 0x07, 0x04, 0x66, 0x6f, 0x6f]),
        Err(MoqtError::kProtocolViolation)
    );
    assert_eq!(parse_datagram(&[0x04, 0x04]), Err(MoqtError::kProtocolViolation));
}

#[test]
fn wire_fixed_width_integers() {
    assert_eq!(serialize_into_buffer(&WireUint8 { value: 0xab }), Some(vec![0xab]));
    assert_eq!(serialize_into_buffer(&WireUint16 { value: 0x1234 }), Some(vec![0x12, 0x34]));
    assert_eq!(
        serialize_into_buffer(&WireUint32 { value: 0x0102_0304 }),
        Some(vec![0x01, 0x02, 0x03, 0x04])
    );
    let v = WireUint64 { value: 0x0102_0304_0506_0708 };
    assert_eq!(v.get_length_on_wire(), 8);
    assert_eq!(serialize_into_buffer(&v), Some(vec![1, 2, 3, 4, 5, 6, 7, 8]));
}

#[test]
fn wire_varints_strings_and_options() {
    let v = WireVarInt62(16384);
    assert_eq!(v.get_length_on_wire(), 4);
    assert_eq!(serialize_into_buffer(&v), Some(vec![0x80, 0x00, 0x40, 0x00]));
    assert_eq!(serialize_into_buffer(&WireVarInt62(VARINT62_MAX + 1)), None);
    let s = WireStringWithVarInt62Length(b"foo");
    assert_eq!(s.get_length_on_wire(), 4);
    assert_eq!(serialize_into_buffer(&s), Some(vec![0x03, 0x66, 0x6f, 0x6f]));
    let none: WireOptional<WireVarInt62> = WireOptional { value: None };
    assert_eq!(none.get_length_on_wire(), 0);
    assert_eq!(serialize_into_buffer(&none), Some(vec![]));
    let some = WireOptional { value: Some(WireVarInt62(64)) };
    assert_eq!(serialize_into_buffer(&some), Some(vec![0x40, 0x40]));
}

#[test]
fn wire_span_of_varints() {
    let items = [WireVarInt62(1), WireVarInt62(300), WireVarInt62(0)];
    let span = WireSpan { value: &items[..] };
    assert_eq!(span.get_length_on_wire(), 4);
    assert_eq!(serialize_into_buffer(&span), Some(vec![0x01, 0x41, 0x2c, 0x00]));
    let bad = [WireVarInt62(1), WireVarInt62(VARINT62_MAX + 1)];
    assert_eq!(serialize_into_buffer(&WireSpan { value: &bad[..] }), None);
}

#[test]
fn reader_fixed_width_integers() {
    let bytes = [0x12, 0x34, 0x01, 0x02, 0x03, 0x04, 1, 2, 3, 4, 5, 6, 7, 8, 0xff];
    let mut r = DataReader::new(&bytes);
    assert_eq!(r.read_uint16(), Some(0x1234));
    assert_eq!(r.read_uint32(), Some(0x0102_0304));
    assert_eq!(r.read_uint64(), Some(0x0102_0304_0506_0708));
    assert_eq!(r.read_uint16(), None);
    assert_eq!(r.read_uint8(), Some(0xff));
    assert_eq!(r.read_uint8(), None);
    assert_eq!(r.bytes_read(), bytes.len());
}

#[test]
fn subgroup_priority_default() {
    let p = moqt::messages::SubgroupPriority::default();
    assert_eq!(p.publisher_priority, 0xf0);
    assert_eq!(p.subgroup_id, 0);
}

#[test]
fn subgroup_stream_partial_delivery() {
    let o = sample_object(MoqtObjectStatus::kNormal, 3, Some(8));
    let mut p = MoqtDataParser::with_partial_delivery(true);
    p.process_data(&[0x04, 0x04, 0x05, 0x08, 0x07, 0x06, 0x03, 0x62], false);
    p.process_data(b"ar", false);
    let end = MoqtObject { object_id: 7, payload_length: 0, object_status: MoqtObjectStatus::kEndOfGroup, ..o };
    p.process_data(&[0x07, 0x00, 0x03], true);
    assert_eq!(
        p.events(),
        &vec![
            MoqtDataParserEvent::OnObjectMessage(o, b"b".to_vec(), false),
            MoqtDataParserEvent::OnObjectMessage(o, b"ar".to_vec(), true),
            MoqtDataParserEvent::OnObjectMessage(end, vec![], true),
        ]
    );
}

#[test]
fn partial_delivery_fin_mid_payload() {
    let mut p = MoqtDataParser::with_partial_delivery(true);
    p.process_data(&[0x04, 0x04, 0x05, 0x08, 0x07, 0x06, 0x03, 0x62], true);
    let events = p.events();
    assert_eq!(events.len(), 2);
    assert!(matches!(events[0], MoqtDataParserEvent::OnObjectMessage(_, _, false)));
    assert!(matches!(
        events[1],
        MoqtDataParserEvent::OnParsingError(MoqtError::kProtocolViolation, _)
    ));
}
