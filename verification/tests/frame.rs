use rengine::connection::{encode_frame, ConnReader, ConnWriter, FrameError, ReadEvent, WriteStep,
    PROTO_BODY_MAX_LEN};
use rengine::messages::{c_errors, c_item_bag, c_login, c_player_brief, db_load_req, db_load_resp,
    db_save_req, item_info, s_item_bag, s_login, s_player_brief, serialize, ProtoType,
    PROTO_VERSION};

fn sample_login() -> ProtoType {
    ProtoType::s_login(s_login { acc: "alice".to_string(), vers: PROTO_VERSION.to_string() })
}

fn sample_bag() -> ProtoType {
    ProtoType::c_item_bag(c_item_bag {
        bagtype: 2,
        uid: 70007,
        baginfo: vec![
            item_info { uid: 10001, id: 5, stack: 3 },
            item_info { uid: 10002, id: 9, stack: -1 },
        ],
    })
}

fn frame_of(pto: &ProtoType) -> (u32, Vec<u8>) {
    let (id, _) = pto.inner_info();
    let body = serialize(pto).unwrap();
    (id, encode_frame(id, &body))
}

fn assert_eqv(a: &ProtoType, b: &ProtoType) {
    match (a, b) {
        (ProtoType::s_login(x), ProtoType::s_login(y)) => {
            assert_eq!(x.acc, y.acc);
            assert_eq!(x.vers, y.vers);
        }
        (ProtoType::c_login(x), ProtoType::c_login(y)) => {
            assert_eq!(x.ret, y.ret);
            assert_eq!(x.magic, y.magic);
        }
        (ProtoType::c_item_bag(x), ProtoType::c_item_bag(y)) => {
            assert_eq!(x.bagtype, y.bagtype);
            assert_eq!(x.uid, y.uid);
            assert_eq!(x.baginfo.len(), y.baginfo.len());
            for (i, it) in x.baginfo.iter().enumerate() {
                assert_eq!(it.uid, y.baginfo[i].uid);
                assert_eq!(it.id, y.baginfo[i].id);
                assert_eq!(it.stack, y.baginfo[i].stack);
            }
        }
        _ => panic!("different variants"),
    }
}

#[test]
fn frame_round_trip() {
    for pto in [sample_login(), sample_bag(), ProtoType::c_login(c_login { ret: 1, magic: 42 })] {
        let body = serialize(&pto).unwrap();
        let (id, frame) = frame_of(&pto);
        // the encoded byte length is exactly 8 plus the body length
        assert_eq!(frame.len(), 8 + body.len());
        let mut reader = ConnReader::new(77);
        reader.feed(&frame);
        let (vfd, got_id, got) = reader.parse_frame().unwrap().unwrap();
        assert_eq!(vfd, 77);
        assert_eq!(got_id, id);
        assert_eqv(&got, &pto);
        assert!(reader.buffer.is_empty());
        // nothing more to decode
        assert!(reader.parse_frame().unwrap().is_none());
    }
}

#[test]
fn login_frame_header_carries_type_and_length() {
    let pto = sample_login();
    let body = serialize(&pto).unwrap();
    let (id, frame) = frame_of(&pto);
    assert_eq!(id, 101);
    let tid = u32::from_le_bytes([frame[0], frame[1], frame[2], frame[3]]);
    let len = u32::from_le_bytes([frame[4], frame[5], frame[6], frame[7]]);
    assert_eq!(tid, 101);
    assert_eq!(len as usize, body.len());
}

#[test]
fn partial_buffer_idempotence() {
    // feeding the same frame split at every boundary decodes identically
    let pto = sample_bag();
    let (_, frame) = frame_of(&pto);
    let mut whole = ConnReader::new(1);
    whole.feed(&frame);
    let (_, _, reference) = whole.parse_frame().unwrap().unwrap();
    for i in 0..frame.len() {
        let mut reader = ConnReader::new(1);
        reader.feed(&frame[..i]);
        assert!(reader.parse_frame().unwrap().is_none(), "split at {}", i);
        reader.feed(&frame[i..]);
        let (_, _, got) = reader.parse_frame().unwrap().unwrap();
        assert_eqv(&got, &reference);
        assert!(reader.buffer.is_empty());
    }
}

#[test]
fn oversize_header_is_fatal_before_any_body() {
    // a bare header declaring a body at the cap: no body bytes at all
    let mut header = Vec::new();
    header.extend_from_slice(&101u32.to_le_bytes());
    header.extend_from_slice(&(PROTO_BODY_MAX_LEN as u32).to_le_bytes());
    let mut reader = ConnReader::new(1);
    reader.feed(&header);
    match reader.parse_frame() {
        Err(FrameError::FrameTooLarge(l)) => assert_eq!(l, PROTO_BODY_MAX_LEN),
        other => panic!("expected a too-large refusal, got {:?}", other),
    }
}

#[test]
fn leftover_bytes_stay_untouched() {
    let pto = sample_login();
    let (_, frame) = frame_of(&pto);
    for n in 0..8usize {
        let extra: Vec<u8> = (0..n as u8).map(|b| b.wrapping_mul(37).wrapping_add(5)).collect();
        let mut reader = ConnReader::new(1);
        reader.feed(&frame);
        reader.feed(&extra);
        let got = reader.parse_frame().unwrap();
        assert!(got.is_some());
        assert_eq!(reader.buffer, extra);
    }
}

#[test]
fn two_frames_in_one_buffer_come_out_in_order() {
    let first = sample_login();
    let second = ProtoType::c_login(c_login { ret: 1, magic: 9 });
    let (_, f1) = frame_of(&first);
    let (_, f2) = frame_of(&second);
    let mut reader = ConnReader::new(1);
    reader.feed(&f1);
    reader.feed(&f2);
    let (_, id1, got1) = reader.parse_frame().unwrap().unwrap();
    let (_, id2, got2) = reader.parse_frame().unwrap().unwrap();
    assert_eq!(id1, 101);
    assert_eq!(id2, 102);
    assert_eqv(&got1, &first);
    assert_eqv(&got2, &second);
    assert_eq!(reader.readnum, 2);
}

#[test]
fn unknown_message_type_is_fatal() {
    let body = vec![0u8; 4];
    let frame = encode_frame(999, &body);
    let mut reader = ConnReader::new(1);
    reader.feed(&frame);
    match reader.parse_frame() {
        Err(FrameError::Parse(rengine::errors::Error::UnknownMessageType(999))) => {}
        other => panic!("expected an unknown-type error, got {:?}", other),
    }
}

#[test]
fn partial_parse_is_fatal() {
    // a valid login body with one extra declared byte: the parse must
    // consume exactly the declared length, so this fails
    let pto = sample_login();
    let mut body = serialize(&pto).unwrap();
    body.push(0);
    let frame = encode_frame(101, &body);
    let mut reader = ConnReader::new(1);
    reader.feed(&frame);
    assert!(matches!(reader.parse_frame(), Err(FrameError::Parse(_))));
}

#[test]
fn zero_read_meaning_depends_on_buffered_bytes() {
    let reader = ConnReader::new(1);
    assert_eq!(reader.on_zero_read(), ReadEvent::CleanClose);
    let mut reader = ConnReader::new(1);
    reader.feed(&[1, 2, 3]);
    assert_eq!(reader.on_zero_read(), ReadEvent::ConnectionReset);
}

#[test]
fn writer_refuses_misrouted_messages_and_emits_exact_frames() {
    let mut writer = ConnWriter::new(5);
    let pto = ProtoType::c_login(c_login { ret: 1, magic: 7 });
    match writer.handle_outbound(6, 102, &pto) {
        WriteStep::WrongIdentity => {}
        other => panic!("expected a wrong-identity refusal, got {:?}", other),
    }
    let body = serialize(&pto).unwrap();
    match writer.handle_outbound(5, 102, &pto) {
        WriteStep::Emit(frame) => {
            assert_eq!(frame.len(), 8 + body.len());
            assert_eq!(&frame[8..], &body[..]);
            assert_eq!(u32::from_le_bytes([frame[0], frame[1], frame[2], frame[3]]), 102);
            // and not a byte more
            assert_eq!(
                u32::from_le_bytes([frame[4], frame[5], frame[6], frame[7]]) as usize,
                body.len()
            );
        }
        other => panic!("expected a frame, got {:?}", other),
    }
    assert_eq!(writer.writenum, 1);
}

#[test]
fn every_message_survives_its_wire_trip() {
    let all: Vec<ProtoType> = vec![
        sample_login(),
        ProtoType::c_login(c_login { ret: 1, magic: -3 }),
        ProtoType::s_player_brief(s_player_brief {}),
        ProtoType::c_player_brief(c_player_brief {
            acc: "alice".to_string(),
            uid: 50007,
            name: "\u{4e16}\u{754c}".to_string(),
            level: 3,
            expr: -1,
            money: 100,
        }),
        ProtoType::s_item_bag(s_item_bag { bagtype: 2 }),
        sample_bag(),
        ProtoType::c_errors(c_errors { id: 111, param: "why".to_string() }),
        ProtoType::db_load_req(db_load_req {
            from_host: 7,
            db_name: "playerdb".to_string(),
            key: "alice.dat".to_string(),
            ret_func: 2,
            vfd: 10001,
        }),
        ProtoType::db_save_req(db_save_req {
            from_host: 7,
            db_name: "uuiddb".to_string(),
            key: "uuid.dat".to_string(),
            value: vec![1, 2, 3],
            counter: 9,
        }),
        ProtoType::db_load_resp(db_load_resp {
            key: "uuid.dat".to_string(),
            value: vec![],
            counter: 0,
            ret_func: 1,
            vfd: 0,
        }),
    ];
    for pto in &all {
        let body = serialize(pto).unwrap();
        let (id, _) = pto.inner_info();
        let got = rengine::messages::parse_proto(id, &body, 0, body.len()).unwrap();
        let got_body = serialize(&got).unwrap();
        // the decoded message re-encodes to the same bytes
        assert_eq!(got_body, body);
        let (gid, gname) = got.inner_info();
        assert_eq!(gid, id);
        assert!(!gname.is_empty());
    }
}
