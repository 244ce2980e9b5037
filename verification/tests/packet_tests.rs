use bytes::BytesMut;
use slitherss::packet::{
    empty_buffer, parse_in_packet_type, write_string, write_u16, write_u24, write_u8, InPacketType,
    OutPacketType, PacketAddSnake, PacketBase, PacketEnd, PacketInit, PacketMove, PacketPong,
    PacketRemoveSnake, PacketRotation,
};

#[test]
fn init_packet_starts_as_documented() {
    let bytes = PacketInit::default().encode();
    assert_eq!(bytes.len(), 26);
    assert_eq!(
        &bytes[..15],
        &[0x00, 0x00, 0x61, 0x00, 0x54, 0x60, 0x01, 0x9B, 0x01, 0x2C, 0x00, 0x90, 0x30, 0x02, 0x1B]
    );
    assert_eq!(bytes[25], 8);
}

#[test]
fn init_packet_fixed_point_values_match_float_conversion() {
    let p = PacketInit::default();
    assert_eq!(p.spangdv, (4.8f32 * 10.0) as u8);
    assert_eq!(p.nsp1, (5.39f32 * 100.0) as u16);
    assert_eq!(p.nsp2, (0.4f32 * 100.0) as u16);
    assert_eq!(p.nsp3, (14.0f32 * 100.0) as u16);
    assert_eq!(p.snake_ang_speed, (0.033f32 * 1000.0) as u16);
    assert_eq!(p.prey_ang_speed, (0.028f32 * 1000.0) as u16);
    assert_eq!(p.snake_tail_k, (0.43f32 * 1000.0) as u16);
}

#[test]
fn init_packet_full_layout() {
    let bytes = PacketInit::default().encode();
    assert_eq!(
        bytes,
        vec![
            0x00, 0x00, b'a', 0x00, 0x54, 0x60, 0x01, 0x9B, 0x01, 0x2C, 0x00, 0x90, 48, 0x02, 0x1B,
            0x00, 40, 0x05, 0x78, 0x00, 33, 0x00, 28, 0x01, 0xAE, 8
        ]
    );
}

#[test]
fn move_packet_matches_documented_example() {
    let p = PacketMove::new(1, 0x1A2C, 0x3E4F);
    assert_eq!(p.encode(), vec![0x00, 0x00, 0x67, 0x00, 0x01, 0x1A, 0x2C, 0x3E, 0x4F]);
}

#[test]
fn pong_packet_is_header_only() {
    assert_eq!(PacketPong::new().encode(), vec![0, 0, b'p']);
}

#[test]
fn remove_snake_packet_status() {
    assert_eq!(PacketRemoveSnake::new(0x0102, true).encode(), vec![0, 0, b's', 1, 2, 1]);
    assert_eq!(PacketRemoveSnake::new(7, false).encode(), vec![0, 0, b's', 0, 7, 0]);
}

#[test]
fn end_packet_on_death() {
    let p = PacketEnd::death();
    assert_eq!(p.status, 1);
    assert_eq!(p.encode(), vec![0, 0, b'v', 1]);
}

#[test]
fn base_header_carries_client_time_big_endian() {
    let mut base = PacketBase::new(OutPacketType::Move);
    assert_eq!(base.client_time, 0);
    base.client_time = 0xABCD;
    let mut buf = BytesMut::new();
    base.encode(&mut buf);
    assert_eq!(&buf[..], &[0xAB, 0xCD, b'g']);
}

#[test]
fn integers_are_big_endian() {
    let mut buf = BytesMut::new();
    write_u8(&mut buf, 0x12);
    write_u16(&mut buf, 0x3456);
    write_u24(&mut buf, 0xFF789ABC);
    assert_eq!(&buf[..], &[0x12, 0x34, 0x56, 0x78, 0x9A, 0xBC]);
}

#[test]
fn strings_are_length_prefixed() {
    let mut buf = BytesMut::new();
    write_string(&mut buf, "héllo");
    assert_eq!(&buf[..], &[6, b'h', 0xC3, 0xA9, b'l', b'l', b'o']);
}

#[test]
fn long_string_length_byte_wraps() {
    let s = "x".repeat(300);
    let mut buf = BytesMut::new();
    write_string(&mut buf, &s);
    assert_eq!(buf[0], 44);
    assert_eq!(buf.len(), 301);
}

#[test]
fn out_packet_codes_are_ascii() {
    let codes = [
        (OutPacketType::Init, b'a'),
        (OutPacketType::RotCCWWangSp, b'E'),
        (OutPacketType::RotCCWAngWang, b'3'),
        (OutPacketType::RotCCWAng, b'e'),
        (OutPacketType::RotCWAngWangSp, b'4'),
        (OutPacketType::RotCWAngWang, b'5'),
        (OutPacketType::SetFullness, b'h'),
        (OutPacketType::RemPart, b'r'),
        (OutPacketType::Move, b'g'),
        (OutPacketType::MoveRel, b'G'),
        (OutPacketType::Inc, b'n'),
        (OutPacketType::IncRel, b'N'),
        (OutPacketType::Leaderboard, b'l'),
        (OutPacketType::End, b'v'),
        (OutPacketType::AddSector, b'W'),
        (OutPacketType::RemSector, b'w'),
        (OutPacketType::Highscore, b'm'),
        (OutPacketType::Pong, b'p'),
        (OutPacketType::Minimap, b'u'),
        (OutPacketType::Snake, b's'),
        (OutPacketType::SetFood, b'F'),
        (OutPacketType::SpawnFood, b'b'),
        (OutPacketType::AddFood, b'f'),
        (OutPacketType::EatFood, b'c'),
    ];
    for (t, c) in codes {
        assert_eq!(t.code(), c);
    }
}

#[test]
fn incoming_packet_types() {
    assert_eq!(parse_in_packet_type(108), InPacketType::RotLeft);
    assert_eq!(parse_in_packet_type(114), InPacketType::RotRight);
    assert_eq!(parse_in_packet_type(115), InPacketType::UsernameSkin);
    assert_eq!(parse_in_packet_type(251), InPacketType::Ping);
    assert_eq!(parse_in_packet_type(253), InPacketType::StartAcc);
    assert_eq!(parse_in_packet_type(254), InPacketType::StopAcc);
    assert_eq!(parse_in_packet_type(255), InPacketType::VictoryMessage);
    assert_eq!(parse_in_packet_type(0), InPacketType::Angle(0));
    assert_eq!(parse_in_packet_type(125), InPacketType::Angle(125));
    assert_eq!(parse_in_packet_type(250), InPacketType::Angle(250));
    assert_eq!(parse_in_packet_type(252), InPacketType::Angle(0));
}

fn rotation(ang: Option<u8>, wang: Option<u8>, speed: Option<u8>, clockwise: bool) -> Vec<u8> {
    let mut p = PacketRotation::new(9);
    p.ang = ang;
    p.wang = wang;
    p.speed = speed;
    p.clockwise = clockwise;
    p.encode()
}

#[test]
fn rotation_packet_kinds() {
    assert_eq!(rotation(Some(10), None, None, false), vec![0, 0, b'e', 0, 9, 10]);
    assert_eq!(rotation(Some(1), None, Some(2), true), vec![0, 0, b'e', 0, 9, 1]);
    assert_eq!(rotation(None, Some(4), Some(5), false), vec![0, 0, b'E', 0, 9, 4, 5]);
    assert_eq!(rotation(Some(1), Some(2), None, true), vec![0, 0, b'5', 0, 9, 1, 2]);
    assert_eq!(rotation(Some(1), Some(2), None, false), vec![0, 0, b'3', 0, 9, 1, 2]);
    assert_eq!(rotation(Some(1), Some(2), Some(3), true), vec![0, 0, b'4', 0, 9, 1, 2, 3]);
    assert_eq!(rotation(Some(1), Some(2), Some(3), false), vec![0, 0, b'e', 0, 9, 1]);
}

#[test]
fn rotation_packet_without_a_kind_is_empty() {
    assert!(rotation(None, None, Some(3), false).is_empty());
    assert!(rotation(None, Some(4), None, true).is_empty());
    assert!(rotation(None, None, None, false).is_empty());
}

#[test]
fn rotation_packet_length_follows_its_kind() {
    for &(ang, wang, speed, cw) in &[
        (Some(1u8), None, None, false),
        (Some(1), Some(2), None, false),
        (Some(1), Some(2), None, true),
        (None, Some(2), Some(3), false),
        (Some(1), Some(2), Some(3), true),
    ] {
        let out = rotation(ang, wang, speed, cw);
        let set = [ang, wang, speed].iter().filter(|f| f.is_some()).count();
        assert_eq!(out.len(), 5 + set);
        let expected_len = match out[2] {
            b'e' => 6,
            b'3' | b'5' | b'E' => 7,
            b'4' => 8,
            _ => 0,
        };
        assert_eq!(out.len(), expected_len);
    }
}

#[test]
fn rotation_packet_keeps_client_time() {
    let mut p = PacketRotation::new(1);
    p.base.client_time = 0x0203;
    p.ang = Some(7);
    assert_eq!(p.encode(), vec![2, 3, b'e', 0, 1, 7]);
}

#[test]
fn add_snake_packet_layout() {
    let p = PacketAddSnake {
        base: PacketBase::new(OutPacketType::Snake),
        snake_id: 0x0102,
        angle: 0x123456,
        speed: 0x0A0B,
        fullness: 0xFFFFFF,
        skin: 9,
        head_x: 0x010203,
        head_y: 0x040506,
        name: String::from("ab"),
        tail: Some((0x070809, 0x0A0B0C)),
        parts: vec![(127, 128), (1, 2)],
    };
    assert_eq!(
        p.encode(),
        vec![
            0, 0, b's', 1, 2, 0x12, 0x34, 0x56, 0, 0x12, 0x34, 0x56, 0x0A, 0x0B, 0xFF, 0xFF,
            0xFF, 9, 1, 2, 3, 4, 5, 6, 2, b'a', b'b', 7, 8, 9, 0x0A, 0x0B, 0x0C, 127, 128, 1, 2
        ]
    );
}

#[test]
fn add_snake_packet_without_parts_has_no_body() {
    let p = PacketAddSnake {
        base: PacketBase::new(OutPacketType::Snake),
        snake_id: 3,
        angle: 0,
        speed: 0,
        fullness: 0,
        skin: 0,
        head_x: 0,
        head_y: 0,
        name: String::new(),
        tail: None,
        parts: vec![],
    };
    let bytes = p.encode();
    assert_eq!(bytes.len(), 25);
    assert_eq!(bytes[24], 0);
}

#[test]
fn empty_buffer_takes_writes() {
    let mut buf = empty_buffer(4);
    assert!(buf.is_empty());
    write_u16(&mut buf, 0x0102);
    assert_eq!(&buf[..], &[1, 2]);
}
