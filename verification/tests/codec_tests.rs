use pih_pah::codec::{
    decode_message, decode_snapshot, encode_message, encode_snapshot, ActorTransportData,
    PlayerTransportData, ServerMessages, TransportData, Username, USER_DATA_BYTES,
};
use pih_pah::lobby::{Color, LinkId, PlayerId, PlayerView, Position, Rotation};

fn sample_color() -> Color {
    Color { hue_tenths: 1375, saturation_permille: 1000, lightness_permille: 500 }
}

fn sample_position() -> Position {
    Position { x_bits: 0x3f800000, y_bits: 0x40000000, z_bits: 0 }
}

fn sample_rotation() -> Rotation {
    Rotation { x_bits: 1, y_bits: 2, z_bits: 3, w_bits: 0x3f800000 }
}

#[test]
fn username_round_trip() {
    let name = Username(String::from("alice"));
    let buf = name.to_netcode_data().expect("short name must encode");
    assert_eq!(buf.len(), USER_DATA_BYTES);
    assert_eq!(&buf[0..8], &[5, 0, 0, 0, 0, 0, 0, 0]);
    assert_eq!(&buf[8..13], b"alice");
    let back = Username::from_user_data(&buf).expect("buffer must decode");
    assert_eq!(back, "alice");
}

#[test]
fn username_round_trip_unicode() {
    let name = Username(String::from("жмых"));
    let buf = name.to_netcode_data().expect("short name must encode");
    let back = Username::from_user_data(&buf).expect("buffer must decode");
    assert_eq!(back, "жмых");
}

#[test]
fn username_too_long_fails() {
    let name = Username("x".repeat(USER_DATA_BYTES - 8 + 1));
    assert!(name.to_netcode_data().is_none());
    let fits = Username("x".repeat(USER_DATA_BYTES - 8));
    assert!(fits.to_netcode_data().is_some());
}

#[test]
fn username_decode_clamps_corrupt_length() {
    let mut buf = vec![0u8; USER_DATA_BYTES];
    // An absurd announced length is clamped to the usable capacity.
    buf[0..8].copy_from_slice(&u64::MAX.to_le_bytes());
    for b in buf[8..].iter_mut() {
        *b = b'a';
    }
    let back = Username::from_user_data(&buf).expect("clamped range is valid UTF-8");
    assert_eq!(back.len(), USER_DATA_BYTES - 8);
}

#[test]
fn username_decode_rejects_invalid_utf8() {
    let mut buf = vec![0u8; USER_DATA_BYTES];
    buf[0..8].copy_from_slice(&2u64.to_le_bytes());
    buf[8] = 0xff;
    buf[9] = 0xfe;
    assert!(Username::from_user_data(&buf).is_none());
}

#[test]
fn message_round_trips() {
    let messages = vec![
        ServerMessages::InitConnection { id: 0xdeadbeef },
        ServerMessages::ChangeMap,
        ServerMessages::PlayerConnected {
            id: PlayerId::Client(7),
            color: sample_color(),
            username: String::from("bob"),
        },
        ServerMessages::PlayerConnected {
            id: PlayerId::HostOrSingle,
            color: sample_color(),
            username: String::new(),
        },
        ServerMessages::PlayerDisconnected { id: PlayerId::Client(7) },
        ServerMessages::ProjectileSpawn { id: LinkId(3), color: sample_color() },
        ServerMessages::ActorDespawn { id: LinkId(9) },
    ];
    for m in messages {
        let bytes = encode_message(&m);
        let back = decode_message(&bytes).expect("an encoding must decode");
        assert_eq!(back, m);
    }
}

#[test]
fn message_decode_rejects_malformed() {
    assert!(decode_message(&vec![]).is_none());
    // Unknown tag.
    assert!(decode_message(&vec![77]).is_none());
    // Truncated InitConnection.
    assert!(decode_message(&vec![0, 1, 2]).is_none());
    // Trailing byte after a whole message.
    let mut bytes = encode_message(&ServerMessages::ChangeMap);
    bytes.push(0);
    assert!(decode_message(&bytes).is_none());
}

#[test]
fn snapshot_round_trip() {
    let d = TransportData {
        players: vec![
            (
                PlayerId::HostOrSingle,
                PlayerTransportData {
                    position: sample_position(),
                    rotation: sample_rotation(),
                    player_view: PlayerView { direction: sample_rotation(), distance_bits: 42 },
                },
            ),
            (
                PlayerId::Client(11),
                PlayerTransportData {
                    position: Position { x_bits: 5, y_bits: 6, z_bits: 7 },
                    rotation: sample_rotation(),
                    player_view: PlayerView { direction: sample_rotation(), distance_bits: 0 },
                },
            ),
        ],
        actors: vec![(
            LinkId(100),
            ActorTransportData { position: sample_position(), rotation: sample_rotation() },
        )],
    };
    let bytes = encode_snapshot(&d);
    let back = decode_snapshot(&bytes).expect("an encoding must decode");
    assert_eq!(back, d);
}

#[test]
fn snapshot_round_trip_empty() {
    let d = TransportData { players: vec![], actors: vec![] };
    let bytes = encode_snapshot(&d);
    assert_eq!(bytes.len(), 16);
    let back = decode_snapshot(&bytes).expect("an empty snapshot must decode");
    assert_eq!(back, d);
}

#[test]
fn snapshot_decode_rejects_malformed() {
    assert!(decode_snapshot(&vec![]).is_none());
    // A count with no entries behind it.
    let mut bytes = 5u64.to_le_bytes().to_vec();
    assert!(decode_snapshot(&bytes).is_none());
    // Trailing byte.
    bytes = encode_snapshot(&TransportData { players: vec![], actors: vec![] });
    bytes.push(1);
    assert!(decode_snapshot(&bytes).is_none());
}

#[test]
fn message_encoding_is_little_endian() {
    let bytes = encode_message(&ServerMessages::InitConnection { id: 0x0123456789abcdef });
    assert_eq!(bytes[0], 0);
    assert_eq!(&bytes[1..9], &0x0123456789abcdefu64.to_le_bytes());
    assert_eq!(bytes.len(), 9);
}
