use web_socket::frame::{decode, encode, Frame};
use web_socket::header::FrameHeader;
use web_socket::mask::apply;
use web_socket::proto::{DataType, Error, Opcode, Role};

const DATA: &[u8] = b"Hello";
const KEY: [u8; 4] = [0x37, 0xfa, 0x21, 0x3d];

#[test]
fn test_name() {
    let s = String::from("Hello!\r");
    println!("{:?}", s.trim_end());
}

#[test]
fn mask_twice_gives_the_bytes_back() {
    let plain: Vec<u8> = (0u8..=255).collect();
    let mut buffer = plain.clone();
    apply(&mut buffer, [1, 2, 3, 4], 0);
    assert_ne!(buffer, plain);
    apply(&mut buffer, [1, 2, 3, 4], 0);
    assert_eq!(buffer, plain);
}

#[test]
fn mask_exact_bytes() {
    let mut buffer = DATA.to_vec();
    apply(&mut buffer, KEY, 0);
    assert_eq!(buffer, vec![0x7f, 0x9f, 0x4d, 0x51, 0x58]);
}

#[test]
fn mask_starts_at_the_given_offset() {
    let mut whole = b"Hello World".to_vec();
    apply(&mut whole, KEY, 0);
    let mut head = b"Hello".to_vec();
    let mut tail = b" World".to_vec();
    apply(&mut head, KEY, 0);
    apply(&mut tail, KEY, 5);
    head.extend_from_slice(&tail);
    assert_eq!(head, whole);
    let mut far = b" World".to_vec();
    apply(&mut far, KEY, u64::MAX - 2);
    let mut near = b" World".to_vec();
    apply(&mut near, KEY, 1);
    assert_eq!(far, near);
}

#[test]
fn mask_of_nothing_is_nothing() {
    let mut buffer: Vec<u8> = Vec::new();
    apply(&mut buffer, KEY, 7);
    assert!(buffer.is_empty());
}

fn header_bytes(len: u64, mask: Option<[u8; 4]>) -> Vec<u8> {
    let mut out = Vec::new();
    FrameHeader { fin: true, opcode: Opcode::Binary, len, mask }.encode(&mut out);
    out
}

#[test]
fn length_100_takes_one_byte() {
    assert_eq!(header_bytes(100, None), vec![0x82, 100]);
    let (h, n) = FrameHeader::decode(&[0x82, 100], Role::Client).unwrap();
    assert_eq!((h.len, n), (100, 2));
}

#[test]
fn length_1000_takes_the_16_bit_form() {
    let bytes = header_bytes(1000, None);
    assert_eq!(bytes, vec![0x82, 126, 0x03, 0xe8]);
    let (h, n) = FrameHeader::decode(&bytes, Role::Client).unwrap();
    assert_eq!((h.len, n), (1000, 4));
}

#[test]
fn length_1000000_takes_the_64_bit_form() {
    let bytes = header_bytes(1_000_000, None);
    assert_eq!(bytes, vec![0x82, 127, 0, 0, 0, 0, 0, 0x0f, 0x42, 0x40]);
    let (h, n) = FrameHeader::decode(&bytes, Role::Client).unwrap();
    assert_eq!((h.len, n), (1_000_000, 10));
}

#[test]
fn length_form_boundaries() {
    assert_eq!(header_bytes(125, None).len(), 2);
    assert_eq!(header_bytes(126, None), vec![0x82, 126, 0, 126]);
    assert_eq!(header_bytes(65535, None), vec![0x82, 126, 0xff, 0xff]);
    assert_eq!(header_bytes(65536, None), vec![0x82, 127, 0, 0, 0, 0, 0, 1, 0, 0]);
    let top = header_bytes(u64::MAX, None);
    assert_eq!(top, vec![0x82, 127, 255, 255, 255, 255, 255, 255, 255, 255]);
    assert_eq!(FrameHeader::decode(&top, Role::Client).unwrap().0.len, u64::MAX);
}

#[test]
fn masked_header_carries_the_key() {
    let bytes = header_bytes(5, Some(KEY));
    assert_eq!(bytes, vec![0x82, 0x85, 0x37, 0xfa, 0x21, 0x3d]);
    let (h, n) = FrameHeader::decode(&bytes, Role::Server).unwrap();
    assert_eq!(h, FrameHeader { fin: true, opcode: Opcode::Binary, len: 5, mask: Some(KEY) });
    assert_eq!(n, 6);
}

#[test]
fn server_refuses_an_unmasked_frame() {
    assert_eq!(FrameHeader::decode(&[0x81, 0x05], Role::Server), Err(Error::ProtocolError));
}

#[test]
fn client_refuses_a_masked_frame() {
    let bytes = [0x81, 0x85, 1, 2, 3, 4];
    assert_eq!(FrameHeader::decode(&bytes, Role::Client), Err(Error::ProtocolError));
}

#[test]
fn header_errors() {
    assert_eq!(FrameHeader::decode(&[], Role::Client), Err(Error::Incomplete));
    assert_eq!(FrameHeader::decode(&[0x81], Role::Client), Err(Error::Incomplete));
    assert_eq!(FrameHeader::decode(&[0x81, 126, 1], Role::Client), Err(Error::Incomplete));
    assert_eq!(FrameHeader::decode(&[0x81, 0x85, 1, 2, 3], Role::Server), Err(Error::Incomplete));
    assert_eq!(FrameHeader::decode(&[0xc1, 0], Role::Client), Err(Error::ProtocolError));
    assert_eq!(FrameHeader::decode(&[0x83, 0], Role::Client), Err(Error::ProtocolError));
    assert_eq!(FrameHeader::decode(&[0x8b, 0], Role::Client), Err(Error::ProtocolError));
    assert_eq!(FrameHeader::decode(&[0x09, 0], Role::Client), Err(Error::ProtocolError));
    assert_eq!(FrameHeader::decode(&[0x89, 126, 0, 126], Role::Client), Err(Error::ProtocolError));
    assert_eq!(FrameHeader::decode(&[0x81, 126, 0, 125], Role::Client), Err(Error::MalformedHeader));
    assert_eq!(
        FrameHeader::decode(&[0x81, 127, 0, 0, 0, 0, 0, 0, 0xff, 0xff], Role::Client),
        Err(Error::MalformedHeader)
    );
}

#[test]
fn unmasked_txt_msg() {
    let mut bytes = vec![];
    encode(&mut bytes, Role::Server, true, Opcode::Text, DATA, [0; 4]).unwrap();
    assert_eq!(bytes, [0x81, 0x05, 0x48, 0x65, 0x6c, 0x6c, 0x6f]);
}

#[test]
fn fragmented_unmasked_txt_msg() {
    let mut bytes = vec![];
    encode(&mut bytes, Role::Server, false, Opcode::Text, b"Hel", [0; 4]).unwrap();
    encode(&mut bytes, Role::Server, true, Opcode::Continue, b"lo", [0; 4]).unwrap();
    assert_eq!(bytes, [0x01, 0x03, 0x48, 0x65, 0x6c, 0x80, 0x02, 0x6c, 0x6f]);
}

#[test]
fn unmasked_ping_req() {
    let mut bytes = vec![];
    encode(&mut bytes, Role::Server, true, Opcode::Ping, DATA, [0; 4]).unwrap();
    assert_eq!(bytes, [0x89, 0x05, 0x48, 0x65, 0x6c, 0x6c, 0x6f]);
}

#[test]
fn masked_txt_msg() {
    let mut bytes = vec![];
    encode(&mut bytes, Role::Client, true, Opcode::Text, DATA, KEY).unwrap();
    assert_eq!(bytes, [0x81, 0x85, 0x37, 0xfa, 0x21, 0x3d, 0x7f, 0x9f, 0x4d, 0x51, 0x58]);
}

#[test]
fn server_reads_a_masked_hello() {
    let wire = [0x81, 0x85, 0x37, 0xfa, 0x21, 0x3d, 0x7f, 0x9f, 0x4d, 0x51, 0x58];
    let (frame, n) = decode(&wire, Role::Server).unwrap();
    assert!(frame.header.fin);
    assert_eq!(frame.header.opcode, Opcode::Text);
    assert_eq!(frame.payload, b"Hello");
    assert_eq!(n, 11);
}

#[test]
fn control_frames_are_final_and_short() {
    let mut bytes = vec![1, 2, 3];
    let long = [0u8; 126];
    assert_eq!(
        encode(&mut bytes, Role::Server, true, Opcode::Ping, &long, [0; 4]),
        Err(Error::ProtocolError)
    );
    assert_eq!(
        encode(&mut bytes, Role::Server, false, Opcode::Pong, DATA, [0; 4]),
        Err(Error::ProtocolError)
    );
    assert_eq!(bytes, vec![1, 2, 3]);
    assert!(encode(&mut bytes, Role::Server, true, Opcode::Ping, &long[..125], [0; 4]).is_ok());
    assert_eq!(bytes.len(), 3 + 2 + 125);
}

fn round_trip(role: Role, opcode: Opcode, payload: &[u8]) {
    let mut wire = vec![];
    encode(&mut wire, role, true, opcode, payload, [9, 8, 7, 6]).unwrap();
    let sent = wire.len();
    wire.extend_from_slice(&[0xaa, 0xbb]);
    let (frame, n) = decode(&wire, role.peer()).unwrap();
    assert_eq!(n, sent);
    assert!(frame.header.fin);
    assert_eq!(frame.header.opcode, opcode);
    assert_eq!(frame.payload, payload);
}

#[test]
fn frames_round_trip() {
    let big: Vec<u8> = (0..70_000u32).map(|i| (i % 251) as u8).collect();
    for role in [Role::Server, Role::Client] {
        for opcode in [Opcode::Text, Opcode::Binary] {
            round_trip(role, opcode, b"");
            round_trip(role, opcode, DATA);
            round_trip(role, opcode, &big[..126]);
            round_trip(role, opcode, &big[..1000]);
            round_trip(role, opcode, &big);
        }
    }
}

#[test]
fn frame_waits_for_its_payload() {
    let wire = [0x82, 0x03, 1, 2];
    assert_eq!(decode(&wire, Role::Client), Err(Error::Incomplete));
    let wire = [0x82, 0x03, 1, 2, 3, 4];
    let (frame, n) = decode(&wire, Role::Client).unwrap();
    assert_eq!(
        frame,
        Frame {
            header: FrameHeader { fin: true, opcode: Opcode::Binary, len: 3, mask: None },
            payload: vec![1, 2, 3],
        }
    );
    assert_eq!(n, 5);
}

#[test]
fn opcodes_and_their_numbers() {
    for (code, opcode) in [
        (0u8, Opcode::Continue),
        (1, Opcode::Text),
        (2, Opcode::Binary),
        (8, Opcode::Close),
        (9, Opcode::Ping),
        (10, Opcode::Pong),
    ] {
        assert_eq!(opcode.to_u8(), code);
        assert_eq!(Opcode::from_u8(code), Some(opcode));
    }
    for code in [3u8, 4, 5, 6, 7, 11, 12, 13, 14, 15, 16, 255] {
        assert_eq!(Opcode::from_u8(code), None);
    }
    assert!(Opcode::Close.is_control() && Opcode::Ping.is_control() && Opcode::Pong.is_control());
    assert!(!Opcode::Text.is_control() && !Opcode::Continue.is_control());
    assert_eq!(DataType::from_opcode(Opcode::Text), Some(DataType::Text));
    assert_eq!(DataType::from_opcode(Opcode::Binary), Some(DataType::Binary));
    assert_eq!(DataType::from_opcode(Opcode::Ping), None);
    assert_eq!(DataType::Binary.opcode(), Opcode::Binary);
}

#[test]
fn roles_and_errors() {
    assert!(Role::Server.expects_masked() && !Role::Server.masks_outgoing());
    assert!(!Role::Client.expects_masked() && Role::Client.masks_outgoing());
    assert_eq!(Role::Server.peer(), Role::Client);
    assert_eq!(Role::Client.peer(), Role::Server);
    assert_eq!(Error::ProtocolError.close_code(), Some(1002));
    assert_eq!(Error::UnexpectedContinuation.close_code(), Some(1002));
    assert_eq!(Error::UnexpectedDataFrame.close_code(), Some(1002));
    assert_eq!(Error::MalformedHeader.close_code(), Some(1007));
    assert_eq!(Error::InvalidPayloadData.close_code(), Some(1007));
    assert_eq!(Error::UnexpectedEof.close_code(), None);
    assert_eq!(Error::Incomplete.close_code(), None);
    assert_eq!(Error::Closed.close_code(), None);
}
