use web_socket::assembly::{Assembly, Event};
use web_socket::buffer::ByteSource;
use web_socket::close::{decode_close, encode_close, CloseCode, CloseReason};
use web_socket::data::Data;
use web_socket::frame::encode;
use web_socket::header::FrameHeader;
use web_socket::http::{split_once, Header, Http, HttpError};
use web_socket::message::{CloseFrame, Message, Ping, Pong};
use web_socket::proto::{DataType, Error, Opcode, Role};
use web_socket::socket::{recv_header, Incoming, Websocket};

const KEY: [u8; 4] = [0x37, 0xfa, 0x21, 0x3d];

#[test]
fn three_fragments_make_one_message() {
    let mut assembly = Assembly::new();
    assert_eq!(assembly.feed(false, Opcode::Text, b"Hel".to_vec()), Ok(Event::Pending));
    assert!(assembly.is_assembling());
    assert_eq!(assembly.data_type(), Some(DataType::Text));
    assert_eq!(assembly.feed(false, Opcode::Continue, b"lo ".to_vec()), Ok(Event::Pending));
    assert_eq!(assembly.assembled_len(), 6);
    assert_eq!(
        assembly.feed(true, Opcode::Continue, b"World".to_vec()),
        Ok(Event::Message { ty: DataType::Text, payload: b"Hello World".to_vec() })
    );
    assert!(!assembly.is_assembling());
    assert_eq!(assembly.assembled_len(), 0);
}

#[test]
fn ping_between_fragments_changes_nothing() {
    let mut assembly = Assembly::new();
    assert_eq!(assembly.feed(false, Opcode::Binary, vec![1, 2]), Ok(Event::Pending));
    assert_eq!(assembly.feed(false, Opcode::Continue, vec![3]), Ok(Event::Pending));
    assert_eq!(
        assembly.feed(true, Opcode::Ping, b"hi".to_vec()),
        Ok(Event::Control { opcode: Opcode::Ping, payload: b"hi".to_vec() })
    );
    assert!(assembly.is_assembling());
    assert_eq!(assembly.assembled_len(), 3);
    assert_eq!(
        assembly.feed(true, Opcode::Continue, vec![4, 5]),
        Ok(Event::Message { ty: DataType::Binary, payload: vec![1, 2, 3, 4, 5] })
    );
}

#[test]
fn single_frame_message() {
    let mut assembly = Assembly::new();
    assert_eq!(
        assembly.feed(true, Opcode::Binary, vec![0xff, 0xfe]),
        Ok(Event::Message { ty: DataType::Binary, payload: vec![0xff, 0xfe] })
    );
    assert!(!assembly.is_assembling());
}

#[test]
fn assembly_errors() {
    let mut assembly = Assembly::new();
    assert_eq!(assembly.feed(true, Opcode::Continue, vec![1]), Err(Error::UnexpectedContinuation));
    assert_eq!(assembly.feed(false, Opcode::Text, b"a".to_vec()), Ok(Event::Pending));
    assert_eq!(assembly.feed(true, Opcode::Text, b"b".to_vec()), Err(Error::UnexpectedDataFrame));
    assert!(!assembly.is_assembling());
    assert_eq!(assembly.feed(true, Opcode::Text, vec![0xff]), Err(Error::InvalidPayloadData));
    assert_eq!(assembly.feed(false, Opcode::Ping, vec![]), Err(Error::ProtocolError));
    assert_eq!(assembly.feed(true, Opcode::Pong, vec![0; 126]), Err(Error::ProtocolError));
    // A text message may split a character between its frames.
    assert_eq!(assembly.feed(false, Opcode::Text, vec![0xc3]), Ok(Event::Pending));
    assert_eq!(
        assembly.feed(true, Opcode::Continue, vec![0xa9]),
        Ok(Event::Message { ty: DataType::Text, payload: vec![0xc3, 0xa9] })
    );
}

#[test]
fn close_with_code_1000() {
    let payload = encode_close(1000, b"");
    assert_eq!(payload, vec![0x03, 0xe8]);
    assert_eq!(decode_close(&payload), Ok(Some(CloseReason { code: 1000, reason: vec![] })));
}

#[test]
fn close_payloads() {
    assert_eq!(decode_close(&[]), Ok(None));
    assert_eq!(decode_close(&[0x03]), Err(Error::ProtocolError));
    assert_eq!(decode_close(&[0x03, 0xec]), Err(Error::ProtocolError));
    assert_eq!(decode_close(&[0x03, 0xed]), Err(Error::ProtocolError));
    assert_eq!(decode_close(&[0x03, 0xe7]), Err(Error::ProtocolError));
    assert_eq!(decode_close(&[0x13, 0x88]), Err(Error::ProtocolError));
    assert_eq!(decode_close(&[0x03, 0xe8, 0xff]), Err(Error::InvalidPayloadData));
    assert_eq!(
        decode_close(&encode_close(3000, b"bye")),
        Ok(Some(CloseReason { code: 3000, reason: b"bye".to_vec() }))
    );
    assert_eq!(encode_close(1011, b"x"), vec![0x03, 0xf3, b'x']);
}

#[test]
fn close_codes_and_their_numbers() {
    for (code, name) in [
        (1000u16, CloseCode::Normal),
        (1001, CloseCode::Away),
        (1002, CloseCode::ProtocolError),
        (1003, CloseCode::UnsupportedData),
        (1007, CloseCode::InvalidPayloadData),
        (1008, CloseCode::PolicyViolation),
        (1009, CloseCode::MessageTooBig),
        (1010, CloseCode::MandatoryExtension),
        (1011, CloseCode::InternalError),
    ] {
        assert_eq!(name.to_u16(), code);
        assert_eq!(CloseCode::from_u16(code), Some(name));
    }
    assert_eq!(CloseCode::from_u16(1004), None);
    assert_eq!(CloseCode::from_u16(0), None);
}

#[test]
fn close_frames() {
    assert_eq!(().encode(Role::Server, [0; 4]), Ok(vec![0x88, 0x00]));
    assert_eq!(().encode(Role::Client, [0; 4]), Ok(vec![136, 128, 0, 0, 0, 0]));
    assert_eq!(1000u16.encode(Role::Server, [0; 4]), Ok(vec![0x88, 0x02, 0x03, 0xe8]));
    assert_eq!(
        CloseCode::ProtocolError.encode(Role::Server, [0; 4]),
        Ok(vec![0x88, 0x02, 0x03, 0xea])
    );
    assert_eq!("hi".encode(Role::Server, [0; 4]), Ok(vec![0x88, 0x04, 0x03, 0xe8, b'h', b'i']));
    assert_eq!(
        (4000u16, "no").encode(Role::Server, [0; 4]),
        Ok(vec![0x88, 0x04, 0x0f, 0xa0, b'n', b'o'])
    );
    assert_eq!(
        1000u16.encode(Role::Client, KEY),
        Ok(vec![0x88, 0x82, 0x37, 0xfa, 0x21, 0x3d, 0x03 ^ 0x37, 0xe8 ^ 0xfa])
    );
    let long = "x".repeat(124);
    assert_eq!(long.as_str().encode(Role::Server, [0; 4]), Err(Error::ProtocolError));
    let fits = "x".repeat(123);
    assert_eq!(fits.as_str().encode(Role::Server, [0; 4]).unwrap().len(), 2 + 125);
}

#[test]
fn messages_and_their_frames() {
    assert_eq!("Hello".frame_type(), (true, Opcode::Text, &b"Hello"[..]));
    assert_eq!([1u8, 2][..].frame_type(), (true, Opcode::Binary, &[1u8, 2][..]));
    assert_eq!(Ping(vec![7]).frame_type(), (true, Opcode::Ping, &[7u8][..]));
    assert_eq!(Pong(vec![]).frame_type(), (true, Opcode::Pong, &[][..]));
    assert_eq!([3u8, 4, 5].frame_type(), (true, Opcode::Binary, &[3u8, 4, 5][..]));
    assert_eq!((&"Hi").frame_type(), (true, Opcode::Text, &b"Hi"[..]));
    assert_eq!((&Ping(vec![1])).frame_type(), (true, Opcode::Ping, &[1u8][..]));
}

#[test]
fn byte_source() {
    let mut source = ByteSource::with_capacity(16);
    assert_eq!(source.available(), 0);
    source.fill(&[1, 2, 3]);
    source.fill(&[4, 5]);
    assert_eq!(source.buffer(), &[1, 2, 3, 4, 5]);
    source.consume(2);
    assert_eq!(source.buffer(), &[3, 4, 5]);
    source.fill(&[6]);
    assert_eq!(source.buffer(), &[3, 4, 5, 6]);
    source.consume(9);
    assert_eq!(source.available(), 0);
    assert_eq!(ByteSource::new().available(), 0);
}

#[test]
fn header_is_consumed_on_success_only() {
    let mut source = ByteSource::new();
    source.fill(&[0x81, 0x85, 0x37, 0xfa]);
    assert_eq!(recv_header(&mut source, Role::Server), Err(Error::Incomplete));
    assert_eq!(source.available(), 4);
    source.fill(&[0x21, 0x3d, 0x7f]);
    let header = recv_header(&mut source, Role::Server).unwrap();
    assert_eq!(header, FrameHeader { fin: true, opcode: Opcode::Text, len: 5, mask: Some(KEY) });
    assert_eq!(source.buffer(), &[0x7f]);
}

fn masked_hello_reader() -> (Data, ByteSource) {
    let mut source = ByteSource::new();
    source.fill(&[0x81, 0x85, 0x37, 0xfa, 0x21, 0x3d, 0x7f, 0x9f, 0x4d, 0x51, 0x58, 0x99]);
    let header = recv_header(&mut source, Role::Server).unwrap();
    (Data::new(DataType::Text, &header), source)
}

#[test]
fn reader_reads_in_pieces() {
    let (mut data, mut source) = masked_hello_reader();
    assert_eq!(data.ty(), DataType::Text);
    assert!(data.fin());
    assert_eq!(data.len(), 5);
    let mut dest = vec![0u8; 3];
    assert_eq!(data.read(&mut source, &mut dest), 3);
    assert_eq!(dest, b"Hel");
    assert_eq!(data.len(), 2);
    let mut dest = vec![b'.'; 4];
    assert_eq!(data.read(&mut source, &mut dest), 2);
    assert_eq!(dest, b"lo..");
    assert_eq!(data.len(), 0);
    assert_eq!(data.read(&mut source, &mut dest), 0);
    assert_eq!(source.buffer(), &[0x99]);
}

#[test]
fn reader_takes_what_is_buffered() {
    let mut source = ByteSource::new();
    source.fill(&[0x82, 0x04, 1, 2]);
    let header = recv_header(&mut source, Role::Client).unwrap();
    let mut data = Data::new(DataType::Binary, &header);
    let mut dest = vec![0u8; 8];
    assert_eq!(data.read(&mut source, &mut dest), 2);
    assert_eq!(&dest[..2], &[1, 2]);
    assert_eq!(data.len(), 2);
    assert_eq!(data.read(&mut source, &mut dest), 0);
    let mut acc = vec![];
    assert_eq!(data.read_to_end(&mut source, &mut acc), Err(Error::Incomplete));
    source.fill(&[3, 4, 5]);
    assert_eq!(data.read_to_end(&mut source, &mut acc), Ok(2));
    assert_eq!(acc, vec![3, 4]);
    assert_eq!(source.buffer(), &[5]);
}

#[test]
fn reader_read_exact() {
    let (mut data, mut source) = masked_hello_reader();
    let mut dest = vec![0u8; 6];
    assert_eq!(data.read_exact(&mut source, &mut dest), Err(Error::UnexpectedEof));
    assert_eq!(data.len(), 5);
    let mut dest = vec![0u8; 2];
    assert_eq!(data.read_exact(&mut source, &mut dest), Ok(()));
    assert_eq!(dest, b"He");
    let mut dest = vec![0u8; 3];
    assert_eq!(data.read_exact(&mut source, &mut dest), Ok(()));
    assert_eq!(dest, b"llo");
    assert_eq!(data.len(), 0);

    let mut source = ByteSource::new();
    source.fill(&[0x82, 0x04, 1, 2]);
    let header = recv_header(&mut source, Role::Client).unwrap();
    let mut data = Data::new(DataType::Binary, &header);
    let mut dest = vec![0u8; 3];
    assert_eq!(data.read_exact(&mut source, &mut dest), Err(Error::Incomplete));
    assert_eq!(source.available(), 2);
}

#[test]
fn reader_read_to_end() {
    let (mut data, mut source) = masked_hello_reader();
    let mut dest = vec![0u8; 1];
    assert_eq!(data.read(&mut source, &mut dest), 1);
    let mut acc = b">".to_vec();
    assert_eq!(data.read_to_end(&mut source, &mut acc), Ok(4));
    assert_eq!(acc, b">ello");
    assert_eq!(data.read_to_end(&mut source, &mut acc), Ok(0));
    assert_eq!(source.buffer(), &[0x99]);
}

#[test]
fn socket_assembles_across_a_ping() {
    let mut wire = vec![];
    encode(&mut wire, Role::Client, false, Opcode::Text, b"Hel", KEY).unwrap();
    encode(&mut wire, Role::Client, false, Opcode::Continue, b"lo ", [1, 2, 3, 4]).unwrap();
    encode(&mut wire, Role::Client, true, Opcode::Ping, b"?", [5, 6, 7, 8]).unwrap();
    encode(&mut wire, Role::Client, true, Opcode::Continue, b"World", [9, 9, 9, 9]).unwrap();
    let mut ws = Websocket::new(Role::Server);
    assert_eq!(ws.role(), Role::Server);
    assert_eq!(ws.recv(), Err(Error::Incomplete));
    ws.fill(&wire[..4]);
    assert_eq!(ws.recv(), Err(Error::Incomplete));
    assert_eq!(ws.buffered(), 4);
    ws.fill(&wire[4..]);
    assert_eq!(ws.recv(), Ok(Incoming::Pending));
    assert_eq!(ws.recv(), Ok(Incoming::Pending));
    assert_eq!(ws.recv(), Ok(Incoming::Ping(b"?".to_vec())));
    assert_eq!(
        ws.recv(),
        Ok(Incoming::Message { ty: DataType::Text, payload: b"Hello World".to_vec() })
    );
    assert_eq!(ws.buffered(), 0);
    assert_eq!(ws.recv(), Err(Error::Incomplete));
}

#[test]
fn socket_sends_by_role() {
    let server = Websocket::with_capacity(64, Role::Server);
    let mut out = vec![];
    assert_eq!(server.send("Hello", KEY, &mut out), Ok(()));
    assert_eq!(out, [0x81, 0x05, 0x48, 0x65, 0x6c, 0x6c, 0x6f]);
    let client = Websocket::new(Role::Client);
    let mut out = vec![];
    assert_eq!(client.send(&Pong(b"Hello".to_vec()), KEY, &mut out), Ok(()));
    assert_eq!(out, [0x8a, 0x85, 0x37, 0xfa, 0x21, 0x3d, 0x7f, 0x9f, 0x4d, 0x51, 0x58]);
    let mut out = vec![];
    assert_eq!(client.send(&Ping(vec![0; 126]), KEY, &mut out), Err(Error::ProtocolError));
    assert!(out.is_empty());
    assert_eq!(server.send(&[1u8, 2, 3][..], KEY, &mut out), Ok(()));
    assert_eq!(out, [0x82, 0x03, 1, 2, 3]);
}

#[test]
fn socket_closing_handshake() {
    let mut ws = Websocket::new(Role::Client);
    ws.fill(&[0x88, 0x02, 0x03, 0xe8, 0x81, 0x00]);
    assert!(!ws.is_closing());
    assert_eq!(ws.recv(), Ok(Incoming::Close(Some(CloseReason { code: 1000, reason: vec![] }))));
    assert!(ws.is_closing() && !ws.is_closed());
    let mut out = vec![];
    assert_eq!(ws.send("late", KEY, &mut out), Err(Error::Closed));
    assert!(out.is_empty());
    assert_eq!(ws.close(CloseCode::Normal, KEY, &mut out), Ok(()));
    assert_eq!(out, [0x88, 0x82, 0x37, 0xfa, 0x21, 0x3d, 0x03 ^ 0x37, 0xe8 ^ 0xfa]);
    assert!(ws.is_closed());
    assert_eq!(ws.close((), KEY, &mut out), Err(Error::Closed));
    assert_eq!(out.len(), 8);
}

#[test]
fn socket_close_events_and_errors() {
    let mut ws = Websocket::new(Role::Client);
    ws.fill(&[0x88, 0x00]);
    assert_eq!(ws.recv(), Ok(Incoming::Close(None)));
    let mut ws = Websocket::new(Role::Client);
    ws.fill(&[0x88, 0x01, 0x03]);
    assert_eq!(ws.recv(), Err(Error::ProtocolError));
    assert!(ws.is_closing());
    let mut ws = Websocket::new(Role::Client);
    ws.fill(&[0x8a, 0x01, 0x07, 0x80, 0x00]);
    assert_eq!(ws.recv(), Ok(Incoming::Pong(vec![7])));
    assert_eq!(ws.recv(), Err(Error::UnexpectedContinuation));
    assert_eq!(ws.buffered(), 0);
    let mut ws = Websocket::new(Role::Server);
    ws.fill(&[0x81, 0x00]);
    assert_eq!(ws.recv(), Err(Error::ProtocolError));
    assert_eq!(ws.buffered(), 2);
    let mut ws = Websocket::new(Role::Server);
    let mut out = vec![];
    assert_eq!(ws.close("x".repeat(200).as_str(), KEY, &mut out), Err(Error::ProtocolError));
    assert!(!ws.is_closing() && out.is_empty());
    assert_eq!(ws.close((), KEY, &mut out), Ok(()));
    assert_eq!(out, [0x88, 0x00]);
    assert!(ws.is_closing());
}

#[test]
fn header_fields() {
    assert_eq!(Header::fmt(&("val", "2")), "val: 2\r\n");
    assert_eq!(Header::fmt(&["key", "value"]), "key: value\r\n");
    assert_eq!(Header::fmt(&&("Upgrade", "websocket")), "Upgrade: websocket\r\n");
}

#[test]
fn http_first_line() {
    let bytes = "HTTP/1.1 101 Switching Protocols\r\nUpgrade: websocket\r\n\r\n".as_bytes();
    let (http, n) = Http::parse(bytes).unwrap();
    assert_eq!(http.prefix, "HTTP/1.1 101 Switching Protocols\r");
    assert!(http.headers.is_empty());
    assert_eq!(n, 34);
    assert_eq!(Http::parse(b"HTTP/1.1 101").unwrap_err(), HttpError::UnexpectedEof);
    assert_eq!(Http::parse(&[0xff, b'\n']).unwrap_err(), HttpError::InvalidData);
    assert_eq!(split_once(b"a:b:c", b':'), Some(1));
    assert_eq!(split_once(b"abc", b':'), None);
    assert_eq!(split_once(b"", b':'), None);
}

#[test]
fn read_buf_takes_exactly_n() {
    let mut source = ByteSource::new();
    source.fill(&[1, 2, 3]);
    assert_eq!(web_socket::utils::read_buf::<4>(&mut source), None);
    assert_eq!(source.available(), 3);
    assert_eq!(web_socket::utils::read_buf::<2>(&mut source), Some([1, 2]));
    assert_eq!(source.buffer(), &[3]);
    assert_eq!(web_socket::utils::read_buf::<0>(&mut source), Some([]));
}

#[test]
fn read_bytes_hands_out_and_consumes() {
    let mut source = ByteSource::new();
    source.fill(&[1, 2, 3, 4, 5]);
    let mut seen = vec![];
    let count = web_socket::utils::read_bytes(&mut source, 3, |bytes| {
        seen.extend_from_slice(bytes);
        bytes.len() * 10
    });
    assert_eq!(count, 30);
    assert_eq!(seen, vec![1, 2, 3]);
    assert_eq!(source.buffer(), &[4, 5]);
    let count = web_socket::utils::read_bytes(&mut source, 9, |bytes| bytes.len());
    assert_eq!(count, 2);
    assert_eq!(source.available(), 0);
}
