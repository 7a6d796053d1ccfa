use rblock::nbd::{
    gather_read, handshake, read_span, simple_reply, Action, ConnState, Connection, NbdOpt, Phase,
};
use rblock::qcow2::Qcow2;

fn be(v: u64, n: usize) -> Vec<u8> {
    (0..n).map(|i| (v >> (8 * (n - 1 - i))) as u8).collect()
}

fn option_head(code: u32, len: u32) -> Vec<u8> {
    let mut b = be(0x49484156454f5054, 8);
    b.extend(be(code as u64, 4));
    b.extend(be(len as u64, 4));
    b
}

fn go_data(name: &[u8]) -> Vec<u8> {
    let mut b = be(name.len() as u64, 4);
    b.extend_from_slice(name);
    b.extend(be(0, 2));
    b
}

fn request(kind: u16, handle: u64, offset: u64, length: u32) -> Vec<u8> {
    let mut b = be(0x25609513, 4);
    b.extend(be(0, 2));
    b.extend(be(kind as u64, 2));
    b.extend(be(handle, 8));
    b.extend(be(offset, 8));
    b.extend(be(length as u64, 4));
    b
}

fn sent(a: Action) -> Vec<u8> {
    match a {
        Action::Send(b) => b,
        _ => panic!("expected bytes to send"),
    }
}

fn option_reply(code: u32, rtype: u32) -> Vec<u8> {
    let mut b = be(0x3e889045565a9, 8);
    b.extend(be(code as u64, 4));
    b.extend(be(rtype as u64, 4));
    b.extend(be(0, 4));
    b
}

/// A connection past the handshake, waiting for an option.
fn haggling() -> Connection {
    let mut c = Connection::new(b"disk".to_vec(), 1 << 20);
    assert!(sent(c.receive(&be(1, 4))).is_empty());
    c
}

fn transmitting() -> Connection {
    let mut c = haggling();
    let data = go_data(b"disk");
    c.receive(&option_head(7, data.len() as u32));
    c.receive(&data);
    assert_eq!(c.phase(), Phase::Transmission);
    c
}

#[test]
fn greeting_bytes() {
    let h = handshake();
    assert_eq!(h.len(), 18);
    assert_eq!(&h[..8], b"NBDMAGIC");
    assert_eq!(&h[8..16], b"IHAVEOPT");
    assert_eq!(&h[16..], &[0, 1]);
}

#[test]
fn go_reaches_transmission() {
    let mut c = Connection::new(b"disk".to_vec(), 0x1234_5678);
    assert_eq!(c.phase(), Phase::Handshake);
    assert_eq!(c.expected(), 4);
    assert!(sent(c.receive(&be(1, 4))).is_empty());
    assert_eq!(c.phase(), Phase::Haggling);
    assert_eq!(c.expected(), 16);
    let data = go_data(b"disk");
    assert!(sent(c.receive(&option_head(7, data.len() as u32))).is_empty());
    assert_eq!(c.expected(), data.len());
    let reply = sent(c.receive(&data));
    assert_eq!(c.phase(), Phase::Transmission);
    assert_eq!(c.state(), ConnState::AwaitRequest);
    let mut want = be(0x3e889045565a9, 8);
    want.extend(be(7, 4));
    want.extend(be(3, 4));
    want.extend(be(12, 4));
    want.extend(be(0, 2));
    want.extend(be(0x1234_5678, 8));
    want.extend(be(3, 2));
    want.extend(option_reply(7, 1));
    assert_eq!(reply, want);
}

#[test]
fn go_with_default_name() {
    let mut c = haggling();
    let data = go_data(b"");
    c.receive(&option_head(7, data.len() as u32));
    c.receive(&data);
    assert_eq!(c.phase(), Phase::Transmission);
}

#[test]
fn go_with_unknown_name() {
    let mut c = haggling();
    let data = go_data(b"other");
    c.receive(&option_head(7, data.len() as u32));
    assert_eq!(sent(c.receive(&data)), option_reply(7, 0x8000_0006));
    assert_eq!(c.phase(), Phase::Haggling);
}

#[test]
fn go_with_malformed_data() {
    let mut c = haggling();
    let data = vec![0, 0, 0, 9, b'x'];
    c.receive(&option_head(7, data.len() as u32));
    assert_eq!(sent(c.receive(&data)), option_reply(7, 0x8000_0003));
    assert_eq!(c.phase(), Phase::Haggling);
}

#[test]
fn no_fixed_newstyle_disconnects() {
    for flags in [0u64, 2, 0xfffe] {
        let mut c = Connection::new(b"disk".to_vec(), 1 << 20);
        assert!(matches!(c.receive(&be(flags, 4)), Action::Close));
        assert_eq!(c.phase(), Phase::Closed);
    }
}

#[test]
fn unknown_option_disconnects() {
    for code in [0u32, 12, 99] {
        let mut c = haggling();
        assert!(matches!(c.receive(&option_head(code, 0)), Action::Close));
        assert_eq!(c.phase(), Phase::Closed);
    }
}

#[test]
fn bad_option_magic_disconnects() {
    let mut c = haggling();
    let mut head = option_head(7, 0);
    head[0] ^= 1;
    assert!(matches!(c.receive(&head), Action::Close));
    assert_eq!(c.phase(), Phase::Closed);
}

#[test]
fn unsupported_option_replied() {
    let mut c = haggling();
    c.receive(&option_head(3, 0));
    assert_eq!(sent(c.receive(&[])), option_reply(3, 0x8000_0001));
    assert_eq!(c.phase(), Phase::Haggling);
}

#[test]
fn abort_acknowledged_then_closed() {
    let mut c = haggling();
    c.receive(&option_head(2, 0));
    match c.receive(&[]) {
        Action::SendThenClose(b) => assert_eq!(b, option_reply(2, 1)),
        _ => panic!("expected an acknowledgement"),
    }
    assert_eq!(c.phase(), Phase::Closed);
}

#[test]
fn export_name_option() {
    let mut c = haggling();
    c.receive(&option_head(1, 4));
    let reply = sent(c.receive(b"disk"));
    assert_eq!(reply.len(), 134);
    assert_eq!(&reply[..8], &be(1 << 20, 8)[..]);
    assert_eq!(&reply[8..10], &[0, 3]);
    assert!(reply[10..].iter().all(|&b| b == 0));
    assert_eq!(c.phase(), Phase::Transmission);

    let mut c = haggling();
    c.receive(&option_head(1, 3));
    assert!(matches!(c.receive(b"bad"), Action::Close));
}

#[test]
fn short_input_disconnects() {
    let mut c = haggling();
    assert!(matches!(c.receive(&[0, 1, 2]), Action::Close));
    assert_eq!(c.phase(), Phase::Closed);
    assert!(matches!(c.receive(&[]), Action::Close));
    let mut c = haggling();
    c.disconnect();
    assert_eq!(c.phase(), Phase::Closed);
}

#[test]
fn read_requests() {
    let mut c = transmitting();
    match c.receive(&request(0, 42, 4096, 512)) {
        Action::Read { handle, offset, length } => {
            assert_eq!((handle, offset, length), (42, 4096, 512));
        }
        _ => panic!("expected a read"),
    }
    let mut want = be(0x67446698, 4);
    want.extend(be(22, 4));
    want.extend(be(7, 8));
    assert_eq!(sent(c.receive(&request(0, 7, (1 << 20) - 10, 11))), want);
    assert!(matches!(c.receive(&request(0, 8, (1 << 20) - 10, 10)), Action::Read { .. }));
    assert_eq!(c.phase(), Phase::Transmission);
}

#[test]
fn other_requests() {
    let mut c = transmitting();
    assert!(sent(c.receive(&request(1, 5, 0, 3))).is_empty());
    assert_eq!(c.expected(), 3);
    let mut want = be(0x67446698, 4);
    want.extend(be(95, 4));
    want.extend(be(5, 8));
    assert_eq!(sent(c.receive(&[1, 2, 3])), want);
    let mut want = be(0x67446698, 4);
    want.extend(be(95, 4));
    want.extend(be(6, 8));
    assert_eq!(sent(c.receive(&request(3, 6, 0, 0))), want);
    assert!(matches!(c.receive(&request(2, 0, 0, 0)), Action::Close));
    assert_eq!(c.phase(), Phase::Closed);

    let mut c = transmitting();
    assert!(matches!(c.receive(&request(9, 0, 0, 0)), Action::Close));
    let mut c = transmitting();
    let mut r = request(0, 0, 0, 0);
    r[3] = 0;
    assert!(matches!(c.receive(&r), Action::Close));
}

#[test]
fn option_codes() {
    assert_eq!(NbdOpt::from_code(1), Some(NbdOpt::ExportName));
    assert_eq!(NbdOpt::from_code(7), Some(NbdOpt::Go));
    assert_eq!(NbdOpt::from_code(11), Some(NbdOpt::ExtendedHeaders));
    assert_eq!(NbdOpt::from_code(0), None);
    assert_eq!(NbdOpt::from_code(99), None);
}

fn small_image() -> Qcow2 {
    let mut b = vec![0u8; 72];
    b[..4].copy_from_slice(&[0x51, 0x46, 0x49, 0xfb]);
    b[7] = 2;
    b[23] = 9;
    Qcow2::new(&b).ok().unwrap()
}

#[test]
fn read_spans() {
    let q = small_image();
    assert_eq!(read_span(&q, 0, 512), (0, 1));
    assert_eq!(read_span(&q, 100, 512), (0, 2));
    assert_eq!(read_span(&q, 1024, 0), (2, 0));
    assert_eq!(read_span(&q, 1023, 2), (1, 2));
}

#[test]
fn gathered_read() {
    let q = small_image();
    let clusters = vec![vec![1u8; 512], vec![2u8; 512]];
    let d = gather_read(&q, 510, 4, &clusters).unwrap();
    assert_eq!(d, vec![1, 1, 2, 2]);
    assert_eq!(gather_read(&q, 510, 4, &vec![vec![1u8; 512], vec![2u8; 100]]), None);
    assert_eq!(gather_read(&q, 510, 4, &vec![vec![1u8; 512]]), None);
    let reply = simple_reply(9, 0, &d);
    let mut want = be(0x67446698, 4);
    want.extend(be(0, 4));
    want.extend(be(9, 8));
    want.extend([1, 1, 2, 2]);
    assert_eq!(reply, want);
}
