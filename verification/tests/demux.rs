use etherparse::{PacketBuilder, TcpHeaderSlice};
use rustcp::frame::DecodeError;
use rustcp::quad::Quad;
use rustcp::segment::{Ipv4HeaderView, TcpHeaderView};
use rustcp::state::State;
use rustcp::table::{refuse, ConnectionTable, EngineError};

const PEER: u32 = 0xc0a8_0002;
const HOME: u32 = 0xc0a8_0001;

fn quad() -> Quad {
    Quad { local_addr: HOME, local_port: 80, remote_addr: PEER, remote_port: 40000 }
}

fn from_peer() -> Ipv4HeaderView {
    Ipv4HeaderView { source: PEER, destination: HOME, protocol: 6, header_len: 20 }
}

fn inbound(seq: u32, ack_no: u32, flags: &str) -> TcpHeaderView {
    TcpHeaderView {
        source_port: 40000,
        destination_port: 80,
        sequence_number: seq,
        acknowledgment_number: ack_no,
        window_size: 2048,
        syn: flags.contains('S'),
        ack: flags.contains('A'),
        fin: flags.contains('F'),
        rst: flags.contains('R'),
        psh: false,
        urg: false,
        header_len: 20,
    }
}

fn established_table() -> ConnectionTable {
    let mut t = ConnectionTable::new();
    t.handle(quad(), &from_peer(), &inbound(1000, 0, "S"), &[], 42).unwrap().unwrap();
    assert_eq!(t.handle(quad(), &from_peer(), &inbound(1001, 43, "A"), &[], 0), Ok(None));
    assert_eq!(t.get(&quad()).unwrap().state, State::Established);
    t
}

fn tun_frame(seq: u32, ack_no: Option<u32>, syn: bool, payload: &[u8]) -> Vec<u8> {
    let mut frame = vec![0u8, 0, 0x08, 0x00];
    let mut b = PacketBuilder::ipv4([192, 168, 0, 2], [192, 168, 0, 1], 64).tcp(40000, 80, seq, 2048);
    if syn {
        b = b.syn();
    }
    if let Some(n) = ack_no {
        b = b.ack(n);
    }
    b.write(&mut frame, payload).unwrap();
    frame
}

#[test]
fn key_packs_the_four_fields() {
    let q = Quad { local_addr: 0x0102_0304, local_port: 0x0506, remote_addr: 0x0708_090a, remote_port: 0x0b0c };
    assert_eq!(q.key(), 0x0102_0304_0506_0708_090a_0b0c);
    let top = Quad { local_addr: u32::MAX, local_port: u16::MAX, remote_addr: u32::MAX, remote_port: u16::MAX };
    assert_eq!(top.key(), 0xffff_ffff_ffff_ffff_ffff_ffff);
    let swapped = Quad { local_addr: q.remote_addr, local_port: q.remote_port, remote_addr: q.local_addr, remote_port: q.local_port };
    assert_ne!(q.key(), swapped.key());
}

#[test]
fn inbound_quad_takes_destination_as_local() {
    let q = Quad::inbound(&from_peer(), &inbound(1, 2, "S"));
    assert_eq!(q, quad());
}

#[test]
fn new_table_is_empty() {
    let t = ConnectionTable::new();
    assert!(t.get(&quad()).is_none());
}

#[test]
fn bare_syn_opens_a_connection() {
    let mut t = ConnectionTable::new();
    let frame = t.handle(quad(), &from_peer(), &inbound(1000, 0, "S"), &[], 42).unwrap().unwrap();
    let tcp = TcpHeaderSlice::from_slice(&frame[20..]).unwrap();
    assert!(tcp.syn() && tcp.ack());
    assert_eq!(tcp.sequence_number(), 42);
    assert_eq!(tcp.acknowledgment_number(), 1001);
    let c = t.get(&quad()).unwrap();
    assert_eq!(c.state, State::SynRcvd);
    assert_eq!(c.quad, quad());
}

#[test]
fn second_syn_does_not_open_a_second_connection() {
    let mut t = ConnectionTable::new();
    t.handle(quad(), &from_peer(), &inbound(1000, 0, "S"), &[], 42).unwrap();
    let again = t.handle(quad(), &from_peer(), &inbound(1000, 0, "S"), &[], 77).unwrap().unwrap();
    let tcp = TcpHeaderSlice::from_slice(&again[20..]).unwrap();
    assert!(tcp.syn() && tcp.ack());
    assert_eq!(tcp.sequence_number(), 42);
    assert_eq!(t.get(&quad()).unwrap().send.iss, 42);
}

#[test]
fn quads_do_not_share_connections() {
    let mut t = established_table();
    let other = Quad { remote_port: 40001, ..quad() };
    assert!(t.get(&other).is_none());
    let mut tcp = inbound(5, 0, "S");
    tcp.source_port = 40001;
    t.handle(other, &from_peer(), &tcp, &[], 9).unwrap();
    assert_eq!(t.get(&other).unwrap().state, State::SynRcvd);
    assert_eq!(t.get(&quad()).unwrap().state, State::Established);
}

#[test]
fn segment_for_no_connection_is_refused_with_reset() {
    let mut t = ConnectionTable::new();
    let frame = t.handle(quad(), &from_peer(), &inbound(1000, 555, "A"), &[1, 2, 3], 0).unwrap().unwrap();
    let tcp = TcpHeaderSlice::from_slice(&frame[20..]).unwrap();
    assert!(tcp.rst() && !tcp.ack() && !tcp.syn());
    assert_eq!(tcp.sequence_number(), 555);
    assert_eq!(tcp.source_port(), 80);
    assert_eq!(tcp.destination_port(), 40000);
    assert!(t.get(&quad()).is_none());

    let frame = t.handle(quad(), &from_peer(), &inbound(1000, 0, "F"), &[1, 2, 3], 0).unwrap().unwrap();
    let tcp = TcpHeaderSlice::from_slice(&frame[20..]).unwrap();
    assert!(tcp.rst() && tcp.ack());
    assert_eq!(tcp.sequence_number(), 0);
    assert_eq!(tcp.acknowledgment_number(), 1004);
}

#[test]
fn refusal_depends_on_the_flags() {
    let ip = from_peer();
    assert_eq!(refuse(&ip, &inbound(1, 2, "R"), 0), None);
    assert_eq!(refuse(&ip, &inbound(1, 2, "RA"), 0), None);
    assert_eq!(refuse(&ip, &inbound(1, 2, "SA"), 0), None);
    assert_eq!(refuse(&ip, &inbound(1, 2, "S"), 0), None);
    let r = refuse(&ip, &inbound(0xffff_fffe, 0, ""), 5).unwrap();
    assert_eq!((r.sequence_number, r.acknowledgment_number, r.ack, r.rst), (0, 3, true, true));
    assert_eq!((r.source, r.destination), (HOME, PEER));
    let r = refuse(&ip, &inbound(10, 20, "AF"), 5).unwrap();
    assert_eq!((r.sequence_number, r.acknowledgment_number, r.ack, r.rst), (20, 0, false, true));
    assert_eq!(r.window_size, 0);
}

#[test]
fn syn_ack_and_reset_for_no_connection_are_dropped() {
    let mut t = ConnectionTable::new();
    assert_eq!(t.handle(quad(), &from_peer(), &inbound(1000, 1, "SA"), &[], 0), Ok(None));
    assert_eq!(t.handle(quad(), &from_peer(), &inbound(1000, 1, "R"), &[], 0), Ok(None));
    assert!(t.get(&quad()).is_none());
}

#[test]
fn reset_removes_the_connection() {
    let mut t = established_table();
    let r = t.handle(quad(), &from_peer(), &inbound(0x7777_7777, 0, "R"), &[], 0);
    assert_eq!(r, Err(EngineError::Reset));
    assert!(t.get(&quad()).is_none());
}

#[test]
fn reset_removes_in_the_handshake_too() {
    let mut t = ConnectionTable::new();
    t.handle(quad(), &from_peer(), &inbound(1000, 0, "S"), &[], 42).unwrap();
    assert_eq!(t.handle(quad(), &from_peer(), &inbound(1, 1, "R"), &[], 0), Err(EngineError::Reset));
    assert!(t.get(&quad()).is_none());
}

#[test]
fn four_way_close_through_the_table() {
    let mut t = established_table();
    assert!(t.close(quad()).is_some());
    assert_eq!(t.get(&quad()).unwrap().state, State::FinWait1);
    assert_eq!(t.handle(quad(), &from_peer(), &inbound(1001, 44, "A"), &[], 0), Ok(None));
    assert_eq!(t.get(&quad()).unwrap().state, State::FinWait2);
    let ack = t.handle(quad(), &from_peer(), &inbound(1001, 44, "AF"), &[], 0).unwrap().unwrap();
    let tcp = TcpHeaderSlice::from_slice(&ack[20..]).unwrap();
    assert!(tcp.ack() && !tcp.fin() && !tcp.syn());
    assert_eq!(tcp.acknowledgment_number(), 1002);
    assert_eq!(tcp.sequence_number(), 44);
    assert_eq!(t.get(&quad()).unwrap().state, State::TimeWait);

    assert!(t.handle(quad(), &from_peer(), &inbound(1001, 44, "AF"), &[], 0).is_ok());
    assert!(t.handle(quad(), &from_peer(), &inbound(1002, 44, "A"), &[], 0).is_ok());
    assert_eq!(t.get(&quad()).unwrap().state, State::TimeWait);

    t.on_time_wait_expired(quad());
    assert!(t.get(&quad()).is_none());
}

#[test]
fn passive_close_leaves_the_table_on_the_last_ack() {
    let mut t = established_table();
    assert!(t.handle(quad(), &from_peer(), &inbound(1001, 43, "AF"), &[], 0).unwrap().is_some());
    assert_eq!(t.get(&quad()).unwrap().state, State::CloseWait);
    assert!(t.close(quad()).is_some());
    assert_eq!(t.get(&quad()).unwrap().state, State::LastAck);
    assert_eq!(t.handle(quad(), &from_peer(), &inbound(1002, 44, "A"), &[], 0), Ok(None));
    assert!(t.get(&quad()).is_none());
}

#[test]
fn timer_for_a_live_or_unknown_connection_does_nothing() {
    let mut t = established_table();
    t.on_time_wait_expired(quad());
    assert_eq!(t.get(&quad()).unwrap().state, State::Established);
    let other = Quad { remote_port: 1, ..quad() };
    t.on_time_wait_expired(other);
    assert!(t.get(&other).is_none());
}

#[test]
fn close_of_an_unknown_quad_does_nothing() {
    let mut t = ConnectionTable::new();
    assert!(t.close(quad()).is_none());
    assert!(t.get(&quad()).is_none());
}

#[test]
fn connect_files_the_connection_once() {
    let mut t = ConnectionTable::new();
    let syn = t.connect(quad(), 500).unwrap();
    let tcp = TcpHeaderSlice::from_slice(&syn[20..]).unwrap();
    assert!(tcp.syn() && !tcp.ack());
    assert_eq!(tcp.sequence_number(), 500);
    assert_eq!(t.get(&quad()).unwrap().state, State::SynSent);
    assert!(t.connect(quad(), 900).is_none());
    assert_eq!(t.get(&quad()).unwrap().send.iss, 500);
    let ack = t.handle(quad(), &from_peer(), &inbound(3000, 501, "SA"), &[], 0).unwrap().unwrap();
    let tcp = TcpHeaderSlice::from_slice(&ack[20..]).unwrap();
    assert!(tcp.ack() && !tcp.syn());
    assert_eq!(tcp.acknowledgment_number(), 3001);
    assert_eq!(t.get(&quad()).unwrap().state, State::Established);
}

#[test]
fn frames_drive_the_handshake_and_data() {
    let mut t = ConnectionTable::new();
    let h = t.on_frame(&tun_frame(1000, None, true, &[]), 42).unwrap();
    assert!(!h.known);
    assert_eq!(h.quad, quad());
    assert_eq!(h.payload_len, 0);
    assert!(h.segment.tcp.syn);
    let syn_ack = h.outcome.unwrap().unwrap();
    assert_eq!(syn_ack.len(), 40);
    let tcp = TcpHeaderSlice::from_slice(&syn_ack[20..]).unwrap();
    assert!(tcp.syn() && tcp.ack());
    assert_eq!(tcp.acknowledgment_number(), 1001);

    let h = t.on_frame(&tun_frame(1001, Some(43), false, &[]), 0).unwrap();
    assert!(h.known);
    assert_eq!(h.outcome, Ok(None));
    assert_eq!(t.get(&quad()).unwrap().state, State::Established);

    let h = t.on_frame(&tun_frame(1001, Some(43), false, b"hello"), 0).unwrap();
    assert!(h.known);
    assert_eq!(h.payload_len, 5);
    assert_eq!(h.segment.ip, from_peer());
    assert_eq!(h.segment.tcp.sequence_number, 1001);
    let ack = h.outcome.unwrap().unwrap();
    let tcp = TcpHeaderSlice::from_slice(&ack[20..]).unwrap();
    assert_eq!(tcp.acknowledgment_number(), 1006);
    assert_eq!(t.get(&quad()).unwrap().recv.nxt, 1006);
}

#[test]
fn frame_with_reset_reports_it_and_removes_the_connection() {
    let mut t = established_table();
    let mut frame = vec![0u8, 0, 0x08, 0x00];
    PacketBuilder::ipv4([192, 168, 0, 2], [192, 168, 0, 1], 64)
        .tcp(40000, 80, 0x4242, 0)
        .rst()
        .write(&mut frame, &[])
        .unwrap();
    let h = t.on_frame(&frame, 0).unwrap();
    assert!(h.known);
    assert_eq!(h.quad, quad());
    assert_eq!(h.outcome, Err(EngineError::Reset));
    assert!(t.get(&quad()).is_none());
}

#[test]
fn frames_that_hold_no_segment_change_nothing() {
    let mut t = established_table();
    let before = t.get(&quad()).unwrap();
    assert_eq!(t.on_frame(&[0, 0], 0).unwrap_err(), DecodeError::Truncated);
    assert_eq!(
        t.on_frame(&[0, 0, 0x86, 0xdd, 0x60, 0, 0, 0], 0).unwrap_err(),
        DecodeError::NotIpv4
    );
    assert_eq!(
        t.on_frame(&[0, 0, 0x08, 0x00, 0x45, 0], 0).unwrap_err(),
        DecodeError::MalformedIpv4
    );
    let mut udp = vec![0u8, 0, 0x08, 0x00];
    PacketBuilder::ipv4([192, 168, 0, 2], [192, 168, 0, 1], 64).udp(40000, 80).write(&mut udp, &[]).unwrap();
    assert_eq!(t.on_frame(&udp, 0).unwrap_err(), DecodeError::NotTcp);
    let whole = tun_frame(1001, Some(43), false, &[]);
    assert_eq!(
        t.on_frame(&whole[..whole.len() - 5], 0).unwrap_err(),
        DecodeError::MalformedTcp
    );
    assert_eq!(t.get(&quad()).unwrap(), before);
}

#[test]
fn every_connection_is_filed_under_its_own_quad() {
    let mut t = established_table();
    assert_eq!(t.get(&quad()).unwrap().quad, quad());
    t.close(quad());
    assert_eq!(t.get(&quad()).unwrap().quad, quad());
    let other = Quad { local_port: 7, ..quad() };
    t.connect(other, 1);
    assert_eq!(t.get(&other).unwrap().quad, other);
}

#[test]
fn replies_of_the_table_are_forty_bytes() {
    let mut t = ConnectionTable::new();
    let syn_ack = t.handle(quad(), &from_peer(), &inbound(1000, 0, "S"), &[], 42).unwrap().unwrap();
    assert_eq!(syn_ack.len(), 40);
    t.handle(quad(), &from_peer(), &inbound(1001, 43, "A"), &[], 0).unwrap();
    let ack = t.handle(quad(), &from_peer(), &inbound(1001, 43, "A"), b"abc", 0).unwrap().unwrap();
    assert_eq!(ack.len(), 40);
    assert_eq!(t.close(quad()).unwrap().len(), 40);
    let other = Quad { local_port: 7, ..quad() };
    assert_eq!(t.connect(other, 1).unwrap().len(), 40);
    let rst = t.handle(Quad { local_port: 9, ..quad() }, &from_peer(), &inbound(5, 6, "A"), &[], 0);
    assert_eq!(rst.unwrap().unwrap().len(), 40);
}
