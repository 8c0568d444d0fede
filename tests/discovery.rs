use stun_nat::attribute::Attribute;
use stun_nat::consts::{ATTRIBUTE_CHANGED_ADDRESS, TYPE_BINDING_RESPONSE};
use stun_nat::discover::{addr_compare, send_with_log_result, Discovery, Stage, Step};
use stun_nat::host::Host;
use stun_nat::packet::Packet;
use stun_nat::response::{is_local_addrss, Response};
use stun_nat::transport::{match_reply, new_binding_request, Retransmit};
use stun_nat::NAT;

const SERVER_IP: &str = "198.51.100.1";
const SERVER_PORT: u16 = 3478;
const ALT_IP: &str = "198.51.100.2";
const ALT_PORT: u16 = 3479;

fn server() -> Host {
    Host::new(SERVER_IP, SERVER_PORT)
}

fn alternate() -> Host {
    Host::new(ALT_IP, ALT_PORT)
}

/// Bytes of a binding response under `tail` carrying an XOR-mapped address
/// and, optionally, the server's alternate endpoint as CHANGED-ADDRESS.
fn reply_bytes(tail: [u8; 12], mapped: [u8; 4], port: u16, with_changed: bool) -> Vec<u8> {
    let mut p = Packet::with_transaction(tail);
    p.types = TYPE_BINDING_RESPONSE;
    let a = Attribute::new_xor_mapped_attribute(1, &mapped, port, &p.trans_id);
    p.add_attribute(a);
    if with_changed {
        let value = [0u8, 1, (ALT_PORT >> 8) as u8, ALT_PORT as u8, 198, 51, 100, 2];
        p.add_attribute(Attribute::new(ATTRIBUTE_CHANGED_ADDRESS, &value));
    }
    p.bytes()
}

fn reply(from: Host, mapped: [u8; 4], port: u16, local: &[u8]) -> Response {
    let tail = [7u8; 12];
    let bytes = reply_bytes(tail, mapped, port, true);
    let packet = Packet::new_packet_form_bytes(bytes).unwrap();
    Response::new(packet, from, local, &vec![])
}

fn expect_send(step: Step, dest: &Host, change_ip: bool, change_port: bool) {
    match step {
        Step::Send { dest: d, change_ip: ci, change_port: cp } => {
            assert!(d == *dest, "sent to {:?}", d);
            assert_eq!((ci, cp), (change_ip, change_port));
        }
        other => panic!("expected a send, got {:?}", other),
    }
}

fn expect_done(step: Step) -> (NAT, Result<Host, String>) {
    match step {
        Step::Done { kind, result } => (kind, result),
        other => panic!("expected a result, got {:?}", other),
    }
}

#[test]
fn blocked_when_test_one_times_out() {
    let (mut d, first) = Discovery::new(server());
    expect_send(first, &server(), false, false);
    let (nat, result) = expect_done(d.step(None));
    assert_eq!(nat, NAT::NATBlocked);
    assert!(result.is_err());
    assert_eq!(d.stage, Stage::Finished);
}

#[test]
fn open_internet() {
    let local = [203u8, 0, 113, 5];
    let (mut d, _) = Discovery::new(server());
    let r1 = reply(server(), local, 40000, &local);
    assert!(r1.identical);
    expect_send(d.step(Some(r1)), &server(), true, true);
    let r2 = reply(alternate(), local, 40000, &local);
    let (nat, result) = expect_done(d.step(Some(r2)));
    assert_eq!(nat, NAT::NATNone);
    let h = result.unwrap();
    assert_eq!((h.ip.as_str(), h.port), ("203.0.113.5", 40000));
}

#[test]
fn symmetric_udp_firewall() {
    let local = [203u8, 0, 113, 5];
    let (mut d, _) = Discovery::new(server());
    d.step(Some(reply(server(), local, 40000, &local)));
    let (nat, result) = expect_done(d.step(None));
    assert_eq!(nat, NAT::SymmetricUDPFirewall);
    assert_eq!(result.unwrap().ip, "203.0.113.5");
}

#[test]
fn full_cone() {
    let local = [10u8, 0, 0, 2];
    let (mut d, _) = Discovery::new(server());
    let r1 = reply(server(), [1, 2, 3, 4], 5000, &local);
    assert!(!r1.identical);
    expect_send(d.step(Some(r1)), &server(), true, true);
    let (nat, result) = expect_done(d.step(Some(reply(alternate(), [1, 2, 3, 4], 5000, &local))));
    assert_eq!(nat, NAT::NATFull);
    let h = result.unwrap();
    assert_eq!((h.ip.as_str(), h.port), ("1.2.3.4", 5000));
}

#[test]
fn symmetric_nat() {
    let local = [10u8, 0, 0, 2];
    let (mut d, _) = Discovery::new(server());
    d.step(Some(reply(server(), [1, 2, 3, 4], 5000, &local)));
    expect_send(d.step(None), &alternate(), false, false);
    let (nat, result) = expect_done(d.step(Some(reply(alternate(), [1, 2, 3, 4], 5001, &local))));
    assert_eq!(nat, NAT::NATSymmetric);
    let h = result.unwrap();
    assert_eq!((h.ip.as_str(), h.port), ("1.2.3.4", 5000));
}

#[test]
fn port_restricted() {
    let local = [10u8, 0, 0, 2];
    let (mut d, _) = Discovery::new(server());
    d.step(Some(reply(server(), [1, 2, 3, 4], 5000, &local)));
    d.step(None);
    expect_send(d.step(Some(reply(alternate(), [1, 2, 3, 4], 5000, &local))), &server(), false, true);
    let (nat, result) = expect_done(d.step(None));
    assert_eq!(nat, NAT::NATPortRestricted);
    assert_eq!(result.unwrap().port, 5000);
}

#[test]
fn restricted_and_unknown() {
    let local = [10u8, 0, 0, 2];
    let (mut d, _) = Discovery::new(server());
    d.step(Some(reply(server(), [1, 2, 3, 4], 5000, &local)));
    d.step(None);
    d.step(Some(reply(alternate(), [1, 2, 3, 4], 5000, &local)));
    let (nat, _) = expect_done(d.step(Some(reply(alternate(), [1, 2, 3, 4], 5000, &local))));
    assert_eq!(nat, NAT::NATRestricted);

    let (mut u, _) = Discovery::new(server());
    u.step(Some(reply(server(), [1, 2, 3, 4], 5000, &local)));
    u.step(None);
    let (nat, result) = expect_done(u.step(None));
    assert_eq!(nat, NAT::NATUnknown);
    assert!(result.is_ok());
}

#[test]
fn server_errors() {
    let local = [10u8, 0, 0, 2];
    // Test I answered from another endpoint.
    let (mut d, _) = Discovery::new(server());
    let (nat, result) = expect_done(d.step(Some(reply(alternate(), [1, 2, 3, 4], 5000, &local))));
    assert_eq!(nat, NAT::NATError);
    assert!(result.is_err());
    // Test II answered from the server's own endpoint.
    let (mut e, _) = Discovery::new(server());
    e.step(Some(reply(server(), [1, 2, 3, 4], 5000, &local)));
    let (nat, _) = expect_done(e.step(Some(reply(server(), [1, 2, 3, 4], 5000, &local))));
    assert_eq!(nat, NAT::NATError);
    // Test I with no alternate address.
    let (mut f, _) = Discovery::new(server());
    let bytes = reply_bytes([7u8; 12], [1, 2, 3, 4], 5000, false);
    let packet = Packet::new_packet_form_bytes(bytes).unwrap();
    let r = Response::new(packet, server(), &local, &vec![]);
    let (nat, _) = expect_done(f.step(Some(r)));
    assert_eq!(nat, NAT::NATError);
}

#[test]
fn loopback_local_is_never_local() {
    assert!(!is_local_addrss(&[127, 0, 0, 1], "127.0.0.1", &vec![vec![127, 0, 0, 1]]));
    assert!(is_local_addrss(&[192, 0, 2, 7], "192.0.2.7", &vec![]));
    assert!(!is_local_addrss(&[192, 0, 2, 7], "192.0.2.8", &vec![]));
    assert!(is_local_addrss(&[0, 0, 0, 0], "192.0.2.8", &vec![vec![192, 0, 2, 8]]));
    assert!(!is_local_addrss(&[0, 0, 0, 0], "0.0.0.0", &vec![]));
}

#[test]
fn response_reads_addresses() {
    let r = reply(server(), [1, 2, 3, 4], 5000, &[10, 0, 0, 2]);
    let m = r.mapped_addr.unwrap();
    assert_eq!((m.ip.as_str(), m.port), ("1.2.3.4", 5000));
    let c = r.changed_addr.unwrap();
    assert_eq!((c.ip.as_str(), c.port), (ALT_IP, ALT_PORT));
    assert!(r.other_addr.is_none());
    assert!(r.server_addr.unwrap() == server());
}

#[test]
fn retransmission_schedule() {
    let mut r = Retransmit::new();
    let mut waits = Vec::new();
    while let Some(w) = r.next_send() {
        waits.push(w);
    }
    assert_eq!(waits, vec![100, 200, 400, 800, 1600, 1600, 1600, 1600, 1600]);
    assert_eq!(waits.iter().sum::<u64>(), 9500);
    assert_eq!(r.next_send(), None);
}

#[test]
fn replies_are_matched_by_transaction() {
    let sent = new_binding_request("client", false, false);
    let mut tail = [0u8; 12];
    tail.copy_from_slice(&sent.trans_id[4..]);
    let good = reply_bytes(tail, [1, 2, 3, 4], 5000, true);
    assert!(match_reply(&sent, &good).is_some());
    tail[0] ^= 0xff;
    let other = reply_bytes(tail, [1, 2, 3, 4], 5000, true);
    assert!(match_reply(&sent, &other).is_none());
    assert!(match_reply(&sent, &good[..19]).is_none());
    assert!(match_reply(&sent, &vec![0u8; 1024]).is_none());
}

#[test]
fn address_comparison() {
    let a = Host::new("198.51.100.1", 3478);
    assert!(addr_compare(&Host::new("198.51.100.2", 3479), &a, true, true));
    assert!(addr_compare(&Host::new("198.51.100.1", 3479), &a, false, true));
    assert!(!addr_compare(&Host::new("198.51.100.1", 3478), &a, false, true));
}

#[test]
fn checked_test_results() {
    let local = [10u8, 0, 0, 2];
    assert_eq!(send_with_log_result(None, &server(), false, false).unwrap_err(), "NAT BLOCKED");
    assert!(send_with_log_result(None, &server(), true, true).is_err());
    let moved = reply(alternate(), [1, 2, 3, 4], 5000, &local);
    assert!(send_with_log_result(Some(moved), &server(), true, true).is_ok());
    let stayed = reply(server(), [1, 2, 3, 4], 5000, &local);
    assert!(send_with_log_result(Some(stayed), &server(), true, true).is_err());
    let same = reply(server(), [1, 2, 3, 4], 5000, &local);
    let r = send_with_log_result(Some(same), &server(), false, false).unwrap();
    assert_eq!(r.mapped_addr.unwrap().port, 5000);
}
