use stun_nat::attribute::Attribute;
use stun_nat::consts::{
    ATTRIBUTE_CHANGE_REQUEST, ATTRIBUTE_FINGERPRINT, ATTRIBUTE_SOFTWARE,
    ATTRIBUTE_XOR_MAPPED_ADDRESS, NAT, TYPE_BINDING_REQUEST,
};
use stun_nat::host::Host;
use stun_nat::packet::Packet;
use stun_nat::text::ipv6_string;
use stun_nat::utils::join_host_port;
use stun_nat::transport::binding_request;
use stun_nat::utils::{align, convert_vec_to_u8_array, padding};

#[test]
fn soft_name_test() {
    let result = Attribute::new_software_attribute("版本2");
    println!("{:?}", result);
    assert_eq!(result.s_type, ATTRIBUTE_SOFTWARE);
    assert_eq!(result.length, 7);
    assert_eq!(result.value, vec![0xe7, 0x89, 0x88, 0xe6, 0x9c, 0xac, 0x32, 0]);
}

#[test]
fn change_req_test() {
    let result = Attribute::new_change_req_attribute(true, true);
    println!("{:?}", result);
    assert_eq!(result.s_type, ATTRIBUTE_CHANGE_REQUEST);
    assert_eq!(result.length, 4);
    assert_eq!(result.value, vec![0, 0, 0, 6]);
}

#[test]
fn test_raw_addr_ipv6() {
    let my_struct = Attribute {
        s_type: 1,
        length: 1,
        value: vec![0, 10, 0, 1, 0xdb, 8, 0, 0, 0, 0, 0, 0, 0, 0, 0, 0, 1],
    };
    let result = my_struct.raw_addr();
    println!("{:?}", result);
    // Family 10 is neither IPv4 nor IPv6.
    assert!(result.is_none());
}

#[test]
fn raw_addr_ipv6_family() {
    let mut value = vec![0u8, 2, 0x0d, 0x96, 0x20, 0x01, 0x0d, 0xb8];
    value.extend_from_slice(&[0, 0, 0, 0, 0, 0, 0, 0, 0, 0, 0, 1]);
    let a = Attribute::new(0x0001, &value);
    let h = a.raw_addr().unwrap();
    assert_eq!(h.family, 2);
    assert_eq!(h.port, 3478);
    assert_eq!(h.ip, "2001:db8::1");
}

#[test]
fn raw_addr_ipv4() {
    let a = Attribute::new(0x0005, &[0, 1, 0x0d, 0x97, 192, 0, 2, 10]);
    let h = a.raw_addr().unwrap();
    assert_eq!(h.family, 1);
    assert_eq!(h.port, 3479);
    assert_eq!(h.ip, "192.0.2.10");
    let short = Attribute { s_type: 0x0005, length: 6, value: vec![0, 1, 0x0d, 0x97, 192, 0] };
    assert!(short.raw_addr().is_none());
}

#[test]
fn it_works() {
    println!("{:?}", NAT::NATFull.description());
    assert_eq!(NAT::NATFull.description(), "Full cone NAT");
    assert_eq!(NAT::NATBlocked.description(), "UDP is blocked");
    assert_eq!(NAT::NATSymetric.description(), "Symmetric NAT");
    assert_eq!(NAT::SymmetricUDPFirewall.description(), "Symmetric UDP firewall");
}

#[test]
fn paddint_test() {
    let p = padding(&[1u8, 2u8]);
    println!("{:?}", p);
    assert_eq!(p, vec![1, 2, 0, 0]);
}

#[test]
fn join_host_port_test() {
    let r = join_host_port("127.0.0.1", "22");
    println!("{:?}", r);
    assert_eq!(r, "127.0.0.1:22");
    assert_eq!(join_host_port("::1", "22"), "[::1]:22");
}

#[test]
fn padding_keeps_prefix_and_aligns() {
    for n in 0..9usize {
        let v: Vec<u8> = (1..=n as u8).collect();
        let p = padding(&v);
        assert_eq!(p.len() % 4, 0);
        assert!(p.starts_with(&v));
        assert!(p.len() < v.len() + 4);
        assert!(p[v.len()..].iter().all(|b| *b == 0));
    }
    assert_eq!(padding(&[]), Vec::<u8>::new());
    assert_eq!(padding(&[9, 9, 9, 9]), vec![9, 9, 9, 9]);
}

#[test]
fn align_is_mask_of_sum() {
    for n in [0u16, 1, 2, 3, 4, 5, 7, 8, 100, 65531, 65532] {
        assert_eq!(align(n), (n + 3) & !3);
    }
    assert_eq!(align(5), 8);
    assert_eq!(align(65532), 65532);
}

#[test]
fn host_text_forms() {
    let h = Host::new("192.0.2.1", 3478);
    assert_eq!(h.family, 1);
    assert_eq!(h.transport_addr(), "192.0.2.1:3478");
    assert_eq!(h.string(), "192.0.2.1:3478");
    let v6 = Host::new("2001:db8::1", 80);
    assert_eq!(v6.family, 2);
    assert_eq!(v6.transport_addr(), "[2001:db8::1]:80");
    assert!(h == Host::new("192.0.2.1", 3478));
    assert!(!(h == Host::new("192.0.2.1", 3479)));
}

#[test]
fn convert_vec_takes_sixteen_bytes() {
    let short = convert_vec_to_u8_array(&vec![1, 2, 3]);
    assert_eq!(short, [1, 2, 3, 0, 0, 0, 0, 0, 0, 0, 0, 0, 0, 0, 0, 0]);
    let long: Vec<u8> = (0..20).collect();
    let r = convert_vec_to_u8_array(&long);
    assert_eq!(r[15], 15);
    assert_eq!(r[0], 0);
}

fn tail() -> [u8; 12] {
    [1, 2, 3, 4, 5, 6, 7, 8, 9, 10, 11, 12]
}

#[test]
fn encode_decode_round_trip() {
    let p = binding_request("client", true, false, tail());
    let bytes = p.bytes();
    let q = Packet::new_packet_form_bytes(bytes.clone()).unwrap();
    assert_eq!(q.types, p.types);
    assert_eq!(q.length, p.length);
    assert_eq!(q.trans_id, p.trans_id);
    assert_eq!(q.attributes.len(), p.attributes.len());
    for (x, y) in q.attributes.iter().zip(p.attributes.iter()) {
        assert_eq!((x.s_type, x.length, &x.value), (y.s_type, y.length, &y.value));
    }
    assert_eq!(q.bytes(), bytes);
}

#[test]
fn encoded_length_is_header_plus_length() {
    for (ci, cp) in [(false, false), (true, true), (false, true)] {
        let p = binding_request("abc", ci, cp, tail());
        assert_eq!(p.bytes().len(), 20 + p.length as usize);
    }
    let p = binding_request("abc", false, false, tail());
    // SOFTWARE (4 + 4) and FINGERPRINT (4 + 4).
    assert_eq!(p.length, 16);
    assert_eq!(p.types, TYPE_BINDING_REQUEST);
    assert_eq!(&p.trans_id[..4], &[0x21, 0x12, 0xA4, 0x42]);
    assert_eq!(&p.trans_id[4..], &tail());
}

#[test]
fn request_attributes_in_order() {
    let p = binding_request("x", false, true, tail());
    let types: Vec<u16> = p.attributes.iter().map(|a| a.s_type).collect();
    assert_eq!(types, vec![ATTRIBUTE_SOFTWARE, ATTRIBUTE_CHANGE_REQUEST, ATTRIBUTE_FINGERPRINT]);
    assert_eq!(p.attributes[1].value, vec![0, 0, 0, 2]);
    let plain = binding_request("x", false, false, tail());
    assert_eq!(plain.attributes.len(), 2);
}

#[test]
fn fingerprint_checks_out() {
    let p = binding_request("stun client", true, true, tail());
    let bytes = p.bytes();
    let n = bytes.len();
    let crc = crc32fast::hash(&bytes[..n - 8]) ^ 0x5354554E;
    assert_eq!(&bytes[n - 8..n - 4], &[0x80, 0x28, 0, 4]);
    assert_eq!(&bytes[n - 4..], &crc.to_be_bytes());
    let direct = Attribute::new_fingerprint_attribute(&p);
    assert_ne!(direct.value, p.attributes[2].value);
}

#[test]
fn fingerprint_from_known_crc() {
    let a = Attribute::fingerprint_from_crc(0);
    assert_eq!(a.value, vec![0x53, 0x54, 0x55, 0x4E]);
    assert_eq!(a.s_type, ATTRIBUTE_FINGERPRINT);
}

#[test]
fn xor_mapped_round_trip() {
    let mut tid = [0u8; 16];
    tid[..4].copy_from_slice(&[0x21, 0x12, 0xA4, 0x42]);
    for (i, b) in tid[4..].iter_mut().enumerate() {
        *b = (i as u8).wrapping_mul(37).wrapping_add(11);
    }
    let a = Attribute::new_xor_mapped_attribute(1, &[1, 2, 3, 4], 5000, &tid);
    assert_eq!(a.s_type, ATTRIBUTE_XOR_MAPPED_ADDRESS);
    assert_eq!(a.value[4], 1 ^ 0x21);
    let h = a.get_xor_addr(&tid).unwrap();
    assert_eq!((h.family, h.ip.as_str(), h.port), (1, "1.2.3.4", 5000));
    let addr6 = [0x20, 0x01, 0x0d, 0xb8, 0, 0, 0, 0, 0, 0, 0, 0, 0, 0, 0x12, 0x34];
    let a6 = Attribute::new_xor_mapped_attribute(2, &addr6, 443, &tid);
    let h6 = a6.get_xor_addr(&tid).unwrap();
    assert_eq!((h6.family, h6.ip.as_str(), h6.port), (2, "2001:db8::1234", 443));
}

#[test]
fn decode_nineteen_bytes_fails() {
    assert!(Packet::new_packet_form_bytes(vec![0u8; 19]).is_err());
    assert!(Packet::new_packet_form_bytes(vec![]).is_err());
    let empty = Packet::new_packet_form_bytes(vec![0u8; 20]).unwrap();
    assert!(empty.attributes.is_empty());
}

#[test]
fn decode_attribute_past_end_fails() {
    let mut b = vec![0x01, 0x01, 0, 8];
    b.extend_from_slice(&[0x21, 0x12, 0xA4, 0x42, 0, 0, 0, 0, 0, 0, 0, 0, 0, 0, 0, 0]);
    b.extend_from_slice(&[0x00, 0x20, 0x00, 0x08, 0, 1, 2, 3]);
    assert!(Packet::new_packet_form_bytes(b.clone()).is_err());
    // A partial attribute header fails too.
    let mut c = b[..20].to_vec();
    c.extend_from_slice(&[0, 1]);
    assert!(Packet::new_packet_form_bytes(c).is_err());
    // Oversized payloads are refused.
    assert!(Packet::new_packet_form_bytes(vec![0u8; 20 + 65536]).is_err());
}

#[test]
fn decode_pads_short_values() {
    let mut b = vec![0x01, 0x01, 0, 8];
    b.extend_from_slice(&[0x21, 0x12, 0xA4, 0x42, 0, 0, 0, 0, 0, 0, 0, 0, 0, 0, 0, 0]);
    b.extend_from_slice(&[0x80, 0x22, 0x00, 0x03, b'a', b'b', b'c', 0x7f]);
    let p = Packet::new_packet_form_bytes(b).unwrap();
    assert_eq!(p.attributes.len(), 1);
    assert_eq!(p.attributes[0].length, 3);
    assert_eq!(p.attributes[0].value, vec![b'a', b'b', b'c', 0]);
}

#[test]
fn change_request_bits() {
    assert_eq!(Attribute::new_change_req_attribute(true, false).value[3], 0x04);
    assert_eq!(Attribute::new_change_req_attribute(true, true).value[3], 0x06);
    assert_eq!(Attribute::new_change_req_attribute(false, false).value[3], 0x00);
    assert_eq!(Attribute::new_change_req_attribute(false, true).value[3], 0x02);
}

#[test]
fn add_attribute_counts_padding() {
    let mut p = Packet::with_transaction(tail());
    p.add_attribute(Attribute::new(0x8022, &[1, 2, 3, 4, 5]));
    assert_eq!(p.length, 12);
    p.add_fingerprint();
    assert_eq!(p.length, 20);
    assert_eq!(p.attributes.len(), 2);
}

#[test]
fn random_transaction_ids() {
    let a = Packet::new();
    let b = Packet::new();
    assert_eq!(&a.trans_id[..4], &[0x21, 0x12, 0xA4, 0x42]);
    assert_eq!(a.length, 0);
    assert_ne!(a.trans_id, b.trans_id);
}

#[test]
fn ipv6_text_forms() {
    let cases: [([u8; 16], &str); 9] = [
        ([0; 16], "::"),
        ([0, 0, 0, 0, 0, 0, 0, 0, 0, 0, 0, 0, 0, 0, 0, 1], "::1"),
        ([0x20, 0x01, 0x0d, 0xb8, 0, 0, 0, 0, 0, 0, 0, 0, 0, 0, 0, 1], "2001:db8::1"),
        ([0, 0, 0, 0, 0, 0, 0, 0, 0, 0, 0xff, 0xff, 1, 2, 3, 4], "::ffff:1.2.3.4"),
        ([0, 1, 0, 0, 0, 0, 0, 2, 0, 0, 0, 0, 0, 0, 0, 3], "1:0:0:2::3"),
        ([0, 1, 0, 0, 0, 0, 0, 2, 0, 0, 0, 0, 0, 3, 0, 4], "1::2:0:0:3:4"),
        ([0, 1, 0, 0, 0, 2, 0, 3, 0, 4, 0, 5, 0, 6, 0, 7], "1:0:2:3:4:5:6:7"),
        ([0xfe, 0x80, 0, 0, 0, 0, 0, 0, 0x0a, 0xbc, 0, 0, 0, 0, 0, 0], "fe80::abc:0:0:0"),
        ([0xff, 0xff, 0, 0x10, 0x12, 0x34, 0xab, 0xcd, 0, 0, 1, 0, 0, 0, 0, 0], "ffff:10:1234:abcd:0:100::"),
    ];
    for (bytes, text) in cases.iter() {
        assert_eq!(ipv6_string(bytes), *text);
    }
}

