use ros2monitor::network::{
    decode_hex, domain_ports, encode_hex, fastdds_to_ros2, find_node_host, hex_str_from_uc,
    parse_endpoint, sub_strings, FastDDSEndpoint, SHM_TRANSPORT, TCPV4_TRANSPORT, UDPV4_TRANSPORT,
};

#[test]
fn fastdds_prefixes_are_discarded() {
    assert_eq!(fastdds_to_ros2("rt/rosout".to_string()), "rosout");
    assert_eq!(fastdds_to_ros2("chatter".to_string()), "chatter");
    assert_eq!(fastdds_to_ros2("rr/some_service".to_string()), "some_service");
    assert_eq!(fastdds_to_ros2("rtx/keep".to_string()), "rtx/keep");
}

#[test]
fn encode_hex_is_two_lowercase_digits_per_byte() {
    assert_eq!(encode_hex(&[]), "");
    assert_eq!(encode_hex(&[0x01, 0xab, 0xff, 0x00]), "01abff00");
}

#[test]
fn decode_hex_inverts_encode_hex() {
    let bytes = vec![0u8, 1, 15, 16, 171, 255];
    let text = encode_hex(&bytes);
    assert_eq!(decode_hex(&text).unwrap(), bytes);
    assert_eq!(decode_hex("01AB").unwrap(), vec![0x01, 0xab]);
    assert_eq!(decode_hex("").unwrap(), Vec::<u8>::new());
}

#[test]
fn decode_hex_rejects_non_digits() {
    assert!(decode_hex("zz").is_err());
    assert!(decode_hex("0g").is_err());
}

#[test]
fn guid_bytes_are_grouped_and_dotted() {
    assert_eq!(hex_str_from_uc(&[]), "");
    assert_eq!(hex_str_from_uc(&[0x01]), "01");
    assert_eq!(hex_str_from_uc(&[0x01, 0x02, 0xff]), "01.02.ff");
}

#[test]
fn sub_strings_groups_characters() {
    let groups = sub_strings("abcde", 2);
    assert_eq!(groups, vec!["ab".to_string(), "cd".to_string(), "e".to_string()]);
}

#[test]
fn domain_ports_follow_the_formulas() {
    let p = domain_ports(1);
    assert_eq!(p.discovery_mcast_port, 7650);
    assert_eq!(p.user_mcast_port, 7651);
    assert_eq!(p.discovery_unicast_port, 7660);
    assert_eq!(p.user_unicast_port, 7661);
    let p0 = domain_ports(0);
    assert_eq!(p0.discovery_mcast_port, 7400);
}

#[test]
fn endpoints_render_by_transport() {
    let shm = FastDDSEndpoint { transport: SHM_TRANSPORT, addr: vec![] };
    assert_eq!(parse_endpoint(shm), "SHM");
    let udp = FastDDSEndpoint { transport: UDPV4_TRANSPORT, addr: vec![192, 168, 0, 1] };
    assert_eq!(parse_endpoint(udp), "192.168.0.1");
    // Address bytes run through ASCII uppercasing before the decimal
    // rendering: 97 is 'a', which uppercases to 'A' (65).
    let tcp = FastDDSEndpoint { transport: TCPV4_TRANSPORT, addr: vec![10, 0, 0, 97] };
    assert_eq!(parse_endpoint(tcp), "10.0.0.65");
    let unknown = FastDDSEndpoint { transport: 99, addr: vec![1, 2] };
    assert_eq!(parse_endpoint(unknown), "");
}

#[test]
fn node_host_defaults_to_localhost() {
    let h = find_node_host("talker".to_string(), 0);
    assert_eq!(h.ip, "127.0.0.1");
    assert_eq!(h.name, "localhost");
}
