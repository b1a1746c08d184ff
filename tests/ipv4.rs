use snet::cidr::parse_cidr;
use snet::errors::Error;
use snet::ipv4::{AddressType, Class, Network, ReservedAddress};

#[test]
fn test_network_from_string() {
    let network_from_str = parse_cidr("192.168.147.0/28").unwrap();
    let network_from_parts = Network::from_dotted_decimal_parts(192, 168, 147, 0, 28).unwrap();
    assert_eq!(network_from_str, network_from_parts);
}

#[test]
fn test_network_from_decimal_parts() {
    let network = Network::from_dotted_decimal_parts(192, 168, 147, 0, 28).unwrap();
    assert_eq!(network.address(), 0b11000000_10101000_10010011_00000000);
    assert_eq!(network.subnet_mask_len(), 28);
}

#[test]
fn test_network_class() {
    for (expected_class, network_str) in &[
        (Class::A, "125.0.0.0/0"),
        (Class::B, "128.122.0.0/0"),
        (Class::C, "192.168.147.0/0"),
        (Class::D, "224.12.98.255/0"),
        (Class::E, "255.255.255.254/32"),
    ] {
        assert_eq!(
            expected_class,
            &parse_cidr(network_str).unwrap().class(),
            "failed network address: {}",
            network_str
        );
    }
}

#[test]
fn test_reserved_addresses() {
    assert!(
        matches!(
            parse_cidr("127.0.0.1/0"),
            Err(Error::ReservedAddress(ReservedAddress::Loopback))
        ),
        "Expected network instantiation with reserved address to fail"
    );

    assert!(
        matches!(
            parse_cidr("255.255.255.255/32"),
            Err(Error::ReservedAddress(ReservedAddress::LocalBroadcast))
        ),
        "Expected network instantiation with reserved address to fail"
    );
}

#[test]
fn test_netmask() {
    let network = parse_cidr("192.168.147.0/28").unwrap();
    assert_eq!(
        network.net_mask().unwrap(),
        0b11111111_11111111_11111111_00000000
    );
}

#[test]
fn test_subnet_mask() {
    let network = parse_cidr("192.168.147.0/28").unwrap();
    assert_eq!(network.subnet_mask(), 0b11111111_11111111_11111111_11110000);
}

#[test]
fn test_num_subnets() {
    for (network, expected) in &[
        ("192.168.147.0/0", 0_u32),
        ("192.168.147.0/27", 6),
        ("192.168.147.0/28", 14),
        ("192.168.147.0/30", 62),
        ("192.168.147.0/31", 126),
        ("192.168.147.0/32", 254),
    ] {
        assert_eq!(
            parse_cidr(network).unwrap().num_subnets().unwrap(),
            *expected,
            "Failed network: {}",
            network
        );
    }
}

#[test]
fn test_num_hosts_per_subnet() {
    for (network, expected) in &[
        ("192.168.147.0/0", 254_u32),
        ("192.168.147.0/27", 30),
        ("192.168.147.0/28", 14),
        ("192.168.147.0/30", 2),
        ("192.168.147.0/31", 0),
        ("192.168.147.0/32", 0),
    ] {
        assert_eq!(
            parse_cidr(network).unwrap().num_hosts_per_subnet(),
            *expected,
            "failed: {}",
            network
        );
    }
}

#[test]
fn test_network_display() {
    let network = Network::from_dotted_decimal_parts(192, 168, 147, 0, 28).unwrap();
    assert_eq!(
        "class C network\n\
        Subnets:      14\n\
        Hosts/subnet: 14",
        &network.to_string()
    );
}

#[test]
fn test_subnet_iter() {
    let network = parse_cidr("192.168.147.0/28").unwrap();
    let subnets: Vec<String> = network.subnets().iter().map(|a| a.to_string()).collect();

    assert_eq!(
        subnets.iter().map(AsRef::as_ref).collect::<Vec<&str>>(),
        vec![
            "192.168.147.16",
            "192.168.147.32",
            "192.168.147.48",
            "192.168.147.64",
            "192.168.147.80",
            "192.168.147.96",
            "192.168.147.112",
            "192.168.147.128",
            "192.168.147.144",
            "192.168.147.160",
            "192.168.147.176",
            "192.168.147.192",
            "192.168.147.208",
            "192.168.147.224",
        ]
    )
}

#[test]
fn test_addresses_iter_class_c() {
    let network = parse_cidr("192.168.147.0/28").unwrap();
    let addresses: Vec<String> = network.addresses().iter().map(|a| a.to_string()).collect();

    assert_eq!(&addresses[0], "class C network");
    assert_eq!(&addresses[1], "subnet");
    assert_eq!(&addresses[2], "host");
    assert_eq!(&addresses[15], "host");
    assert_eq!(&addresses[16], "subnet broadcast");
    assert_eq!(&addresses[17], "subnet");
    assert_eq!(&addresses[18], "host");
    assert_eq!(&addresses[224], "subnet broadcast");
    assert_eq!(&addresses[225], "network broadcast");
}

#[test]
fn test_addresses_iter_class_d() {
    let network = parse_cidr("224.12.98.255/28").unwrap();
    let addresses: Vec<String> = network.addresses().iter().map(|a| a.to_string()).collect();

    assert_eq!(&addresses[0], "class D network");
    assert_eq!(addresses.len(), 1);
}

#[test]
fn addresses_of_class_c_have_expected_length_and_ends() {
    let network = parse_cidr("192.168.147.0/28").unwrap();
    let addresses = network.addresses();
    // !net = 255, !sub = 15: 225 addresses in between, of which 224 are listed.
    assert_eq!(addresses.len(), 2 + (255 - 2 * 15 - 1));
    assert_eq!(addresses[1].address().to_string(), "192.168.147.16");
    assert_eq!(addresses[16].address().to_string(), "192.168.147.31");
    assert_eq!(
        addresses[225],
        AddressType::NetworkBroadcast(snet::ipv4::Address(0xC0A8_93FF))
    );
    assert_eq!(addresses[225].address().to_string(), "192.168.147.255");
}

#[test]
fn subnets_ascend_by_sixteen() {
    let network = parse_cidr("192.168.147.0/28").unwrap();
    let subnets = network.subnets();
    assert_eq!(subnets.len(), 14);
    for pair in subnets.windows(2) {
        assert_eq!(pair[1].0 - pair[0].0, 16);
    }
}

#[test]
fn enumerating_twice_gives_the_same_sequences() {
    let network = parse_cidr("10.0.0.0/12").unwrap();
    assert_eq!(network.subnets(), network.subnets());
    assert_eq!(network.addresses(), network.addresses());
}

#[test]
fn class_e_has_no_subnetting() {
    let network = parse_cidr("255.255.255.254/32").unwrap();
    assert_eq!(network.net_mask(), None);
    assert_eq!(network.num_subnets(), None);
    assert!(network.subnets().is_empty());
    assert_eq!(network.addresses().len(), 1);
    assert_eq!(
        network.to_string(),
        "class E network\nSubnets:      N/A\nHosts/subnet: N/A"
    );
}

#[test]
fn hosts_with_no_mask_use_the_class_block() {
    assert_eq!(parse_cidr("10.0.0.0/0").unwrap().num_hosts_per_subnet(), 0x00FF_FFFE);
    assert_eq!(parse_cidr("172.16.0.0/0").unwrap().num_hosts_per_subnet(), 0xFFFE);
    assert_eq!(parse_cidr("224.0.0.0/0").unwrap().num_hosts_per_subnet(), 0x0FFF_FFFE);
}

#[test]
fn mask_no_longer_than_network_bits_gives_no_subnets() {
    let network = parse_cidr("192.168.147.0/24").unwrap();
    assert_eq!(network.num_subnets(), Some(0));
    assert!(network.subnets().is_empty());
    assert_eq!(network.addresses().len(), 2);
    assert_eq!(parse_cidr("192.168.147.0/16").unwrap().num_subnets(), Some(0));
}

#[test]
fn malformed_text_is_an_invalid_address() {
    for text in &[
        "",
        "1.2.3.4",
        "1.2.3/8",
        "1.2.3.4.5/8",
        "1.2.3.256/8",
        "1.2.3.4/256",
        "1.2.3.-4/8",
        "1.2.3.x/8",
        "1.2..4/8",
        "1.2.3.4/",
        "1.2.3.+/8",
    ] {
        assert_eq!(parse_cidr(text), Err(Error::InvalidAddress), "text: {:?}", text);
    }
}

#[test]
fn long_mask_is_an_invalid_subnet_mask() {
    assert_eq!(parse_cidr("10.0.0.0/33"), Err(Error::InvalidSubnetMask));
    assert_eq!(
        Network::from_dotted_decimal_parts(127, 0, 0, 1, 40),
        Err(Error::InvalidSubnetMask)
    );
}

#[test]
fn parse_accepts_plus_sign_leading_zeros_and_extra_segments() {
    let expected = Network::from_dotted_decimal_parts(10, 1, 2, 3, 8).unwrap();
    assert_eq!(parse_cidr("+10.001.2.3/08"), Ok(expected));
    assert_eq!(parse_cidr("10.1.2.3/8/junk"), Ok(expected));
}

#[test]
fn loopback_block_is_the_whole_slash_eight() {
    assert_eq!(
        Network::from_dotted_decimal_parts(127, 255, 3, 9, 8),
        Err(Error::ReservedAddress(ReservedAddress::Loopback))
    );
    assert_eq!(ReservedAddress::detect(0x7E00_0000), None);
    assert_eq!(ReservedAddress::detect(0xFFFF_FFFE), None);
    assert_eq!(ReservedAddress::Loopback.label(), "loopback");
    assert_eq!(ReservedAddress::LocalBroadcast.label(), "local broadcast");
}
