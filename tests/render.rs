use snet::ipv4::{classify, Address, AddressType, Class};

#[test]
fn classify_boundaries() {
    assert_eq!(classify(0x7FFF_FFFF), Class::A);
    assert_eq!(classify(0x8000_0000), Class::B);
    assert_eq!(classify(0xBFFF_FFFF), Class::B);
    assert_eq!(classify(0xC000_0000), Class::C);
    assert_eq!(classify(0xDFFF_FFFF), Class::C);
    assert_eq!(classify(0xE000_0000), Class::D);
    assert_eq!(classify(0xEFFF_FFFF), Class::D);
    assert_eq!(classify(0xF000_0000), Class::E);
    assert_eq!(classify(0), Class::A);
    assert_eq!(Class::from(0xFFFF_FFFFu32), Class::E);
}

#[test]
fn class_network_bits() {
    assert_eq!(Class::A.network_bits(), Some(8));
    assert_eq!(Class::B.network_bits(), Some(16));
    assert_eq!(Class::C.network_bits(), Some(24));
    assert_eq!(Class::D.network_bits(), None);
    assert_eq!(Class::E.network_bits(), None);
}

#[test]
fn address_renderings() {
    let a = Address(0xC0A8_9310);
    assert_eq!(a.to_string(), "192.168.147.16");
    assert_eq!(a.to_binary_string(), "11000000101010001001001100010000");
    assert_eq!(Address(0).to_string(), "0.0.0.0");
    assert_eq!(Address(0xFFFF_FFFF).to_binary_string(), "1".repeat(32));
}

#[test]
fn role_labels() {
    let a = Address(1);
    assert_eq!(AddressType::Network(a, Class::A).to_string(), "class A network");
    assert_eq!(AddressType::Network(a, Class::E).to_string(), "class E network");
    assert_eq!(AddressType::Subnet(a).to_string(), "subnet");
    assert_eq!(AddressType::Host(a).to_string(), "host");
    assert_eq!(AddressType::SubnetBroadcast(a).to_string(), "subnet broadcast");
    assert_eq!(AddressType::NetworkBroadcast(a).to_string(), "network broadcast");
    assert_eq!(AddressType::Host(a).address(), a);
}

#[test]
fn combined_rendering_right_aligns_the_dotted_form() {
    assert_eq!(
        Address(0xC0A8_9310).to_combined_string(),
        "11000000101010001001001100010000 -  192.168.147.16"
    );
    assert_eq!(
        Address(0x0102_0304).to_combined_string(),
        "00000001000000100000001100000100 -         1.2.3.4"
    );
    assert_eq!(
        Address(0xDFFF_FFFF).to_combined_string(),
        "11011111111111111111111111111111 - 223.255.255.255"
    );
}

#[test]
fn class_masks_and_patterns() {
    for c in &[Class::A, Class::B, Class::C, Class::D, Class::E] {
        assert_eq!(classify(c.pattern()), *c);
        assert_eq!(c.pattern() & c.mask(), c.pattern());
    }
    assert_eq!(Class::C.mask(), 0xE000_0000);
    assert_eq!(Class::D.pattern(), 0xE000_0000);
}
