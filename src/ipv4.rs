use vstd::prelude::*;
use vstd::string::StringExecFns;

use crate::errors::Error;

verus! {

/// The historical IPv4 network classes.
#[derive(Debug, Clone, Copy, PartialEq, Eq, Structural)]
pub enum Class {
    /// N, H, H, H
    A,
    /// N, N, H, H
    B,
    /// N, N, N, H
    C,
    /// Multicast
    D,
    /// Reserved use
    E,
}

/// Number of leading network bits that a class implies, where it has any.
pub open spec fn class_network_bits(c: Class) -> Option<u8> {
    match c {
        Class::A => Some(8u8),
        Class::B => Some(16u8),
        Class::C => Some(24u8),
        Class::D => None,
        Class::E => None,
    }
}

/// The leading bits that decide whether an address belongs to a class.
pub open spec fn class_mask(c: Class) -> u32 {
    match c {
        Class::A => 0x8000_0000u32,
        Class::B => 0xC000_0000u32,
        Class::C => 0xE000_0000u32,
        Class::D => 0xF000_0000u32,
        Class::E => 0xF000_0000u32,
    }
}

/// The value that the bits under `class_mask(c)` take for an address of class `c`.
pub open spec fn class_pattern(c: Class) -> u32 {
    match c {
        Class::A => 0x0000_0000u32,
        Class::B => 0x8000_0000u32,
        Class::C => 0xC000_0000u32,
        Class::D => 0xE000_0000u32,
        Class::E => 0xF000_0000u32,
    }
}

/// Whether `address` carries the bit pattern of class `c`.
pub open spec fn in_class(address: u32, c: Class) -> bool {
    address & class_mask(c) == class_pattern(c)
}

/// The class of an address: the patterns are tried longest first (E, D, C, B), and
/// class A takes whatever is left.
pub open spec fn class_of(address: u32) -> Class {
    if in_class(address, Class::E) {
        Class::E
    } else if in_class(address, Class::D) {
        Class::D
    } else if in_class(address, Class::C) {
        Class::C
    } else if in_class(address, Class::B) {
        Class::B
    } else {
        Class::A
    }
}

/// The class patterns are disjoint and cover every address: an address carries the
/// pattern of exactly one class, and that class is `class_of(address)`.
pub proof fn lemma_exactly_one_class(address: u32, c: Class)
    ensures
        in_class(address, c) <==> c == class_of(address),
        in_class(address, class_of(address)),
{
    let a = address;
    assert(a & 0xF000_0000u32 == 0xF000_0000u32 ==> a & 0xF000_0000u32 != 0xE000_0000u32
        && a & 0xE000_0000u32 != 0xC000_0000u32 && a & 0xC000_0000u32 != 0x8000_0000u32
        && a & 0x8000_0000u32 != 0u32) by (bit_vector);
    assert(a & 0xF000_0000u32 == 0xE000_0000u32 ==> a & 0xE000_0000u32 != 0xC000_0000u32
        && a & 0xC000_0000u32 != 0x8000_0000u32 && a & 0x8000_0000u32 != 0u32) by (bit_vector);
    assert(a & 0xE000_0000u32 == 0xC000_0000u32 ==> a & 0xC000_0000u32 != 0x8000_0000u32
        && a & 0x8000_0000u32 != 0u32) by (bit_vector);
    assert(a & 0xC000_0000u32 == 0x8000_0000u32 ==> a & 0x8000_0000u32 != 0u32) by (bit_vector);
    assert(a & 0xF000_0000u32 != 0xF000_0000u32 && a & 0xF000_0000u32 != 0xE000_0000u32
        && a & 0xE000_0000u32 != 0xC000_0000u32 && a & 0xC000_0000u32 != 0x8000_0000u32
        ==> a & 0x8000_0000u32 == 0u32) by (bit_vector);
}

/// The order in which the class patterns are tried: longest pattern first.
fn class_by_priority(i: usize) -> (r: Class)
    requires
        i < 5,
    ensures
        i == 0 ==> r == Class::E,
        i == 1 ==> r == Class::D,
        i == 2 ==> r == Class::C,
        i == 3 ==> r == Class::B,
        i == 4 ==> r == Class::A,
{
    match i {
        0 => Class::E,
        1 => Class::D,
        2 => Class::C,
        3 => Class::B,
        _ => Class::A,
    }
}

/// Classifies an address by trying the class patterns longest first.
pub fn classify(address: u32) -> (r: Class)
    ensures
        r == class_of(address),
        in_class(address, r),
{
    let mut i: usize = 0;
    while i < 5
        invariant
            i <= 5,
            i >= 1 ==> !in_class(address, Class::E),
            i >= 2 ==> !in_class(address, Class::D),
            i >= 3 ==> !in_class(address, Class::C),
            i >= 4 ==> !in_class(address, Class::B),
            i >= 5 ==> !in_class(address, Class::A),
        decreases 5 - i,
    {
        let class = class_by_priority(i);
        if address & class.mask() == class.pattern() {
            proof {
                lemma_exactly_one_class(address, class);
            }
            return class;
        }
        i = i + 1;
    }
    proof {
        // No address escapes every class pattern.
        lemma_exactly_one_class(address, Class::A);
    }
    Class::A
}

impl From<u32> for Class {
    fn from(address: u32) -> (r: Class) {
        classify(address)
    }
}

impl vstd::std_specs::convert::FromSpecImpl<u32> for Class {
    open spec fn obeys_from_spec() -> bool {
        true
    }

    open spec fn from_spec(address: u32) -> Class {
        class_of(address)
    }
}

impl Class {
    /// Number of leading network bits the class implies; none for D and E.
    pub fn network_bits(&self) -> (r: Option<u8>)
        ensures
            r == class_network_bits(*self),
    {
        match self {
            Class::A => Some(8),
            Class::B => Some(16),
            Class::C => Some(24),
            Class::D => None,
            Class::E => None,
        }
    }

    /// The bits that decide membership of the class.
    pub fn mask(&self) -> (r: u32)
        ensures
            r == class_mask(*self),
    {
        match self {
            Class::A => 0b10000000_00000000_00000000_00000000,
            Class::B => 0b11000000_00000000_00000000_00000000,
            Class::C => 0b11100000_00000000_00000000_00000000,
            Class::D => 0b11110000_00000000_00000000_00000000,
            Class::E => 0b11110000_00000000_00000000_00000000,
        }
    }

    /// The value of the masked bits for a member of the class.
    pub fn pattern(&self) -> (r: u32)
        ensures
            r == class_pattern(*self),
    {
        match self {
            Class::A => 0b00000000_00000000_00000000_00000000,
            Class::B => 0b10000000_00000000_00000000_00000000,
            Class::C => 0b11000000_00000000_00000000_00000000,
            Class::D => 0b11100000_00000000_00000000_00000000,
            Class::E => 0b11110000_00000000_00000000_00000000,
        }
    }
}

/// Address blocks that can never be the base of a network.
#[derive(Debug, Clone, Copy, PartialEq, Eq, Structural)]
pub enum ReservedAddress {
    /// The loopback block 127/8 (the whole /8, not only 127.0.0.1).
    Loopback,
    /// 255.255.255.255/32
    LocalBroadcast,
}

/// The bits that decide whether an address falls in a reserved block.
pub open spec fn reserved_mask(r: ReservedAddress) -> u32 {
    match r {
        ReservedAddress::Loopback => 0xFF00_0000u32,
        ReservedAddress::LocalBroadcast => 0xFFFF_FFFFu32,
    }
}

/// The value of those bits for an address in the block.
pub open spec fn reserved_pattern(r: ReservedAddress) -> u32 {
    match r {
        ReservedAddress::Loopback => 0x7F00_0000u32,
        ReservedAddress::LocalBroadcast => 0xFFFF_FFFFu32,
    }
}

/// The reserved block an address falls in, the most specific block checked first.
pub open spec fn reserved_of(address: u32) -> Option<ReservedAddress> {
    if address & reserved_mask(ReservedAddress::LocalBroadcast) == reserved_pattern(
        ReservedAddress::LocalBroadcast,
    ) {
        Some(ReservedAddress::LocalBroadcast)
    } else if address & reserved_mask(ReservedAddress::Loopback) == reserved_pattern(
        ReservedAddress::Loopback,
    ) {
        Some(ReservedAddress::Loopback)
    } else {
        None
    }
}

impl ReservedAddress {
    /// The bits that decide membership of the block.
    pub fn mask(&self) -> (r: u32)
        ensures
            r == reserved_mask(*self),
    {
        match self {
            ReservedAddress::Loopback => 0b11111111_00000000_00000000_00000000,
            ReservedAddress::LocalBroadcast => 0b11111111_11111111_11111111_11111111,
        }
    }

    /// The value of the masked bits for an address in the block.
    pub fn pattern(&self) -> (r: u32)
        ensures
            r == reserved_pattern(*self),
    {
        match self {
            ReservedAddress::Loopback => 0b01111111_00000000_00000000_00000000,
            ReservedAddress::LocalBroadcast => 0b11111111_11111111_11111111_11111111,
        }
    }

    /// Finds the reserved block `address` falls in, trying the most specific first.
    pub fn detect(address: u32) -> (r: Option<ReservedAddress>)
        ensures
            r == reserved_of(address),
    {
        let mut i: usize = 0;
        while i < 2
            invariant
                i <= 2,
                i >= 1 ==> address & reserved_mask(ReservedAddress::LocalBroadcast)
                    != reserved_pattern(ReservedAddress::LocalBroadcast),
                i >= 2 ==> address & reserved_mask(ReservedAddress::Loopback) != reserved_pattern(
                    ReservedAddress::Loopback,
                ),
            decreases 2 - i,
        {
            let reserved = if i == 0 {
                ReservedAddress::LocalBroadcast
            } else {
                ReservedAddress::Loopback
            };
            if address & reserved.mask() == reserved.pattern() {
                return Some(reserved);
            }
            i = i + 1;
        }
        None
    }

    /// Human-readable name of the block.
    pub fn label(&self) -> (r: String)
        ensures
            r@ == reserved_label(*self),
    {
        match self {
            ReservedAddress::Loopback => String::from_str("loopback"),
            ReservedAddress::LocalBroadcast => String::from_str("local broadcast"),
        }
    }
}

/// Human-readable name of a reserved block.
pub open spec fn reserved_label(r: ReservedAddress) -> Seq<char> {
    match r {
        ReservedAddress::Loopback => "loopback"@,
        ReservedAddress::LocalBroadcast => "local broadcast"@,
    }
}

/// Finds the reserved block an address falls in, if any.
pub fn detect_reserved(address: u32) -> (r: Option<ReservedAddress>)
    ensures
        r == reserved_of(address),
{
    ReservedAddress::detect(address)
}

/// One IPv4 address, as its 32-bit value.
#[derive(Debug, Clone, Copy, PartialEq, Eq, Structural)]
pub struct Address(pub u32);

/// An address of a network together with the role it plays there.
#[derive(Debug, Clone, Copy, PartialEq, Eq, Structural)]
pub enum AddressType {
    Network(Address, Class),
    Subnet(Address),
    Host(Address),
    SubnetBroadcast(Address),
    NetworkBroadcast(Address),
}

/// The address an `AddressType` carries.
pub open spec fn address_of(t: AddressType) -> Address {
    match t {
        AddressType::Network(a, _) => a,
        AddressType::Subnet(a) => a,
        AddressType::Host(a) => a,
        AddressType::SubnetBroadcast(a) => a,
        AddressType::NetworkBroadcast(a) => a,
    }
}

impl AddressType {
    /// The address, whatever its role.
    pub fn address(&self) -> (r: Address)
        ensures
            r == address_of(*self),
    {
        match self {
            AddressType::Network(a, _) => *a,
            AddressType::Subnet(a) => *a,
            AddressType::Host(a) => *a,
            AddressType::SubnetBroadcast(a) => *a,
            AddressType::NetworkBroadcast(a) => *a,
        }
    }
}

/// A mask with the top `n` bits set (`n <= 32`).
pub open spec fn top_bits(n: u8) -> u32 {
    if n == 0 {
        0u32
    } else {
        0xFFFF_FFFFu32 << ((32 - n) as u32)
    }
}

/// The address assembled from its four octets, most significant first.
pub open spec fn address_from_octets(o1: u8, o2: u8, o3: u8, o4: u8) -> u32 {
    (o1 as u32) << 24u32 | (o2 as u32) << 16u32 | (o3 as u32) << 8u32 | (o4 as u32)
}

/// The mask of the network bits that the class of `address` implies; none for D and E.
pub open spec fn net_mask_of(address: u32) -> Option<u32> {
    match class_network_bits(class_of(address)) {
        Some(bits) => Some(top_bits(bits)),
        None => None,
    }
}

/// The usable subnets: the subnet bits borrowed beyond the class's network bits,
/// read as a number, less one. The all-zero and all-one subnet patterns are not
/// usable, and a mask that borrows no bit leaves no usable subnet.
pub open spec fn num_subnets_of(address: u32, mask_len: u8) -> Option<u32> {
    match net_mask_of(address) {
        None => None,
        Some(net) => {
            let sub = top_bits(mask_len);
            if sub == 0 {
                Some(0u32)
            } else {
                let borrowed = (net ^ sub) >> ((32 - mask_len) as u32);
                if borrowed == 0 {
                    Some(0u32)
                } else {
                    Some((borrowed - 1) as u32)
                }
            }
        },
    }
}

/// Hosts in each subnet: all host bits less the broadcast address; with no subnet
/// mask, the hosts of the whole class block; none when fewer than two host bits remain.
pub open spec fn num_hosts_of(address: u32, mask_len: u8) -> u32 {
    if mask_len > 30 {
        0u32
    } else if mask_len == 0 {
        let m = match net_mask_of(address) {
            Some(n) => n,
            None => class_mask(class_of(address)),
        };
        ((!m) - 1) as u32
    } else {
        ((0xFFFF_FFFFu32 >> (mask_len as u32)) - 1) as u32
    }
}

/// The base addresses of the usable subnets, in order of their subnet number.
pub open spec fn subnets_of(address: u32, mask_len: u8) -> Seq<Address> {
    let n = match num_subnets_of(address, mask_len) {
        Some(n) => n,
        None => 0u32,
    };
    Seq::new(
        n as nat,
        |k: int| Address(address | (((k + 1) as u32) << ((32 - mask_len) as u32))),
    )
}

/// The role of an address inside its subnet: all host bits set is the subnet's
/// broadcast, all host bits clear its base, anything else a host.
pub open spec fn member_kind(address: u32, subnet_mask: u32) -> AddressType {
    if address | subnet_mask == 0xFFFF_FFFFu32 {
        AddressType::SubnetBroadcast(Address(address))
    } else if !address | subnet_mask == 0xFFFF_FFFFu32 {
        AddressType::Subnet(Address(address))
    } else {
        AddressType::Host(Address(address))
    }
}

/// Number of addresses strictly between the network base and the network broadcast
/// that the enumeration considers.
pub open spec fn num_addresses_of(net_mask: u32, subnet_mask: u32) -> int {
    (!net_mask) as int - 2 * ((!subnet_mask) as int)
}

/// Every address of the network with its role: the network itself, then (for
/// classes A to C) the addresses at offsets `!subnet_mask + i` for `i` in
/// `1..num_addresses`, then the network broadcast.
pub open spec fn addresses_of(address: u32, mask_len: u8) -> Seq<AddressType> {
    let first = seq![AddressType::Network(Address(address), class_of(address))];
    match net_mask_of(address) {
        None => first,
        Some(net) => {
            let sub = top_bits(mask_len);
            let count = num_addresses_of(net, sub);
            let middle = Seq::new(
                if count > 1 {
                    (count - 1) as nat
                } else {
                    0
                },
                |k: int| member_kind((address + !sub + k + 1) as u32, sub),
            );
            first + middle + seq![AddressType::NetworkBroadcast(Address(address | !net))]
        },
    }
}

/// The values the masks take for the classes that have network bits.
proof fn lemma_mask_values()
    ensures
        top_bits(8) == 0xFF00_0000u32,
        top_bits(16) == 0xFFFF_0000u32,
        top_bits(24) == 0xFFFF_FF00u32,
        !0xFF00_0000u32 == 0x00FF_FFFFu32,
        !0xFFFF_0000u32 == 0x0000_FFFFu32,
        !0xFFFF_FF00u32 == 0x0000_00FFu32,
        !0xF000_0000u32 == 0x0FFF_FFFFu32,
{
    assert(0xFFFF_FFFFu32 << 24u32 == 0xFF00_0000u32) by (bit_vector);
    assert(0xFFFF_FFFFu32 << 16u32 == 0xFFFF_0000u32) by (bit_vector);
    assert(0xFFFF_FFFFu32 << 8u32 == 0xFFFF_FF00u32) by (bit_vector);
    assert(!0xFF00_0000u32 == 0x00FF_FFFFu32) by (bit_vector);
    assert(!0xFFFF_0000u32 == 0x0000_FFFFu32) by (bit_vector);
    assert(!0xFFFF_FF00u32 == 0x0000_00FFu32) by (bit_vector);
    assert(!0xF000_0000u32 == 0x0FFF_FFFFu32) by (bit_vector);
}

/// Where the classes with network bits lie in the address space.
proof fn lemma_class_range(address: u32)
    ensures
        class_of(address) == Class::A ==> address < 0x8000_0000u32,
        class_of(address) == Class::B ==> address < 0xC000_0000u32,
        class_of(address) == Class::C ==> address < 0xE000_0000u32,
{
    let a = address;
    lemma_exactly_one_class(a, class_of(a));
    assert(a & 0x8000_0000u32 == 0u32 ==> a < 0x8000_0000u32) by (bit_vector);
    assert(a & 0xC000_0000u32 == 0x8000_0000u32 ==> a < 0xC000_0000u32) by (bit_vector);
    assert(a & 0xE000_0000u32 == 0xC000_0000u32 ==> a < 0xE000_0000u32) by (bit_vector);
}

/// A network: a base address that lies in no reserved block, and the length of its
/// subnet mask.
#[derive(Debug, Clone, Copy, PartialEq, Eq, Structural)]
pub struct Network {
    /// The base network address.
    address: u32,
    /// The length of the subnet mask, in bits.
    subnet_mask_len: u8,
}

/// What building a network from four octets and a mask length gives: the mask
/// length is checked first, then the base address against the reserved blocks.
pub open spec fn network_from_parts(
    o1: u8,
    o2: u8,
    o3: u8,
    o4: u8,
    mask_len: u8,
    r: Result<Network, Error>,
) -> bool {
    let address = address_from_octets(o1, o2, o3, o4);
    if mask_len > 32 {
        r == Err::<Network, Error>(Error::InvalidSubnetMask)
    } else {
        match reserved_of(address) {
            Some(k) => r == Err::<Network, Error>(Error::ReservedAddress(k)),
            None => r matches Ok(n) && n.base() == address && n.mask_len() == mask_len,
        }
    }
}

impl Network {
    #[verifier::type_invariant]
    spec fn valid(self) -> bool {
        self.subnet_mask_len <= 32 && reserved_of(self.address) is None
    }

    /// The base address of the network.
    pub closed spec fn base(self) -> u32 {
        self.address
    }

    /// The length of the subnet mask.
    pub closed spec fn mask_len(self) -> u8 {
        self.subnet_mask_len
    }

    /// Builds a network from the four octets of its base address and a mask length.
    /// Fails on a mask length over 32, then on a base address in a reserved block.
    pub fn from_dotted_decimal_parts(
        octal1: u8,
        octal2: u8,
        octal3: u8,
        octal4: u8,
        subnet_mask_len: u8,
    ) -> (r: Result<Network, Error>)
        ensures
            network_from_parts(octal1, octal2, octal3, octal4, subnet_mask_len, r),
    {
        if subnet_mask_len > 32 {
            return Err(Error::InvalidSubnetMask);
        }
        let address = (octal1 as u32) << 24u32 | (octal2 as u32) << 16u32 | (octal3 as u32) << 8u32
            | (octal4 as u32);
        match ReservedAddress::detect(address) {
            Some(reserved) => Err(Error::ReservedAddress(reserved)),
            None => Ok(Network { address, subnet_mask_len }),
        }
    }

    /// The base address.
    pub fn address(&self) -> (r: u32)
        ensures
            r == self.base(),
    {
        self.address
    }

    /// The length of the subnet mask.
    pub fn subnet_mask_len(&self) -> (r: u8)
        ensures
            r == self.mask_len(),
            r <= 32,
    {
        proof {
            use_type_invariant(&*self);
        }
        self.subnet_mask_len
    }

    /// The class of the base address.
    pub fn class(&self) -> (r: Class)
        ensures
            r == class_of(self.base()),
    {
        classify(self.address)
    }

    /// The mask of the class's network bits; none for classes D and E.
    pub fn net_mask(&self) -> (r: Option<u32>)
        ensures
            r == net_mask_of(self.base()),
    {
        match self.class().network_bits() {
            Some(network_len) => Some(0xFFFF_FFFFu32 << ((32 - network_len) as u32)),
            None => None,
        }
    }

    /// The subnet mask: the top `subnet_mask_len` bits set.
    pub fn subnet_mask(&self) -> (r: u32)
        ensures
            r == top_bits(self.mask_len()),
    {
        proof {
            use_type_invariant(&*self);
        }
        if self.subnet_mask_len == 0 {
            0
        } else {
            0xFFFF_FFFFu32 << ((32 - self.subnet_mask_len) as u32)
        }
    }

    /// The number of usable subnets; none for classes D and E.
    pub fn num_subnets(&self) -> (r: Option<u32>)
        ensures
            r == num_subnets_of(self.base(), self.mask_len()),
    {
        proof {
            use_type_invariant(&*self);
        }
        let net_mask = match self.net_mask() {
            Some(n) => n,
            None => return None,
        };
        let subnet_mask = self.subnet_mask();
        if subnet_mask == 0 {
            Some(0)
        } else {
            let borrowed = (net_mask ^ subnet_mask) >> ((32 - self.subnet_mask_len) as u32);
            if borrowed == 0 {
                Some(0)
            } else {
                Some(borrowed - 1)
            }
        }
    }

    /// The number of usable hosts in each subnet.
    pub fn num_hosts_per_subnet(&self) -> (r: u32)
        ensures
            r == num_hosts_of(self.base(), self.mask_len()),
    {
        proof {
            use_type_invariant(&*self);
            lemma_mask_values();
        }
        if self.subnet_mask_len > 30 {
            0
        } else if self.subnet_mask_len == 0 {
            let mask = match self.net_mask() {
                Some(n) => n,
                None => self.class().mask(),
            };
            !mask - 1
        } else {
            let len = self.subnet_mask_len as u32;
            assert(1 <= len <= 30 ==> 0xFFFF_FFFFu32 >> len >= 3u32) by (bit_vector);
            (0xFFFF_FFFFu32 >> len) - 1
        }
    }

    /// The base address of every usable subnet, in order.
    pub fn subnets(&self) -> (r: Vec<Address>)
        ensures
            r@ == subnets_of(self.base(), self.mask_len()),
    {
        proof {
            use_type_invariant(&*self);
        }
        let n_subnets = match self.num_subnets() {
            Some(n) => n,
            None => 0,
        };
        let mut out: Vec<Address> = Vec::new();
        if n_subnets == 0 {
            assert(out@ =~= subnets_of(self.address, self.subnet_mask_len));
            return out;
        }
        let shift = (32 - self.subnet_mask_len) as u32;
        let mut i: u32 = 0;
        while i < n_subnets
            invariant
                i <= n_subnets,
                n_subnets as nat == subnets_of(self.address, self.subnet_mask_len).len(),
                self.subnet_mask_len >= 1,
                self.subnet_mask_len <= 32,
                shift == (32 - self.subnet_mask_len) as u32,
                out@.len() == i,
                forall|k: int|
                    0 <= k < i ==> out@[k] == subnets_of(self.address, self.subnet_mask_len)[k],
            decreases n_subnets - i,
        {
            out.push(Address(self.address | ((i + 1) << shift)));
            i = i + 1;
        }
        assert(out@ =~= subnets_of(self.address, self.subnet_mask_len));
        out
    }

    /// Every address of the network with its role, in ascending order of offset.
    pub fn addresses(&self) -> (r: Vec<AddressType>)
        ensures
            r@ == addresses_of(self.base(), self.mask_len()),
    {
        proof {
            use_type_invariant(&*self);
            lemma_mask_values();
            lemma_class_range(self.address);
        }
        let net_address = self.address;
        let class = self.class();
        let mut out: Vec<AddressType> = Vec::new();
        out.push(AddressType::Network(Address(net_address), class));
        let subnet_mask = self.subnet_mask();
        let net_mask = match self.net_mask() {
            Some(m) => m,
            None => {
                assert(out@ =~= addresses_of(self.address, self.subnet_mask_len));
                return out;
            },
        };
        assert(net_address as int + (!net_mask) as int <= 0xFFFF_FFFF);
        let num_addresses: i64 = (!net_mask) as i64 - 2 * ((!subnet_mask) as i64);
        let ghost middle_len: int = if num_addresses > 1 {
            num_addresses - 1
        } else {
            0
        };
        let mut i: i64 = 1;
        while i < num_addresses
            invariant
                1 <= i,
                num_addresses > 1 ==> i <= num_addresses,
                num_addresses <= 1 ==> i == 1,
                num_addresses == num_addresses_of(net_mask, subnet_mask),
                net_address as int + (!net_mask) as int <= 0xFFFF_FFFF,
                out@.len() == i,
                out@[0] == AddressType::Network(Address(net_address), class),
                forall|k: int|
                    1 <= k < i ==> out@[k] == member_kind(
                        (net_address + !subnet_mask + k) as u32,
                        subnet_mask,
                    ),
            decreases num_addresses - i,
        {
            let address = net_address + !subnet_mask + (i as u32);
            let kind = if address | subnet_mask == 0xFFFF_FFFFu32 {
                AddressType::SubnetBroadcast(Address(address))
            } else if !address | subnet_mask == 0xFFFF_FFFFu32 {
                AddressType::Subnet(Address(address))
            } else {
                AddressType::Host(Address(address))
            };
            out.push(kind);
            i = i + 1;
        }
        out.push(AddressType::NetworkBroadcast(Address(net_address | !net_mask)));
        proof {
            let spec_seq = addresses_of(self.address, self.subnet_mask_len);
            assert(out@.len() == middle_len + 2);
            assert(spec_seq.len() == middle_len + 2);
            assert forall|k: int| 0 <= k < out@.len() implies out@[k] == spec_seq[k] by {
                if 1 <= k < middle_len + 1 {
                    assert((net_address + !subnet_mask + (k - 1) + 1) == (net_address + !subnet_mask
                        + k));
                }
            }
            assert(out@ =~= spec_seq);
        }
        out
    }
}

/// Enumerating a network twice gives the same sequences both times: the subnets and
/// the classified addresses are functions of the network alone.
pub proof fn lemma_enumerations_repeatable(
    n: Network,
    first_subnets: Seq<Address>,
    second_subnets: Seq<Address>,
    first_addresses: Seq<AddressType>,
    second_addresses: Seq<AddressType>,
)
    requires
        first_subnets == subnets_of(n.base(), n.mask_len()),
        second_subnets == subnets_of(n.base(), n.mask_len()),
        first_addresses == addresses_of(n.base(), n.mask_len()),
        second_addresses == addresses_of(n.base(), n.mask_len()),
    ensures
        first_subnets == second_subnets,
        first_addresses == second_addresses,
{
}

/// The shape of the address enumeration: it opens with the network itself; for
/// classes D and E that is all; otherwise it closes with the network broadcast, and
/// holds `num_addresses - 1` classified addresses in between (none when that is not
/// positive).
pub proof fn lemma_addresses_shape(address: u32, mask_len: u8)
    ensures
        addresses_of(address, mask_len)[0] == AddressType::Network(
            Address(address),
            class_of(address),
        ),
        net_mask_of(address) is None ==> addresses_of(address, mask_len).len() == 1,
        net_mask_of(address) is None <==> (class_of(address) == Class::D || class_of(address)
            == Class::E),
        net_mask_of(address) matches Some(net) ==> {
            let count = num_addresses_of(net, top_bits(mask_len));
            &&& addresses_of(address, mask_len).len() == 2 + if count > 1 {
                count - 1
            } else {
                0
            }
            &&& addresses_of(address, mask_len).last() == AddressType::NetworkBroadcast(
                Address(address | !net),
            )
        },
{
}

} // verus!
