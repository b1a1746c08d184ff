use vstd::prelude::*;
use vstd::string::StringExecFns;

use crate::ipv4::{
    class_of, num_hosts_of, num_subnets_of, Address, AddressType, Class, Network,
};

verus! {

/// The character of a decimal digit.
pub open spec fn digit_char(d: nat) -> char {
    if d == 0 {
        '0'
    } else if d == 1 {
        '1'
    } else if d == 2 {
        '2'
    } else if d == 3 {
        '3'
    } else if d == 4 {
        '4'
    } else if d == 5 {
        '5'
    } else if d == 6 {
        '6'
    } else if d == 7 {
        '7'
    } else if d == 8 {
        '8'
    } else {
        '9'
    }
}

/// `n` in decimal, without leading zeros.
pub open spec fn decimal(n: nat) -> Seq<char>
    decreases n,
{
    if n < 10 {
        seq![digit_char(n)]
    } else {
        decimal(n / 10) + seq![digit_char(n % 10)]
    }
}

/// The octet of `address` that starts `shift` bits up.
pub open spec fn octet(address: u32, shift: u32) -> nat {
    ((address >> shift) & 0xFFu32) as nat
}

/// `address` in dotted-decimal form, `a.b.c.d`.
pub open spec fn dotted(address: u32) -> Seq<char> {
    decimal(octet(address, 24)) + seq!['.'] + decimal(octet(address, 16)) + seq!['.'] + decimal(
        octet(address, 8),
    ) + seq!['.'] + decimal(octet(address, 0))
}

/// `address` as 32 binary digits, most significant first.
pub open spec fn binary(address: u32) -> Seq<char> {
    Seq::new(32, |i: int| if (address >> ((31 - i) as u32)) & 1u32 == 1u32 { '1' } else { '0' })
}

/// `s` right-aligned in a field of `width` characters, padded with spaces.
pub open spec fn right_aligned(s: Seq<char>, width: nat) -> Seq<char> {
    if s.len() >= width {
        s
    } else {
        Seq::new((width - s.len()) as nat, |i: int| ' ') + s
    }
}

/// The combined form of an address: its binary digits, then its dotted-decimal form
/// right-aligned in 15 characters.
pub open spec fn combined(address: u32) -> Seq<char> {
    binary(address) + " - "@ + right_aligned(dotted(address), 15)
}

/// The name of a network class.
pub open spec fn class_label(c: Class) -> Seq<char> {
    match c {
        Class::A => "class A network"@,
        Class::B => "class B network"@,
        Class::C => "class C network"@,
        Class::D => "class D network"@,
        Class::E => "class E network"@,
    }
}

/// The name of the role an address plays.
pub open spec fn role_label(t: AddressType) -> Seq<char> {
    match t {
        AddressType::Network(_, c) => class_label(c),
        AddressType::Subnet(_) => "subnet"@,
        AddressType::Host(_) => "host"@,
        AddressType::SubnetBroadcast(_) => "subnet broadcast"@,
        AddressType::NetworkBroadcast(_) => "network broadcast"@,
    }
}

/// The summary of a network: its class, its number of subnets and its hosts per
/// subnet, one per line; `N/A` where the class has no subnetting.
pub open spec fn summary_of(address: u32, mask_len: u8) -> Seq<char> {
    let subnets = num_subnets_of(address, mask_len);
    class_label(class_of(address)) + "\nSubnets:      "@ + match subnets {
        Some(n) => decimal(n as nat),
        None => "N/A"@,
    } + "\nHosts/subnet: "@ + match subnets {
        Some(_) => decimal(num_hosts_of(address, mask_len) as nat),
        None => "N/A"@,
    }
}

fn digit_str(d: u32) -> (r: &'static str)
    requires
        d < 10,
    ensures
        r@ == seq![digit_char(d as nat)],
{
    proof {
        reveal_strlit("0");
        reveal_strlit("1");
        reveal_strlit("2");
        reveal_strlit("3");
        reveal_strlit("4");
        reveal_strlit("5");
        reveal_strlit("6");
        reveal_strlit("7");
        reveal_strlit("8");
        reveal_strlit("9");
    }
    match d {
        0 => "0",
        1 => "1",
        2 => "2",
        3 => "3",
        4 => "4",
        5 => "5",
        6 => "6",
        7 => "7",
        8 => "8",
        _ => "9",
    }
}

/// Appends `n` in decimal to `out`.
fn append_decimal(out: &mut String, n: u32)
    ensures
        final(out)@ == old(out)@ + decimal(n as nat),
    decreases n,
{
    if n >= 10 {
        append_decimal(out, n / 10);
    }
    out.append(digit_str(n % 10));
    proof {
        if n >= 10 {
            assert(final(out)@ =~= old(out)@ + decimal(n as nat));
        } else {
            assert(final(out)@ =~= old(out)@ + decimal(n as nat));
        }
    }
}

/// Appends the octet of `address` that starts `shift` bits up.
fn append_octet(out: &mut String, address: u32, shift: u32)
    requires
        shift < 32,
    ensures
        final(out)@ == old(out)@ + decimal(octet(address, shift)),
{
    append_decimal(out, (address >> shift) & 0xFF);
}

/// The number of decimal digits of a number below 1000.
fn decimal_len(n: u32) -> (r: usize)
    requires
        n < 1000,
    ensures
        r == decimal(n as nat).len(),
        1 <= r <= 3,
        n < 100 ==> r <= 2,
        n < 10 ==> r == 1,
    decreases n,
{
    if n >= 10 {
        decimal_len(n / 10) + 1
    } else {
        1
    }
}

impl Address {
    /// The address in dotted-decimal form.
    pub fn to_string(&self) -> (r: String)
        ensures
            r@ == dotted(self.0),
    {
        proof {
            reveal_strlit(".");
        }
        let mut out = String::new();
        append_octet(&mut out, self.0, 24);
        out.append(".");
        append_octet(&mut out, self.0, 16);
        out.append(".");
        append_octet(&mut out, self.0, 8);
        out.append(".");
        append_octet(&mut out, self.0, 0);
        assert(out@ =~= dotted(self.0));
        out
    }

    /// The address as 32 binary digits.
    pub fn to_binary_string(&self) -> (r: String)
        ensures
            r@ == binary(self.0),
    {
        let mut out = String::new();
        let mut i: u32 = 0;
        while i < 32
            invariant
                i <= 32,
                out@ =~= binary(self.0).take(i as int),
            decreases 32 - i,
        {
            proof {
                reveal_strlit("0");
                reveal_strlit("1");
            }
            let bit = (self.0 >> (31 - i)) & 1;
            assert(binary(self.0)[i as int] == if bit == 1u32 { '1' } else { '0' });
            if bit == 1 {
                out.append("1");
            } else {
                out.append("0");
            }
            assert(out@ =~= binary(self.0).take(i + 1));
            i = i + 1;
        }
        out
    }
    /// The binary digits and the dotted-decimal form side by side, the latter
    /// right-aligned in 15 characters.
    pub fn to_combined_string(&self) -> (r: String)
        ensures
            r@ == combined(self.0),
    {
        let mut out = self.to_binary_string();
        out.append(" - ");
        let a = self.0;
        assert(forall|shift: u32| #[trigger] ((a >> shift) & 0xFFu32) <= 0xFFu32) by (bit_vector);
        let dotted_len = decimal_len((a >> 24u32) & 0xFF) + decimal_len((a >> 16u32) & 0xFF)
            + decimal_len((a >> 8u32) & 0xFF) + decimal_len((a >> 0u32) & 0xFF) + 3;
        let ghost before = out@;
        let mut pad: usize = 0;
        while pad + dotted_len < 15
            invariant
                dotted_len == dotted(self.0).len(),
                out@ =~= before + Seq::new(pad as nat, |i: int| ' '),
                dotted_len < 15 ==> pad + dotted_len <= 15,
                dotted_len >= 15 ==> pad == 0,
            decreases 15 - pad,
        {
            proof {
                reveal_strlit(" ");
            }
            out.append(" ");
            pad = pad + 1;
        }
        let text = self.to_string();
        out.append(text.as_str());
        assert(out@ =~= combined(self.0));
        out
    }
}

impl Class {
    /// The name of the class, as in `class C network`.
    pub fn label(&self) -> (r: String)
        ensures
            r@ == class_label(*self),
    {
        match self {
            Class::A => String::from_str("class A network"),
            Class::B => String::from_str("class B network"),
            Class::C => String::from_str("class C network"),
            Class::D => String::from_str("class D network"),
            Class::E => String::from_str("class E network"),
        }
    }
}

impl AddressType {
    /// The name of the role, as in `subnet broadcast`.
    pub fn to_string(&self) -> (r: String)
        ensures
            r@ == role_label(*self),
    {
        match self {
            AddressType::Network(_, c) => c.label(),
            AddressType::Subnet(_) => String::from_str("subnet"),
            AddressType::Host(_) => String::from_str("host"),
            AddressType::SubnetBroadcast(_) => String::from_str("subnet broadcast"),
            AddressType::NetworkBroadcast(_) => String::from_str("network broadcast"),
        }
    }
}

impl Network {
    /// The summary: class, number of subnets and hosts per subnet, one per line.
    pub fn to_string(&self) -> (r: String)
        ensures
            r@ == summary_of(self.base(), self.mask_len()),
    {
        let mut out = self.class().label();
        out.append("\nSubnets:      ");
        let subnets = self.num_subnets();
        match subnets {
            Some(n) => append_decimal(&mut out, n),
            None => out.append("N/A"),
        }
        out.append("\nHosts/subnet: ");
        match subnets {
            Some(_) => append_decimal(&mut out, self.num_hosts_per_subnet()),
            None => out.append("N/A"),
        }
        assert(out@ =~= summary_of(self.base(), self.mask_len()));
        out
    }
}

} // verus!
