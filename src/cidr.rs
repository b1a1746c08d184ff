use vstd::prelude::*;
use vstd::string::StringSliceAdditionalSpecFns;

use crate::errors::Error;
use crate::ipv4::{network_from_parts, Network};

verus! {

/// `s` cut at every occurrence of `sep`; always at least one piece.
pub open spec fn split_on(s: Seq<u8>, sep: u8) -> Seq<Seq<u8>>
    decreases s.len(),
{
    if s.len() == 0 {
        seq![Seq::<u8>::empty()]
    } else {
        let head = split_on(s.drop_last(), sep);
        if s.last() == sep {
            head.push(Seq::<u8>::empty())
        } else {
            head.update(head.len() - 1, head.last().push(s.last()))
        }
    }
}

/// An ASCII decimal digit.
pub open spec fn is_digit(b: u8) -> bool {
    0x30 <= b <= 0x39
}

/// The number that a string of decimal digits denotes.
pub open spec fn digits_value(d: Seq<u8>) -> int
    decreases d.len(),
{
    if d.len() == 0 {
        0
    } else {
        digits_value(d.drop_last()) * 10 + (d.last() - 0x30)
    }
}

/// The digits of an unsigned number: a leading `+` is dropped when something follows it.
pub open spec fn unsigned_digits(s: Seq<u8>) -> Seq<u8> {
    if s.len() > 1 && s[0] == 0x2B {
        s.drop_first()
    } else {
        s
    }
}

/// An 8-bit unsigned number written in decimal: an optional `+`, then one or more
/// digits (leading zeros allowed) whose value is at most 255.
pub open spec fn parse_u8(s: Seq<u8>) -> Option<u8> {
    let d = unsigned_digits(s);
    if d.len() > 0 && (forall|i: int| 0 <= i < d.len() ==> is_digit(#[trigger] d[i]))
        && digits_value(d) <= 255 {
        Some(digits_value(d) as u8)
    } else {
        None
    }
}

/// The five numbers of CIDR text `A.B.C.D/len`: the text before the first `/` holds
/// exactly four octets separated by `.`, the text between the first `/` and the next
/// (or the end) holds the mask length, and every one of them is an 8-bit number.
pub open spec fn cidr_fields(s: Seq<u8>) -> Option<(u8, u8, u8, u8, u8)> {
    let parts = split_on(s, 0x2F);
    let octets = split_on(parts[0], 0x2E);
    if parts.len() >= 2 && octets.len() == 4 && parse_u8(octets[0]) is Some && parse_u8(
        octets[1],
    ) is Some && parse_u8(octets[2]) is Some && parse_u8(octets[3]) is Some && parse_u8(
        parts[1],
    ) is Some {
        Some(
            (
                parse_u8(octets[0])->0,
                parse_u8(octets[1])->0,
                parse_u8(octets[2])->0,
                parse_u8(octets[3])->0,
                parse_u8(parts[1])->0,
            ),
        )
    } else {
        None
    }
}

proof fn lemma_split_nonempty(s: Seq<u8>, sep: u8)
    ensures
        split_on(s, sep).len() >= 1,
    decreases s.len(),
{
    if s.len() > 0 {
        lemma_split_nonempty(s.drop_last(), sep);
    }
}

proof fn lemma_digits_monotone(d: Seq<u8>, k: int)
    requires
        0 <= k <= d.len(),
        forall|i: int| 0 <= i < d.len() ==> is_digit(#[trigger] d[i]),
    ensures
        digits_value(d) >= digits_value(d.take(k)),
        digits_value(d) >= 0,
    decreases d.len(),
{
    if d.len() == 0 {
        assert(d.take(k) =~= d);
    } else if k == d.len() {
        assert(d.take(k) =~= d);
        lemma_digits_monotone(d.drop_last(), 0);
    } else {
        lemma_digits_monotone(d.drop_last(), k);
        assert(d.drop_last().take(k) =~= d.take(k));
    }
}

/// Cuts `s` at every occurrence of `sep`.
fn split_bytes(s: &[u8], sep: u8) -> (r: Vec<Vec<u8>>)
    ensures
        r@.len() == split_on(s@, sep).len(),
        forall|j: int| 0 <= j < r@.len() ==> (#[trigger] r@[j])@ == split_on(s@, sep)[j],
{
    let mut parts: Vec<Vec<u8>> = Vec::new();
    let mut current: Vec<u8> = Vec::new();
    let mut i: usize = 0;
    proof {
        assert(s@.take(0) =~= Seq::<u8>::empty());
    }
    while i < s.len()
        invariant
            i <= s@.len(),
            parts@.len() + 1 == split_on(s@.take(i as int), sep).len(),
            forall|j: int|
                0 <= j < parts@.len() ==> (#[trigger] parts@[j])@ == split_on(
                    s@.take(i as int),
                    sep,
                )[j],
            current@ == split_on(s@.take(i as int), sep).last(),
        decreases s@.len() - i,
    {
        proof {
            assert(s@.take(i + 1).drop_last() =~= s@.take(i as int));
            lemma_split_nonempty(s@.take(i as int), sep);
        }
        if s[i] == sep {
            parts.push(current);
            current = Vec::new();
        } else {
            current.push(s[i]);
        }
        i = i + 1;
    }
    proof {
        assert(s@.take(s@.len() as int) =~= s@);
    }
    parts.push(current);
    parts
}

/// Reads an 8-bit unsigned decimal number.
fn parse_u8_bytes(s: &Vec<u8>) -> (r: Option<u8>)
    ensures
        r == parse_u8(s@),
{
    let len = s.len();
    let start: usize = if len > 1 && s[0] == 0x2B {
        1
    } else {
        0
    };
    let ghost d = unsigned_digits(s@);
    proof {
        assert(d =~= s@.subrange(start as int, len as int));
    }
    if start == len {
        return None;
    }
    let mut value: u32 = 0;
    let mut j: usize = start;
    proof {
        assert(d.take(0) =~= Seq::<u8>::empty());
    }
    while j < len
        invariant
            start <= j <= len,
            len == s@.len(),
            d =~= s@.subrange(start as int, len as int),
            d == unsigned_digits(s@),
            value == digits_value(d.take(j - start)),
            value <= 255,
            forall|k: int| 0 <= k < j - start ==> is_digit(#[trigger] d[k]),
        decreases len - j,
    {
        let b = s[j];
        proof {
            assert(d[j - start] == b);
        }
        if b < 0x30 || b > 0x39 {
            assert(!is_digit(d[j - start]));
            return None;
        }
        proof {
            assert(d.take(j - start + 1).drop_last() =~= d.take(j - start));
        }
        value = value * 10 + (b - 0x30) as u32;
        if value > 255 {
            proof {
                if forall|i: int| 0 <= i < d.len() ==> is_digit(#[trigger] d[i]) {
                    lemma_digits_monotone(d, j - start + 1);
                }
            }
            return None;
        }
        j = j + 1;
    }
    proof {
        assert(d.take(len - start) =~= d);
    }
    Some(value as u8)
}

/// Parses CIDR text such as `192.168.147.0/28` into a network. Malformed text gives
/// `InvalidAddress`; well-formed text gives what `Network::from_dotted_decimal_parts`
/// gives for its five numbers.
pub fn parse_cidr(text: &str) -> (r: Result<Network, Error>)
    ensures
        match cidr_fields(text.spec_bytes()) {
            None => r == Err::<Network, Error>(Error::InvalidAddress),
            Some(f) => network_from_parts(f.0, f.1, f.2, f.3, f.4, r),
        },
{
    let bytes = text.as_bytes();
    let parts = split_bytes(bytes, 0x2F);
    proof {
        lemma_split_nonempty(text.spec_bytes(), 0x2F);
    }
    if parts.len() < 2 {
        return Err(Error::InvalidAddress);
    }
    let octets = split_bytes(parts[0].as_slice(), 0x2E);
    if octets.len() != 4 {
        return Err(Error::InvalidAddress);
    }
    let o1 = match parse_u8_bytes(&octets[0]) {
        Some(v) => v,
        None => return Err(Error::InvalidAddress),
    };
    let o2 = match parse_u8_bytes(&octets[1]) {
        Some(v) => v,
        None => return Err(Error::InvalidAddress),
    };
    let o3 = match parse_u8_bytes(&octets[2]) {
        Some(v) => v,
        None => return Err(Error::InvalidAddress),
    };
    let o4 = match parse_u8_bytes(&octets[3]) {
        Some(v) => v,
        None => return Err(Error::InvalidAddress),
    };
    let mask = match parse_u8_bytes(&parts[1]) {
        Some(v) => v,
        None => return Err(Error::InvalidAddress),
    };
    Network::from_dotted_decimal_parts(o1, o2, o3, o4, mask)
}

} // verus!
