//! Which addresses a callback may be sent to.

use vstd::prelude::*;

use crate::push_error::PushSecurityError;

verus! {

/// An IP address, as the number that its bytes spell.
#[derive(Clone, Copy, Debug, PartialEq, Eq, Structural)]
pub enum IpAddr {
    V4(u32),
    V6(u128),
}

/// The size of an IPv4 block with 4 fixed bits.
pub const V4_4: u32 = 0x1000_0000;

/// The size of an IPv4 block with 8 fixed bits.
pub const V4_8: u32 = 0x100_0000;

/// The size of an IPv4 block with 10 fixed bits.
pub const V4_10: u32 = 0x40_0000;

/// The size of an IPv4 block with 12 fixed bits.
pub const V4_12: u32 = 0x10_0000;

/// The size of an IPv4 block with 15 fixed bits.
pub const V4_15: u32 = 0x2_0000;

/// The size of an IPv4 block with 16 fixed bits.
pub const V4_16: u32 = 0x1_0000;

/// The size of an IPv4 block with 24 fixed bits.
pub const V4_24: u32 = 0x100;

/// The size of an IPv6 block with 3 fixed bits.
pub const V6_3: u128 = 0x2000_0000_0000_0000_0000_0000_0000_0000;

/// The size of an IPv6 block with 16 fixed bits.
pub const V6_16: u128 = 0x1_0000_0000_0000_0000_0000_0000_0000;

/// The size of an IPv6 block with 20 fixed bits.
pub const V6_20: u128 = 0x1000_0000_0000_0000_0000_0000_0000;

/// The size of an IPv6 block with 23 fixed bits.
pub const V6_23: u128 = 0x200_0000_0000_0000_0000_0000_0000;

/// The size of an IPv6 block with 32 fixed bits.
pub const V6_32: u128 = 0x1_0000_0000_0000_0000_0000_0000;

/// The size of an IPv6 block with 48 fixed bits.
pub const V6_48: u128 = 0x1_0000_0000_0000_0000_0000;

/// The number of a dotted IPv4 address.
pub open spec fn dotted(a: u8, b: u8, c: u8, d: u8) -> int {
    a * 0x100_0000 + b * 0x1_0000 + c * 0x100 + d
}

/// Whether an IPv4 address lies in the block of some size that holds a dotted address.
pub open spec fn v4_block(ip: u32, a: u8, b: u8, c: u8, d: u8, size: u32) -> bool {
    ip as int / size as int == dotted(a, b, c, d) / size as int
}

/// Whether an IPv4 address may be reached: it lies in no special-purpose block.
pub open spec fn public_v4(ip: u32) -> bool {
    &&& !v4_block(ip, 0, 0, 0, 0, V4_8)
    &&& !v4_block(ip, 10, 0, 0, 0, V4_8)
    &&& !v4_block(ip, 100, 64, 0, 0, V4_10)
    &&& !v4_block(ip, 127, 0, 0, 0, V4_8)
    &&& !v4_block(ip, 169, 254, 0, 0, V4_16)
    &&& !v4_block(ip, 172, 16, 0, 0, V4_12)
    &&& !v4_block(ip, 192, 0, 0, 0, V4_24)
    &&& !v4_block(ip, 192, 0, 2, 0, V4_24)
    &&& !v4_block(ip, 192, 31, 196, 0, V4_24)
    &&& !v4_block(ip, 192, 52, 193, 0, V4_24)
    &&& !v4_block(ip, 192, 88, 99, 0, V4_24)
    &&& !v4_block(ip, 192, 168, 0, 0, V4_16)
    &&& !v4_block(ip, 192, 175, 48, 0, V4_24)
    &&& !v4_block(ip, 198, 18, 0, 0, V4_15)
    &&& !v4_block(ip, 198, 51, 100, 0, V4_24)
    &&& !v4_block(ip, 203, 0, 113, 0, V4_24)
    &&& !v4_block(ip, 224, 0, 0, 0, V4_4)
    &&& !v4_block(ip, 240, 0, 0, 0, V4_4)
}

/// Whether an IPv6 address lies in the block of some size that holds another.
pub open spec fn v6_block(ip: u128, base: u128, size: u128) -> bool {
    ip / size == base / size
}

/// Whether a native IPv6 address may be reached: it is global unicast, and neither a
/// protocol assignment, documentation, benchmarking nor 6to4.
pub open spec fn public_v6(ip: u128) -> bool {
    &&& v6_block(ip, 0x2000_0000_0000_0000_0000_0000_0000_0000, V6_3)
    &&& !v6_block(ip, 0x2001_0000_0000_0000_0000_0000_0000_0000, V6_23)
    &&& !v6_block(ip, 0x2001_0002_0000_0000_0000_0000_0000_0000, V6_48)
    &&& !v6_block(ip, 0x2001_0db8_0000_0000_0000_0000_0000_0000, V6_32)
    &&& !v6_block(ip, 0x2002_0000_0000_0000_0000_0000_0000_0000, V6_16)
    &&& !v6_block(ip, 0x3fff_0000_0000_0000_0000_0000_0000_0000, V6_20)
}

/// The IPv4 address that an IPv6 address carries, where it is a mapped one.
pub open spec fn mapped_v4(ip: u128) -> Option<u32> {
    if ip / 0x1_0000_0000 == 0xffff {
        Some((ip % 0x1_0000_0000) as u32)
    } else {
        None
    }
}

/// Whether an address is safe as an Internet callback destination: IPv4 outside every
/// special-purpose block, or native IPv6. A mapped IPv4 address is neither.
pub open spec fn public_ip(ip: IpAddr) -> bool {
    match ip {
        IpAddr::V4(v) => public_v4(v),
        IpAddr::V6(v) => mapped_v4(v) is None && public_v6(v),
    }
}

/// No mapped IPv4 address is public, whatever it carries, and every public IPv6 address
/// is global unicast.
pub proof fn law_public_ipv6_is_native(ip: u128)
    requires
        public_ip(IpAddr::V6(ip)),
    ensures
        mapped_v4(ip) is None,
        v6_block(ip, 0x2000_0000_0000_0000_0000_0000_0000_0000, V6_3),
{
}

fn v4_in(ip: u32, a: u8, b: u8, c: u8, d: u8, size: u32) -> (r: bool)
    requires
        size > 0,
    ensures
        r == v4_block(ip, a, b, c, d, size),
{
    let base: u32 = a as u32 * 0x100_0000 + b as u32 * 0x1_0000 + c as u32 * 0x100 + d as u32;
    ip / size == base / size
}

fn is_public_v4(ip: u32) -> (r: bool)
    ensures
        r == public_v4(ip),
{
    let blocked: bool = v4_in(ip, 0, 0, 0, 0, V4_8)
        || v4_in(ip, 10, 0, 0, 0, V4_8)
        || v4_in(ip, 100, 64, 0, 0, V4_10)
        || v4_in(ip, 127, 0, 0, 0, V4_8)
        || v4_in(ip, 169, 254, 0, 0, V4_16)
        || v4_in(ip, 172, 16, 0, 0, V4_12)
        || v4_in(ip, 192, 0, 0, 0, V4_24)
        || v4_in(ip, 192, 0, 2, 0, V4_24)
        || v4_in(ip, 192, 31, 196, 0, V4_24)
        || v4_in(ip, 192, 52, 193, 0, V4_24)
        || v4_in(ip, 192, 88, 99, 0, V4_24)
        || v4_in(ip, 192, 168, 0, 0, V4_16)
        || v4_in(ip, 192, 175, 48, 0, V4_24)
        || v4_in(ip, 198, 18, 0, 0, V4_15)
        || v4_in(ip, 198, 51, 100, 0, V4_24)
        || v4_in(ip, 203, 0, 113, 0, V4_24)
        || v4_in(ip, 224, 0, 0, 0, V4_4)
        || v4_in(ip, 240, 0, 0, 0, V4_4);
    !blocked
}

fn v6_in(ip: u128, base: u128, size: u128) -> (r: bool)
    requires
        size > 0,
    ensures
        r == v6_block(ip, base, size),
{
    ip / size == base / size
}

fn is_public_v6(ip: u128) -> (r: bool)
    ensures
        r == public_v6(ip),
{
    if !v6_in(ip, 0x2000_0000_0000_0000_0000_0000_0000_0000, V6_3) {
        return false;
    }
    let blocked: bool = v6_in(ip, 0x2001_0000_0000_0000_0000_0000_0000_0000, V6_23)
        || v6_in(ip, 0x2001_0002_0000_0000_0000_0000_0000_0000, V6_48)
        || v6_in(ip, 0x2001_0db8_0000_0000_0000_0000_0000_0000, V6_32)
        || v6_in(ip, 0x2002_0000_0000_0000_0000_0000_0000_0000, V6_16)
        || v6_in(ip, 0x3fff_0000_0000_0000_0000_0000_0000_0000, V6_20);
    !blocked
}

fn is_mapped(ip: u128) -> (r: bool)
    ensures
        r == mapped_v4(ip) is Some,
{
    ip / 0x1_0000_0000 == 0xffff
}

/// Whether an address is safe as an Internet callback destination. The allow side is
/// narrow: IPv4 outside every special-purpose block, or native IPv6 global unicast. A
/// mapped IPv4 address is excluded whatever it carries.
pub fn is_public_callback_ip(ip: IpAddr) -> (r: bool)
    ensures
        r == public_ip(ip),
{
    match ip {
        IpAddr::V4(v) => is_public_v4(v),
        IpAddr::V6(v) => !is_mapped(v) && is_public_v6(v),
    }
}

/// Whether an address is the machine's own.
pub open spec fn loopback(ip: IpAddr) -> bool {
    match ip {
        IpAddr::V4(v) => v / 0x100_0000 == 127,
        IpAddr::V6(v) => v == 1,
    }
}

/// Whether an address is the machine's own.
pub fn is_loopback(ip: IpAddr) -> (r: bool)
    ensures
        r == loopback(ip),
{
    match ip {
        IpAddr::V4(v) => v / 0x100_0000 == 127,
        IpAddr::V6(v) => v == 1,
    }
}

/// The addresses of a list, each once, in the order in which they first came.
pub open spec fn distinct(answers: Seq<IpAddr>) -> Seq<IpAddr>
    decreases answers.len(),
{
    if answers.len() == 0 {
        Seq::empty()
    } else {
        let before = distinct(answers.drop_last());
        let last = answers.last();
        if before.contains(last) {
            before
        } else {
            before.push(last)
        }
    }
}

/// Whether the answers to a lookup may be used: some, not too many, and every one
/// public.
pub open spec fn safe_answers(answers: Seq<IpAddr>, max_answers: usize) -> bool {
    &&& 0 < answers.len() <= max_answers
    &&& forall|i: int| 0 <= i < answers.len() ==> public_ip(#[trigger] answers[i])
}

fn holds_address(list: &Vec<IpAddr>, ip: IpAddr) -> (r: bool)
    ensures
        r == list@.contains(ip),
{
    let mut i: usize = 0;
    while i < list.len()
        invariant
            i <= list@.len(),
            forall|j: int| 0 <= j < i ==> list@[j] != ip,
        decreases list@.len() - i,
    {
        if list[i] == ip {
            assert(list@[i as int] == ip);
            return true;
        }
        i += 1;
    }
    false
}

fn all_public(answers: &[IpAddr]) -> (r: bool)
    ensures
        r == (forall|i: int| 0 <= i < answers@.len() ==> public_ip(#[trigger] answers@[i])),
{
    let mut i: usize = 0;
    while i < answers.len()
        invariant
            i <= answers@.len(),
            forall|j: int| 0 <= j < i ==> public_ip(#[trigger] answers@[j]),
        decreases answers@.len() - i,
    {
        if !is_public_callback_ip(answers[i]) {
            return false;
        }
        i += 1;
    }
    true
}

/// Judges a fresh snapshot of answers. One unsafe answer rejects all.
pub fn validate_dns_answers(answers: &[IpAddr], max_answers: usize) -> (r: Result<Vec<IpAddr>, PushSecurityError>)
    ensures
        match r {
            Ok(list) => safe_answers(answers@, max_answers) && list@ == distinct(answers@),
            Err(e) => e == PushSecurityError::UnsafeDns && !safe_answers(answers@, max_answers),
        },
{
    if answers.len() == 0 || answers.len() > max_answers || !all_public(answers) {
        return Err(PushSecurityError::UnsafeDns);
    }
    let mut unique: Vec<IpAddr> = Vec::new();
    let mut i: usize = 0;
    assert(answers@.subrange(0, 0) =~= Seq::<IpAddr>::empty());
    while i < answers.len()
        invariant
            i <= answers@.len(),
            unique@ == distinct(answers@.subrange(0, i as int)),
        decreases answers@.len() - i,
    {
        let address = answers[i];
        proof {
            let step = answers@.subrange(0, i + 1);
            assert(step.drop_last() =~= answers@.subrange(0, i as int));
            assert(step.last() == answers@[i as int]);
        }
        if !holds_address(&unique, address) {
            unique.push(address);
        }
        i += 1;
    }
    assert(answers@.subrange(0, i as int) =~= answers@);
    Ok(unique)
}

/// A list of validated answers is not empty, holds nothing twice, holds public
/// addresses only, and holds every answer.
pub proof fn law_validated_answers_are_public_and_distinct(answers: Seq<IpAddr>, max_answers: usize)
    requires
        safe_answers(answers, max_answers),
    ensures
        0 < distinct(answers).len() <= answers.len(),
        distinct(answers).no_duplicates(),
        distinct(answers)[0] == answers[0],
        forall|i: int| 0 <= i < distinct(answers).len() ==> public_ip(#[trigger] distinct(answers)[i]),
        forall|i: int| 0 <= i < answers.len() ==> distinct(answers).contains(#[trigger] answers[i]),
    decreases answers.len(),
{
    let rest = answers.drop_last();
    let last = answers.last();
    assert(public_ip(answers[answers.len() - 1]));
    if rest.len() == 0 {
        assert(distinct(rest) =~= Seq::<IpAddr>::empty());
        assert(distinct(answers) =~= seq![last]);
        assert(distinct(answers)[0] == last);
    } else {
        assert forall|i: int| 0 <= i < rest.len() implies public_ip(#[trigger] rest[i]) by {
            assert(rest[i] == answers[i]);
        }
        law_validated_answers_are_public_and_distinct(rest, max_answers);
        let before = distinct(rest);
        let now = distinct(answers);
        assert(rest[0] == answers[0]);
        assert forall|i: int| 0 <= i < now.len() implies public_ip(#[trigger] now[i]) by {
            if i < before.len() {
                assert(now[i] == before[i]);
            }
        }
        assert forall|i: int| 0 <= i < answers.len() implies now.contains(#[trigger] answers[i]) by {
            if i < rest.len() {
                assert(rest[i] == answers[i]);
                assert(before.contains(rest[i]));
                let k = choose|k: int| 0 <= k < before.len() && before[k] == rest[i];
                assert(now[k] == answers[i]);
            } else if !before.contains(last) {
                assert(now[now.len() - 1] == last);
            }
        }
    }
}

/// Two dotted addresses lie in one block exactly where the bits that the block fixes are the
/// same: whole numbers for eight, sixteen and twenty-four of them, and the upper part of a number
/// for the others.
proof fn lemma_blocks_fix_their_bits(a: u8, b: u8, c: u8, d: u8)
    ensures
        dotted(a, b, c, d) / 0x100_0000 == a,
        dotted(a, b, c, d) / 0x1_0000 == a * 0x100 + b,
        dotted(a, b, c, d) / 0x100 == a * 0x1_0000 + b * 0x100 + c,
        dotted(a, b, c, d) / 0x1000_0000 == a / 16,
        dotted(a, b, c, d) / 0x40_0000 == a * 4 + b / 64,
        dotted(a, b, c, d) / 0x10_0000 == a * 16 + b / 16,
        dotted(a, b, c, d) / 0x2_0000 == a * 128 + b / 2,
{
}

/// An IPv4 address is public exactly where it is none of these: this network, private use, shared
/// space, the machine itself, link-local, protocol assignments, documentation, the anycast and
/// relay blocks of 192, benchmarking, multicast and everything from 224 up.
pub proof fn law_special_purpose_ipv4_is_not_public(a: u8, b: u8, c: u8, d: u8, ip: u32)
    requires
        ip == a * 0x100_0000 + b * 0x1_0000 + c * 0x100 + d,
    ensures
        public_ip(IpAddr::V4(ip)) <==> {
            &&& a != 0 && a != 10 && a != 127 && a < 224
            &&& !(a == 100 && 64 <= b <= 127)
            &&& !(a == 169 && b == 254)
            &&& !(a == 172 && 16 <= b <= 31)
            &&& !(a == 192 && b == 0 && (c == 0 || c == 2))
            &&& !(a == 192 && b == 31 && c == 196)
            &&& !(a == 192 && b == 52 && c == 193)
            &&& !(a == 192 && b == 88 && c == 99)
            &&& !(a == 192 && b == 168)
            &&& !(a == 192 && b == 175 && c == 48)
            &&& !(a == 198 && (b == 18 || b == 19))
            &&& !(a == 198 && b == 51 && c == 100)
            &&& !(a == 203 && b == 0 && c == 113)
        },
{
    lemma_blocks_fix_their_bits(a, b, c, d);
    assert(v4_block(ip, 0, 0, 0, 0, V4_8) <==> a == 0);
    assert(v4_block(ip, 10, 0, 0, 0, V4_8) <==> a == 10);
    assert(v4_block(ip, 100, 64, 0, 0, V4_10) <==> a == 100 && 64 <= b <= 127);
    assert(v4_block(ip, 127, 0, 0, 0, V4_8) <==> a == 127);
    assert(v4_block(ip, 169, 254, 0, 0, V4_16) <==> a == 169 && b == 254);
    assert(v4_block(ip, 172, 16, 0, 0, V4_12) <==> a == 172 && 16 <= b <= 31);
    assert(v4_block(ip, 192, 0, 0, 0, V4_24) <==> a == 192 && b == 0 && c == 0);
    assert(v4_block(ip, 192, 0, 2, 0, V4_24) <==> a == 192 && b == 0 && c == 2);
    assert(v4_block(ip, 192, 31, 196, 0, V4_24) <==> a == 192 && b == 31 && c == 196);
    assert(v4_block(ip, 192, 52, 193, 0, V4_24) <==> a == 192 && b == 52 && c == 193);
    assert(v4_block(ip, 192, 88, 99, 0, V4_24) <==> a == 192 && b == 88 && c == 99);
    assert(v4_block(ip, 192, 168, 0, 0, V4_16) <==> a == 192 && b == 168);
    assert(v4_block(ip, 192, 175, 48, 0, V4_24) <==> a == 192 && b == 175 && c == 48);
    assert(v4_block(ip, 198, 18, 0, 0, V4_15) <==> a == 198 && (b == 18 || b == 19));
    assert(v4_block(ip, 198, 51, 100, 0, V4_24) <==> a == 198 && b == 51 && c == 100);
    assert(v4_block(ip, 203, 0, 113, 0, V4_24) <==> a == 203 && b == 0 && c == 113);
    assert(v4_block(ip, 224, 0, 0, 0, V4_4) <==> a / 16 == 14);
    assert(v4_block(ip, 240, 0, 0, 0, V4_4) <==> a / 16 == 15);
}

/// A native IPv6 address is public exactly where its first group lies from 2000 to 3fff, outside
/// of 6to4, of the protocol assignments and the documentation under 2001, and of the
/// documentation under 3fff.
pub proof fn law_special_purpose_ipv6_is_not_public(first: u16, second: u16, rest: u128, ip: u128)
    requires
        rest < 0x1_0000_0000_0000_0000_0000_0000u128,
        ip == first * 0x1_0000_0000_0000_0000_0000_0000_0000 + second * 0x1_0000_0000_0000_0000_0000_0000 + rest,
    ensures
        public_v6(ip) <==> {
            &&& 0x2000 <= first <= 0x3fff
            &&& first != 0x2002
            &&& !(first == 0x2001 && (second < 0x200 || second == 0x0db8))
            &&& !(first == 0x3fff && second < 0x1000)
        },
{
    assert(ip / 0x1_0000_0000_0000_0000_0000_0000_0000 == first);
    assert(ip / 0x1_0000_0000_0000_0000_0000_0000 == first * 0x1_0000 + second);
    assert(ip / 0x2000_0000_0000_0000_0000_0000_0000_0000 == first / 0x2000);
    assert(ip / 0x200_0000_0000_0000_0000_0000_0000 == first * 0x80 + second / 0x200);
    assert(ip / 0x1000_0000_0000_0000_0000_0000_0000 == first * 0x10 + second / 0x1000);
    assert(v6_block(ip, 0x2001_0002_0000_0000_0000_0000_0000_0000, V6_48) ==> v6_block(
        ip,
        0x2001_0000_0000_0000_0000_0000_0000_0000,
        V6_23,
    ));
}

/// An IPv6 address carries an IPv4 one exactly where eighty zeros and sixteen ones stand before
/// it.
pub proof fn law_mapped_addresses_carry_their_ipv4(v4: u32, ip: u128)
    ensures
        ip == 0xffff_0000_0000 + v4 ==> mapped_v4(ip) == Some(v4) && !public_ip(IpAddr::V6(ip)),
        mapped_v4(ip) is Some ==> ip == 0xffff_0000_0000 + mapped_v4(ip)->0,
{
}

/// The machine's own addresses are all of 127 and the one of IPv6, and none of them is public.
pub proof fn law_loopback_is_not_public(ip: IpAddr)
    ensures
        loopback(ip) ==> !public_ip(ip),
        ip matches IpAddr::V4(v) ==> (loopback(ip) <==> 0x7f00_0000 <= v <= 0x7fff_ffff),
        ip matches IpAddr::V6(v) ==> (loopback(ip) <==> v == 1),
{
    if ip is V4 && loopback(ip) {
        assert(v4_block(ip->V4_0, 127, 0, 0, 0, V4_8));
    }
}

} // verus!
