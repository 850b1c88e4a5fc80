//! Socket addresses, as the kernel writes them.

use vstd::endian::{endianness, Endian};
use vstd::prelude::*;

verus! {

/// The number that bytes stand for in network order, the highest byte first.
pub open spec fn be(bytes: Seq<u8>) -> nat
    decreases bytes.len(),
{
    if bytes.len() == 0 {
        0
    } else {
        be(bytes.drop_last()) * 256 + bytes.last() as nat
    }
}

/// The number that bytes stand for with the lowest byte first.
pub open spec fn le(bytes: Seq<u8>) -> nat
    decreases bytes.len(),
{
    if bytes.len() == 0 {
        0
    } else {
        bytes[0] as nat + 256 * le(bytes.drop_first())
    }
}

/// The number that bytes stand for in the order of the machine.
pub open spec fn native(bytes: Seq<u8>) -> nat {
    match endianness() {
        Endian::Little => le(bytes),
        Endian::Big => be(bytes),
    }
}

/// An IPv4 or IPv6 address with a port.
#[derive(Clone, Copy, Debug, PartialEq, Eq, Structural)]
pub enum SocketAddr {
    /// The address and the port, each as a number.
    V4 { ipv4: u32, port: u16 },
    /// The address, the port, the flow label and the scope, each as a number.
    V6 { ipv6: u128, port: u16, flowinfo: u32, scope_id: u32 },
}

/// The family number of IPv4 addresses.
pub const AF_INET: u16 = 2;

/// The family number of IPv6 addresses.
pub const AF_INET6: u16 = 10;

/// The size of a socket address of any family.
pub open spec fn storage_size() -> nat {
    128
}

/// The size of an IPv4 socket address.
pub open spec fn sockaddr_in_size() -> nat {
    16
}

/// The storage of a socket address that holds `name`: zeros fill the rest.
pub open spec fn storage_of(name: Seq<u8>) -> Seq<u8> {
    name + Seq::new((storage_size() - name.len()) as nat, |i: int| 0u8)
}

/// The address in the storage of a socket address, if it is of a family that has
/// ports. Address and port are in network order, the rest in that of the machine.
pub open spec fn address_in(storage: Seq<u8>) -> Option<SocketAddr> {
    let family = native(storage.subrange(0, 2));
    let port = be(storage.subrange(2, 4)) as u16;
    if family == AF_INET {
        Some(SocketAddr::V4 { ipv4: be(storage.subrange(4, 8)) as u32, port })
    } else if family == AF_INET6 {
        Some(
            SocketAddr::V6 {
                ipv6: be(storage.subrange(8, 24)) as u128,
                port,
                flowinfo: native(storage.subrange(4, 8)) as u32,
                scope_id: native(storage.subrange(24, 28)) as u32,
            },
        )
    } else {
        None
    }
}

/// 256 to the given power.
pub open spec fn pow256(n: nat) -> nat
    decreases n,
{
    if n == 0 {
        1
    } else {
        pow256((n - 1) as nat) * 256
    }
}

/// The powers that bound two, four and sixteen bytes.
pub proof fn lemma_pow256_values()
    ensures
        pow256(0) == 1,
        pow256(2) == 0x1_0000,
        pow256(4) == 0x1_0000_0000,
        pow256(16) == 0x1_0000_0000_0000_0000_0000_0000_0000_0000,
{
    reveal_with_fuel(pow256, 17);
}

proof fn lemma_pow256_monotone(a: nat, b: nat)
    requires
        a <= b,
    ensures
        pow256(a) <= pow256(b),
        0 < pow256(a),
    decreases b,
{
    if a < b {
        lemma_pow256_monotone(a, (b - 1) as nat);
    } else if a > 0 {
        lemma_pow256_monotone((a - 1) as nat, (a - 1) as nat);
    }
}

proof fn lemma_be_bound(bytes: Seq<u8>)
    ensures
        be(bytes) < pow256(bytes.len()),
    decreases bytes.len(),
{
    if bytes.len() > 0 {
        lemma_be_bound(bytes.drop_last());
    }
}

proof fn lemma_le_bound(bytes: Seq<u8>)
    ensures
        le(bytes) < pow256(bytes.len()),
    decreases bytes.len(),
{
    if bytes.len() > 0 {
        lemma_le_bound(bytes.drop_first());
    }
}

/// Reads up to sixteen bytes in network order.
pub fn read_be(bytes: &[u8], from: usize, to: usize) -> (r: u128)
    requires
        from <= to <= bytes@.len(),
        to - from <= 16,
    ensures
        r == be(bytes@.subrange(from as int, to as int)),
        r < pow256((to - from) as nat),
{
    let mut value: u128 = 0;
    let mut i: usize = from;
    assert(bytes@.subrange(from as int, from as int) =~= Seq::<u8>::empty());
    while i < to
        invariant
            from <= i <= to <= bytes@.len(),
            to - from <= 16,
            value == be(bytes@.subrange(from as int, i as int)),
        decreases to - i,
    {
        proof {
            let longer = bytes@.subrange(from as int, i + 1);
            assert(longer.drop_last() =~= bytes@.subrange(from as int, i as int));
            lemma_be_bound(longer);
            lemma_pow256_monotone(longer.len(), 16);
            lemma_pow256_values();
        }
        value = value * 256 + bytes[i] as u128;
        i = i + 1;
    }
    proof {
        lemma_be_bound(bytes@.subrange(from as int, to as int));
    }
    value
}

/// Reads up to four bytes with the lowest first.
pub fn read_le(bytes: &[u8], from: usize, to: usize) -> (r: u32)
    requires
        from <= to <= bytes@.len(),
        to - from <= 4,
    ensures
        r == le(bytes@.subrange(from as int, to as int)),
{
    let mut value: u32 = 0;
    let mut i: usize = to;
    assert(bytes@.subrange(to as int, to as int) =~= Seq::<u8>::empty());
    while i > from
        invariant
            from <= i <= to <= bytes@.len(),
            to - from <= 4,
            value == le(bytes@.subrange(i as int, to as int)),
        decreases i,
    {
        proof {
            let longer = bytes@.subrange(i - 1, to as int);
            assert(longer.drop_first() =~= bytes@.subrange(i as int, to as int));
            lemma_le_bound(longer);
            lemma_pow256_monotone(longer.len(), 4);
            lemma_pow256_values();
        }
        i = i - 1;
        value = bytes[i] as u32 + 256 * value;
    }
    value
}

/// `u16::from_ne_bytes`: the number that two bytes in memory stand for in the order of the
/// machine, which is `endianness()` in specifications, one and the same for every call.
#[verifier::external_body]
fn from_ne_bytes16(bytes: [u8; 2]) -> (r: u16)
    ensures
        r == native(bytes@),
{
    u16::from_ne_bytes(bytes)
}

/// `u32::from_ne_bytes`: the number that four bytes in memory stand for in the order of the
/// machine, which is `endianness()` in specifications, one and the same for every call.
#[verifier::external_body]
fn from_ne_bytes32(bytes: [u8; 4]) -> (r: u32)
    ensures
        r == native(bytes@),
{
    u32::from_ne_bytes(bytes)
}

/// Reads two bytes in the order of the machine.
pub fn read_native16(bytes: &[u8], from: usize) -> (r: u16)
    requires
        from + 2 <= bytes@.len(),
    ensures
        r == native(bytes@.subrange(from as int, from + 2)),
{
    let two: [u8; 2] = [bytes[from], bytes[from + 1]];
    assert(two@ =~= bytes@.subrange(from as int, from + 2));
    from_ne_bytes16(two)
}

/// Reads four bytes in the order of the machine.
pub fn read_native32(bytes: &[u8], from: usize) -> (r: u32)
    requires
        from + 4 <= bytes@.len(),
    ensures
        r == native(bytes@.subrange(from as int, from + 4)),
{
    let four: [u8; 4] = [bytes[from], bytes[from + 1], bytes[from + 2], bytes[from + 3]];
    assert(four@ =~= bytes@.subrange(from as int, from + 4));
    from_ne_bytes32(four)
}

/// Reads the storage of a socket address.
pub fn decode(storage: &[u8]) -> (r: Option<SocketAddr>)
    requires
        storage@.len() == storage_size(),
    ensures
        r == address_in(storage@),
{
    proof {
        lemma_pow256_values();
    }
    let family: u16 = read_native16(storage, 0);
    let port: u16 = read_be(storage, 2, 4) as u16;
    if family == AF_INET {
        let ipv4: u32 = read_be(storage, 4, 8) as u32;
        Some(SocketAddr::V4 { ipv4, port })
    } else if family == AF_INET6 {
        let ipv6: u128 = read_be(storage, 8, 24);
        let flowinfo: u32 = read_native32(storage, 4);
        let scope_id: u32 = read_native32(storage, 24);
        Some(SocketAddr::V6 { ipv6, port, flowinfo, scope_id })
    } else {
        None
    }
}

/// The size of `socket2::SockAddrStorage`, as `SockAddrStorage::size_of` returns it:
/// 128 bytes, whatever the storage holds.
#[verifier::external_body]
pub(crate) fn sockaddr_storage_size() -> (r: usize)
    ensures
        r == storage_size(),
{
    socket2::SockAddrStorage::zeroed().size_of() as usize
}

/// The size of `libc::sockaddr_in`: two bytes of family, two of port, four of
/// address and eight of padding.
#[verifier::external_body]
pub(crate) fn sockaddr_in_bytes() -> (r: usize)
    ensures
        r == sockaddr_in_size(),
{
    std::mem::size_of::<libc::sockaddr_in>()
}

/// Reads the address in a name that the kernel wrote.
pub fn decode_name(name: &[u8]) -> (r: Option<SocketAddr>)
    requires
        name@.len() <= storage_size(),
    ensures
        r == address_in(storage_of(name@)),
{
    let size: usize = sockaddr_storage_size();
    let mut storage: Vec<u8> = Vec::new();
    let mut i: usize = 0;
    while i < size
        invariant
            size == storage_size(),
            name@.len() <= storage_size(),
            i <= size,
            storage@ == storage_of(name@).take(i as int),
        decreases size - i,
    {
        if i < name.len() {
            storage.push(name[i]);
        } else {
            storage.push(0);
        }
        i = i + 1;
        assert(storage@ =~= storage_of(name@).take(i as int));
    }
    assert(storage@ =~= storage_of(name@));
    decode(storage.as_slice())
}

} // verus!
