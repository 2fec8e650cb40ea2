//! Packet model and the message types exchanged between a packet source
//! and the embedding network stack.
//!
//! A [`Packet`] owns the raw bytes of one IP datagram.  Construction via
//! [`Packet::parse`] guarantees a syntactically valid IP packet (minimum
//! length for its version, plausible header length).  The header checksum
//! is mutable after construction and is repaired in place with
//! [`Packet::fill_ip_checksum`] before the packet leaves this subsystem.

use vstd::prelude::*;

use crate::MAX_PACKET_SIZE;

verus! {

/// IP version nibble of a raw datagram (high four bits of the first byte).
pub open spec fn ip_version(b: Seq<u8>) -> int
    recommends
        b.len() > 0,
{
    b[0] as int / 16
}

/// Header length in bytes that an IPv4 first byte announces
/// (low nibble counted in 32-bit words).
pub open spec fn ipv4_header_len(b: Seq<u8>) -> int
    recommends
        b.len() > 0,
{
    4 * (b[0] as int % 16)
}

/// A syntactically valid IP datagram: a version this subsystem knows,
/// at least the minimal header for that version, a header that fits in
/// the buffer, and a size the transport buffer can carry.
pub open spec fn valid_ip_packet(b: Seq<u8>) -> bool {
    &&& b.len() > 0
    &&& b.len() <= MAX_PACKET_SIZE
    &&& if ip_version(b) == 4 {
        &&& b.len() >= 20
        &&& ipv4_header_len(b) >= 20
        &&& ipv4_header_len(b) <= b.len()
    } else {
        ip_version(b) == 6 && b.len() >= 40
    }
}

/// Sum of the first `n` big-endian 16-bit words of `b`.
pub open spec fn word_sum(b: Seq<u8>, n: int) -> int
    recommends
        2 * n <= b.len(),
    decreases n,
{
    if n <= 0 {
        0
    } else {
        word_sum(b, n - 1) + 256 * (b[2 * (n - 1)] as int) + (b[2 * (n - 1) + 1] as int)
    }
}

/// One step of end-around carry folding for the Internet checksum.
pub open spec fn fold_carries(s: int) -> int {
    s % 65536 + s / 65536
}

/// The Internet header checksum an IPv4 datagram must carry: the ones'
/// complement of the ones'-complement sum of the header words, computed
/// with the checksum field itself read as zero.
pub open spec fn ipv4_checksum(b: Seq<u8>) -> int
    recommends
        valid_ip_packet(b),
        ip_version(b) == 4,
{
    let z = b.update(10, 0u8).update(11, 0u8);
    0xFFFF - fold_carries(fold_carries(word_sum(z, ipv4_header_len(b) / 2)))
}

/// The datagram carries the header checksum its other header fields
/// require.  IPv6 has no header checksum, so any IPv6 datagram qualifies.
pub open spec fn checksum_ok(b: Seq<u8>) -> bool
    recommends
        valid_ip_packet(b),
{
    ip_version(b) == 4 ==> 256 * (b[10] as int) + (b[11] as int) == ipv4_checksum(b)
}

/// `b` with its header checksum recomputed: the bytes every inbound
/// datagram is turned into before it is delivered to the stack.
pub open spec fn repaired(b: Seq<u8>) -> Seq<u8> {
    if b.len() > 0 && ip_version(b) == 4 {
        let c = ipv4_checksum(b);
        b.update(10, (c / 256) as u8).update(11, (c % 256) as u8)
    } else {
        b
    }
}

/// Why a byte sequence was rejected as a packet.
#[derive(Debug, PartialEq, Eq, Structural, Clone, Copy)]
pub enum PacketError {
    /// Too short for its version, an unsupported version nibble, a header
    /// longer than the buffer, or a buffer larger than the transport carries.
    Malformed,
}

/// One IP datagram, validated on construction.
#[derive(Debug)]
pub struct Packet {
    data: Vec<u8>,
}

impl View for Packet {
    type V = Seq<u8>;

    closed spec fn view(&self) -> Seq<u8> {
        self.data@
    }
}

impl Packet {
    /// The construction invariant: the owned bytes are a valid IP datagram.
    pub open spec fn valid(&self) -> bool {
        valid_ip_packet(self@)
    }

    /// Validate `data` as an IP datagram and take ownership of it.
    /// Succeeds exactly on syntactically valid packets; the bytes are
    /// never altered here.
    pub fn parse(data: Vec<u8>) -> (r: Result<Packet, PacketError>)
        ensures
            match r {
                Ok(p) => p.valid() && p@ == data@ && valid_ip_packet(data@),
                Err(e) => !valid_ip_packet(data@) && e == PacketError::Malformed,
            },
    {
        if data.len() == 0 || data.len() > MAX_PACKET_SIZE {
            return Err(PacketError::Malformed);
        }
        let version = data[0] / 16;
        if version == 4 {
            let header_len: usize = 4 * ((data[0] % 16) as usize);
            if data.len() >= 20 && header_len >= 20 && header_len <= data.len() {
                Ok(Packet { data })
            } else {
                Err(PacketError::Malformed)
            }
        } else if version == 6 {
            if data.len() >= 40 {
                Ok(Packet { data })
            } else {
                Err(PacketError::Malformed)
            }
        } else {
            Err(PacketError::Malformed)
        }
    }

    /// Length of the datagram in bytes.
    pub fn len(&self) -> (n: usize)
        ensures
            n == self@.len(),
    {
        self.data.len()
    }

    /// Borrow the raw bytes.
    pub fn as_bytes(&self) -> (r: &Vec<u8>)
        ensures
            r@ == self@,
    {
        &self.data
    }

    /// Give up the raw bytes (the packet leaves this subsystem).
    pub fn into_inner(self) -> (r: Vec<u8>)
        ensures
            r@ == self@,
    {
        self.data
    }

    /// Recompute the IPv4 header checksum in place.  The capture path may
    /// deliver datagrams with stale or zeroed checksums; after this call
    /// the datagram carries the checksum its header fields require.  An
    /// IPv6 datagram is left untouched.
    pub fn fill_ip_checksum(&mut self)
        requires
            old(self).valid(),
        ensures
            final(self).valid(),
            final(self)@ == repaired(old(self)@),
            checksum_ok(final(self)@),
    {
        proof {
            lemma_repaired_valid(self.data@);
            lemma_repaired_checksum_ok(self.data@);
        }
        let version = self.data[0] / 16;
        if version != 4 {
            return ;
        }
        let ghost orig: Seq<u8> = self.data@;
        let header_len: usize = 4 * ((self.data[0] % 16) as usize);
        self.data[10] = 0;
        self.data[11] = 0;
        let ghost z: Seq<u8> = self.data@;
        proof {
            assert(z == orig.update(10, 0u8).update(11, 0u8));
        }
        let words: usize = header_len / 2;
        let mut sum: u32 = 0;
        let mut i: usize = 0;
        while i < words
            invariant
                i <= words,
                words <= 30,
                2 * words <= self.data@.len(),
                self.data@ == z,
                sum == word_sum(z, i as int),
                sum <= 65535 * i,
            decreases words - i,
        {
            let hi = self.data[2 * i];
            let lo = self.data[2 * i + 1];
            sum = sum + 256 * (hi as u32) + (lo as u32);
            i = i + 1;
        }
        proof {
            lemma_fold_bound(sum as int, words as int);
        }
        let folded1: u32 = sum % 65536 + sum / 65536;
        let folded: u32 = folded1 % 65536 + folded1 / 65536;
        let c: u32 = 0xFFFF - folded;
        self.data[10] = (c / 256) as u8;
        self.data[11] = (c % 256) as u8;
        proof {
            assert(c == ipv4_checksum(orig));
            assert(self.data@ =~= repaired(orig));
        }
    }
}

/// Folding a word sum of at most 30 words twice lands in one 16-bit word.
proof fn lemma_fold_bound(s: int, n: int)
    requires
        0 <= s,
        n <= 30,
        s <= 65535 * n,
    ensures
        0 <= fold_carries(fold_carries(s)) <= 65535,
{
    let f1 = fold_carries(s);
    assert(s / 65536 <= 29) by {
        assert(s <= 65535 * 30);
    };
    let f2 = fold_carries(f1);
    if f1 >= 65536 {
        assert(s % 65536 == s - 65536 * (s / 65536));
        assert(f1 <= 65535 + 29);
        assert(f1 % 65536 == f1 - 65536);
        assert(f2 <= 65535);
    } else {
        assert(f2 == f1);
    }
}

/// Repairing the checksum never changes length, version or header length,
/// so a valid datagram stays valid.
proof fn lemma_repaired_valid(b: Seq<u8>)
    requires
        valid_ip_packet(b),
    ensures
        valid_ip_packet(repaired(b)),
        repaired(b).len() == b.len(),
        b.len() > 0 ==> repaired(b)[0] == b[0],
{
}

/// After repair the datagram carries exactly the checksum its header
/// fields require: recomputing it over the repaired bytes gives the value
/// now stored in the checksum field.
proof fn lemma_repaired_checksum_ok(b: Seq<u8>)
    requires
        valid_ip_packet(b),
    ensures
        checksum_ok(repaired(b)),
{
    if ip_version(b) == 4 {
        let c = ipv4_checksum(b);
        let r = repaired(b);
        assert(r.update(10, 0u8).update(11, 0u8) =~= b.update(10, 0u8).update(11, 0u8));
        assert(r[0] == b[0]);
        let words = ipv4_header_len(b) / 2;
        lemma_word_sum_bound(b.update(10, 0u8).update(11, 0u8), words);
        lemma_fold_bound(word_sum(b.update(10, 0u8).update(11, 0u8), words), words);
        assert(0 <= c <= 65535);
        assert(256 * (r[10] as int) + (r[11] as int) == c);
    }
}

/// A word sum over `n` words is at most `n` times the largest word.
proof fn lemma_word_sum_bound(b: Seq<u8>, n: int)
    requires
        0 <= n,
        2 * n <= b.len(),
    ensures
        0 <= word_sum(b, n) <= 65535 * n,
    decreases n,
{
    if n > 0 {
        lemma_word_sum_bound(b, n - 1);
    }
}

/// Provenance attached to a captured packet: which process it was
/// attributed to, when the platform can tell.
#[derive(Debug)]
pub enum TunnelInfo {
    Macos { process_name: Option<String> },
}

/// The unit sent from a packet source to the network stack.
pub enum NetworkEvent {
    ReceivePacket { packet: Packet, tunnel_info: TunnelInfo },
}

/// The unit sent from the network stack to a packet source.  An open
/// tagged union so connection-level commands can be added later.
pub enum NetworkCommand {
    SendPacket(Packet),
}

} // verus!
