//! Minimal IPv4 + TCP-SYN packet crafting for the TCP traceroute, and the
//! RFC 1071 Internet checksum.
use vstd::prelude::*;
use crate::bytes::{be16, be32, u16_to_be, u32_to_be};

verus! {

/// The largest input whose 16-bit word sum is sure to fit in 32 bits.
pub const CHECKSUM_MAX_LEN: usize = 131074;

/// Sum of the first `k` big-endian 16-bit words of `d`.
pub open spec fn word_sum(d: Seq<u8>, k: nat) -> nat
    decreases k,
{
    if k == 0 {
        0
    } else {
        word_sum(d, (k - 1) as nat) + d[2 * k - 2] as nat * 256 + d[2 * k - 1] as nat
    }
}

/// Sum of all 16-bit words of `d`, an odd trailing byte padded with zero.
pub open spec fn data_sum(d: Seq<u8>) -> nat {
    word_sum(d, d.len() / 2) + if d.len() % 2 == 1 { d[d.len() - 1] as nat * 256 } else { 0 }
}

/// End-around-carry folding of a sum to 16 bits.
pub open spec fn fold16(s: nat) -> nat
    decreases s,
{
    if s < 65536 {
        s
    } else {
        proof {
            lemma_fold_step_decreases(s);
        }
        fold16(s % 65536 + s / 65536)
    }
}

pub proof fn lemma_fold_step_decreases(s: nat)
    requires
        s >= 65536,
    ensures
        s % 65536 + s / 65536 < s,
{
    assert(s == 65536 * (s / 65536) + s % 65536) by (nonlinear_arith)
        requires s >= 65536;
    assert(s / 65536 >= 1) by (nonlinear_arith)
        requires s >= 65536;
}

/// The Internet checksum: the one's complement of the folded word sum.
pub open spec fn spec_checksum(d: Seq<u8>) -> u16 {
    (65535 - fold16(data_sum(d))) as u16
}

proof fn lemma_word_sum_bound(d: Seq<u8>, k: nat)
    ensures
        word_sum(d, k) <= k * 65535,
    decreases k,
{
    if k > 0 {
        lemma_word_sum_bound(d, (k - 1) as nat);
        assert(d[2 * k - 2] as nat * 256 + d[2 * k - 1] as nat <= 65535);
        assert((k - 1) * 65535 + 65535 == k * 65535) by (nonlinear_arith);
    }
}

proof fn lemma_fold_range(s: nat)
    ensures
        fold16(s) <= 65535,
        fold16(s) % 65535 == s % 65535,
        fold16(s) == 0 <==> s == 0,
    decreases s,
{
    if s >= 65536 {
        lemma_fold_step_decreases(s);
        let t = s % 65536 + s / 65536;
        lemma_fold_range(t);
        assert(s == 65536 * (s / 65536) + s % 65536) by (nonlinear_arith)
            requires s >= 65536;
        assert((65536 * (s / 65536) + s % 65536) % 65535 == (s / 65536 + s % 65536) % 65535) by (nonlinear_arith)
            requires s >= 65536;
        assert(t > 0);
    }
}

/// RFC 1071 checksum over `data`.
pub fn checksum(data: &[u8]) -> (c: u16)
    requires
        data@.len() <= CHECKSUM_MAX_LEN,
    ensures
        c == spec_checksum(data@),
{
    let n = data.len();
    let mut sum: u32 = 0;
    let mut i: usize = 0;
    while i + 1 < n
        invariant
            n == data@.len(),
            n <= CHECKSUM_MAX_LEN,
            i % 2 == 0,
            i <= n,
            sum == word_sum(data@, (i / 2) as nat),
        decreases n - i,
    {
        proof {
            lemma_word_sum_bound(data@, (i / 2) as nat);
            assert((i / 2) as nat * 65535 <= 65536 * 65535) by (nonlinear_arith)
                requires i / 2 <= 65536;
        }
        sum = sum + (data[i] as u32) * 256 + data[i + 1] as u32;
        assert((i + 2) / 2 == i / 2 + 1);
        i = i + 2;
    }
    assert(i / 2 == n / 2);
    if i < n {
        proof {
            lemma_word_sum_bound(data@, (i / 2) as nat);
            assert((i / 2) as nat * 65535 <= 65536 * 65535) by (nonlinear_arith)
                requires i / 2 <= 65536;
        }
        sum = sum + (data[i] as u32) * 256;
    }
    assert(sum == data_sum(data@));
    while (sum >> 16u32) != 0
        invariant
            fold16(sum as nat) == fold16(data_sum(data@)),
        decreases sum,
    {
        let ghost s = sum;
        assert(sum >> 16u32 == sum / 65536) by (bit_vector);
        assert(sum & 0xffffu32 == sum % 65536) by (bit_vector);
        proof {
            lemma_fold_step_decreases(s as nat);
        }
        sum = (sum & 0xffff) + (sum >> 16u32);
    }
    assert(sum >> 16u32 == sum / 65536) by (bit_vector);
    proof {
        lemma_fold_range(sum as nat);
    }
    65535u16 - (sum as u16)
}

/// Inserting a block's checksum into a zeroed, word-aligned checksum field
/// makes the whole block re-checksum to zero.
pub proof fn checksum_of_checksummed_is_zero(d: Seq<u8>, p: int)
    requires
        d.len() % 2 == 0,
        0 <= p,
        p % 2 == 0,
        p + 1 < d.len(),
        d[p] == 0,
        d[p + 1] == 0,
    ensures
        spec_checksum(
            d.update(p, (spec_checksum(d) >> 8u16) as u8).update(p + 1, spec_checksum(d) as u8),
        ) == 0,
{
    let c = spec_checksum(d);
    let d2 = d.update(p, (c >> 8u16) as u8).update(p + 1, c as u8);
    assert(((c >> 8u16) as u8) as nat * 256 + (c as u8) as nat == c as nat) by (bit_vector);
    lemma_word_sum_update(d, d2, (d.len() / 2) as nat, p, c as nat);
    let s = data_sum(d);
    lemma_fold_range(s);
    let f = fold16(s);
    assert(data_sum(d2) == s + c);
    assert(c as nat == 65535 - f);
    lemma_fold_range((s + c) as nat);
    assert((s + c) % 65535 == 0) by (nonlinear_arith)
        requires
            f % 65535 == s % 65535,
            c == 65535 - f,
            f <= 65535,
    ;
    assert(fold16((s + c) as nat) % 65535 == 0);
    assert(fold16((s + c) as nat) == 65535);
}

proof fn lemma_word_sum_update(d: Seq<u8>, d2: Seq<u8>, k: nat, p: int, c: nat)
    requires
        d2.len() == d.len(),
        2 * k <= d.len(),
        p % 2 == 0,
        0 <= p,
        p + 1 < d.len(),
        d[p] == 0,
        d[p + 1] == 0,
        d2[p] as nat * 256 + d2[p + 1] as nat == c,
        forall|j: int| 0 <= j < d.len() && j != p && j != p + 1 ==> d2[j] == d[j],
    ensures
        word_sum(d2, k) == word_sum(d, k) + if p + 1 < 2 * k { c } else { 0 },
    decreases k,
{
    if k > 0 {
        lemma_word_sum_update(d, d2, (k - 1) as nat, p, c);
        if p == 2 * k - 2 {
        } else {
            assert(d2[2 * k - 2] == d[2 * k - 2]);
            assert(d2[2 * k - 1] == d[2 * k - 1]);
        }
    }
}

/// A TCP SYN probe to a host. Holding the 4-tuple constant across TTLs keeps
/// ECMP load balancers on one path (the Paris-traceroute trick).
#[derive(Clone, Copy, Debug)]
pub struct TcpSyn {
    pub src_ip: u32,
    pub dst_ip: u32,
    pub src_port: u16,
    pub dst_port: u16,
    pub seq: u32,
    pub ttl: u8,
    pub ip_id: u16,
}

/// The IPv4 header of the probe with a zero checksum field: version 4, IHL 5,
/// total length 40, the IP id, Don't Fragment, the TTL, protocol TCP and the
/// two addresses.
pub open spec fn ip_header_unsummed(s: TcpSyn) -> Seq<u8> {
    seq![0x45u8, 0u8] + be16(40) + be16(s.ip_id) + be16(0x4000) + seq![s.ttl, 6u8, 0u8, 0u8]
        + be32(s.src_ip) + be32(s.dst_ip)
}

/// A 20-byte block with its checksum written big-endian at `p`.
pub open spec fn with_checksum(d: Seq<u8>, p: int) -> Seq<u8> {
    d.update(p, (spec_checksum(d) >> 8u16) as u8).update(p + 1, spec_checksum(d) as u8)
}

/// The TCP header of the SYN with a zero checksum field: ports, sequence
/// number, zero ack, data offset 5, the SYN flag and a 65535 window.
pub open spec fn tcp_header_unsummed(s: TcpSyn) -> Seq<u8> {
    be16(s.src_port) + be16(s.dst_port) + be32(s.seq) + seq![0u8, 0u8, 0u8, 0u8]
        + seq![0x50u8, 0x02u8] + be16(0xffff) + seq![0u8, 0u8, 0u8, 0u8]
}

/// The TCP pseudo-header (addresses, protocol, TCP length 20) followed by a
/// TCP header.
pub open spec fn tcp_pseudo(s: TcpSyn, tcp: Seq<u8>) -> Seq<u8> {
    be32(s.src_ip) + be32(s.dst_ip) + seq![0u8, 6u8] + be16(20) + tcp
}

/// The 40-byte IPv4 + TCP SYN packet, both checksums filled in.
pub open spec fn spec_syn_packet(s: TcpSyn) -> Seq<u8> {
    let tcp = tcp_header_unsummed(s);
    let tcp_ck = spec_checksum(tcp_pseudo(s, tcp));
    with_checksum(ip_header_unsummed(s), 10) + tcp.update(16, (tcp_ck >> 8u16) as u8).update(
        17,
        tcp_ck as u8,
    )
}

proof fn lemma_constant_fields()
    ensures
        be16(40) == seq![0u8, 40u8],
        be16(0x4000) == seq![0x40u8, 0u8],
        be16(0xffff) == seq![0xffu8, 0xffu8],
        be16(20) == seq![0u8, 20u8],
{
    assert((40u16 >> 8u16) as u8 == 0u8 && 40u16 as u8 == 40u8 && (0x4000u16 >> 8u16) as u8 == 0x40u8
        && 0x4000u16 as u8 == 0u8 && (0xffffu16 >> 8u16) as u8 == 0xffu8 && 0xffffu16 as u8 == 0xffu8
        && (20u16 >> 8u16) as u8 == 0u8 && 20u16 as u8 == 20u8) by (bit_vector);
    assert(be16(40) =~= seq![0u8, 40u8]);
    assert(be16(0x4000) =~= seq![0x40u8, 0u8]);
    assert(be16(0xffff) =~= seq![0xffu8, 0xffu8]);
    assert(be16(20) =~= seq![0u8, 20u8]);
}

impl TcpSyn {
    /// Build the IPv4 header + TCP SYN segment (40 bytes, no Ethernet framing).
    pub fn build(&self) -> (pkt: [u8; 40])
        ensures
            pkt@ == spec_syn_packet(*self),
    {
        proof {
            lemma_constant_fields();
        }
        let id = u16_to_be(self.ip_id);
        let src = u32_to_be(self.src_ip);
        let dst = u32_to_be(self.dst_ip);
        let mut ip: [u8; 20] = [
            0x45, 0, 0, 40, id[0], id[1], 0x40, 0, self.ttl, 6, 0, 0, src[0], src[1], src[2],
            src[3], dst[0], dst[1], dst[2], dst[3],
        ];
        assert(ip@ =~= ip_header_unsummed(*self));
        let ip_ck = checksum(ip.as_slice());
        ip[10] = (ip_ck >> 8u16) as u8;
        ip[11] = ip_ck as u8;
        assert(ip@ =~= with_checksum(ip_header_unsummed(*self), 10));

        let sp = u16_to_be(self.src_port);
        let dp = u16_to_be(self.dst_port);
        let sq = u32_to_be(self.seq);
        let mut tcp: [u8; 20] = [
            sp[0], sp[1], dp[0], dp[1], sq[0], sq[1], sq[2], sq[3], 0, 0, 0, 0, 0x50, 0x02, 0xff,
            0xff, 0, 0, 0, 0,
        ];
        assert(tcp@ =~= tcp_header_unsummed(*self));
        let pseudo: [u8; 32] = [
            src[0], src[1], src[2], src[3], dst[0], dst[1], dst[2], dst[3], 0, 6, 0, 20, tcp[0],
            tcp[1], tcp[2], tcp[3], tcp[4], tcp[5], tcp[6], tcp[7], tcp[8], tcp[9], tcp[10],
            tcp[11], tcp[12], tcp[13], tcp[14], tcp[15], tcp[16], tcp[17], tcp[18], tcp[19],
        ];
        assert(pseudo@ =~= tcp_pseudo(*self, tcp_header_unsummed(*self)));
        let tcp_ck = checksum(pseudo.as_slice());
        tcp[16] = (tcp_ck >> 8u16) as u8;
        tcp[17] = tcp_ck as u8;

        let pkt: [u8; 40] = [
            ip[0], ip[1], ip[2], ip[3], ip[4], ip[5], ip[6], ip[7], ip[8], ip[9], ip[10], ip[11],
            ip[12], ip[13], ip[14], ip[15], ip[16], ip[17], ip[18], ip[19], tcp[0], tcp[1],
            tcp[2], tcp[3], tcp[4], tcp[5], tcp[6], tcp[7], tcp[8], tcp[9], tcp[10], tcp[11],
            tcp[12], tcp[13], tcp[14], tcp[15], tcp[16], tcp[17], tcp[18], tcp[19],
        ];
        assert(pkt@ =~= spec_syn_packet(*self));
        pkt
    }
}

/// The IPv4 header of every built SYN verifies: it re-checksums to zero.
pub proof fn syn_ip_header_verifies(s: TcpSyn)
    ensures
        spec_checksum(spec_syn_packet(s).subrange(0, 20)) == 0,
{
    let h = ip_header_unsummed(s);
    assert(spec_syn_packet(s).subrange(0, 20) =~= with_checksum(h, 10));
    checksum_of_checksummed_is_zero(h, 10);
}

/// The TCP segment of every built SYN verifies: the RFC 793 pseudo-header
/// (source and destination address, a zero byte, protocol 6, TCP length 20)
/// followed by the packet's 20 TCP bytes checksums to zero.
pub proof fn syn_tcp_segment_verifies(s: TcpSyn)
    ensures
        spec_checksum(
            be32(s.src_ip) + be32(s.dst_ip) + seq![0u8, 6u8, 0u8, 20u8] + spec_syn_packet(s).subrange(20, 40),
        ) == 0,
{
    lemma_constant_fields();
    let tcp = tcp_header_unsummed(s);
    let pseudo = tcp_pseudo(s, tcp);
    assert(pseudo.len() == 32);
    assert(pseudo[28] == 0 && pseudo[29] == 0);
    checksum_of_checksummed_is_zero(pseudo, 28);
    let c = spec_checksum(pseudo);
    let whole = be32(s.src_ip) + be32(s.dst_ip) + seq![0u8, 6u8, 0u8, 20u8] + spec_syn_packet(s).subrange(20, 40);
    assert(whole =~= pseudo.update(28, (c >> 8u16) as u8).update(29, c as u8));
}

/// An Ethernet II frame: destination MAC, source MAC, the IPv4 ethertype, and
/// the payload.
pub open spec fn spec_ethernet_frame(dst_mac: Seq<u8>, src_mac: Seq<u8>, payload: Seq<u8>) -> Seq<u8> {
    dst_mac + src_mac + seq![0x08u8, 0x00u8] + payload
}

/// Prepend an Ethernet II header (dst MAC, src MAC, IPv4 ethertype) to `payload`.
pub fn ethernet_frame(dst_mac: [u8; 6], src_mac: [u8; 6], payload: &[u8]) -> (frame: Vec<u8>)
    ensures
        frame@ == spec_ethernet_frame(dst_mac@, src_mac@, payload@),
{
    let mut frame: Vec<u8> = Vec::new();
    let mut i: usize = 0;
    while i < 6
        invariant
            i <= 6,
            frame@ == dst_mac@.take(i as int),
        decreases 6 - i,
    {
        frame.push(dst_mac[i]);
        assert(dst_mac@.take(i + 1) =~= dst_mac@.take(i as int).push(dst_mac@[i as int]));
        i = i + 1;
    }
    let mut j: usize = 0;
    while j < 6
        invariant
            j <= 6,
            frame@ == dst_mac@ + src_mac@.take(j as int),
        decreases 6 - j,
    {
        frame.push(src_mac[j]);
        assert(src_mac@.take(j + 1) =~= src_mac@.take(j as int).push(src_mac@[j as int]));
        j = j + 1;
    }
    frame.push(0x08);
    frame.push(0x00);
    let mut k: usize = 0;
    while k < payload.len()
        invariant
            k <= payload@.len(),
            frame@ == dst_mac@ + src_mac@ + seq![0x08u8, 0x00u8] + payload@.take(k as int),
        decreases payload@.len() - k,
    {
        frame.push(payload[k]);
        assert(payload@.take(k + 1) =~= payload@.take(k as int).push(payload@[k as int]));
        k = k + 1;
    }
    assert(dst_mac@.take(6) =~= dst_mac@);
    assert(src_mac@.take(6) =~= src_mac@);
    assert(payload@.take(payload@.len() as int) =~= payload@);
    frame
}

} // verus!
