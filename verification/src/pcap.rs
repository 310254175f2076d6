//! Capture files with made-up packets, the same for the same settings.

use vstd::prelude::*;

use crate::bytes;
use crate::bytes::{push_be16, ByteOrder};
use crate::text;
use crate::text::push_decimal;

verus! {

/// The number at the head of a capture file with timestamps in microseconds.
pub const PCAP_MAGIC: u32 = 0xa1b2_c3d4;

pub const PCAP_VERSION_MAJOR: u16 = 2;

pub const PCAP_VERSION_MINOR: u16 = 4;

/// The number for Ethernet.
pub const LINKTYPE_ETHERNET: u32 = 1;

/// How many bytes a packet has before its own data: Ethernet, IPv4 and UDP headers.
pub const FRAME_HEADERS: usize = 42;

/// When the first packet came, in seconds.
pub const BASE_SECOND: u32 = 1_700_000_000;

/// The head of a capture file.
pub open spec fn pcap_header(snaplen: u32) -> Seq<u8> {
    bytes::le32(PCAP_MAGIC) + bytes::le16(PCAP_VERSION_MAJOR) + bytes::le16(PCAP_VERSION_MINOR)
        + bytes::le32(0) + bytes::le32(0) + bytes::le32(snaplen) + bytes::le32(LINKTYPE_ETHERNET)
}

/// A packet in a capture file: when it came, its length twice, and its bytes.
pub open spec fn pcap_packet(ts_sec: u32, ts_usec: u32, payload: Seq<u8>) -> Seq<u8> {
    bytes::le32(ts_sec) + bytes::le32(ts_usec) + bytes::le32(payload.len() as u32) + bytes::le32(
        payload.len() as u32,
    ) + payload
}

/// Appends `v`, least significant byte first.
pub fn write_u32_le(w: &mut Vec<u8>, v: u32)
    ensures
        final(w)@ == old(w)@ + bytes::le32(v),
{
    w.push((v % 0x100) as u8);
    w.push((v / 0x100 % 0x100) as u8);
    w.push((v / 0x1_0000 % 0x100) as u8);
    w.push((v / 0x100_0000) as u8);
    assert(w@ =~= old(w)@ + bytes::le32(v));
}

/// Appends `v`, least significant byte first.
pub fn write_u16_le(w: &mut Vec<u8>, v: u16)
    ensures
        final(w)@ == old(w)@ + bytes::le16(v),
{
    w.push((v % 0x100) as u8);
    w.push((v / 0x100) as u8);
    assert(w@ =~= old(w)@ + bytes::le16(v));
}

/// Appends a signed number in two's complement, least significant byte first.
pub fn write_i32_le(w: &mut Vec<u8>, v: i32)
    ensures
        final(w)@ == old(w)@ + bytes::le32(v as u32),
{
    write_u32_le(w, v as u32);
}

/// Appends the head of a capture file.
pub fn write_pcap_header(w: &mut Vec<u8>, snaplen: u32)
    ensures
        final(w)@ == old(w)@ + pcap_header(snaplen),
{
    write_u32_le(w, PCAP_MAGIC);
    write_u16_le(w, PCAP_VERSION_MAJOR);
    write_u16_le(w, PCAP_VERSION_MINOR);
    write_i32_le(w, 0);
    write_u32_le(w, 0);
    write_u32_le(w, snaplen);
    write_u32_le(w, LINKTYPE_ETHERNET);
    assert(w@ =~= old(w)@ + pcap_header(snaplen));
}

/// Appends a packet.
pub fn write_packet(w: &mut Vec<u8>, ts_sec: u32, ts_usec: u32, payload: &[u8])
    requires
        payload@.len() <= u32::MAX,
    ensures
        final(w)@ == old(w)@ + pcap_packet(ts_sec, ts_usec, payload@),
{
    let len: u32 = payload.len() as u32;
    write_u32_le(w, ts_sec);
    write_u32_le(w, ts_usec);
    write_u32_le(w, len);
    write_u32_le(w, len);
    w.extend_from_slice(payload);
    assert(w@ =~= old(w)@ + pcap_packet(ts_sec, ts_usec, payload@));
}

/// The next state of the generator of noise.
pub open spec fn shuffle(s: u64) -> u64 {
    let a = s ^ (s << 13);
    let b = a ^ (a >> 7);
    b ^ (b << 17)
}

/// The state of the generator of noise for packet `index` after `n` bytes.
pub open spec fn noise_state(index: u64, n: nat) -> u64
    decreases n,
{
    if n == 0 {
        ((index * 0x9E37_79B9_7F4A_7C15 + 1) % 0x1_0000_0000_0000_0000) as u64
    } else {
        shuffle(noise_state(index, (n - 1) as nat))
    }
}

/// The data of packet `index`.
pub open spec fn noise(index: u64, len: nat) -> Seq<u8> {
    Seq::new(len, |i: int| (noise_state(index, (i + 1) as nat) % 0x100) as u8)
}

/// The Ethernet addresses of packet `index`: of the one it goes to, then of the one it
/// comes from. Both go round with the index.
pub open spec fn macs(index: u64) -> Seq<u8> {
    seq![2u8, 0, 0, 0, 0, (index % 254 + 1) as u8, 2, 0, 0, 0, 0, (index % 254 + 2) as u8]
}

/// The IPv4 addresses of packet `index`: it comes from 10.0.0.x, where x goes round from
/// 1 to 254, and goes to 10.0.0.y, where y goes round from 255 to 2.
pub open spec fn addresses(index: u64) -> Seq<u8> {
    seq![10u8, 0, 0, (index % 254 + 1) as u8, 10, 0, 0, (255 - index % 254) as u8]
}

/// The headers of packet `index`, which is a UDP packet.
pub open spec fn frame_headers(index: u64, size: int) -> Seq<u8> {
    let low = (index % 0x1_0000) as u16;
    (macs(index) + seq![8u8, 0]) + (seq![0x45u8, 0] + bytes::be16(((size - 14) % 0x1_0000) as u16)
        + bytes::be16(low) + seq![0u8, 0, 64, 17, 0, 0] + addresses(index)) + (bytes::be16(
        ((low + 40000) % 0x1_0000) as u16,
    ) + bytes::be16(9999) + bytes::be16(((size - 34) % 0x1_0000) as u16) + seq![0u8, 0])
}

/// Packet `index`, of `size` bytes.
pub open spec fn frame(index: u64, size: int) -> Seq<u8> {
    frame_headers(index, size) + noise(index, (size - FRAME_HEADERS) as nat)
}

fn push_all(out: &mut Vec<u8>, b: &[u8])
    ensures
        final(out)@ == old(out)@ + b@,
{
    out.extend_from_slice(b);
    assert(out@ =~= old(out)@ + b@);
}

fn push_headers(index: u64, size: usize, out: &mut Vec<u8>)
    requires
        size >= FRAME_HEADERS,
        old(out)@.len() == 0,
    ensures
        final(out)@ == frame_headers(index, size as int),
        final(out)@.len() == FRAME_HEADERS,
{
    let low: u16 = (index % 0x1_0000) as u16;
    let turn: u8 = (index % 254) as u8;
    push_all(out, &[2, 0, 0, 0, 0, turn + 1, 2, 0, 0, 0, 0, turn + 2, 8, 0]);
    push_all(out, &[0x45, 0]);
    push_be16(out, ((size - 14) % 0x1_0000) as u16);
    push_be16(out, low);
    push_all(out, &[0, 0, 64, 17, 0, 0, 10, 0, 0, turn + 1, 10, 0, 0, 255 - turn]);
    push_be16(out, low.wrapping_add(40000));
    push_be16(out, 9999);
    push_be16(out, ((size - 34) % 0x1_0000) as u16);
    push_all(out, &[0, 0]);
    assert(out@ =~= frame_headers(index, size as int));
}

/// Replaces what is in `scratch` by packet `index`, of `size` bytes.
pub fn build_frame(index: u64, size: usize, scratch: &mut Vec<u8>)
    requires
        size >= FRAME_HEADERS,
    ensures
        final(scratch)@ == frame(index, size as int),
        final(scratch)@.len() == size,
{
    scratch.clear();
    push_headers(index, size, scratch);
    let ghost headers = scratch@;
    let mut s: u64 = index.wrapping_mul(0x9E37_79B9_7F4A_7C15).wrapping_add(1);
    assert(s == noise_state(index, 0)) by {
        let p = index * 0x9E37_79B9_7F4A_7C15;
        let m = 0x1_0000_0000_0000_0000int;
        vstd::arithmetic::div_mod::lemma_add_mod_noop_right(1, p, m);
    }
    let mut i: usize = FRAME_HEADERS;
    while i < size
        invariant
            FRAME_HEADERS <= i <= size,
            headers.len() == FRAME_HEADERS,
            s == noise_state(index, (i - FRAME_HEADERS) as nat),
            scratch@ =~= headers + noise(index, (i - FRAME_HEADERS) as nat),
        decreases size - i,
    {
        let ghost before = s;
        s = s ^ (s << 13);
        s = s ^ (s >> 7);
        s = s ^ (s << 17);
        assert(s == shuffle(before));
        assert(s == noise_state(index, (i - FRAME_HEADERS + 1) as nat));
        scratch.push((s % 0x100) as u8);
        i = i + 1;
    }
}

/// When packet `i` came: a microsecond after the one before it.
pub fn timestamp(i: usize) -> (r: (u32, u32))
    requires
        BASE_SECOND + i / 1_000_000 <= u32::MAX,
    ensures
        r.0 == BASE_SECOND + i / 1_000_000,
        r.1 == i % 1_000_000,
{
    (BASE_SECOND + (i / 1_000_000) as u32, (i % 1_000_000) as u32)
}

/// Packet `i` in a capture file of packets of `size` bytes.
pub open spec fn record(i: int, size: int) -> Seq<u8> {
    pcap_packet(
        (BASE_SECOND + i / 1_000_000) as u32,
        (i % 1_000_000) as u32,
        frame(i as u64, size),
    )
}

/// Appends packet `i` of packets of `size` bytes; `scratch` is used for it.
pub fn write_record(w: &mut Vec<u8>, i: usize, size: usize, scratch: &mut Vec<u8>)
    requires
        BASE_SECOND + i / 1_000_000 <= u32::MAX,
        FRAME_HEADERS <= size <= u32::MAX,
    ensures
        final(w)@ == old(w)@ + record(i as int, size as int),
{
    let (sec, usec) = timestamp(i);
    build_frame(i as u64, size, scratch);
    write_packet(w, sec, usec, scratch.as_slice());
}

/// What is said when the file is written.
pub fn report(count: usize, size: usize, out_path: &str) -> (r: String)
    requires
        count * (size + 16) <= usize::MAX,
        size + 16 <= usize::MAX,
    ensures
        r@ == "wrote "@ + text::decimal(count as nat) + " packets \u{d7} "@ + text::decimal(
            size as nat,
        ) + " bytes = "@ + text::decimal((count * (size + 16) / 1_048_576) as nat)
            + " MB to "@ + out_path@,
{
    let mut s = "wrote ".to_owned();
    push_decimal(&mut s, count as u128);
    s.append(" packets \u{d7} ");
    push_decimal(&mut s, size as u128);
    s.append(" bytes = ");
    assert(count * (size + 16) >= 0) by (nonlinear_arith)
        requires
            count >= 0,
            size >= 0,
    ;
    push_decimal(&mut s, (count * (size + 16) / (1024 * 1024)) as u128);
    s.append(" MB to ");
    s.append(out_path);
    s
}

/// All four addresses of a packet are derived from its index: packets whose indices
/// differ modulo 254 differ in each of them, and other packets in none.
pub proof fn law_addresses_follow_index(i: u64, j: u64, size: int)
    requires
        size >= FRAME_HEADERS,
    ensures
        ({
            let (f, g) = (frame(i, size), frame(j, size));
            let same = i % 254 == j % 254;
            &&& f.subrange(0, 6) == g.subrange(0, 6) <==> same
            &&& f.subrange(6, 12) == g.subrange(6, 12) <==> same
            &&& f.subrange(26, 30) == g.subrange(26, 30) <==> same
            &&& f.subrange(30, 34) == g.subrange(30, 34) <==> same
        }),
{
    let (f, g) = (frame(i, size), frame(j, size));
    lemma_addresses_at(i, size);
    lemma_addresses_at(j, size);
    assert(f.subrange(0, 6)[5] == macs(i)[5] && g.subrange(0, 6)[5] == macs(j)[5]);
    assert(f.subrange(6, 12)[5] == macs(i)[11] && g.subrange(6, 12)[5] == macs(j)[11]);
    assert(f.subrange(26, 30)[3] == addresses(i)[3] && g.subrange(26, 30)[3] == addresses(j)[3]);
    assert(f.subrange(30, 34)[3] == addresses(i)[7] && g.subrange(30, 34)[3] == addresses(j)[7]);
    if i % 254 == j % 254 {
        assert(macs(i) == macs(j));
        assert(addresses(i) == addresses(j));
    }
}

/// Where the addresses stand in a packet.
proof fn lemma_addresses_at(index: u64, size: int)
    requires
        size >= FRAME_HEADERS,
    ensures
        ({
            let f = frame(index, size);
            &&& f.subrange(0, 6) == macs(index).subrange(0, 6)
            &&& f.subrange(6, 12) == macs(index).subrange(6, 12)
            &&& f.subrange(26, 30) == addresses(index).subrange(0, 4)
            &&& f.subrange(30, 34) == addresses(index).subrange(4, 8)
        }),
{
    let f = frame(index, size);
    assert(f.subrange(0, 6) =~= macs(index).subrange(0, 6));
    assert(f.subrange(6, 12) =~= macs(index).subrange(6, 12));
    assert(f.subrange(26, 30) =~= addresses(index).subrange(0, 4));
    assert(f.subrange(30, 34) =~= addresses(index).subrange(4, 8));
}

/// A reader of a capture file finds in a packet what was written: when it came, how
/// long it is, and its bytes.
pub proof fn law_packet_reads_back(ts_sec: u32, ts_usec: u32, payload: Seq<u8>)
    requires
        payload.len() <= u32::MAX,
    ensures
        ({
            let p = pcap_packet(ts_sec, ts_usec, payload);
            &&& bytes::u32_at(p, 0, ByteOrder::Little) == ts_sec
            &&& bytes::u32_at(p, 4, ByteOrder::Little) == ts_usec
            &&& bytes::u32_at(p, 8, ByteOrder::Little) == payload.len()
            &&& bytes::u32_at(p, 12, ByteOrder::Little) == payload.len()
            &&& p.skip(16) == payload
        }),
{
    let p = pcap_packet(ts_sec, ts_usec, payload);
    let len = payload.len() as u32;
    let (a, b, c) = (bytes::le32(ts_sec), bytes::le32(ts_usec), bytes::le32(len));
    lemma_le32_within(seq![], ts_sec, b + c + c + payload);
    assert(seq![] + a + (b + c + c + payload) =~= p);
    lemma_le32_within(a, ts_usec, c + c + payload);
    assert(a + b + (c + c + payload) =~= p);
    lemma_le32_within(a + b, len, c + payload);
    assert(a + b + c + (c + payload) =~= p);
    lemma_le32_within(a + b + c, len, payload);
    assert(p.skip(16) =~= payload);
}

/// A number reads back wherever it is written.
proof fn lemma_le32_within(before: Seq<u8>, v: u32, after: Seq<u8>)
    ensures
        bytes::u32_at(before + bytes::le32(v) + after, before.len() as int, ByteOrder::Little) == v,
{
    let all = before + bytes::le32(v) + after;
    let at = before.len() as int;
    bytes::law_memory_round_trip(v);
    assert(all[at] == bytes::le32(v)[0]);
    assert(all[at + 1] == bytes::le32(v)[1]);
    assert(all[at + 2] == bytes::le32(v)[2]);
    assert(all[at + 3] == bytes::le32(v)[3]);
}

/// The head of a capture file, byte by byte: the number that says microseconds and the
/// byte order, version 2.4, no time zone and no accuracy, how much of a packet there is at
/// most, and that packets are Ethernet's.
pub proof fn law_file_head(snaplen: u32)
    ensures
        ({
            let h = pcap_header(snaplen);
            &&& h.len() == 24
            &&& h[0] == 0xd4 && h[1] == 0xc3 && h[2] == 0xb2 && h[3] == 0xa1
            &&& h[4] == 2 && h[5] == 0 && h[6] == 4 && h[7] == 0
            &&& forall|i: int| 8 <= i < 16 ==> #[trigger] h[i] == 0
            &&& bytes::u32_at(h, 16, ByteOrder::Little) == snaplen
            &&& h[20] == 1 && h[21] == 0 && h[22] == 0 && h[23] == 0
        }),
{
    let h = pcap_header(snaplen);
    let front = h.take(16);
    let back = h.skip(20);
    bytes::law_memory_reads_what_lies_there(front, snaplen, 0, back);
    assert(h =~= front + bytes::le32(snaplen) + back);
}

/// Every field of a packet's headers, where Ethernet, IPv4 and UDP have it. The packet is
/// as long as asked; the lengths in the headers are what follows the Ethernet header and
/// the IPv4 header; the identification and the source port go with the index; and the rest
/// is the same in all packets.
pub proof fn law_frame_fields(index: u64, size: int)
    requires
        FRAME_HEADERS <= size,
    ensures
        ({
            let f = frame(index, size);
            let low = index % 0x1_0000;
            &&& FRAME_HEADERS == 42
            &&& f.len() == size
            &&& f[0] == 2 && f[1] == 0 && f[2] == 0 && f[3] == 0 && f[4] == 0
            &&& f[5] == index % 254 + 1
            &&& f[6] == 2 && f[7] == 0 && f[8] == 0 && f[9] == 0 && f[10] == 0
            &&& f[11] == index % 254 + 2
            &&& f[12] == 8 && f[13] == 0
            &&& f[14] == 0x45 && f[15] == 0
            &&& f[16] * 0x100 + f[17] == (size - 14) % 0x1_0000
            &&& f[18] * 0x100 + f[19] == low
            &&& f[20] == 0 && f[21] == 0
            &&& f[22] == 64 && f[23] == 17 && f[24] == 0 && f[25] == 0
            &&& f[26] == 10 && f[27] == 0 && f[28] == 0 && f[29] == index % 254 + 1
            &&& f[30] == 10 && f[31] == 0 && f[32] == 0 && f[33] == 255 - index % 254
            &&& f[34] * 0x100 + f[35] == (low + 40000) % 0x1_0000
            &&& f[36] * 0x100 + f[37] == 9999
            &&& f[38] * 0x100 + f[39] == (size - 34) % 0x1_0000
            &&& f[40] == 0 && f[41] == 0
        }),
{
    let low = (index % 0x1_0000) as u16;
    let h = frame_headers(index, size);
    assert(h.len() == 42);
    bytes::law_bytes_weigh_by_place(0, ((size - 14) % 0x1_0000) as u16);
    bytes::law_bytes_weigh_by_place(0, low);
    bytes::law_bytes_weigh_by_place(0, ((low + 40000) % 0x1_0000) as u16);
    bytes::law_bytes_weigh_by_place(0, 9999);
    bytes::law_bytes_weigh_by_place(0, ((size - 34) % 0x1_0000) as u16);
    assert(forall|i: int| 0 <= i < 42 ==> frame(index, size)[i] == #[trigger] h[i]);
    let a = bytes::be16(((size - 14) % 0x1_0000) as u16);
    let b = bytes::be16(low);
    let c = bytes::be16(((low + 40000) % 0x1_0000) as u16);
    let d = bytes::be16(9999);
    let e = bytes::be16(((size - 34) % 0x1_0000) as u16);
    assert(h[16] == a[0] && h[17] == a[1] && h[18] == b[0] && h[19] == b[1]);
    assert(h[34] == c[0] && h[35] == c[1] && h[36] == d[0] && h[37] == d[1]);
    assert(h[38] == e[0] && h[39] == e[1]);
}

/// The data of a packet are the low bytes of a row of 64-bit numbers. The first number is
/// the index times a constant and one, and each further one is the one before it, mixed
/// with itself moved by 13 bits up, 7 down and 17 up, in this order. What comes before does
/// not depend on how long the packet is.
pub proof fn law_noise(index: u64, size: int, i: int)
    requires
        FRAME_HEADERS <= size,
        0 <= i < size - FRAME_HEADERS,
    ensures
        ({
            let s = noise_state(index, i as nat);
            let a = s ^ (s << 13);
            let b = a ^ (a >> 7);
            let next = noise_state(index, (i + 1) as nat);
            &&& noise_state(index, 0) == (index * 0x9E37_79B9_7F4A_7C15 + 1)
                % 0x1_0000_0000_0000_0000
            &&& next == b ^ (b << 17)
            &&& frame(index, size)[42 + i] == next % 0x100
        }),
{
}

/// A packet of a capture file: packet `i` comes `i` microseconds after the first one, which
/// comes at the second 1700000000; it is as long as asked, and it is frame `i`.
pub proof fn law_records_in_a_file(i: int, size: int)
    requires
        0 <= i <= u64::MAX,
        1_700_000_000 + i / 1_000_000 <= u32::MAX,
        FRAME_HEADERS <= size <= u32::MAX,
    ensures
        ({
            let r = record(i, size);
            let sec = bytes::u32_at(r, 0, ByteOrder::Little);
            let usec = bytes::u32_at(r, 4, ByteOrder::Little);
            &&& r.len() == 16 + size
            &&& (sec - 1_700_000_000) * 1_000_000 + usec == i
            &&& usec < 1_000_000
            &&& bytes::u32_at(r, 8, ByteOrder::Little) == size
            &&& bytes::u32_at(r, 12, ByteOrder::Little) == size
            &&& r.skip(16) == frame(i as u64, size)
        }),
{
    law_frame_fields(i as u64, size);
    law_packet_reads_back(
        (BASE_SECOND + i / 1_000_000) as u32,
        (i % 1_000_000) as u32,
        frame(i as u64, size),
    );
}

} // verus!
