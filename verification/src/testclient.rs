//! What the test client does with blocks: it counts and prints packets until it has
//! as many as it was asked for.

use vstd::prelude::*;

use crate::block;
use crate::block::{Block, BlockView, PacketIter};
use crate::text;
use crate::text::{push_decimal, push_hex_byte, push_signed};

verus! {

/// What the test client has taken so far.
#[derive(Debug, Clone, Copy, PartialEq, Eq, Structural)]
pub struct Tally {
    /// How many packets are still to be taken; all that come where it is negative.
    pub count: i64,
    /// How many blocks came.
    pub blocks: u64,
    /// How many packets of the block at hand were taken.
    pub block_count: i64,
    /// How many packets of the blocks before it were taken.
    pub total: i64,
}

/// What to do with a packet.
#[derive(Debug, Clone, Copy, PartialEq, Eq, Structural)]
pub struct PacketStep {
    /// Whether to take it.
    pub take: bool,
    /// Whether it is the last one to look at.
    pub stop: bool,
}

/// The sum of two numbers that are not negative, or the largest number.
pub open spec fn saturating(a: i64, b: i64) -> i64 {
    if a + b > i64::MAX {
        i64::MAX
    } else {
        (a + b) as i64
    }
}

impl Tally {
    /// Counts are not negative.
    pub open spec fn wf(self) -> bool {
        &&& 0 <= self.block_count
        &&& 0 <= self.total
    }

    /// Nothing is taken, and `count` packets are to be.
    pub fn new(count: i64) -> (r: Tally)
        ensures
            r.wf(),
            r == (Tally { count, blocks: 0, block_count: 0, total: 0 }),
    {
        Tally { count, blocks: 0, block_count: 0, total: 0 }
    }

    /// A block came.
    pub fn begin_block(&mut self)
        requires
            old(self).wf(),
            old(self).blocks < u64::MAX,
        ensures
            final(self).wf(),
            *final(self) == (Tally {
                blocks: (old(self).blocks + 1) as u64,
                block_count: 0,
                ..*old(self)
            }),
    {
        self.blocks = self.blocks + 1;
        self.block_count = 0;
    }

    /// The tally after a packet.
    pub open spec fn after_packet(self) -> Tally {
        if self.count == 0 {
            self
        } else {
            Tally {
                count: (self.count - 1) as i64,
                block_count: (self.block_count + 1) as i64,
                ..self
            }
        }
    }

    /// Takes a packet if one is still to be taken.
    pub fn on_packet(&mut self) -> (r: PacketStep)
        requires
            old(self).wf(),
            old(self).count > i64::MIN,
            old(self).block_count < i64::MAX,
        ensures
            final(self).wf(),
            *final(self) == old(self).after_packet(),
            r == (PacketStep { take: old(self).count != 0, stop: final(self).count == 0 }),
    {
        if self.count == 0 {
            return PacketStep { take: false, stop: true };
        }
        self.count = self.count - 1;
        self.block_count = self.block_count + 1;
        PacketStep { take: true, stop: self.count == 0 }
    }

    /// How many of `n` packets are taken.
    pub open spec fn takes(self, n: nat) -> nat {
        if 0 <= self.count < n {
            self.count as nat
        } else {
            n
        }
    }

    /// Whether there are numbers for `n` packets more.
    pub open spec fn has_room(self, n: nat) -> bool {
        &&& self.count < 0 ==> self.count - n >= i64::MIN
        &&& self.block_count + n <= i64::MAX
    }

    /// Whether there are numbers for `n` packets more.
    pub fn room_for(&self, n: u32) -> (r: bool)
        requires
            self.wf(),
        ensures
            r == self.has_room(n as nat),
    {
        (self.count >= 0 || self.count >= i64::MIN + n as i64) && self.block_count <= i64::MAX
            - n as i64
    }

    /// Takes the packets of a block, in order, until there are no more or no more are to
    /// be taken, and gives them as they are printed where `dump` asks for it. Where a
    /// packet cannot be taken, those before it are.
    pub fn take_block(&mut self, block: &Block, dump: bool) -> (r: (Vec<String>, BlockEnd))
        requires
            old(self).wf(),
            block@.has_header(),
            old(self).has_room(block@.num_pkts() as nat),
        ensures
            final(self).wf(),
            ({
                let n = block@.num_pkts() as nat;
                let taken = old(self).takes(n);
                if can_take_all(block@, taken, dump) {
                    &&& *final(self) == after_packets(*old(self), n)
                    &&& are_lines(block@, taken, dump, r.0@)
                    &&& r.1 == (if n > 0 && final(self).count == 0 {
                        BlockEnd::Enough
                    } else {
                        BlockEnd::NoMore
                    })
                } else {
                    &&& r.1 == BlockEnd::Lost
                    &&& exists|k: nat|
                        k < taken && can_take_all(block@, k, dump) && !#[trigger] can_take(
                            block@,
                            k,
                            dump,
                        ) && *final(self) == after_packets(*old(self), k) && are_lines(
                            block@,
                            k,
                            dump,
                            r.0@,
                        )
                }
            }),
    {
        let mut lines: Vec<String> = Vec::new();
        let mut packets: PacketIter = block.iter_packets();
        let ghost b = block@;
        let ghost n = b.num_pkts() as nat;
        let ghost mut k: nat = 0;
        proof {
            block.lemma_len();
        }
        if self.count == 0 {
            proof {
                law_takes_as_many_as_asked(*old(self), n);
            }
            let end = if block.num_pkts() > 0 {
                BlockEnd::Enough
            } else {
                BlockEnd::NoMore
            };
            return (lines, end);
        }
        while packets.can_go_on()
            invariant
                b == block@,
                n == b.num_pkts(),
                b.mem.len() <= usize::MAX,
                old(self).wf(),
                old(self).has_room(n),
                old(self).count != 0,
                k <= n,
                old(self).count > 0 ==> k < old(self).count,
                packets@.is_at(b, k),
                self.wf(),
                *self == after_packets(*old(self), k),
                can_take_all(b, k, dump),
                are_lines(b, k, dump, lines@),
            decreases packets@.left,
        {
            proof {
                law_takes_as_many_as_asked(*old(self), k);
                if packets@.left > 0 {
                    block::lemma_goes_on(b, packets@, k);
                }
            }
            let pkt = match packets.next() {
                Some(pkt) => pkt,
                None => return (lines, BlockEnd::NoMore),
            };
            assert(pkt@ == b.packet(k));
            if dump {
                if !pkt.has_data() {
                    assert(!can_take(b, k, dump));
                    return (lines, BlockEnd::Lost);
                }
                lines.push(crate::testclient::dump(pkt.data()));
            }
            let step = self.on_packet();
            proof {
                assert(can_take(b, k, dump));
                k = k + 1;
                law_takes_as_many_as_asked(*old(self), k);
            }
            if step.stop {
                proof {
                    law_takes_as_many_as_asked(*old(self), n);
                }
                return (lines, BlockEnd::Enough);
            }
        }
        assert(!can_take(b, k, dump)) by {
            block::lemma_goes_on(b, packets@, k);
        }
        (lines, BlockEnd::Lost)
    }

    /// The block is done.
    pub fn end_block(&mut self)
        requires
            old(self).wf(),
        ensures
            final(self).wf(),
            *final(self) == (Tally {
                total: saturating(old(self).total, old(self).block_count),
                ..*old(self)
            }),
    {
        match self.total.checked_add(self.block_count) {
            Some(t) => {
                self.total = t;
            },
            None => {
                self.total = i64::MAX;
            },
        }
    }

    /// What is said of a block, up to how long it took.
    pub fn block_line(&self) -> (r: String)
        requires
            self.wf(),
        ensures
            r@ == "block "@ + text::decimal(self.blocks as nat) + " had "@ + text::signed_decimal(
                self.block_count as int,
            ) + " packets, "@ + text::signed_decimal(self.total as int) + " total in "@,
    {
        let mut s = "block ".to_owned();
        push_decimal(&mut s, self.blocks as u128);
        s.append(" had ");
        push_signed(&mut s, self.block_count as i128);
        s.append(" packets, ");
        push_signed(&mut s, self.total as i128);
        s.append(" total in ");
        s
    }

    /// What is said in the end, up to the rate.
    pub fn result_line(&self, elapsed_ns: u128) -> (r: String)
        requires
            self.wf(),
        ensures
            r@ == "TESTCLIENT_RESULT blocks="@ + text::decimal(self.blocks as nat) + " packets="@
                + text::signed_decimal(self.total as int) + " elapsed_ns="@ + text::decimal(
                elapsed_ns as nat,
            ) + " pkt_per_sec="@,
    {
        let mut s = "TESTCLIENT_RESULT blocks=".to_owned();
        push_decimal(&mut s, self.blocks as u128);
        s.append(" packets=");
        push_signed(&mut s, self.total as i128);
        s.append(" elapsed_ns=");
        push_decimal(&mut s, elapsed_ns);
        s.append(" pkt_per_sec=");
        s
    }
}

/// How the packets of a block came to an end.
#[derive(Debug, Clone, Copy, PartialEq, Eq, Structural)]
pub enum BlockEnd {
    /// There are no more.
    NoMore,
    /// No more are to be taken.
    Enough,
    /// A packet that is to be taken, or its data, cannot be found in the ring.
    Lost,
}

/// Whether packet `k` of a block can be taken: the packet before it says where it lies,
/// and its data lie in the ring where they are to be printed.
pub open spec fn can_take(b: BlockView, k: nat, dump: bool) -> bool {
    &&& k > 0 ==> b.has_link((k - 1) as nat)
    &&& dump ==> b.packet(k).has_data()
}

/// Whether the first `n` packets of a block can be taken.
pub open spec fn can_take_all(b: BlockView, n: nat, dump: bool) -> bool {
    forall|k: nat| k < n ==> #[trigger] can_take(b, k, dump)
}

/// Whether `lines` are the first `n` packets of a block as they are printed, or nothing
/// where they are not.
pub open spec fn are_lines(b: BlockView, n: nat, dump: bool, lines: Seq<String>) -> bool {
    if dump {
        lines.len() == n && forall|k: int|
            0 <= k < n ==> (#[trigger] lines[k])@ == hex(b.packet(k as nat).data())
    } else {
        lines.len() == 0
    }
}

/// The bytes in hexadecimal.
pub open spec fn hex(data: Seq<u8>) -> Seq<char>
    decreases data.len(),
{
    if data.len() == 0 {
        seq![]
    } else {
        hex(data.drop_last()) + text::hex_byte(data.last())
    }
}

/// A packet as it is printed.
pub fn dump(data: &[u8]) -> (r: String)
    ensures
        r@ == hex(data@),
{
    let mut s: String = String::new();
    let mut i: usize = 0;
    assert(hex(data@.take(0)) =~= seq![]);
    while i < data.len()
        invariant
            i <= data@.len(),
            s@ =~= hex(data@.take(i as int)),
        decreases data@.len() - i,
    {
        push_hex_byte(&mut s, data[i]);
        assert(data@.take(i + 1).drop_last() =~= data@.take(i as int));
        i = i + 1;
    }
    assert(data@.take(i as int) =~= data@);
    s
}

/// The tally after `n` packets of a block, or fewer where the client stops.
pub open spec fn after_packets(t: Tally, n: nat) -> Tally
    decreases n,
{
    if n == 0 {
        t
    } else {
        after_packets(t, (n - 1) as nat).after_packet()
    }
}

/// A client that is to take `count` packets takes that many, or all of a block that
/// has fewer; one without a limit takes all. It is done with a block that brings it
/// to its count.
pub proof fn law_takes_as_many_as_asked(t: Tally, n: nat)
    requires
        t.wf(),
        t.count - n >= i64::MIN,
        t.block_count + n <= i64::MAX,
    ensures
        ({
            let end = after_packets(t, n);
            let taken = t.takes(n);
            &&& end.block_count == t.block_count + taken
            &&& end.count == t.count - taken
            &&& end.count == 0 <==> 0 <= t.count <= n
            &&& end.blocks == t.blocks
            &&& end.total == t.total
        }),
    decreases n,
{
    if n > 0 {
        law_takes_as_many_as_asked(t, (n - 1) as nat);
    }
}

/// Sums stay at the largest number there is once it is reached.
pub proof fn law_totals_add_up(a: i64, b: i64)
    requires
        0 <= a,
        0 <= b,
    ensures
        a + b <= i64::MAX ==> saturating(a, b) == a + b,
        a + b > i64::MAX ==> saturating(a, b) == i64::MAX,
{
}

/// A packet that is looked at is taken exactly if one is still to be taken: then one fewer
/// is to be, and one more was. Nothing else changes.
pub proof fn law_each_packet_counts_once(t: Tally)
    requires
        t.wf(),
        t.count > i64::MIN,
        t.block_count < i64::MAX,
    ensures
        ({
            let next = t.after_packet();
            &&& t.count != 0 ==> next.count == t.count - 1 && next.block_count == t.block_count + 1
            &&& t.count == 0 ==> next == t
            &&& next.blocks == t.blocks
            &&& next.total == t.total
        }),
{
}

/// Of the packets of a block, as many are taken as are still to be, and all where that is
/// more or there is no limit.
pub proof fn law_how_many_are_taken(t: Tally, n: nat)
    ensures
        t.takes(n) <= n,
        t.count < 0 ==> t.takes(n) == n,
        0 <= t.count <= n ==> t.takes(n) == t.count,
        t.count >= n ==> t.takes(n) == n,
{
}

/// Bytes are printed as two hexadecimal digits each, in order: the digits at places `2 * i`
/// and `2 * i + 1` stand for byte `i`.
pub proof fn law_hex_prints_every_byte(data: Seq<u8>, i: int)
    requires
        0 <= i < data.len(),
    ensures
        hex(data).len() == 2 * data.len(),
        text::digit_value(hex(data)[2 * i]) * 16 + text::digit_value(hex(data)[2 * i + 1])
            == data[i],
    decreases data.len(),
{
    let past = data.drop_last();
    lemma_hex_len(past);
    text::law_hex_digits(data.last());
    if i < past.len() {
        law_hex_prints_every_byte(past, i);
    }
}

proof fn lemma_hex_len(data: Seq<u8>)
    ensures
        hex(data).len() == 2 * data.len(),
    decreases data.len(),
{
    if data.len() > 0 {
        lemma_hex_len(data.drop_last());
        text::law_hex_digits(data.last());
    }
}

/// A packet can be taken if it can be found, and if its data are there where they are to
/// be printed. The lines that are printed are the packets that were taken, one line each
/// and in order; nothing is printed where that was not asked for.
pub proof fn law_lines_are_the_packets(
    b: BlockView,
    n: nat,
    dump: bool,
    lines: Seq<String>,
    k: nat,
)
    requires
        are_lines(b, n, dump, lines),
    ensures
        dump ==> lines.len() == n,
        !dump ==> lines.len() == 0,
        dump && k < n ==> lines[k as int]@ == hex(b.packet(k).data()),
        can_take(b, 0, false),
        can_take(b, k + 1, false) <==> b.packet_at(k) + 4 <= b.mem.len(),
        can_take(b, k, true) <==> can_take(b, k, false) && b.packet(k).has_data(),
{
    if dump && k < n {
        assert(lines[k as int]@ == hex(b.packet(k).data()));
    }
}

/// Packets can be taken if each of them can, and there are numbers for them if neither what
/// is still to be taken nor what was taken gets out of range.
pub proof fn law_all_means_each(b: BlockView, n: nat, dump: bool, t: Tally)
    ensures
        can_take_all(b, n, dump) <==> (forall|k: nat| k < n ==> #[trigger] can_take(b, k, dump)),
        t.has_room(n) <==> (t.count >= 0 || t.count - n >= i64::MIN) && t.block_count + n
            <= i64::MAX,
{
}

} // verus!
