//! Input ordering: packets of one source come out in the order of their timestamps.
use vstd::prelude::*;

use crate::input::InputEventPacket;
use crate::table::Table;

verus! {

/// Passes packets on, and drops one that is older than the newest packet of its source.
#[derive(Debug)]
pub struct AtomicInputProcessor {
    newest: Table<u64>,
}

/// Whether a packet of a source comes too late.
pub open spec fn late(newest: Map<Seq<char>, u64>, source: Seq<char>, timestamp: u64) -> bool {
    newest.contains_key(source) && timestamp < newest[source]
}

/// The timestamp of the newest packet of each source, after a packet has come.
pub open spec fn after_packet(
    newest: Map<Seq<char>, u64>,
    source: Seq<char>,
    timestamp: u64,
) -> Map<Seq<char>, u64> {
    if late(newest, source, timestamp) {
        newest
    } else {
        newest.insert(source, timestamp)
    }
}

impl AtomicInputProcessor {
    /// The timestamp of the newest packet of each source.
    pub closed spec fn view(&self) -> Map<Seq<char>, u64> {
        self.newest@
    }

    /// A processor that has seen no packet.
    pub fn new() -> (r: Self)
        ensures
            r@ == Map::<Seq<char>, u64>::empty(),
    {
        AtomicInputProcessor { newest: Table::new() }
    }

    /// Takes a packet, and gives it back unless it comes too late.
    pub fn process_packet(&mut self, packet: InputEventPacket) -> (r: Option<InputEventPacket>)
        ensures
            final(self)@ == after_packet(old(self)@, packet.device_id@, packet.timestamp),
            r == (if late(old(self)@, packet.device_id@, packet.timestamp) {
                None
            } else {
                Some(packet)
            }),
    {
        let newest: Option<u64> = match self.newest.get(packet.device_id.as_str()) {
            Some(t) => Some(*t),
            None => None,
        };
        match newest {
            Some(t) => {
                if packet.timestamp < t {
                    return None;
                }
            },
            None => {},
        }
        self.newest.insert(packet.device_id.clone(), packet.timestamp);
        Some(packet)
    }
}

/// The newest timestamp of a source never falls, and packets of one source do not hold up those of
/// another.
pub proof fn newest_never_falls(
    newest: Map<Seq<char>, u64>,
    source: Seq<char>,
    timestamp: u64,
    other: Seq<char>,
)
    ensures
        newest.contains_key(other) ==> {
            &&& after_packet(newest, source, timestamp).contains_key(other)
            &&& newest[other] <= after_packet(newest, source, timestamp)[other]
        },
        other != source ==> forall|t: u64|
            #[trigger] late(after_packet(newest, source, timestamp), other, t) == late(
                newest,
                other,
                t,
            ),
{
}

/// The timestamp of the newest packet of each source, after packets of sources have come.
pub open spec fn newest_after(packets: Seq<(Seq<char>, u64)>) -> Map<Seq<char>, u64>
    decreases packets.len(),
{
    if packets.len() == 0 {
        Map::empty()
    } else {
        after_packet(newest_after(packets.drop_last()), packets.last().0, packets.last().1)
    }
}

/// Whether a packet of a sequence passes.
pub open spec fn passes(packets: Seq<(Seq<char>, u64)>, i: int) -> bool {
    !late(newest_after(packets.take(i)), packets[i].0, packets[i].1)
}

proof fn lemma_newest_holds(packets: Seq<(Seq<char>, u64)>, i: int, k: int)
    requires
        0 <= i < k <= packets.len(),
        passes(packets, i),
    ensures
        newest_after(packets.take(k)).contains_key(packets[i].0),
        packets[i].1 <= newest_after(packets.take(k))[packets[i].0],
    decreases k,
{
    let front = packets.take(k);
    assert(front.drop_last() =~= packets.take(k - 1));
    assert(front.last() == packets[k - 1]);
    if i < k - 1 {
        lemma_newest_holds(packets, i, k - 1);
        newest_never_falls(
            newest_after(packets.take(k - 1)),
            packets[k - 1].0,
            packets[k - 1].1,
            packets[i].0,
        );
    }
}

/// Packets of one source that pass come out in the order of their timestamps, whatever comes
/// between them.
pub proof fn packets_come_out_in_order(packets: Seq<(Seq<char>, u64)>, i: int, j: int)
    requires
        0 <= i < j < packets.len(),
        packets[i].0 == packets[j].0,
        passes(packets, i),
        passes(packets, j),
    ensures
        packets[i].1 <= packets[j].1,
{
    lemma_newest_holds(packets, i, j);
}

proof fn lemma_newest_is_some(packets: Seq<(Seq<char>, u64)>, source: Seq<char>)
    ensures
        newest_after(packets).contains_key(source) <==> exists|j: int|
            0 <= j < packets.len() && (#[trigger] packets[j]).0 == source,
        newest_after(packets).contains_key(source) ==> exists|j: int|
            0 <= j < packets.len() && (#[trigger] packets[j]).0 == source && packets[j].1
                == newest_after(packets)[source],
        forall|j: int|
            0 <= j < packets.len() && (#[trigger] packets[j]).0 == source ==> packets[j].1
                <= newest_after(packets)[source],
    decreases packets.len(),
{
    if packets.len() > 0 {
        let front = packets.drop_last();
        let n = packets.len() - 1;
        lemma_newest_is_some(front, source);
        assert forall|j: int|
            0 <= j < packets.len() && (#[trigger] packets[j]).0 == source implies packets[j].1
            <= newest_after(packets)[source] by {
            if j < n {
                assert(front[j] == packets[j]);
            }
        }
        if exists|j: int| 0 <= j < packets.len() && (#[trigger] packets[j]).0 == source {
            let j = choose|j: int| 0 <= j < packets.len() && (#[trigger] packets[j]).0 == source;
            if j < n {
                assert(front[j].0 == source);
            }
        }
        if newest_after(packets).contains_key(source) {
            if packets[n].0 == source && newest_after(packets)[source] == packets[n].1 {
                assert(packets[n].0 == source && packets[n].1 == newest_after(packets)[source]);
            } else {
                let j = choose|j: int|
                    0 <= j < front.len() && (#[trigger] front[j]).0 == source && front[j].1
                        == newest_after(front)[source];
                assert(packets[j].0 == source && packets[j].1 == newest_after(packets)[source]);
            }
        }
    }
}

/// A packet passes exactly if no packet of its source that came before it has a later timestamp.
/// In particular the first packet of a source passes, and so do packets with equal timestamps.
pub proof fn packets_pass_unless_overtaken(packets: Seq<(Seq<char>, u64)>, i: int)
    requires
        0 <= i < packets.len(),
    ensures
        passes(packets, i) <==> forall|j: int|
            0 <= j < i && (#[trigger] packets[j]).0 == packets[i].0 ==> packets[j].1
                <= packets[i].1,
{
    let front = packets.take(i);
    let source = packets[i].0;
    lemma_newest_is_some(front, source);
    if passes(packets, i) {
        assert forall|j: int| 0 <= j < i && (#[trigger] packets[j]).0 == source implies packets[j].1
            <= packets[i].1 by {
            assert(front[j] == packets[j]);
        }
    } else {
        let j = choose|j: int|
            0 <= j < front.len() && (#[trigger] front[j]).0 == source && front[j].1 == newest_after(
                front,
            )[source];
        assert(packets[j] == front[j]);
    }
}

} // verus!
