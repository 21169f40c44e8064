//! What went over the line, kept for each meter.

use crate::bytes::{same_address, to_vec};
use crate::field_value::FieldValue;
use crate::router::is_broadcast;
use crate::sorting::{is_stable_order, stable_order};
use std::sync::Arc;
use vstd::prelude::*;

verus! {

/// The protocol under which messages are decoded.
pub const PARSE_PROTOCOL_ID: &'static str = "dlt645-2007";

/// The regional rules under which data items are decoded.
pub const PARSE_REGION: &'static str = "南网";

/// The address of every meter. Frames to it belong to the log of each meter.
pub const BROADCAST_ADDRESS: [u8; 6] = [0x99, 0x99, 0x99, 0x99, 0x99, 0x99];

/// How many messages are kept of one meter, so that others cannot crowd them out, and how
/// many broadcasts.
pub const PER_METER_CAP: usize = 300;

/// A message that went over the line.
#[derive(Debug)]
pub struct CommunicationLogEntry {
    pub timestamp_ms: i64,
    pub direction: &'static str,
    pub channel: String,
    pub data: Vec<u8>,
    /// the decoded message; nothing for noise, parts of frames and wrong checksums
    pub parsed: Option<Arc<FieldValue>>,
    /// the message in one sentence; empty if it was not decoded
    pub summary: String,
    /// the address field; nothing if there is none
    pub address: Option<[u8; 6]>,
}

/// Two entries say the same of a message.
pub open spec fn same_entry(a: CommunicationLogEntry, b: CommunicationLogEntry) -> bool {
    &&& a.timestamp_ms == b.timestamp_ms
    &&& a.direction == b.direction
    &&& a.channel == b.channel
    &&& a.data@ == b.data@
    &&& a.parsed == b.parsed
    &&& a.summary == b.summary
    &&& a.address == b.address
}

/// Two lists of entries say the same of the same messages.
pub open spec fn same_entries(
    a: Seq<CommunicationLogEntry>,
    b: Seq<CommunicationLogEntry>,
) -> bool {
    &&& a.len() == b.len()
    &&& forall|i: int| 0 <= i < a.len() ==> same_entry(#[trigger] a[i], b[i])
}

impl Clone for CommunicationLogEntry {
    fn clone(&self) -> (r: CommunicationLogEntry)
        ensures
            same_entry(*self, r),
    {
        CommunicationLogEntry {
            timestamp_ms: self.timestamp_ms,
            direction: self.direction,
            channel: self.channel.clone(),
            data: to_vec(&self.data),
            parsed: match &self.parsed {
                Some(tree) => Some(Arc::clone(tree)),
                None => None,
            },
            summary: self.summary.clone(),
            address: self.address,
        }
    }
}

fn copy_entries(entries: &Vec<CommunicationLogEntry>) -> (r: Vec<CommunicationLogEntry>)
    ensures
        same_entries(entries@, r@),
{
    let mut r: Vec<CommunicationLogEntry> = Vec::new();
    for i in 0..entries.len()
        invariant
            same_entries(entries@.take(i as int), r@),
    {
        let ghost before = r@;
        r.push(entries[i].clone());
        assert forall|j: int| 0 <= j < i + 1 implies same_entry(
            #[trigger] entries@.take(i + 1)[j],
            r@[j],
        ) by {
            if j < i {
                assert(same_entry(entries@.take(i as int)[j], before[j]));
            }
        }
    }
    assert(entries@.take(entries@.len() as int) =~= entries@);
    r
}

/// What a decoder makes of some bytes.
#[derive(Debug)]
pub struct Decoded {
    /// how many bytes the message takes
    pub consumed: usize,
    pub tree: Option<Arc<FieldValue>>,
    pub summary: String,
}

/// The bytes are one message and nothing else.
pub open spec fn is_whole_message(data: Seq<u8>, decoded: Option<Decoded>) -> bool {
    data.len() > 0 && (decoded matches Some(d) && d.consumed == data.len() && d.tree is Some)
}

/// The bytes have an address field: 68H and six bytes.
pub open spec fn has_address(data: Seq<u8>) -> bool {
    data.len() >= 7 && data[0] == 0x68
}

/// The address field of some bytes, which need not be a whole frame.
pub fn extract_address(data: &[u8]) -> (r: Option<[u8; 6]>)
    ensures
        r is Some <==> has_address(data@),
        r matches Some(address) ==> address@ == data@.subrange(1, 7),
{
    if data.len() < 7 || data[0] != 0x68 {
        return None;
    }
    let address: [u8; 6] = [data[1], data[2], data[3], data[4], data[5], data[6]];
    assert(address@ =~= data@.subrange(1, 7));
    Some(address)
}

impl CommunicationLogEntry {
    /// The entry for a message. What was decoded is kept only if the bytes are one message and
    /// nothing else.
    pub fn new_at(
        timestamp_ms: i64,
        direction: &'static str,
        channel: String,
        data: &[u8],
        decoded: Option<Decoded>,
    ) -> (r: CommunicationLogEntry)
        ensures
            r.timestamp_ms == timestamp_ms,
            r.direction == direction,
            r.channel == channel,
            r.data@ == data@,
            is_whole_message(data@, decoded) ==> r.parsed == decoded->0.tree && r.summary
                == decoded->0.summary,
            !is_whole_message(data@, decoded) ==> r.parsed is None && r.summary@.len() == 0,
            r.address is Some <==> has_address(data@),
            r.address matches Some(address) ==> address@ == data@.subrange(1, 7),
    {
        let mut parsed: Option<Arc<FieldValue>> = None;
        let mut summary = String::new();
        if data.len() > 0 {
            if let Some(d) = decoded {
                if d.consumed == data.len() && d.tree.is_some() {
                    parsed = d.tree;
                    summary = d.summary;
                }
            }
        }
        CommunicationLogEntry {
            timestamp_ms,
            direction,
            channel,
            data: to_vec(data),
            parsed,
            summary,
            address: extract_address(data),
        }
    }
}

/// The messages of one meter, the oldest first.
#[derive(Debug)]
struct Bucket {
    address: [u8; 6],
    entries: Vec<CommunicationLogEntry>,
}

/// The latest messages of each meter and the latest broadcasts.
#[derive(Debug)]
pub struct CommunicationLogService {
    buckets: Vec<Bucket>,
    broadcasts: Vec<CommunicationLogEntry>,
}

/// A list of at most 300 messages with one more: the oldest gives way to it.
pub open spec fn with_latest(
    entries: Seq<CommunicationLogEntry>,
    entry: CommunicationLogEntry,
) -> Seq<CommunicationLogEntry> {
    if entries.len() >= 300 {
        entries.drop_first().push(entry)
    } else {
        entries.push(entry)
    }
}

spec fn has_bucket(buckets: Seq<Bucket>, address: Seq<u8>) -> bool {
    exists|i: int| 0 <= i < buckets.len() && (#[trigger] buckets[i]).address@ == address
}

spec fn bucket_entries(buckets: Seq<Bucket>, address: Seq<u8>) -> Seq<CommunicationLogEntry> {
    if has_bucket(buckets, address) {
        let i = choose|i: int| 0 <= i < buckets.len() && (#[trigger] buckets[i]).address@ == address;
        buckets[i].entries@
    } else {
        seq![]
    }
}

spec fn sound_buckets(buckets: Seq<Bucket>) -> bool {
    &&& forall|i: int, j: int|
        0 <= i < j < buckets.len() ==> (#[trigger] buckets[i]).address@ != (
        #[trigger] buckets[j]).address@
    &&& forall|i: int| 0 <= i < buckets.len() ==> (#[trigger] buckets[i]).entries@.len() <= 300
}

proof fn lemma_bucket(buckets: Seq<Bucket>, i: int)
    requires
        sound_buckets(buckets),
        0 <= i < buckets.len(),
    ensures
        bucket_entries(buckets, buckets[i].address@) == buckets[i].entries@,
{
    let address = buckets[i].address@;
    assert(has_bucket(buckets, address));
    let j = choose|j: int| 0 <= j < buckets.len() && (#[trigger] buckets[j]).address@ == address;
    if i < j {
        assert(buckets[i].address@ != buckets[j].address@);
    }
    if j < i {
        assert(buckets[j].address@ != buckets[i].address@);
    }
}

/// Exchanging a bucket for one of the same address changes the messages of that address only.
proof fn lemma_bucket_exchanged(before: Seq<Bucket>, after: Seq<Bucket>, i: int)
    requires
        sound_buckets(before),
        0 <= i < before.len(),
        after == before.update(i, after[i]),
        after[i].address@ == before[i].address@,
        after[i].entries@.len() <= 300,
    ensures
        sound_buckets(after),
        forall|a: Seq<u8>| #[trigger]
            bucket_entries(after, a) == (if a == before[i].address@ {
                after[i].entries@
            } else {
                bucket_entries(before, a)
            }),
{
    assert forall|x: int, y: int| 0 <= x < y < after.len() implies (#[trigger] after[x]).address@
        != (#[trigger] after[y]).address@ by {
        assert(before[x].address@ != before[y].address@);
    }
    assert forall|x: int| 0 <= x < after.len() implies (#[trigger] after[x]).entries@.len()
        <= 300 by {
        assert(before[x].entries@.len() <= 300);
    }
    assert forall|a: Seq<u8>| #[trigger] bucket_entries(after, a) == (if a
        == before[i].address@ {
        after[i].entries@
    } else {
        bucket_entries(before, a)
    }) by {
        if a == before[i].address@ {
            lemma_bucket(after, i);
        } else if has_bucket(before, a) {
            let j = choose|j: int| 0 <= j < before.len() && (#[trigger] before[j]).address@ == a;
            assert(after[j] == before[j]);
            lemma_bucket(after, j);
            lemma_bucket(before, j);
        } else if has_bucket(after, a) {
            let j = choose|j: int| 0 <= j < after.len() && (#[trigger] after[j]).address@ == a;
            assert(before[j].address@ == a);
        }
    }
}

/// A bucket for a new address changes the messages of that address only.
proof fn lemma_bucket_added(before: Seq<Bucket>, bucket: Bucket)
    requires
        sound_buckets(before),
        !has_bucket(before, bucket.address@),
        bucket.entries@.len() <= 300,
    ensures
        sound_buckets(before.push(bucket)),
        forall|a: Seq<u8>| #[trigger]
            bucket_entries(before.push(bucket), a) == (if a == bucket.address@ {
                bucket.entries@
            } else {
                bucket_entries(before, a)
            }),
{
    let after = before.push(bucket);
    assert forall|x: int, y: int| 0 <= x < y < after.len() implies (#[trigger] after[x]).address@
        != (#[trigger] after[y]).address@ by {
        if y == before.len() {
            assert(before[x].address@ != bucket.address@);
        } else {
            assert(before[x].address@ != before[y].address@);
        }
    }
    assert forall|a: Seq<u8>| #[trigger] bucket_entries(after, a) == (if a == bucket.address@ {
        bucket.entries@
    } else {
        bucket_entries(before, a)
    }) by {
        if a == bucket.address@ {
            lemma_bucket(after, before.len() as int);
        } else if has_bucket(before, a) {
            let j = choose|j: int| 0 <= j < before.len() && (#[trigger] before[j]).address@ == a;
            assert(after[j] == before[j]);
            lemma_bucket(after, j);
            lemma_bucket(before, j);
        } else if has_bucket(after, a) {
            let j = choose|j: int| 0 <= j < after.len() && (#[trigger] after[j]).address@ == a;
            assert(before[j].address@ == a);
        }
    }
}

fn keep_latest(entries: &mut Vec<CommunicationLogEntry>, entry: CommunicationLogEntry)
    requires
        old(entries)@.len() <= 300,
    ensures
        final(entries)@ == with_latest(old(entries)@, entry),
        final(entries)@.len() <= 300,
{
    if entries.len() >= PER_METER_CAP {
        entries.remove(0);
        assert(entries@ =~= old(entries)@.drop_first());
    }
    entries.push(entry);
}

/// The messages of one meter together with the broadcasts.
pub open spec fn gathered(
    own: Seq<CommunicationLogEntry>,
    broadcasts: Seq<CommunicationLogEntry>,
) -> Seq<CommunicationLogEntry> {
    own + broadcasts
}

pub open spec fn times_of(entries: Seq<CommunicationLogEntry>) -> Seq<i64> {
    entries.map_values(|e: CommunicationLogEntry| e.timestamp_ms)
}

/// `shown` are the last 300 of `all` by time; messages of the same time keep their order.
pub open spec fn shown_of(
    all: Seq<CommunicationLogEntry>,
    shown: Seq<&CommunicationLogEntry>,
    order: Seq<usize>,
) -> bool {
    let skipped = if all.len() > 300 {
        all.len() - 300
    } else {
        0
    };
    &&& is_stable_order(times_of(all), order)
    &&& shown.len() == all.len() - skipped
    &&& forall|i: int|
        0 <= i < shown.len() ==> *(#[trigger] shown[i]) == all[order[i + skipped] as int]
}

impl Clone for CommunicationLogService {
    /// A log that holds the same messages.
    fn clone(&self) -> (r: CommunicationLogService)
        ensures
            forall|a: Seq<u8>| same_entries(self.kept(a), #[trigger] r.kept(a)),
            same_entries(self.kept_broadcasts(), r.kept_broadcasts()),
    {
        proof {
            use_type_invariant(self);
        }
        let mut buckets: Vec<Bucket> = Vec::new();
        for i in 0..self.buckets.len()
            invariant
                buckets@.len() == i,
                forall|j: int|
                    0 <= j < i ==> (#[trigger] buckets@[j]).address == self.buckets@[j].address
                        && same_entries(self.buckets@[j].entries@, buckets@[j].entries@),
        {
            let entries = copy_entries(&self.buckets[i].entries);
            buckets.push(Bucket { address: self.buckets[i].address, entries });
        }
        let r = CommunicationLogService { buckets, broadcasts: copy_entries(&self.broadcasts) };
        assert forall|a: Seq<u8>| same_entries(self.kept(a), #[trigger] r.kept(a)) by {
            if has_bucket(self.buckets@, a) {
                let i = choose|i: int|
                    0 <= i < self.buckets@.len() && (#[trigger] self.buckets@[i]).address@ == a;
                assert(r.buckets@[i].address@ == a);
                lemma_bucket(self.buckets@, i);
                lemma_bucket(r.buckets@, i);
            }
            if has_bucket(r.buckets@, a) {
                let i = choose|i: int|
                    0 <= i < r.buckets@.len() && (#[trigger] r.buckets@[i]).address@ == a;
                assert(self.buckets@[i].address@ == a);
            }
        }
        r
    }
}

impl CommunicationLogService {
    #[verifier::type_invariant]
    spec fn is_sound(self) -> bool {
        sound_buckets(self.buckets@) && self.broadcasts@.len() <= 300
    }

    /// The messages kept for an address, the oldest first, without broadcasts.
    pub closed spec fn kept(self, address: Seq<u8>) -> Seq<CommunicationLogEntry> {
        bucket_entries(self.buckets@, address)
    }

    /// The broadcasts that are kept, the oldest first.
    pub closed spec fn kept_broadcasts(self) -> Seq<CommunicationLogEntry> {
        self.broadcasts@
    }

    pub fn new() -> (r: CommunicationLogService)
        ensures
            forall|a: Seq<u8>| #[trigger] r.kept(a).len() == 0,
            r.kept_broadcasts().len() == 0,
    {
        CommunicationLogService { buckets: Vec::new(), broadcasts: Vec::new() }
    }

    fn position(&self, address: &[u8; 6]) -> (r: Option<usize>)
        ensures
            r is Some <==> has_bucket(self.buckets@, address@),
            r matches Some(i) ==> i < self.buckets@.len() && self.buckets@[i as int].address@
                == address@,
    {
        for i in 0..self.buckets.len()
            invariant
                forall|j: int| 0 <= j < i ==> (#[trigger] self.buckets@[j]).address@ != address@,
        {
            if same_address(&self.buckets[i].address, address) {
                return Some(i);
            }
        }
        None
    }

    /// Keeps a message under its address, or among the broadcasts. A message without an
    /// address belongs to no meter and is not kept.
    pub fn record(&mut self, entry: CommunicationLogEntry)
        ensures
            forall|a: Seq<u8>| #[trigger]
                final(self).kept(a) == (if entry.address is Some && !is_broadcast(
                    entry.address->0@,
                ) && a == entry.address->0@ {
                    with_latest(old(self).kept(a), entry)
                } else {
                    old(self).kept(a)
                }),
            final(self).kept_broadcasts() == (if entry.address is Some && is_broadcast(
                entry.address->0@,
            ) {
                with_latest(old(self).kept_broadcasts(), entry)
            } else {
                old(self).kept_broadcasts()
            }),
    {
        let address: [u8; 6] = match entry.address {
            Some(address) => address,
            None => {
                return ;
            },
        };
        let at = self.position(&address);
        proof {
            use_type_invariant(&*self);
        }
        if crate::protocol::codec::is_broadcast_address(&address) {
            let mut broadcasts: Vec<CommunicationLogEntry> = Vec::new();
            std::mem::swap(&mut broadcasts, &mut self.broadcasts);
            keep_latest(&mut broadcasts, entry);
            self.broadcasts = broadcasts;
            return ;
        }
        let mut buckets: Vec<Bucket> = Vec::new();
        std::mem::swap(&mut buckets, &mut self.buckets);
        let ghost before = buckets@;
        match at {
            Some(i) => {
                let mut bucket = buckets.remove(i);
                proof {
                    lemma_bucket(before, i as int);
                }
                keep_latest(&mut bucket.entries, entry);
                buckets.insert(i, bucket);
                proof {
                    assert(buckets@ =~= before.update(i as int, bucket));
                    lemma_bucket_exchanged(before, buckets@, i as int);
                }
            },
            None => {
                let mut entries: Vec<CommunicationLogEntry> = Vec::new();
                keep_latest(&mut entries, entry);
                let bucket = Bucket { address, entries };
                proof {
                    lemma_bucket_added(before, bucket);
                    assert(old(self).kept(address@) =~= seq![]);
                    assert(entries@ =~= with_latest(old(self).kept(address@), entry));
                }
                buckets.push(bucket);
            },
        }
        self.buckets = buckets;
    }

    /// The messages of a meter, with the broadcasts, by rising time: the last 300.
    pub fn entries_for(&self, address: [u8; 6]) -> (r: Vec<&CommunicationLogEntry>)
        ensures
            exists|order: Seq<usize>| #[trigger]
                shown_of(gathered(self.kept(address@), self.kept_broadcasts()), r@, order),
    {
        let at = self.position(&address);
        proof {
            use_type_invariant(self);
        }
        let ghost own = self.kept(address@);
        let ghost all = gathered(own, self.kept_broadcasts());
        let mut merged: Vec<&CommunicationLogEntry> = Vec::new();
        let mut times: Vec<i64> = Vec::new();
        if let Some(b) = at {
            proof {
                lemma_bucket(self.buckets@, b as int);
            }
            let entries: &Vec<CommunicationLogEntry> = &self.buckets[b].entries;
            for i in 0..entries.len()
                invariant
                    entries@ == own,
                    merged@.len() == i,
                    times@.len() == i,
                    forall|j: int| 0 <= j < i ==> *(#[trigger] merged@[j]) == own[j],
                    forall|j: int| 0 <= j < i ==> #[trigger] times@[j] == own[j].timestamp_ms,
            {
                times.push(entries[i].timestamp_ms);
                merged.push(&entries[i]);
            }
        }
        let n: usize = merged.len();
        for i in 0..self.broadcasts.len()
            invariant
                n == own.len(),
                all == gathered(own, self.broadcasts@),
                merged@.len() == n + i,
                times@.len() == n + i,
                forall|j: int| 0 <= j < n + i ==> *(#[trigger] merged@[j]) == all[j],
                forall|j: int| 0 <= j < n + i ==> #[trigger] times@[j] == all[j].timestamp_ms,
        {
            times.push(self.broadcasts[i].timestamp_ms);
            merged.push(&self.broadcasts[i]);
        }
        assert(times@ =~= times_of(all));
        let order = stable_order(&times);
        let skipped: usize = if order.len() > PER_METER_CAP {
            order.len() - PER_METER_CAP
        } else {
            0
        };
        let mut shown: Vec<&CommunicationLogEntry> = Vec::new();
        for i in skipped..order.len()
            invariant
                skipped <= order@.len(),
                is_stable_order(times@, order@),
                times@ == times_of(all),
                merged@.len() == all.len(),
                forall|j: int| 0 <= j < merged@.len() ==> *(#[trigger] merged@[j]) == all[j],
                shown@.len() == i - skipped,
                forall|j: int|
                    0 <= j < shown@.len() ==> *(#[trigger] shown@[j]) == all[order@[j
                        + skipped] as int],
        {
            shown.push(merged[order[i]]);
        }
        assert(shown_of(all, shown@, order@));
        shown
    }
}

/// What is shown for a meter comes by rising time, and nothing that is left out is later than
/// what is shown.
pub proof fn law_shown_are_the_latest(
    all: Seq<CommunicationLogEntry>,
    shown: Seq<&CommunicationLogEntry>,
    order: Seq<usize>,
)
    requires
        shown_of(all, shown, order),
    ensures
        shown.len() <= 300,
        forall|i: int, j: int|
            0 <= i < j < shown.len() ==> (#[trigger] shown[i]).timestamp_ms <= (
            #[trigger] shown[j]).timestamp_ms,
        forall|i: int, j: int|
            0 <= i < all.len() - shown.len() && 0 <= j < shown.len() ==> all[(
            #[trigger] order[i]) as int].timestamp_ms <= (#[trigger] shown[j]).timestamp_ms,
{
    let skipped = all.len() - shown.len();
    let times = times_of(all);
    assert forall|i: int, j: int| 0 <= i < j < shown.len() implies (
    #[trigger] shown[i]).timestamp_ms <= (#[trigger] shown[j]).timestamp_ms by {
        assert(crate::sorting::comes_before(times, order[i + skipped], order[j + skipped]));
        assert(order[i + skipped] < times.len() && order[j + skipped] < times.len());
    }
    assert forall|i: int, j: int| 0 <= i < skipped && 0 <= j < shown.len() implies all[(
    #[trigger] order[i]) as int].timestamp_ms <= (#[trigger] shown[j]).timestamp_ms by {
        assert(crate::sorting::comes_before(times, order[i], order[j + skipped]));
        assert(order[i] < times.len() && order[j + skipped] < times.len());
    }
}

/// A message to one meter leaves what is kept for the others as it is; a broadcast leaves
/// what is kept for every meter as it is.
pub proof fn law_meters_do_not_crowd_each_other(
    before: CommunicationLogService,
    after: CommunicationLogService,
    entry: CommunicationLogEntry,
    other: Seq<u8>,
)
    requires
        forall|a: Seq<u8>| #[trigger]
            after.kept(a) == (if entry.address is Some && !is_broadcast(entry.address->0@) && a
                == entry.address->0@ {
                with_latest(before.kept(a), entry)
            } else {
                before.kept(a)
            }),
        entry.address matches Some(a) ==> a@ != other || is_broadcast(a@),
    ensures
        after.kept(other) == before.kept(other),
{
}

} // verus!
