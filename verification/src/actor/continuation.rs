//! Answers that are too long for one frame, sent piece by piece.

use vstd::prelude::*;

verus! {

/// How many bytes of an answer go into one frame.
pub const MAX_FRAGMENT: usize = 195;

/// An answer of which some pieces have been sent.
#[derive(Debug)]
struct Pending {
    conn_id: u64,
    di: u32,
    data: Vec<u8>,
    /// pieces sent, at least one
    sent: usize,
}

/// An answer as a mathematical value: its bytes and the number of pieces sent.
pub ghost struct PendingModel {
    pub data: Seq<u8>,
    pub sent: nat,
}

/// Answers that are being sent, each for one connection and one identifier.
#[derive(Debug)]
pub struct ContinuationCache {
    entries: Vec<Pending>,
}

/// An identifier as a number.
pub open spec fn di_number(di: Seq<u8>) -> u32 {
    (di[0] + di[1] * 0x100 + di[2] * 0x1_0000 + di[3] * 0x100_0000) as u32
}

pub fn number_of_di(di: [u8; 4]) -> (r: u32)
    ensures
        r == di_number(di@),
{
    di[0] as u32 + di[1] as u32 * 0x100 + di[2] as u32 * 0x1_0000 + di[3] as u32 * 0x100_0000
}

/// Piece `k` of an answer, counted from 0.
pub open spec fn fragment(data: Seq<u8>, k: nat) -> Seq<u8> {
    if 195 * k >= data.len() {
        Seq::empty()
    } else if 195 * (k + 1) >= data.len() {
        data.skip((195 * k) as int)
    } else {
        data.subrange((195 * k) as int, (195 * (k + 1)) as int)
    }
}

/// There is a piece after the first `k`.
pub open spec fn more_after(data: Seq<u8>, k: nat) -> bool {
    195 * k < data.len()
}

/// The first `n` pieces in a row.
pub open spec fn joined(data: Seq<u8>, n: nat) -> Seq<u8>
    decreases n,
{
    if n == 0 {
        Seq::empty()
    } else {
        joined(data, (n - 1) as nat) + fragment(data, (n - 1) as nat)
    }
}

proof fn lemma_joined(data: Seq<u8>, n: nat)
    ensures
        joined(data, n) == (if 195 * n >= data.len() {
            data
        } else {
            data.take((195 * n) as int)
        }),
    decreases n,
{
    if n > 0 {
        lemma_joined(data, (n - 1) as nat);
        let whole = if 195 * n >= data.len() {
            data
        } else {
            data.take((195 * n) as int)
        };
        assert(joined(data, n) =~= whole);
    } else {
        assert(joined(data, n) =~= (if 195 * n >= data.len() {
            data
        } else {
            data.take((195 * n) as int)
        }));
    }
}

/// The pieces of an answer in a row are the answer.
pub proof fn law_pieces_make_answer(data: Seq<u8>, n: nat)
    requires
        !more_after(data, n),
    ensures
        joined(data, n) == data,
{
    lemma_joined(data, n);
}

/// Every piece fits into a frame together with identifier and sequence number.
pub proof fn law_piece_fits(data: Seq<u8>, k: nat)
    ensures
        fragment(data, k).len() <= 195,
{
}

/// What becomes of a request for the next piece.
#[derive(Debug)]
pub enum FollowOn {
    /// No answer is being sent.
    Nothing,
    /// Another piece was expected; the answer is given up.
    WrongSequence,
    Piece { bytes: Vec<u8>, more: bool },
}

spec fn entry_key(p: Pending) -> (u64, u32) {
    (p.conn_id, p.di)
}

spec fn has_entry(entries: Seq<Pending>, key: (u64, u32)) -> bool {
    exists|i: int| 0 <= i < entries.len() && entry_key(#[trigger] entries[i]) == key
}

spec fn entry_position(entries: Seq<Pending>, key: (u64, u32)) -> int {
    choose|i: int| 0 <= i < entries.len() && entry_key(#[trigger] entries[i]) == key
}

spec fn entry_map(entries: Seq<Pending>) -> Map<(u64, u32), PendingModel> {
    Map::new(
        |key: (u64, u32)| has_entry(entries, key),
        |key: (u64, u32)|
            PendingModel {
                data: entries[entry_position(entries, key)].data@,
                sent: entries[entry_position(entries, key)].sent as nat,
            },
    )
}

spec fn distinct_entries(entries: Seq<Pending>) -> bool {
    &&& forall|i: int, j: int|
        0 <= i < j < entries.len() ==> entry_key(#[trigger] entries[i]) != entry_key(
            #[trigger] entries[j],
        )
    &&& forall|i: int|
        0 <= i < entries.len() ==> 1 <= (#[trigger] entries[i]).sent && 195 * entries[i].sent
            < entries[i].data@.len()
}

proof fn lemma_position(entries: Seq<Pending>, i: int)
    requires
        distinct_entries(entries),
        0 <= i < entries.len(),
    ensures
        has_entry(entries, entry_key(entries[i])),
        entry_position(entries, entry_key(entries[i])) == i,
{
    let key = entry_key(entries[i]);
    assert(has_entry(entries, key));
    let j = entry_position(entries, key);
    if i < j {
        assert(entry_key(entries[i]) != entry_key(entries[j]));
    }
    if j < i {
        assert(entry_key(entries[j]) != entry_key(entries[i]));
    }
}

/// Taking out an entry takes its key out of the map.
proof fn lemma_removed(before: Seq<Pending>, after: Seq<Pending>, i: int)
    requires
        distinct_entries(before),
        0 <= i < before.len(),
        after == before.remove(i),
    ensures
        distinct_entries(after),
        entry_map(after) == entry_map(before).remove(entry_key(before[i])),
{
    let key = entry_key(before[i]);
    assert forall|a: int, b: int| 0 <= a < b < after.len() implies entry_key(#[trigger] after[a])
        != entry_key(#[trigger] after[b]) by {
        let a2 = if a < i {
            a
        } else {
            a + 1
        };
        let b2 = if b < i {
            b
        } else {
            b + 1
        };
        assert(entry_key(before[a2]) != entry_key(before[b2]));
    }
    assert forall|a: int| 0 <= a < after.len() implies 1 <= (#[trigger] after[a]).sent && 195
        * after[a].sent < after[a].data@.len() by {
        let a2 = if a < i {
            a
        } else {
            a + 1
        };
        assert(1 <= before[a2].sent);
    }
    assert forall|k: (u64, u32)| has_entry(after, k) <==> has_entry(before, k) && k != key by {
        if has_entry(after, k) {
            let q = entry_position(after, k);
            let p = if q < i {
                q
            } else {
                q + 1
            };
            assert(before[p] == after[q]);
            if q < i {
                assert(entry_key(before[q]) != entry_key(before[i]));
            } else {
                assert(entry_key(before[i]) != entry_key(before[q + 1]));
            }
        }
        if has_entry(before, k) && k != key {
            let p = entry_position(before, k);
            let q = if p < i {
                p
            } else {
                p - 1
            };
            assert(after[q] == before[p]);
        }
    }
    assert forall|k: (u64, u32)| has_entry(after, k) implies entry_map(after)[k] == entry_map(
        before,
    )[k] by {
        let q = entry_position(after, k);
        let p = if q < i {
            q
        } else {
            q + 1
        };
        assert(before[p] == after[q]);
        lemma_position(before, p);
    }
    assert(entry_map(after) =~= entry_map(before).remove(key));
}

/// Putting in an entry with a new key puts it into the map.
proof fn lemma_added(before: Seq<Pending>, entry: Pending)
    requires
        distinct_entries(before),
        !has_entry(before, entry_key(entry)),
        1 <= entry.sent,
        195 * entry.sent < entry.data@.len(),
    ensures
        distinct_entries(before.push(entry)),
        entry_map(before.push(entry)) == entry_map(before).insert(
            entry_key(entry),
            PendingModel { data: entry.data@, sent: entry.sent as nat },
        ),
{
    let after = before.push(entry);
    assert forall|a: int, b: int| 0 <= a < b < after.len() implies entry_key(#[trigger] after[a])
        != entry_key(#[trigger] after[b]) by {
        if b == before.len() {
            assert(has_entry(before, entry_key(before[a])));
        } else {
            assert(entry_key(before[a]) != entry_key(before[b]));
        }
    }
    lemma_position(after, before.len() as int);
    assert forall|k: (u64, u32)| has_entry(after, k) <==> has_entry(before, k) || k == entry_key(
        entry,
    ) by {
        if has_entry(before, k) {
            assert(after[entry_position(before, k)] == before[entry_position(before, k)]);
        }
        if has_entry(after, k) && k != entry_key(entry) {
            let q = entry_position(after, k);
            assert(before[q] == after[q]);
        }
    }
    assert forall|k: (u64, u32)| has_entry(before, k) implies entry_map(after)[k] == entry_map(
        before,
    )[k] by {
        let p = entry_position(before, k);
        assert(after[p] == before[p]);
        lemma_position(after, p);
    }
    assert(entry_map(after) =~= entry_map(before).insert(
        entry_key(entry),
        PendingModel { data: entry.data@, sent: entry.sent as nat },
    ));
}

impl View for ContinuationCache {
    type V = Map<(u64, u32), PendingModel>;

    closed spec fn view(&self) -> Map<(u64, u32), PendingModel> {
        entry_map(self.entries@)
    }
}

impl ContinuationCache {
    #[verifier::type_invariant]
    spec fn entries_differ(self) -> bool {
        distinct_entries(self.entries@)
    }

    pub fn new() -> (r: ContinuationCache)
        ensures
            r@ == Map::<(u64, u32), PendingModel>::empty(),
    {
        let r = ContinuationCache { entries: Vec::new() };
        assert(r@ =~= Map::<(u64, u32), PendingModel>::empty());
        r
    }

    fn position(&self, conn_id: u64, di: u32) -> (r: Option<usize>)
        ensures
            distinct_entries(self.entries@),
            r is Some <==> has_entry(self.entries@, (conn_id, di)),
            r matches Some(i) ==> i < self.entries@.len() && entry_key(self.entries@[i as int]) == (
            conn_id, di),
    {
        proof {
            use_type_invariant(self);
        }
        for i in 0..self.entries.len()
            invariant
                distinct_entries(self.entries@),
                forall|j: int|
                    0 <= j < i ==> entry_key(#[trigger] self.entries@[j]) != (conn_id, di),
        {
            if self.entries[i].conn_id == conn_id && self.entries[i].di == di {
                assert(entry_key(self.entries@[i as int]) == (conn_id, di));
                return Some(i);
            }
        }
        None
    }

    /// Keeps an answer of which the first piece has been sent, in place of an earlier one.
    pub fn store(&mut self, conn_id: u64, di: u32, data: Vec<u8>)
        requires
            data@.len() > 195,
        ensures
            final(self)@ == old(self)@.insert(
                (conn_id, di),
                PendingModel { data: data@, sent: 1 },
            ),
    {
        let at = self.position(conn_id, di);
        let mut entries: Vec<Pending> = Vec::new();
        std::mem::swap(&mut entries, &mut self.entries);
        let ghost before = entries@;
        if let Some(i) = at {
            entries.remove(i);
            proof {
                lemma_removed(before, entries@, i as int);
                assert(!entry_map(entries@).contains_key((conn_id, di)));
            }
        }
        let entry = Pending { conn_id, di, data, sent: 1 };
        proof {
            lemma_added(entries@, entry);
        }
        entries.push(entry);
        self.entries = entries;
        assert(self@ =~= old(self)@.insert((conn_id, di), PendingModel { data: data@, sent: 1 }));
    }

    /// The piece that was asked for by its number. Pieces have to be asked for one after the
    /// other; numbers are bytes and go round.
    pub fn next(&mut self, conn_id: u64, di: u32, seq: u8) -> (r: FollowOn)
        ensures
            !old(self)@.contains_key((conn_id, di)) ==> r is Nothing && final(self)@ == old(self)@,
            old(self)@.contains_key((conn_id, di)) ==> {
                let p = old(self)@[(conn_id, di)];
                if seq != p.sent % 256 {
                    r is WrongSequence && final(self)@ == old(self)@.remove((conn_id, di))
                } else {
                    &&& r matches FollowOn::Piece { bytes, more } && bytes@ == fragment(
                        p.data,
                        p.sent,
                    ) && more == more_after(p.data, p.sent + 1)
                    &&& final(self)@ == (if more_after(p.data, p.sent + 1) {
                        old(self)@.insert(
                            (conn_id, di),
                            PendingModel { data: p.data, sent: p.sent + 1 },
                        )
                    } else {
                        old(self)@.remove((conn_id, di))
                    })
                }
            },
    {
        let i: usize = match self.position(conn_id, di) {
            Some(i) => i,
            None => {
                return FollowOn::Nothing;
            },
        };
        let mut entries: Vec<Pending> = Vec::new();
        std::mem::swap(&mut entries, &mut self.entries);
        let ghost before = entries@;
        proof {
            lemma_position(before, i as int);
        }
        let mut entry = entries.remove(i);
        proof {
            lemma_removed(before, entries@, i as int);
            assert(!entry_map(entries@).contains_key((conn_id, di)));
        }
        let sent: usize = entry.sent;
        assert(entry == before[i as int]);
        let ghost data = entry.data@;
        if seq as usize != sent % 256 {
            self.entries = entries;
            return FollowOn::WrongSequence;
        }
        let total: usize = entry.data.len();
        let start: usize = sent * MAX_FRAGMENT;
        let left: usize = total - start;
        let more: bool = left > MAX_FRAGMENT;
        let end: usize = if more {
            start + MAX_FRAGMENT
        } else {
            total
        };
        let bytes = crate::bytes::to_vec(
            vstd::slice::slice_subrange(entry.data.as_slice(), start, end),
        );
        assert(bytes@ =~= fragment(data, sent as nat));
        if more {
            entry.sent = sent + 1;
            proof {
                lemma_added(entries@, entry);
            }
            entries.push(entry);
        }
        self.entries = entries;
        proof {
            let key = (conn_id, di);
            if more {
                assert(self@ =~= old(self)@.insert(
                    key,
                    PendingModel { data, sent: (sent + 1) as nat },
                ));
            }
        }
        FollowOn::Piece { bytes, more }
    }
}

} // verus!
