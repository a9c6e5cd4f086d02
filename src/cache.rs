//! The delivery cache: messages that wait for an acknowledgement, kept per
//! recipient in the order in which they arrived.
use vstd::prelude::*;
use crate::wire::{append_bytes, bytes_eq, copy_range, join, join_spec, list_sep, FIELD_SEP, LIST_SEP};

verus! {

/// One message that has not been acknowledged yet.
#[derive(Debug, PartialEq, Eq)]
pub struct CacheEntry {
    pub recipient: Vec<u8>,
    pub sender: Vec<u8>,
    pub payload: Vec<u8>,
}

/// What a cache entry holds, as byte sequences.
pub struct EntryView {
    pub recipient: Seq<u8>,
    pub sender: Seq<u8>,
    pub payload: Seq<u8>,
}

impl View for CacheEntry {
    type V = EntryView;

    open spec fn view(&self) -> EntryView {
        EntryView { recipient: self.recipient@, sender: self.sender@, payload: self.payload@ }
    }
}

impl CacheEntry {
    /// A copy of this entry.
    pub fn duplicate(&self) -> (r: CacheEntry)
        ensures
            r@ == self@,
    {
        let r = CacheEntry {
            recipient: copy_range(self.recipient.as_slice(), 0, self.recipient.len()),
            sender: copy_range(self.sender.as_slice(), 0, self.sender.len()),
            payload: copy_range(self.payload.as_slice(), 0, self.payload.len()),
        };
        assert(r.recipient@ =~= self.recipient@);
        assert(r.sender@ =~= self.sender@);
        assert(r.payload@ =~= self.payload@);
        r
    }
}

/// The entries of `entries` addressed to `r`, in their order.
pub open spec fn pending_for(entries: Seq<EntryView>, r: Seq<u8>) -> Seq<EntryView>
    decreases entries.len(),
{
    if entries.len() == 0 {
        Seq::empty()
    } else {
        let rest = pending_for(entries.drop_last(), r);
        if entries.last().recipient == r {
            rest.push(entries.last())
        } else {
            rest
        }
    }
}

/// The entries of `entries` addressed to anyone but `r`, in their order.
pub open spec fn others_of(entries: Seq<EntryView>, r: Seq<u8>) -> Seq<EntryView>
    decreases entries.len(),
{
    if entries.len() == 0 {
        Seq::empty()
    } else {
        let rest = others_of(entries.drop_last(), r);
        if entries.last().recipient != r {
            rest.push(entries.last())
        } else {
            rest
        }
    }
}

/// Entry `e` is for `r`, from `s`, and carries `p`.
pub open spec fn is_match(e: EntryView, r: Seq<u8>, s: Seq<u8>, p: Seq<u8>) -> bool {
    e.recipient == r && e.sender == s && e.payload == p
}

/// Entry `e` is for `r` and carries `p`, whoever sent it.
pub open spec fn is_payload_match(e: EntryView, r: Seq<u8>, p: Seq<u8>) -> bool {
    e.recipient == r && e.payload == p
}

/// `i` is the first entry that matches `(r, s, p)`.
pub open spec fn first_match(entries: Seq<EntryView>, r: Seq<u8>, s: Seq<u8>, p: Seq<u8>, i: int) -> bool {
    &&& 0 <= i < entries.len()
    &&& is_match(entries[i], r, s, p)
    &&& forall|j: int| 0 <= j < i ==> !is_match(entries[j], r, s, p)
}

/// `i` is the first entry for `r` that carries `p`.
pub open spec fn first_payload_match(entries: Seq<EntryView>, r: Seq<u8>, p: Seq<u8>, i: int) -> bool {
    &&& 0 <= i < entries.len()
    &&& is_payload_match(entries[i], r, p)
    &&& forall|j: int| 0 <= j < i ==> !is_payload_match(entries[j], r, p)
}

/// The entries after an acknowledgement of `(r, s, p)`: the first match is
/// gone, or nothing changes where there is none.
pub open spec fn acknowledge_spec(entries: Seq<EntryView>, r: Seq<u8>, s: Seq<u8>, p: Seq<u8>) -> Seq<EntryView> {
    if exists|i: int| first_match(entries, r, s, p, i) {
        entries.remove(choose|i: int| first_match(entries, r, s, p, i))
    } else {
        entries
    }
}

/// The entries after an acknowledgement of payload `p` for `r`.
pub open spec fn acknowledge_payload_spec(entries: Seq<EntryView>, r: Seq<u8>, p: Seq<u8>) -> Seq<EntryView> {
    if exists|i: int| first_payload_match(entries, r, p, i) {
        entries.remove(choose|i: int| first_payload_match(entries, r, p, i))
    } else {
        entries
    }
}

/// How many entries match `(r, s, p)`.
pub open spec fn count_matching(entries: Seq<EntryView>, r: Seq<u8>, s: Seq<u8>, p: Seq<u8>) -> nat
    decreases entries.len(),
{
    if entries.len() == 0 {
        0
    } else {
        count_matching(entries.drop_last(), r, s, p) + if is_match(entries.last(), r, s, p) {
            1nat
        } else {
            0nat
        }
    }
}

proof fn lemma_count_remove(entries: Seq<EntryView>, r: Seq<u8>, s: Seq<u8>, p: Seq<u8>, i: int)
    requires
        0 <= i < entries.len(),
    ensures
        count_matching(entries.remove(i), r, s, p) + (if is_match(entries[i], r, s, p) {
            1nat
        } else {
            0nat
        }) == count_matching(entries, r, s, p),
    decreases entries.len(),
{
    if i == entries.len() - 1 {
        assert(entries.remove(i) =~= entries.drop_last());
    } else {
        lemma_count_remove(entries.drop_last(), r, s, p, i);
        assert(entries.remove(i).drop_last() =~= entries.drop_last().remove(i));
        assert(entries.remove(i).last() == entries.last());
    }
}

proof fn lemma_count_first_match(entries: Seq<EntryView>, r: Seq<u8>, s: Seq<u8>, p: Seq<u8>)
    ensures
        count_matching(entries, r, s, p) > 0 <==> exists|i: int| first_match(entries, r, s, p, i),
    decreases entries.len(),
{
    if entries.len() > 0 {
        let d = entries.drop_last();
        lemma_count_first_match(d, r, s, p);
        if count_matching(d, r, s, p) > 0 {
            let k = choose|k: int| first_match(d, r, s, p, k);
            assert forall|j: int| 0 <= j < k implies !is_match(entries[j], r, s, p) by {
                assert(entries[j] == d[j]);
            }
            assert(first_match(entries, r, s, p, k));
        } else if is_match(entries.last(), r, s, p) {
            assert forall|j: int| 0 <= j < entries.len() - 1 implies !is_match(entries[j], r, s, p) by {
                if is_match(entries[j], r, s, p) {
                    assert(is_match(d[j], r, s, p));
                    lemma_count_positive(d, r, s, p, j);
                }
            }
            assert(first_match(entries, r, s, p, entries.len() - 1));
        } else {
            if exists|i: int| first_match(entries, r, s, p, i) {
                let k = choose|k: int| first_match(entries, r, s, p, k);
                assert(k != entries.len() - 1);
                assert(is_match(d[k], r, s, p));
                lemma_count_positive(d, r, s, p, k);
            }
        }
    }
}

proof fn lemma_count_positive(entries: Seq<EntryView>, r: Seq<u8>, s: Seq<u8>, p: Seq<u8>, j: int)
    requires
        0 <= j < entries.len(),
        is_match(entries[j], r, s, p),
    ensures
        count_matching(entries, r, s, p) > 0,
    decreases entries.len(),
{
    if j < entries.len() - 1 {
        lemma_count_positive(entries.drop_last(), r, s, p, j);
    }
}

/// A message is taken out of the cache once per time it was put in: putting
/// `(r, s, p)` in adds one such entry, and each acknowledgement of it removes
/// one while there is one left and changes nothing once there is none. So
/// after one enqueue on a cache that held no such entry, the first
/// acknowledgement restores the cache and a second one is a no-op.
pub proof fn lemma_acknowledge_removes_once(entries: Seq<EntryView>, r: Seq<u8>, s: Seq<u8>, p: Seq<u8>)
    ensures
        count_matching(entries.push(EntryView { recipient: r, sender: s, payload: p }), r, s, p)
            == count_matching(entries, r, s, p) + 1,
        count_matching(entries, r, s, p) > 0 ==> count_matching(acknowledge_spec(entries, r, s, p), r, s, p)
            == count_matching(entries, r, s, p) - 1,
        count_matching(entries, r, s, p) == 0 ==> acknowledge_spec(entries, r, s, p) == entries,
        count_matching(entries, r, s, p) == 0 ==> ({
            let added = entries.push(EntryView { recipient: r, sender: s, payload: p });
            let once = acknowledge_spec(added, r, s, p);
            &&& once == entries
            &&& acknowledge_spec(once, r, s, p) == entries
        }),
{
    let e = EntryView { recipient: r, sender: s, payload: p };
    let added = entries.push(e);
    assert(added.drop_last() =~= entries);
    lemma_count_first_match(entries, r, s, p);
    if count_matching(entries, r, s, p) > 0 {
        let i = choose|i: int| first_match(entries, r, s, p, i);
        lemma_count_remove(entries, r, s, p, i);
    }
    if count_matching(entries, r, s, p) == 0 {
        lemma_count_first_match(added, r, s, p);
        let k = choose|k: int| first_match(added, r, s, p, k);
        if k < entries.len() {
            assert(added[k] == entries[k]);
            lemma_count_positive(entries, r, s, p, k);
        }
        assert(added.remove(k) =~= entries);
    }
}

proof fn lemma_pending_for_append(a: Seq<EntryView>, b: Seq<EntryView>, u: Seq<u8>)
    ensures
        pending_for(a + b, u) == pending_for(a, u) + pending_for(b, u),
    decreases b.len(),
{
    if b.len() == 0 {
        assert(a + b =~= a);
        assert(pending_for(a, u) + pending_for(b, u) =~= pending_for(a, u));
    } else {
        lemma_pending_for_append(a, b.drop_last(), u);
        assert((a + b).drop_last() =~= a + b.drop_last());
        assert((a + b).last() == b.last());
        if b.last().recipient == u {
            assert(pending_for(a, u) + pending_for(b, u) =~= (pending_for(a, u) + pending_for(b.drop_last(), u)).push(b.last()));
        }
    }
}

proof fn lemma_others_hold_none(entries: Seq<EntryView>, u: Seq<u8>)
    ensures
        pending_for(others_of(entries, u), u) == Seq::<EntryView>::empty(),
    decreases entries.len(),
{
    if entries.len() > 0 {
        let d = entries.drop_last();
        lemma_others_hold_none(d, u);
        if entries.last().recipient != u {
            assert(others_of(entries, u).drop_last() =~= others_of(d, u));
        }
    }
}

/// Draining hands out everything put in for `u` since the last drain and
/// nothing else, oldest first, and leaves nothing for `u`: after a drain, a
/// run of enqueues `batch` leaves exactly the entries of `batch` for `u`.
pub proof fn lemma_drain_exhaustive(entries: Seq<EntryView>, batch: Seq<EntryView>, u: Seq<u8>)
    ensures
        pending_for(others_of(entries, u), u) == Seq::<EntryView>::empty(),
        pending_for(others_of(entries, u) + batch, u) == pending_for(batch, u),
{
    lemma_others_hold_none(entries, u);
    lemma_pending_for_append(others_of(entries, u), batch, u);
    assert(Seq::<EntryView>::empty() + pending_for(batch, u) =~= pending_for(batch, u));
}

/// The same holds of an acknowledgement that names only the recipient and
/// the payload: on a cache with no such message for `r`, a message put in
/// and then acknowledged twice is removed by the first acknowledgement, and
/// the second changes nothing.
pub proof fn lemma_acknowledge_payload_removes_once(entries: Seq<EntryView>, r: Seq<u8>, s: Seq<u8>, p: Seq<u8>)
    requires
        forall|j: int| 0 <= j < entries.len() ==> !is_payload_match(entries[j], r, p),
    ensures
        ({
            let added = entries.push(EntryView { recipient: r, sender: s, payload: p });
            let once = acknowledge_payload_spec(added, r, p);
            &&& once == entries
            &&& acknowledge_payload_spec(once, r, p) == entries
        }),
{
    let added = entries.push(EntryView { recipient: r, sender: s, payload: p });
    let last = entries.len() as int;
    assert forall|j: int| 0 <= j < last implies !is_payload_match(added[j], r, p) by {
        assert(added[j] == entries[j]);
    }
    assert(first_payload_match(added, r, p, last));
    let k = choose|k: int| first_payload_match(added, r, p, k);
    if k < last {
        assert(!is_payload_match(added[k], r, p));
    }
    assert(added.remove(last) =~= entries);
    assert(!exists|i: int| first_payload_match(entries, r, p, i));
}

/// The queue of unacknowledged messages of every recipient, oldest first.
pub struct DeliveryCache {
    pub entries: Vec<CacheEntry>,
}

impl View for DeliveryCache {
    type V = Seq<EntryView>;

    open spec fn view(&self) -> Seq<EntryView> {
        self.entries@.map_values(|e: CacheEntry| e@)
    }
}

impl DeliveryCache {
    /// An empty cache.
    pub fn new() -> (r: DeliveryCache)
        ensures
            r@ == Seq::<EntryView>::empty(),
    {
        let r = DeliveryCache { entries: Vec::new() };
        assert(r@ =~= Seq::<EntryView>::empty());
        r
    }

    /// How many messages wait, over all recipients.
    pub fn len(&self) -> (n: usize)
        ensures
            n == self@.len(),
    {
        self.entries.len()
    }

    /// Appends a message to the queue of `recipient`.
    pub fn enqueue(&mut self, recipient: Vec<u8>, sender: Vec<u8>, payload: Vec<u8>)
        ensures
            final(self)@ == old(self)@.push(
                EntryView { recipient: recipient@, sender: sender@, payload: payload@ },
            ),
    {
        let e = CacheEntry { recipient, sender, payload };
        self.entries.push(e);
        assert(self@ =~= old(self)@.push(e@));
    }

    /// Removes the first entry of `recipient` from `sender` that carries
    /// `payload`; tells whether there was one.
    pub fn acknowledge(&mut self, recipient: &[u8], sender: &[u8], payload: &[u8]) -> (found: bool)
        ensures
            final(self)@ == acknowledge_spec(old(self)@, recipient@, sender@, payload@),
            found == exists|i: int| first_match(old(self)@, recipient@, sender@, payload@, i),
    {
        let ghost v = self@;
        let mut i: usize = 0;
        while i < self.entries.len()
            invariant
                0 <= i <= self.entries@.len(),
                self@ == v,
                old(self)@ == v,
                forall|j: int| 0 <= j < i ==> !is_match(v[j], recipient@, sender@, payload@),
            decreases self.entries@.len() - i,
        {
            let e = &self.entries[i];
            assert(e@ == v[i as int]);
            if bytes_eq(e.recipient.as_slice(), recipient) && bytes_eq(e.sender.as_slice(), sender)
                && bytes_eq(e.payload.as_slice(), payload) {
                assert(first_match(v, recipient@, sender@, payload@, i as int));
                proof {
                    let k = choose|k: int| first_match(v, recipient@, sender@, payload@, k);
                    if k < i {
                        assert(!is_match(v[k], recipient@, sender@, payload@));
                    }
                    if i < k {
                        assert(!is_match(v[i as int], recipient@, sender@, payload@));
                    }
                }
                self.entries.remove(i);
                assert(self@ =~= v.remove(i as int));
                return true;
            }
            i = i + 1;
        }
        false
    }

    /// Removes the first entry of `recipient` that carries `payload`, whoever
    /// sent it; tells whether there was one.
    pub fn acknowledge_payload(&mut self, recipient: &[u8], payload: &[u8]) -> (found: bool)
        ensures
            final(self)@ == acknowledge_payload_spec(old(self)@, recipient@, payload@),
            found == exists|i: int| first_payload_match(old(self)@, recipient@, payload@, i),
    {
        let ghost v = self@;
        let mut i: usize = 0;
        while i < self.entries.len()
            invariant
                0 <= i <= self.entries@.len(),
                self@ == v,
                old(self)@ == v,
                forall|j: int| 0 <= j < i ==> !is_payload_match(v[j], recipient@, payload@),
            decreases self.entries@.len() - i,
        {
            let e = &self.entries[i];
            assert(e@ == v[i as int]);
            if bytes_eq(e.recipient.as_slice(), recipient) && bytes_eq(e.payload.as_slice(), payload) {
                assert(first_payload_match(v, recipient@, payload@, i as int));
                proof {
                    let k = choose|k: int| first_payload_match(v, recipient@, payload@, k);
                    if k < i {
                        assert(!is_payload_match(v[k], recipient@, payload@));
                    }
                    if i < k {
                        assert(!is_payload_match(v[i as int], recipient@, payload@));
                    }
                }
                self.entries.remove(i);
                assert(self@ =~= v.remove(i as int));
                return true;
            }
            i = i + 1;
        }
        false
    }

    /// Takes out every entry of `recipient`, oldest first, and keeps the rest.
    pub fn drain_and_clear(&mut self, recipient: &[u8]) -> (taken: Vec<CacheEntry>)
        ensures
            taken@.map_values(|e: CacheEntry| e@) == pending_for(old(self)@, recipient@),
            final(self)@ == others_of(old(self)@, recipient@),
    {
        let ghost v = self@;
        let mut taken: Vec<CacheEntry> = Vec::new();
        let mut kept: Vec<CacheEntry> = Vec::new();
        let mut i: usize = 0;
        while i < self.entries.len()
            invariant
                0 <= i <= self.entries@.len(),
                self@ == v,
                taken@.map_values(|e: CacheEntry| e@) == pending_for(v.subrange(0, i as int), recipient@),
                kept@.map_values(|e: CacheEntry| e@) == others_of(v.subrange(0, i as int), recipient@),
            decreases self.entries@.len() - i,
        {
            let ghost pre = v.subrange(0, i as int);
            assert(v.subrange(0, i + 1).drop_last() =~= pre);
            assert(v.subrange(0, i + 1).last() == v[i as int]);
            let e = self.entries[i].duplicate();
            assert(e@ == v[i as int]);
            if bytes_eq(e.recipient.as_slice(), recipient) {
                let ghost tv = taken@.map_values(|e: CacheEntry| e@);
                taken.push(e);
                assert(taken@.map_values(|e: CacheEntry| e@) =~= tv.push(v[i as int]));
            } else {
                let ghost kv = kept@.map_values(|e: CacheEntry| e@);
                kept.push(e);
                assert(kept@.map_values(|e: CacheEntry| e@) =~= kv.push(v[i as int]));
            }
            i = i + 1;
        }
        assert(v.subrange(0, v.len() as int) =~= v);
        self.entries = kept;
        taken
    }
}

/// An entry as it travels in an `UPDATE` list: `sender;payload`.
pub open spec fn entry_text(e: EntryView) -> Seq<u8> {
    e.sender + seq![FIELD_SEP] + e.payload
}

/// The body of an `UPDATE` frame that hands out `entries`.
pub open spec fn update_body_spec(entries: Seq<EntryView>) -> Seq<u8> {
    join_spec(entries.map_values(|e: EntryView| entry_text(e)), list_sep())
}

/// The body of an `UPDATE` frame that hands out `entries`.
pub fn update_body(entries: &Vec<CacheEntry>) -> (r: Vec<u8>)
    ensures
        r@ == update_body_spec(entries@.map_values(|e: CacheEntry| e@)),
{
    let ghost target = entries@.map_values(|e: CacheEntry| e@).map_values(|e: EntryView| entry_text(e));
    let mut parts: Vec<Vec<u8>> = Vec::new();
    let mut i: usize = 0;
    while i < entries.len()
        invariant
            0 <= i <= entries@.len(),
            target == entries@.map_values(|e: CacheEntry| e@).map_values(|e: EntryView| entry_text(e)),
            parts@.map_values(|p: Vec<u8>| p@) == target.subrange(0, i as int),
        decreases entries@.len() - i,
    {
        let e = &entries[i];
        let mut text = copy_range(e.sender.as_slice(), 0, e.sender.len());
        text.push(FIELD_SEP);
        append_bytes(&mut text, e.payload.as_slice());
        assert(e.sender@.subrange(0, e.sender@.len() as int) =~= e.sender@);
        assert(text@ =~= target[i as int]);
        let ghost before = parts@.map_values(|p: Vec<u8>| p@);
        parts.push(text);
        assert(parts@.map_values(|p: Vec<u8>| p@) =~= before.push(target[i as int]));
        assert(target.subrange(0, i + 1) =~= target.subrange(0, i as int).push(target[i as int]));
        i = i + 1;
    }
    assert(target.subrange(0, entries@.len() as int) =~= target);
    let sep = vec![LIST_SEP, LIST_SEP];
    assert(sep@ =~= list_sep());
    join(&parts, sep.as_slice())
}

} // verus!
