use vstd::prelude::*;
use crate::timestamp::{baseline_spec, update_baseline};

verus! {

/// Handle of a live receiver; zero stands for "not connected".
pub type ReceiverId = i8;

/// One live network receiver, shared by every element that names the same
/// stream and address.
pub struct ReceiverEntry<H> {
    pub id: ReceiverId,
    pub stream_name: String,
    pub ip: String,
    /// First vendor timestamp seen (100 ns ticks); zero while unset.
    pub initial_timestamp: u64,
    pub ref_count: u32,
    /// Connection and frame-sync handles, torn down when the count reaches zero.
    pub handle: H,
}

#[derive(Clone, Copy, Debug, PartialEq, Eq, Structural)]
pub enum RegistryError {
    /// No live receiver has this id.
    NotFound,
    /// A live receiver already serves this stream name and address.
    Duplicate,
    /// No fresh id is left, or the reference count is at its limit.
    Exhausted,
}

/// What `release` did.
pub enum Release<H> {
    /// The id named no live receiver: nothing happened.
    Unknown,
    /// Other references remain; the receiver stays.
    Shared,
    /// That was the last reference: the entry is gone and its handle is handed
    /// back for teardown.
    Removed(H),
}

/// Registry of live receivers keyed by small integer ids.
pub struct Registry<H> {
    entries: Vec<ReceiverEntry<H>>,
}

pub open spec fn entry_matches<H>(e: ReceiverEntry<H>, name: Seq<char>, ip: Seq<char>) -> bool {
    e.stream_name@ == name && e.ip@ == ip
}

impl<H> Registry<H> {
    pub closed spec fn entries_spec(&self) -> Seq<ReceiverEntry<H>> {
        self.entries@
    }

    /// Ids are positive and unique; counts are positive; no two entries serve
    /// the same stream and address.
    pub open spec fn wf(&self) -> bool {
        let e = self.entries_spec();
        &&& forall|i: int| 0 <= i < e.len() ==> 0 < #[trigger] e[i].id
        &&& forall|i: int| 0 <= i < e.len() ==> #[trigger] e[i].ref_count > 0
        &&& forall|i: int, j: int| 0 <= i < e.len() && 0 <= j < e.len() && i != j ==> #[trigger] e[i].id != #[trigger] e[j].id
        &&& forall|i: int, j: int| #![trigger e[i], e[j]] 0 <= i < e.len() && 0 <= j < e.len() && i != j
            ==> !entry_matches(e[j], e[i].stream_name@, e[i].ip@)
    }

    pub open spec fn has_id(&self, id: ReceiverId) -> bool {
        exists|i: int| 0 <= i < self.entries_spec().len() && #[trigger] self.entries_spec()[i].id == id
    }

    pub open spec fn has_match(&self, name: Seq<char>, ip: Seq<char>) -> bool {
        exists|i: int| 0 <= i < self.entries_spec().len() && entry_matches(#[trigger] self.entries_spec()[i], name, ip)
    }

    /// Reference count of `id`; zero when it is not live.
    pub open spec fn count_of(&self, id: ReceiverId) -> int {
        if self.has_id(id) {
            self.entries_spec()[choose|i: int| 0 <= i < self.entries_spec().len() && #[trigger] self.entries_spec()[i].id == id].ref_count as int
        } else {
            0
        }
    }

    /// `id` is the smallest positive id that no live entry holds.
    pub open spec fn is_smallest_free(&self, id: int) -> bool {
        &&& 0 < id <= i8::MAX
        &&& !self.has_id(id as i8)
        &&& forall|k: int| 0 < k < id ==> #[trigger] self.has_id(k as i8)
    }

    /// Every positive id is held by a live entry.
    pub open spec fn ids_exhausted(&self) -> bool {
        forall|k: int| 0 < k <= i8::MAX ==> #[trigger] self.has_id(k as i8)
    }

    /// The state after `acquire(name, ip)` returned `r` on `old`.
    pub open spec fn acquired(old: Self, new: Self, name: Seq<char>, ip: Seq<char>, r: Option<ReceiverId>) -> bool {
        let oe = old.entries_spec();
        let ne = new.entries_spec();
        match r {
            Some(id) => exists|i: int| 0 <= i < oe.len() && entry_matches(#[trigger] oe[i], name, ip)
                && oe[i].id == id && oe[i].ref_count < u32::MAX
                && ne == oe.update(i, ReceiverEntry { ref_count: (oe[i].ref_count + 1) as u32, ..oe[i] }),
            None => new == old,
        }
    }

    /// The state after `release(id)` dropped the last reference of `id` on `old`.
    pub open spec fn removed_last(old: Self, new: Self, id: ReceiverId) -> bool {
        exists|i: int| 0 <= i < old.entries_spec().len()
            && #[trigger] old.entries_spec()[i].id == id && old.entries_spec()[i].ref_count == 1
            && new.entries_spec() == old.entries_spec().remove(i)
    }

    /// The state after `release(id)` dropped one of several references of `id`
    /// on `old`: that entry's count is one lower, all else stays.
    pub open spec fn released_shared(old: Self, new: Self, id: ReceiverId) -> bool {
        exists|i: int| 0 <= i < old.entries_spec().len()
            && #[trigger] old.entries_spec()[i].id == id && old.entries_spec()[i].ref_count > 1
            && new.entries_spec() == old.entries_spec().update(i,
                ReceiverEntry { ref_count: (old.entries_spec()[i].ref_count - 1) as u32, ..old.entries_spec()[i] })
    }

    /// The state after `insert(name, ip, _)` registered `id` on `old`: one new
    /// entry at the end, for `name` at `ip`, with one reference and no
    /// baseline; all else stays.
    pub open spec fn inserted(old: Self, new: Self, name: Seq<char>, ip: Seq<char>, id: ReceiverId) -> bool {
        let ne = new.entries_spec();
        &&& old.is_smallest_free(id as int)
        &&& ne.len() == old.entries_spec().len() + 1
        &&& ne.drop_last() == old.entries_spec()
        &&& ne.last().id == id
        &&& entry_matches(ne.last(), name, ip)
        &&& ne.last().ref_count == 1
        &&& ne.last().initial_timestamp == 0
    }

    /// An empty registry.
    pub fn new() -> (r: Registry<H>)
        ensures
            r.wf(),
            r.entries_spec().len() == 0,
            !r.ids_exhausted(),
            r.is_smallest_free(1),
    {
        let r = Registry { entries: Vec::new() };
        proof {
            assert(!r.has_id((1 as int) as i8));
        }
        r
    }

    /// Number of live receivers.
    pub fn len(&self) -> (r: usize)
        ensures
            r == self.entries_spec().len(),
    {
        self.entries.len()
    }

    fn find(&self, name: &String, ip: &String) -> (r: Option<usize>)
        ensures
            r matches Some(i) ==> i < self.entries_spec().len() && entry_matches(self.entries_spec()[i as int], name@, ip@),
            r is None ==> !self.has_match(name@, ip@),
    {
        let mut i: usize = 0;
        while i < self.entries.len()
            invariant
                i <= self.entries@.len(),
                forall|k: int| 0 <= k < i ==> !entry_matches(#[trigger] self.entries@[k], name@, ip@),
            decreases self.entries@.len() - i,
        {
            if self.entries[i].stream_name == *name && self.entries[i].ip == *ip {
                return Some(i);
            }
            i = i + 1;
        }
        None
    }

    fn position(&self, id: ReceiverId) -> (r: Option<usize>)
        ensures
            r matches Some(i) ==> i < self.entries_spec().len() && self.entries_spec()[i as int].id == id,
            r is None ==> !self.has_id(id),
    {
        let mut i: usize = 0;
        while i < self.entries.len()
            invariant
                i <= self.entries@.len(),
                forall|k: int| 0 <= k < i ==> (#[trigger] self.entries@[k]).id != id,
            decreases self.entries@.len() - i,
        {
            if self.entries[i].id == id {
                return Some(i);
            }
            i = i + 1;
        }
        None
    }

    /// The smallest positive id that no live entry holds, if any is left.
    fn free_id(&self) -> (r: Option<ReceiverId>)
        ensures
            r matches Some(id) ==> self.is_smallest_free(id as int),
            r is None <==> self.ids_exhausted(),
    {
        let mut cand: i8 = 1;
        loop
            invariant
                1 <= cand <= i8::MAX,
                forall|k: int| 0 < k < cand ==> #[trigger] self.has_id(k as i8),
            decreases i8::MAX - cand,
        {
            if self.position(cand).is_none() {
                proof {
                    assert(!self.has_id((cand as int) as i8));
                }
                return Some(cand);
            }
            if cand == i8::MAX {
                proof {
                    assert forall|k: int| 0 < k <= i8::MAX implies #[trigger] self.has_id(k as i8) by {
                        if k == i8::MAX {
                            assert(k as i8 == cand);
                        }
                    }
                }
                return None;
            }
            cand = cand + 1;
        }
    }

    /// Joins the live receiver serving `name` at `ip`, counting one more
    /// reference, and returns its id. `None` when there is none (a connection
    /// must then be made and `insert`ed) or its count is at its limit.
    pub fn acquire(&mut self, name: &String, ip: &String) -> (r: Option<ReceiverId>)
        requires
            old(self).wf(),
        ensures
            final(self).wf(),
            Self::acquired(*old(self), *final(self), name@, ip@, r),
            r.is_some() <==> exists|i: int| 0 <= i < old(self).entries_spec().len()
                && entry_matches(#[trigger] old(self).entries_spec()[i], name@, ip@)
                && old(self).entries_spec()[i].ref_count < u32::MAX,
    {
        match self.find(name, ip) {
            None => None,
            Some(i) => {
                if self.entries[i].ref_count == u32::MAX {
                    None
                } else {
                    let c = self.entries[i].ref_count + 1;
                    self.entries[i].ref_count = c;
                    proof {
                        assert(self.entries@ == old(self).entries@.update(i as int,
                            ReceiverEntry { ref_count: c, ..old(self).entries@[i as int] }));
                        assert(entry_matches(old(self).entries@[i as int], name@, ip@));
                    }
                    Some(self.entries[i].id)
                }
            }
        }
    }

    /// Registers a freshly made connection for `name` at `ip` with one
    /// reference under the smallest free id, and returns that id. On failure
    /// the handle is handed back with the error.
    pub fn insert(&mut self, name: &String, ip: &String, handle: H) -> (r: Result<ReceiverId, (RegistryError, H)>)
        requires
            old(self).wf(),
        ensures
            final(self).wf(),
            (r matches Err((e, _)) && e == RegistryError::Duplicate) <==> old(self).has_match(name@, ip@),
            (r matches Err((e, _)) && e == RegistryError::Exhausted)
                <==> (!old(self).has_match(name@, ip@) && old(self).ids_exhausted()),
            r matches Err((_, h)) ==> h == handle,
            r.is_err() ==> *final(self) == *old(self),
            r.is_ok() <==> (!old(self).has_match(name@, ip@) && !old(self).ids_exhausted()),
            r matches Ok(id) ==> Self::inserted(*old(self), *final(self), name@, ip@, id),
    {
        if self.find(name, ip).is_some() {
            return Err((RegistryError::Duplicate, handle));
        }
        let id = match self.free_id() {
            None => return Err((RegistryError::Exhausted, handle)),
            Some(id) => id,
        };
        let entry = ReceiverEntry {
            id,
            stream_name: name.clone(),
            ip: ip.clone(),
            initial_timestamp: 0,
            ref_count: 1,
            handle,
        };
        self.entries.push(entry);
        proof {
            let oe = old(self).entries_spec();
            let ne = self.entries_spec();
            assert(ne.drop_last() =~= oe);
            assert forall|i: int| 0 <= i < oe.len() implies #[trigger] oe[i].id != id by {}
            assert forall|i: int| 0 <= i < oe.len() implies !entry_matches(#[trigger] oe[i], name@, ip@) by {}
            assert forall|i: int| 0 <= i < oe.len() implies #[trigger] ne[i] == oe[i] by {}
            assert(ne[oe.len() as int] == entry);
        }
        Ok(id)
    }

    /// Drops one reference to `id`. At the last one the entry leaves the
    /// registry and its handle is handed back; an unknown id is a no-op.
    pub fn release(&mut self, id: ReceiverId) -> (r: Release<H>)
        requires
            old(self).wf(),
        ensures
            final(self).wf(),
            r is Unknown <==> !old(self).has_id(id),
            r is Unknown ==> *final(self) == *old(self),
            r is Shared <==> old(self).count_of(id) > 1,
            r is Removed <==> (old(self).has_id(id) && old(self).count_of(id) == 1),
            r is Shared ==> Self::released_shared(*old(self), *final(self), id),
            r is Shared ==> final(self).has_id(id) && final(self).count_of(id) == old(self).count_of(id) - 1,
            r is Removed ==> Self::removed_last(*old(self), *final(self), id),
    {
        match self.position(id) {
            None => Release::Unknown,
            Some(i) => {
                proof {
                    lemma_count_at(*old(self), i as int);
                }
                if self.entries[i].ref_count > 1 {
                    let c = self.entries[i].ref_count - 1;
                    self.entries[i].ref_count = c;
                    proof {
                        assert(self.entries@ == old(self).entries@.update(i as int,
                            ReceiverEntry { ref_count: c, ..old(self).entries@[i as int] }));
                        lemma_count_at(*self, i as int);
                    }
                    Release::Shared
                } else {
                    let e = self.entries.remove(i);
                    proof {
                        assert(self.entries@ == old(self).entries@.remove(i as int));
                    }
                    Release::Removed(e.handle)
                }
            }
        }
    }

    /// The live entry with this id; `NotFound` for an unknown id or zero.
    pub fn get(&self, id: ReceiverId) -> (r: Result<&ReceiverEntry<H>, RegistryError>)
        requires
            self.wf(),
        ensures
            r.is_err() <==> !self.has_id(id),
            r.is_err() ==> r == Err::<&ReceiverEntry<H>, RegistryError>(RegistryError::NotFound),
            r matches Ok(e) ==> e.id == id && exists|i: int| 0 <= i < self.entries_spec().len()
                && #[trigger] self.entries_spec()[i] == *e,
    {
        match self.position(id) {
            None => Err(RegistryError::NotFound),
            Some(i) => Ok(&self.entries[i]),
        }
    }

    /// Offers the vendor stamp `ts` of a first frame as the baseline of `id`
    /// and returns the baseline kept.
    pub fn record_initial_timestamp(&mut self, id: ReceiverId, ts: u64) -> (r: Result<u64, RegistryError>)
        requires
            old(self).wf(),
        ensures
            final(self).wf(),
            r.is_err() <==> !old(self).has_id(id),
            r.is_err() ==> *final(self) == *old(self),
            r matches Ok(b) ==> exists|i: int| 0 <= i < old(self).entries_spec().len()
                && #[trigger] old(self).entries_spec()[i].id == id
                && b == baseline_spec(old(self).entries_spec()[i].initial_timestamp as int, ts as int)
                && final(self).entries_spec() == old(self).entries_spec().update(i,
                    ReceiverEntry { initial_timestamp: b, ..old(self).entries_spec()[i] }),
    {
        match self.position(id) {
            None => Err(RegistryError::NotFound),
            Some(i) => {
                let b = update_baseline(self.entries[i].initial_timestamp, ts);
                self.entries[i].initial_timestamp = b;
                proof {
                    assert(self.entries@ == old(self).entries@.update(i as int,
                        ReceiverEntry { initial_timestamp: b, ..old(self).entries@[i as int] }));
                }
                Ok(b)
            }
        }
    }

} // impl

/// Acquiring the same stream and address twice in a row returns the same id
/// both times, and each acquisition adds exactly one reference to it.
pub proof fn lemma_acquire_same_id<H>(
    r0: Registry<H>, r1: Registry<H>, r2: Registry<H>,
    name: Seq<char>, ip: Seq<char>, a: ReceiverId, b: ReceiverId,
)
    requires
        r0.wf(),
        Registry::acquired(r0, r1, name, ip, Some(a)),
        Registry::acquired(r1, r2, name, ip, Some(b)),
    ensures
        a == b,
        r1.count_of(a) == r0.count_of(a) + 1,
        r2.count_of(a) == r0.count_of(a) + 2,
{
    let e0 = r0.entries_spec();
    let e1 = r1.entries_spec();
    let e2 = r2.entries_spec();
    let i = choose|i: int| 0 <= i < e0.len() && entry_matches(#[trigger] e0[i], name, ip)
        && e0[i].id == a && e0[i].ref_count < u32::MAX
        && e1 == e0.update(i, ReceiverEntry { ref_count: (e0[i].ref_count + 1) as u32, ..e0[i] });
    let j = choose|j: int| 0 <= j < e1.len() && entry_matches(#[trigger] e1[j], name, ip)
        && e1[j].id == b && e1[j].ref_count < u32::MAX
        && e2 == e1.update(j, ReceiverEntry { ref_count: (e1[j].ref_count + 1) as u32, ..e1[j] });
    assert(e1[j].stream_name == e0[j].stream_name && e1[j].ip == e0[j].ip);
    assert(j == i);
    assert forall|p: int| 0 <= p < e0.len() implies #[trigger] e1[p].id == e0[p].id && e2[p].id == e0[p].id by {}
    lemma_count_at(r0, i);
    lemma_count_at(r1, i);
    lemma_count_at(r2, i);
}

pub(crate) proof fn lemma_count_at<H>(r: Registry<H>, i: int)
    requires
        0 <= i < r.entries_spec().len(),
        forall|p: int, q: int| 0 <= p < r.entries_spec().len() && 0 <= q < r.entries_spec().len() && p != q
            ==> #[trigger] r.entries_spec()[p].id != #[trigger] r.entries_spec()[q].id,
    ensures
        r.has_id(r.entries_spec()[i].id),
        r.count_of(r.entries_spec()[i].id) == r.entries_spec()[i].ref_count,
{
    let e = r.entries_spec();
    let id = e[i].id;
    assert(r.has_id(id));
    let k = choose|k: int| 0 <= k < e.len() && #[trigger] e[k].id == id;
    assert(k == i);
}

/// Once `release` has dropped the last reference of an id, the id names no
/// live receiver, so `get` on it fails with `NotFound`.
pub proof fn lemma_released_not_found<H>(r0: Registry<H>, r1: Registry<H>, id: ReceiverId)
    requires
        r0.wf(),
        Registry::removed_last(r0, r1, id),
    ensures
        !r1.has_id(id),
        r1.count_of(id) == 0,
{
    let e0 = r0.entries_spec();
    let e1 = r1.entries_spec();
    let i = choose|i: int| 0 <= i < e0.len() && #[trigger] e0[i].id == id && e0[i].ref_count == 1
        && e1 == e0.remove(i);
    assert forall|k: int| 0 <= k < e1.len() implies #[trigger] e1[k].id != id by {
        if k < i {
            assert(e1[k] == e0[k]);
        } else {
            assert(e1[k] == e0[k + 1]);
        }
    }
}

} // verus!
