//! The pooled sandboxed-interpreter host: a bounded arena of interpreter
//! slots built from one active manifest, with a checkout/return protocol
//! and atomic manifest replacement.
//!
//! Each slot stands for one live interpreter instance and records the
//! manifest that instance was built from. The embedder owns the actual
//! interpreters, keyed by slot index; the pool decides which slot a caller
//! gets, bounds concurrent use, and rules how a swap treats slots that are
//! checked out.

use vstd::prelude::*;

use crate::errors::BuildError;
use crate::manifest::{Manifest, ManifestView};

verus! {

/// One interpreter slot: whether it is checked out, and the manifest its
/// live instance was built from.
pub struct PoolSlot {
    /// Whether the slot is currently checked out.
    pub busy: bool,
    /// The manifest the slot's instance embodies.
    pub manifest: Manifest,
}

/// Mathematical view of a [`PoolSlot`].
pub struct SlotView {
    pub busy: bool,
    pub manifest: ManifestView,
}

impl View for PoolSlot {
    type V = SlotView;

    open spec fn view(&self) -> SlotView {
        SlotView { busy: self.busy, manifest: self.manifest@ }
    }
}

/// Number of checked-out slots.
pub open spec fn count_busy(s: Seq<SlotView>) -> nat
    decreases s.len(),
{
    if s.len() == 0 {
        0
    } else {
        count_busy(s.drop_last()) + if s.last().busy {
            1nat
        } else {
            0nat
        }
    }
}

/// Mathematical view of an [`InterpreterPool`].
pub struct PoolView {
    pub key: Seq<char>,
    pub version: u64,
    pub manifest: ManifestView,
    pub slots: Seq<SlotView>,
}

impl PoolView {
    /// Capacity is fixed at creation: the number of slots.
    pub open spec fn capacity(self) -> nat {
        self.slots.len()
    }

    /// How many slots are checked out.
    pub open spec fn busy_count(self) -> nat {
        count_busy(self.slots)
    }

    /// Every free slot embodies the active manifest, so a checkout
    /// initiated after a swap can only observe the new manifest.
    pub open spec fn wf(self) -> bool {
        forall|i: int|
            0 <= i < self.slots.len() ==> (!(#[trigger] self.slots[i]).busy ==> self.slots[i].manifest
                == self.manifest)
    }
}

/// An exclusive handle to one checked-out slot. `observed` records the
/// manifest the checkout saw; the slot keeps embodying exactly that
/// manifest until the handle is returned.
pub struct PoolCheckout {
    /// Index of the slot this handle owns.
    pub slot: usize,
    /// The manifest observed at checkout.
    pub observed: Ghost<ManifestView>,
}

impl PoolCheckout {
    /// The handle names a checked-out slot that still embodies the
    /// manifest observed at checkout.
    pub open spec fn valid(self, p: PoolView) -> bool {
        &&& (self.slot as int) < p.slots.len()
        &&& p.slots[self.slot as int].busy
        &&& p.slots[self.slot as int].manifest == self.observed@
    }
}

/// A bounded pool of interpreter instances keyed by a logical slot name.
pub struct InterpreterPool {
    key: String,
    version: u64,
    manifest: Manifest,
    slots: Vec<PoolSlot>,
}

impl View for InterpreterPool {
    type V = PoolView;

    closed spec fn view(&self) -> PoolView {
        PoolView {
            key: self.key@,
            version: self.version,
            manifest: self.manifest@,
            slots: Seq::new(self.slots@.len(), |i: int| self.slots@[i]@),
        }
    }
}

/// Checked-out slots never outnumber the pool's capacity.
pub proof fn lemma_pool_bound(p: PoolView)
    ensures
        p.busy_count() <= p.capacity(),
{
    lemma_count_le(p.slots);
}

/// The busy count is bounded by the slot count.
proof fn lemma_count_le(s: Seq<SlotView>)
    ensures
        count_busy(s) <= s.len(),
    decreases s.len(),
{
    if s.len() > 0 {
        lemma_count_le(s.drop_last());
    }
}

/// Updating one slot changes the busy count by the difference at that
/// slot.
proof fn lemma_count_update(s: Seq<SlotView>, i: int, x: SlotView)
    requires
        0 <= i < s.len(),
    ensures
        count_busy(s.update(i, x)) == count_busy(s) - (if s[i].busy {
            1int
        } else {
            0int
        }) + (if x.busy {
            1int
        } else {
            0int
        }),
    decreases s.len(),
{
    let u = s.update(i, x);
    if i == s.len() - 1 {
        assert(u.drop_last() =~= s.drop_last());
        assert(u.last() == x);
    } else {
        assert(u.drop_last() =~= s.drop_last().update(i, x));
        assert(u.last() == s.last());
        lemma_count_update(s.drop_last(), i, x);
    }
}

/// The pool is full exactly when every slot is busy.
proof fn lemma_count_full(s: Seq<SlotView>)
    ensures
        (count_busy(s) == s.len()) <==> (forall|i: int|
            0 <= i < s.len() ==> (#[trigger] s[i]).busy),
    decreases s.len(),
{
    if s.len() > 0 {
        let d = s.drop_last();
        lemma_count_full(d);
        lemma_count_le(d);
        assert(forall|i: int| 0 <= i < d.len() ==> #[trigger] d[i] == s[i]);
        if count_busy(s) == s.len() {
            assert(s.last().busy);
            assert(count_busy(d) == d.len());
            assert forall|i: int| 0 <= i < s.len() implies (#[trigger] s[i]).busy by {
                if i < s.len() - 1 {
                    assert(d[i] == s[i]);
                    assert(d[i].busy);
                } else {
                    assert(s[i] == s.last());
                }
            }
        }
        if forall|i: int| 0 <= i < s.len() ==> (#[trigger] s[i]).busy {
            assert forall|i: int| 0 <= i < d.len() implies (#[trigger] d[i]).busy by {
                assert(d[i] == s[i]);
                assert(s[i].busy);
            }
            assert(s.last().busy);
            assert(count_busy(d) == d.len());
        }
    }
}

/// The relation a successful swap establishes between the old pool, the
/// new pool and the new manifest.
pub open spec fn swapped(p: PoolView, q: PoolView, m: ManifestView) -> bool {
    &&& q.key == p.key
    &&& q.slots.len() == p.slots.len()
    &&& p.version < u64::MAX && q.version == p.version + 1
    &&& q.manifest == m
    &&& forall|i: int|
        0 <= i < p.slots.len() ==> #[trigger] q.slots[i] == (if p.slots[i].busy {
            p.slots[i]
        } else {
            SlotView { busy: false, manifest: m }
        })
}

/// No call ever observes a manifest half-replaced: after a swap every slot
/// embodies one whole manifest, either the one it already had (slots in
/// flight) or the new one (free slots), never a mixture of the two.
pub proof fn lemma_swap_isolation(p: PoolView, q: PoolView, m: ManifestView)
    requires
        swapped(p, q, m),
    ensures
        forall|i: int|
            0 <= i < q.slots.len() ==> (#[trigger] q.slots[i]).manifest == p.slots[i].manifest
                || q.slots[i].manifest == m,
        forall|i: int|
            0 <= i < q.slots.len() ==> ((#[trigger] q.slots[i]).busy ==> q.slots[i] == p.slots[i]),
{
}

/// Invoking a pure function with the same payload through the pool twice
/// yields identical output bytes: two handles checked out of pools with
/// the same active manifest observe the same manifest, so any function
/// whose output is determined by the manifest and the payload alone
/// produces the same bytes both times.
pub proof fn lemma_pure_call_idempotent(
    p1: PoolView,
    p2: PoolView,
    c1: PoolCheckout,
    c2: PoolCheckout,
    f: spec_fn(ManifestView, Seq<u8>) -> Seq<u8>,
    payload: Seq<u8>,
    out1: Seq<u8>,
    out2: Seq<u8>,
)
    requires
        p1.manifest == p2.manifest,
        c1.valid(p1),
        c2.valid(p2),
        c1.observed@ == p1.manifest,
        c2.observed@ == p2.manifest,
        out1 == f(c1.observed@, payload),
        out2 == f(c2.observed@, payload),
    ensures
        out1 == out2,
{
}

impl InterpreterPool {
    /// Builds a pool of `capacity` slots, each embodying `manifest`.
    pub fn new(key: String, manifest: Manifest, capacity: usize) -> (p: InterpreterPool)
        requires
            capacity >= 1,
        ensures
            p@.key == key@,
            p@.version == 0,
            p@.manifest == manifest@,
            p@.capacity() == capacity,
            p@.busy_count() == 0,
            p@.wf(),
    {
        let mut slots: Vec<PoolSlot> = Vec::new();
        let mut i: usize = 0;
        while i < capacity
            invariant
                i <= capacity,
                slots@.len() == i,
                forall|k: int|
                    0 <= k < i ==> !(#[trigger] slots@[k]).busy && slots@[k]@.manifest
                        == manifest@,
            decreases capacity - i,
        {
            slots.push(PoolSlot { busy: false, manifest: manifest.duplicate() });
            i = i + 1;
        }
        let p = InterpreterPool { key, version: 0, manifest, slots };
        proof {
            lemma_count_all_free(p@.slots);
        }
        p
    }

    /// The logical slot name the pool was registered under.
    pub fn slot_key(&self) -> (k: &String)
        ensures
            k@ == self@.key,
    {
        &self.key
    }

    /// How many times the manifest has been swapped.
    pub fn active_version(&self) -> (v: u64)
        ensures
            v == self@.version,
    {
        self.version
    }

    /// The manifest a checkout initiated now would observe.
    pub fn active_manifest(&self) -> (m: &Manifest)
        ensures
            m@ == self@.manifest,
    {
        &self.manifest
    }

    /// The fixed number of slots.
    pub fn capacity(&self) -> (c: usize)
        ensures
            c == self@.capacity(),
    {
        self.slots.len()
    }

    /// The manifest embodied by the instance a handle owns. This is what an
    /// in-flight call observes, and it stays what it was at checkout.
    pub fn instance_manifest(&self, c: &PoolCheckout) -> (m: &Manifest)
        requires
            c.valid(self@),
        ensures
            m@ == c.observed@,
    {
        &self.slots[c.slot].manifest
    }

    /// Tries to check one slot out: an exclusive handle to a free slot, or
    /// `None` when the key does not match the pool or every slot is in
    /// use. Callers that may wait repeat the attempt until their timeout
    /// elapses.
    #[verifier::loop_isolation(false)]
    pub fn try_checkout(&mut self, key: &str) -> (r: Option<PoolCheckout>)
        requires
            old(self)@.wf(),
        ensures
            final(self)@.key == old(self)@.key,
            final(self)@.version == old(self)@.version,
            final(self)@.manifest == old(self)@.manifest,
            final(self)@.slots.len() == old(self)@.slots.len(),
            final(self)@.wf(),
            match r {
                Some(c) => {
                    &&& key@ == old(self)@.key
                    &&& (c.slot as int) < old(self)@.slots.len()
                    &&& !old(self)@.slots[c.slot as int].busy
                    &&& c.observed@ == old(self)@.manifest
                    &&& c.valid(final(self)@)
                    &&& final(self)@.slots == old(self)@.slots.update(
                        c.slot as int,
                        SlotView { busy: true, manifest: old(self)@.manifest },
                    )
                    &&& old(self)@.busy_count() < old(self)@.capacity()
                    &&& final(self)@.busy_count() == old(self)@.busy_count() + 1
                },
                None => {
                    &&& final(self)@ == old(self)@
                    &&& (key@ != old(self)@.key || old(self)@.busy_count()
                        == old(self)@.capacity())
                },
            },
    {
        let needle = String::from_str(key);
        if !self.key.eq(&needle) {
            return None;
        }
        let n = self.slots.len();
        let mut i: usize = 0;
        while i < n
            invariant
                self@ == old(self)@,
                n == self.slots@.len(),
                i <= n,
                forall|k: int| 0 <= k < i ==> (#[trigger] self@.slots[k]).busy,
            decreases n - i,
        {
            if !self.slots[i].busy {
                let ghost before = self@;
                let m = self.manifest.duplicate();
                let ghost mv = m@;
                self.slots.set(i, PoolSlot { busy: true, manifest: m });
                proof {
                    assert(self@.slots =~= before.slots.update(
                        i as int,
                        SlotView { busy: true, manifest: before.manifest },
                    ));
                    lemma_count_update(
                        before.slots,
                        i as int,
                        SlotView { busy: true, manifest: before.manifest },
                    );
                    lemma_count_le(before.slots);
                    lemma_count_full(before.slots);
                }
                return Some(PoolCheckout { slot: i, observed: Ghost(self@.manifest) });
            }
            i = i + 1;
        }
        proof {
            lemma_count_full(self@.slots);
        }
        None
    }

    /// Returns a checked-out slot. A slot whose manifest went stale while
    /// it was out is rebuilt from the active manifest on return, so free
    /// slots always embody the active manifest.
    pub fn checkin(&mut self, c: PoolCheckout)
        requires
            old(self)@.wf(),
            (c.slot as int) < old(self)@.slots.len(),
            old(self)@.slots[c.slot as int].busy,
        ensures
            final(self)@.key == old(self)@.key,
            final(self)@.version == old(self)@.version,
            final(self)@.manifest == old(self)@.manifest,
            final(self)@.wf(),
            final(self)@.slots == old(self)@.slots.update(
                c.slot as int,
                SlotView { busy: false, manifest: old(self)@.manifest },
            ),
            final(self)@.busy_count() == old(self)@.busy_count() - 1,
    {
        let ghost before = self@;
        let m = self.manifest.duplicate();
        self.slots.set(c.slot, PoolSlot { busy: false, manifest: m });
        proof {
            assert(self@.slots =~= before.slots.update(
                c.slot as int,
                SlotView { busy: false, manifest: before.manifest },
            ));
            lemma_count_update(
                before.slots,
                c.slot as int,
                SlotView { busy: false, manifest: before.manifest },
            );
        }
    }

    /// Atomically replaces the active manifest. The embedder reports in
    /// `rebuild_ok` whether it could instantiate an interpreter from the
    /// new manifest; when it could not, the pool is left exactly as it
    /// was, previous manifest retained. On success every free slot is
    /// rebuilt from the new manifest and every checked-out slot is left
    /// untouched until its handle comes back.
    #[verifier::loop_isolation(false)]
    pub fn swap(&mut self, new_manifest: Manifest, rebuild_ok: bool) -> (r: Result<
        (),
        BuildError,
    >)
        requires
            old(self)@.wf(),
            old(self)@.version < u64::MAX,
        ensures
            match r {
                Ok(()) => {
                    &&& rebuild_ok
                    &&& swapped(old(self)@, final(self)@, new_manifest@)
                    &&& final(self)@.wf()
                    &&& final(self)@.busy_count() == old(self)@.busy_count()
                },
                Err(e) => {
                    &&& !rebuild_ok
                    &&& final(self)@ == old(self)@
                    &&& e is Instantiation
                },
            },
    {
        if !rebuild_ok {
            return Err(
                BuildError::Instantiation(
                    String::from_str("could not instantiate the new manifest"),
                ),
            );
        }
        let ghost before = self@;
        let n = self.slots.len();
        let mut i: usize = 0;
        while i < n
            invariant
                n == self.slots@.len(),
                self@.slots.len() == n,
                self@.key == before.key,
                self@.version == before.version,
                self@.manifest == before.manifest,
                i <= n,
                forall|k: int|
                    i <= k < n ==> #[trigger] self@.slots[k] == before.slots[k],
                forall|k: int|
                    0 <= k < i ==> #[trigger] self@.slots[k] == (if before.slots[k].busy {
                        before.slots[k]
                    } else {
                        SlotView { busy: false, manifest: new_manifest@ }
                    }),
                count_busy(self@.slots) == count_busy(before.slots),
            decreases n - i,
        {
            let ghost mid = self@;
            if !self.slots[i].busy {
                let m = new_manifest.duplicate();
                self.slots.set(i, PoolSlot { busy: false, manifest: m });
                proof {
                    assert(self@.slots =~= mid.slots.update(
                        i as int,
                        SlotView { busy: false, manifest: new_manifest@ },
                    ));
                    lemma_count_update(
                        mid.slots,
                        i as int,
                        SlotView { busy: false, manifest: new_manifest@ },
                    );
                }
            }
            i = i + 1;
        }
        self.version = self.version + 1;
        self.manifest = new_manifest;
        Ok(())
    }
}

/// A pool whose slots are all free has no checkout outstanding.
proof fn lemma_count_all_free(s: Seq<SlotView>)
    requires
        forall|i: int| 0 <= i < s.len() ==> !(#[trigger] s[i]).busy,
    ensures
        count_busy(s) == 0,
    decreases s.len(),
{
    if s.len() > 0 {
        assert(forall|i: int| 0 <= i < s.len() - 1 ==> s.drop_last()[i] == s[i]);
        lemma_count_all_free(s.drop_last());
    }
}

} // verus!
