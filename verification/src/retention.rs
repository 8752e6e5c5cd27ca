//! Retention: how many distinct resources one frame may keep alive, and
//! which of them may repeat — plus the keyed tables the record paths use
//! to hold each resource once however many items name it.

use vstd::prelude::*;
use crate::frame::{
    claim_of, initial_retention, item_bindings, note_bindings, note_frame_data, note_item,
    note_items, note_key, note_pass, note_passes, BindingRef, FrameDataRef, FrameRefusal, Item,
    Pass, PassTarget, RenderDesc, RetentionState, MAX_RETAINED_RESOURCES,
};

verus! {

/// Every buffer has at most one recorded claim.
pub open spec fn claims_wf(buffers: Seq<FrameDataRef>) -> bool {
    forall|i: int, j: int| 0 <= i < buffers.len() && 0 <= j < buffers.len() && i != j ==> buffers[i].buffer != buffers[j].buffer
}

proof fn lemma_note_bindings_stops(state: RetentionState, bindings: Seq<BindingRef>, k: int)
    requires
        0 <= k <= bindings.len(),
        note_bindings(state, bindings.take(k)) is Err,
    ensures
        note_bindings(state, bindings) == note_bindings(state, bindings.take(k)),
    decreases bindings.len() - k,
{
    if k == bindings.len() {
        assert(bindings.take(k) =~= bindings);
    } else {
        assert(bindings.take(k + 1).drop_last() =~= bindings.take(k));
        lemma_note_bindings_stops(state, bindings, k + 1);
    }
}

proof fn lemma_note_items_stops(state: RetentionState, items: Seq<Item>, k: int)
    requires
        0 <= k <= items.len(),
        note_items(state, items.take(k)) is Err,
    ensures
        note_items(state, items) == note_items(state, items.take(k)),
    decreases items.len() - k,
{
    if k == items.len() {
        assert(items.take(k) =~= items);
    } else {
        assert(items.take(k + 1).drop_last() =~= items.take(k));
        lemma_note_items_stops(state, items, k + 1);
    }
}

proof fn lemma_note_passes_stops(passes: Seq<Pass>, k: int)
    requires
        0 <= k <= passes.len(),
        note_passes(passes.take(k)) is Err,
    ensures
        note_passes(passes) == note_passes(passes.take(k)),
    decreases passes.len() - k,
{
    if k == passes.len() {
        assert(passes.take(k) =~= passes);
    } else {
        assert(passes.take(k + 1).drop_last() =~= passes.take(k));
        lemma_note_passes_stops(passes, k + 1);
    }
}

/// The retention count, executed.
struct Tally {
    seen: Vec<u64>,
    buffers: Vec<FrameDataRef>,
}

impl Tally {
    spec fn state(&self) -> RetentionState {
        RetentionState { seen: self.seen@, buffers: self.buffers@ }
    }

#[verifier::loop_isolation(false)]
    fn note_key(&mut self, key: u64) -> (r: Result<(), FrameRefusal>)
        ensures
            final(self).buffers@ == old(self).buffers@,
            match note_key(old(self).state(), key) {
                Err(refusal) => r == Err::<(), FrameRefusal>(refusal),
                Ok(state) => r is Ok && final(self).state() == state,
            },
    {
        let mut i: usize = 0;
        while i < self.seen.len()
            invariant
                i <= self.seen@.len(),
                forall|j: int| 0 <= j < i ==> self.seen@[j] != key,
            decreases self.seen@.len() - i,
        {
            if self.seen[i] == key {
                assert(self.seen@.contains(key));
                return Ok(());
            }
            i = i + 1;
        }
        assert(!self.seen@.contains(key));
        if self.seen.len() >= MAX_RETAINED_RESOURCES {
            return Err(FrameRefusal::TooManyResources);
        }
        self.seen.push(key);
        assert(self.state() =~= note_key(old(self).state(), key)->Ok_0);
        Ok(())
    }

#[verifier::loop_isolation(false)]
    fn note_frame_data(&mut self, data: FrameDataRef) -> (r: Result<(), FrameRefusal>)
        requires
            claims_wf(old(self).buffers@),
        ensures
            claims_wf(final(self).buffers@),
            match note_frame_data(old(self).state(), data) {
                Err(refusal) => r == Err::<(), FrameRefusal>(refusal),
                Ok(state) => r is Ok && final(self).state() == state,
            },
    {
        let mut i: usize = 0;
        while i < self.buffers.len()
            invariant
                i <= self.buffers@.len(),
                forall|j: int| 0 <= j < i ==> self.buffers@[j].buffer != data.buffer,
            decreases self.buffers@.len() - i,
        {
            let prior = self.buffers[i];
            if prior.buffer == data.buffer {
                proof {
                    let chosen = choose|j: int| 0 <= j < self.buffers@.len() && self.buffers@[j].buffer == data.buffer;
                    assert(0 <= chosen < self.buffers@.len() && self.buffers@[chosen].buffer == data.buffer);
                    assert(chosen == i);
                    assert(claim_of(self.buffers@, data.buffer) == Some(prior));
                }
                if prior.address == data.address && prior.len == data.len && prior.instances == data.instances {
                    return Ok(());
                }
                return Err(FrameRefusal::ConflictingFrameData);
            }
            i = i + 1;
        }
        assert(claim_of(self.buffers@, data.buffer) is None);
        let ghost before = self.buffers@;
        match self.note_key(data.buffer) {
            Err(refusal) => return Err(refusal),
            Ok(()) => {},
        }
        self.buffers.push(data);
        proof {
            assert forall|a: int, b: int|
                0 <= a < self.buffers@.len() && 0 <= b < self.buffers@.len() && a != b
                implies self.buffers@[a].buffer != self.buffers@[b].buffer by {
                if a < before.len() && b < before.len() {
                } else if a == before.len() as int {
                    assert(before[b].buffer != data.buffer);
                } else {
                    assert(before[a].buffer != data.buffer);
                }
            }
        }
        Ok(())
    }

#[verifier::loop_isolation(false)]
    fn note_item(&mut self, item: &Item) -> (r: Result<(), FrameRefusal>)
        requires
            claims_wf(old(self).buffers@),
        ensures
            claims_wf(final(self).buffers@),
            match note_item(old(self).state(), *item) {
                Err(refusal) => r == Err::<(), FrameRefusal>(refusal),
                Ok(state) => r is Ok && final(self).state() == state,
            },
    {
        if let Some(mesh) = item.mesh {
            match self.note_key(mesh.key) {
                Err(refusal) => return Err(refusal),
                Ok(()) => {},
            }
        }
        let ghost after_mesh = self.state();
        let ghost bindings: Seq<BindingRef> = item_bindings(*item);
        if let Some(list) = item.bindings {
            let n = list.len();
            let mut j: usize = 0;
            while j < n
                invariant
                    n == list@.len(),
                    list@ == item_bindings(*item),
                    j <= n,
                    claims_wf(self.buffers@),
                    note_bindings(after_mesh, list@.take(j as int)) == Ok::<RetentionState, FrameRefusal>(self.state()),
                decreases n - j,
            {
                assert(list@.take(j as int + 1).drop_last() =~= list@.take(j as int));
                match self.note_key(list.get(j).key) {
                    Err(refusal) => {
                        proof { lemma_note_bindings_stops(after_mesh, list@, j as int + 1); }
                        return Err(refusal);
                    },
                    Ok(()) => {},
                }
                j = j + 1;
            }
            assert(list@.take(n as int) =~= list@);
        } else {
            assert(note_bindings(after_mesh, item_bindings(*item)) == Ok::<RetentionState, FrameRefusal>(after_mesh));
        }
        match item.frame_data {
            Some(data) => self.note_frame_data(data),
            None => Ok(()),
        }
    }

#[verifier::loop_isolation(false)]
    fn note_pass(&mut self, pass: &Pass) -> (r: Result<(), FrameRefusal>)
        requires
            claims_wf(old(self).buffers@),
        ensures
            claims_wf(final(self).buffers@),
            match note_pass(old(self).state(), *pass) {
                Err(refusal) => r == Err::<(), FrameRefusal>(refusal),
                Ok(state) => r is Ok && final(self).state() == state,
            },
    {
        if let PassTarget::Image(image, _) = pass.target {
            match self.note_key(image.key) {
                Err(refusal) => return Err(refusal),
                Ok(()) => {},
            }
        }
        let ghost after_target = self.state();
        let items = pass.items;
        let mut k: usize = 0;
        while k < items.len()
            invariant
                items@ == pass.items@,
                k <= items@.len(),
                claims_wf(self.buffers@),
                note_items(after_target, items@.take(k as int)) == Ok::<RetentionState, FrameRefusal>(self.state()),
            decreases items@.len() - k,
        {
            assert(items@.take(k as int + 1).drop_last() =~= items@.take(k as int));
            match self.note_item(&items[k]) {
                Err(refusal) => {
                    proof { lemma_note_items_stops(after_target, items@, k as int + 1); }
                    return Err(refusal);
                },
                Ok(()) => {},
            }
            k = k + 1;
        }
        assert(items@.take(items@.len() as int) =~= items@);
        Ok(())
    }
}

/// The retention half of the frame contract: at most
/// [`MAX_RETAINED_RESOURCES`] distinct resources, meshes, bindings and
/// pass-target images repeating freely, and one buffer carrying one
/// claim — pointer-identical data may repeat, different data may not.
#[verifier::loop_isolation(false)]
pub fn check_retention_bound(desc: &RenderDesc) -> (r: Result<(), FrameRefusal>)
    ensures
        match note_passes(desc.passes@) {
            Err(refusal) => r == Err::<(), FrameRefusal>(refusal),
            Ok(_) => r == Ok::<(), FrameRefusal>(()),
        },
{
    let passes = desc.passes;
    let mut tally = Tally { seen: Vec::new(), buffers: Vec::new() };
    assert(tally.state() =~= initial_retention());
    let mut i: usize = 0;
    while i < passes.len()
        invariant
            passes@ == desc.passes@,
            i <= passes@.len(),
            claims_wf(tally.buffers@),
            note_passes(passes@.take(i as int)) == Ok::<RetentionState, FrameRefusal>(tally.state()),
        decreases passes@.len() - i,
    {
        assert(passes@.take(i as int + 1).drop_last() =~= passes@.take(i as int));
        match tally.note_pass(&passes[i]) {
            Err(refusal) => {
                proof { lemma_note_passes_stops(passes@, i as int + 1); }
                return Err(refusal);
            },
            Ok(()) => {},
        }
        i = i + 1;
    }
    assert(passes@.take(passes@.len() as int) =~= passes@);
    Ok(())
}

/// One resource a frame's recorded work references, by class and
/// identity.
#[derive(Debug, Clone, Copy, PartialEq, Eq, Structural)]
pub enum Retained {
    /// A per-frame buffer.
    Frame(u64),
    /// A mesh.
    Mesh(u64),
    /// A binding.
    Binding(u64),
    /// A render image some pass targets.
    Image(u64),
}

/// Everything one item's recorded work references, in retention order:
/// its mesh, its per-frame buffer, then its bindings in slot order. The
/// push-constant bytes are copied into the command stream, so they hold
/// nothing.
pub open spec fn spec_retained_of(item: Item) -> Seq<Retained> {
    let mesh = match item.mesh {
        Some(m) => seq![Retained::Mesh(m.key)],
        None => Seq::empty(),
    };
    let data = match item.frame_data {
        Some(d) => seq![Retained::Frame(d.buffer)],
        None => Seq::empty(),
    };
    mesh + data + item_bindings(item).map_values(|b: BindingRef| Retained::Binding(b.key))
}

/// Everything one item's recorded work references, in retention order.
pub fn retained_of(item: &Item) -> (r: Vec<Retained>)
    ensures
        r@ == spec_retained_of(*item),
{
    let mut out: Vec<Retained> = Vec::new();
    match item.mesh {
        Some(m) => out.push(Retained::Mesh(m.key)),
        None => {},
    }
    match item.frame_data {
        Some(d) => out.push(Retained::Frame(d.buffer)),
        None => {},
    }
    let ghost head = out@;
    match &item.bindings {
        Some(bindings) => {
            let n = bindings.len();
            let mut i: usize = 0;
            while i < n
                invariant
                    n == bindings@.len(),
                    i <= n,
                    item.bindings == Some(*bindings),
                    out@ == head + bindings@.take(i as int).map_values(|b: BindingRef| Retained::Binding(b.key)),
                decreases n - i,
            {
                let b = bindings.get(i);
                out.push(Retained::Binding(b.key));
                proof {
                    assert(bindings@.take(i + 1) =~= bindings@.take(i as int).push(b));
                    assert(out@ =~= head + bindings@.take(i + 1).map_values(|b: BindingRef| Retained::Binding(b.key)));
                }
                i = i + 1;
            }
            proof {
                assert(bindings@.take(n as int) =~= bindings@);
            }
        },
        None => {
            assert(out@ =~= head + item_bindings(*item).map_values(|b: BindingRef| Retained::Binding(b.key)));
        },
    }
    out
}

/// Whether `resource` is already held in `held`: true for every class,
/// so several mentions of one resource spend one slot.
pub fn already_retained(resource: Retained, held: &[Option<Retained>]) -> (r: bool)
    ensures
        r == exists|i: int| 0 <= i < held@.len() && #[trigger] held@[i] == Some(resource),
{
    let mut i: usize = 0;
    while i < held.len()
        invariant
            i <= held@.len(),
            forall|j: int| 0 <= j < i ==> held@[j] != Some(resource),
        decreases held@.len() - i,
    {
        if held[i] == Some(resource) {
            assert(held@[i as int] == Some(resource));
            return true;
        }
        i = i + 1;
    }
    false
}

/// How many leading claim records are occupied: the table fills densely,
/// so this is the count of claims so far.
pub fn count_matters(records: &[Option<FrameDataRef>]) -> (n: usize)
    ensures
        n <= records@.len(),
        forall|j: int| 0 <= j < n ==> #[trigger] records@[j] is Some,
        n < records@.len() ==> records@[n as int] is None,
{
    let mut i: usize = 0;
    while i < records.len()
        invariant
            i <= records@.len(),
            forall|j: int| 0 <= j < i ==> #[trigger] records@[j] is Some,
        decreases records@.len() - i,
    {
        if records[i].is_none() {
            return i;
        }
        i = i + 1;
    }
    i
}

/// Which resources a frame has already claimed, so a resource named by
/// several items is handled once: retained once by a record path, or
/// copied once into its block.
pub struct BlockWrites {
    seen: Vec<u64>,
}

impl View for BlockWrites {
    type V = Seq<u64>;

    closed spec fn view(&self) -> Seq<u64> {
        self.seen@
    }
}

impl BlockWrites {
    /// The table never holds a key twice, nor more keys than a frame may
    /// retain.
    #[verifier::type_invariant]
    closed spec fn distinct_within_bound(self) -> bool {
        &&& self.seen@.no_duplicates()
        &&& self.seen@.len() <= MAX_RETAINED_RESOURCES
    }

    /// Nothing claimed yet — one per `render` call.
    pub fn new() -> (w: Self)
        ensures
            w@ == Seq::<u64>::empty(),
    {
        BlockWrites { seen: Vec::new() }
    }

    /// Whether `key` has been claimed this frame.
    pub fn contains(&self, key: u64) -> (r: bool)
        ensures
            r == self@.contains(key),
    {
        let mut i: usize = 0;
        while i < self.seen.len()
            invariant
                i <= self.seen@.len(),
                forall|j: int| 0 <= j < i ==> self.seen@[j] != key,
            decreases self.seen@.len() - i,
        {
            if self.seen[i] == key {
                assert(self.seen@.contains(key));
                return true;
            }
            i = i + 1;
        }
        false
    }

    /// Claim `key`, answering whether this frame had not claimed it yet.
    /// A full table answers "already claimed", the safe direction.
    pub fn first_time(&mut self, key: u64) -> (r: bool)
        ensures
            r == (!old(self)@.contains(key) && old(self)@.len() < MAX_RETAINED_RESOURCES),
            r ==> final(self)@ == old(self)@.push(key),
            !r ==> final(self)@ == old(self)@,
            final(self)@.no_duplicates(),
            final(self)@.len() <= MAX_RETAINED_RESOURCES,
    {
        proof { use_type_invariant(&*self); }
        if self.contains(key) {
            return false;
        }
        if self.seen.len() >= MAX_RETAINED_RESOURCES {
            return false;
        }
        let ghost before = self.seen@;
        proof {
            assert forall|i: int, j: int| 0 <= i < j < before.len() + 1 implies before.push(key)[i] != before.push(key)[j] by {
                if j == before.len() {
                    assert(before.contains(before[i]));
                }
            }
        }
        let mut seen: Vec<u64> = Vec::new();
        std::mem::swap(&mut seen, &mut self.seen);
        seen.push(key);
        self.seen = seen;
        true
    }
}

/// Claiming twice is claiming once: a key `first_time` just answered for
/// is answered "already claimed" on every later call, and the table
/// never holds a key twice.
pub proof fn lemma_claim_is_once(table: Seq<u64>, key: u64)
    requires
        !table.contains(key),
        table.len() < MAX_RETAINED_RESOURCES,
    ensures
        table.push(key).contains(key),
{
    assert(table.push(key)[table.len() as int] == key);
}

} // verus!
