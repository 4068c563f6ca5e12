//! The dispatcher: it owns the registered systems and the resource
//! reference, and drives every system forward one tick at a time.
//!
//! Each tick it partitions the systems into conflict-free concurrency
//! groups from their declared read and write sets (a greedy first-fit
//! coloring in registration order), points the reference at the live store,
//! advances the groups one after another, and clears the reference again.

use crate::resources::{
    ReadSpecification, ResourceReference, ResourceSpecification, Resources, WriteSpecification,
};
use crate::system::System;
use crate::Poll;
use vstd::prelude::*;

verus! {

/// One registered system: its declared read and write sets and its in-flight
/// unit of work. The declared sets are immutable for the registration's
/// lifetime; a system whose work completes is retired (never polled again).
pub struct SystemAndData<S> {
    pub reads: Vec<ReadSpecification>,
    pub writes: Vec<WriteSpecification>,
    pub system: S,
    pub done: bool,
}

/// Whether a declared read set contains the given resource type identity.
pub open spec fn has_read(reads: Seq<ReadSpecification>, type_id: u64) -> bool {
    exists|q: int| 0 <= q < reads.len() && reads[q].type_id == type_id
}

/// Whether a declared write set contains the given resource type identity.
pub open spec fn has_write(writes: Seq<WriteSpecification>, type_id: u64) -> bool {
    exists|q: int| 0 <= q < writes.len() && writes[q].type_id == type_id
}

impl<S> SystemAndData<S> {
    /// Whether this system declared any access, read or write, to the
    /// given resource type identity.
    pub open spec fn accesses(self, type_id: u64) -> bool {
        has_read(self.reads@, type_id) || has_write(self.writes@, type_id)
    }
}

/// Two registered systems conflict when the write set of either intersects
/// the read set or the write set of the other; read/read overlap never
/// conflicts.
pub open spec fn spec_conflicts<S>(a: SystemAndData<S>, b: SystemAndData<S>) -> bool {
    exists|type_id: u64|
        #![auto]
        (has_write(a.writes@, type_id) && b.accesses(type_id)) || (has_write(b.writes@, type_id)
            && a.accesses(type_id))
}

/// Two systems' declared accesses are disjoint: no resource type identity
/// is read or written by both.
pub open spec fn spec_disjoint<S>(a: SystemAndData<S>, b: SystemAndData<S>) -> bool {
    forall|type_id: u64| !(#[trigger] a.accesses(type_id) && #[trigger] b.accesses(type_id))
}

/// Law: the conflict relation is symmetric.
pub proof fn lemma_conflicts_symmetric<S>(a: SystemAndData<S>, b: SystemAndData<S>)
    ensures
        spec_conflicts(a, b) == spec_conflicts(b, a),
{
}

/// Law: systems whose declared accesses are disjoint never conflict.
pub proof fn lemma_disjoint_no_conflict<S>(a: SystemAndData<S>, b: SystemAndData<S>)
    requires
        spec_disjoint(a, b),
    ensures
        !spec_conflicts(a, b),
{
    if spec_conflicts(a, b) {
        let type_id = choose|type_id: u64|
            #![auto]
            (has_write(a.writes@, type_id) && b.accesses(type_id)) || (has_write(
                b.writes@,
                type_id,
            ) && a.accesses(type_id));
        assert(a.accesses(type_id) && b.accesses(type_id));
    }
}

/// Law: a system declaring no access at all conflicts with nothing, so it
/// is always placed in the first concurrency group.
pub proof fn lemma_no_access_no_conflict<S>(a: SystemAndData<S>, b: SystemAndData<S>)
    requires
        a.reads@.len() == 0,
        a.writes@.len() == 0,
    ensures
        !spec_conflicts(a, b),
{
    assert forall|type_id: u64| !(#[trigger] a.accesses(type_id) && b.accesses(type_id)) by {
        assert(!has_read(a.reads@, type_id));
        assert(!has_write(a.writes@, type_id));
    }
    lemma_disjoint_no_conflict(a, b);
}

/// Whether some system registered before system `i` conflicts with system
/// `i` and was given color `c`.
pub open spec fn color_used_before<S>(
    systems: Seq<SystemAndData<S>>,
    colors: Seq<usize>,
    i: int,
    c: int,
) -> bool {
    exists|j: int|
        #![auto]
        0 <= j < i && spec_conflicts(systems[j], systems[i]) && colors[j] == c
}

/// A greedy first-fit coloring of the registered systems in registration
/// order: conflicting systems never share a color, and each system's color
/// is the smallest one not already taken by an earlier conflicting system.
/// Systems that share a color form one concurrency group.
pub open spec fn is_first_fit<S>(systems: Seq<SystemAndData<S>>, colors: Seq<usize>) -> bool {
    &&& colors.len() == systems.len()
    &&& forall|i: int, j: int|
        0 <= j < i < systems.len() && #[trigger] spec_conflicts(systems[j], systems[i])
            ==> colors[j] != colors[i]
    &&& forall|i: int, c: int|
        0 <= i < systems.len() && 0 <= c < colors[i] ==> #[trigger] color_used_before(
            systems,
            colors,
            i,
            c,
        )
}

/// Law: under a first-fit coloring, two systems whose declared accesses
/// conflict are never placed in the same concurrency group, so they are
/// never advanced concurrently within a tick.
pub proof fn lemma_conflicting_never_concurrent<S>(
    systems: Seq<SystemAndData<S>>,
    colors: Seq<usize>,
    i: int,
    j: int,
)
    requires
        is_first_fit(systems, colors),
        0 <= i < systems.len(),
        0 <= j < systems.len(),
        i != j,
        spec_conflicts(systems[i], systems[j]),
    ensures
        colors[i] != colors[j],
{
    lemma_conflicts_symmetric(systems[i], systems[j]);
    if j < i {
        assert(spec_conflicts(systems[j], systems[i]));
    } else {
        assert(spec_conflicts(systems[i], systems[j]));
    }
}

/// Two first-fit colorings of the same systems agree on every system
/// before `i`.
proof fn lemma_first_fit_agree_prefix<S>(
    systems: Seq<SystemAndData<S>>,
    colors1: Seq<usize>,
    colors2: Seq<usize>,
    i: int,
)
    requires
        is_first_fit(systems, colors1),
        is_first_fit(systems, colors2),
        0 <= i <= systems.len(),
    ensures
        forall|j: int| 0 <= j < i ==> colors1[j] == colors2[j],
    decreases i,
{
    if i > 0 {
        lemma_first_fit_agree_prefix(systems, colors1, colors2, i - 1);
        let k = i - 1;
        if colors1[k] < colors2[k] {
            assert(color_used_before(systems, colors2, k, colors1[k] as int));
            let j = choose|j: int|
                #![auto]
                0 <= j < k && spec_conflicts(systems[j], systems[k]) && colors2[j] == colors1[k];
            assert(colors1[j] == colors2[j]);
            assert(false);
        }
        if colors2[k] < colors1[k] {
            assert(color_used_before(systems, colors1, k, colors2[k] as int));
            let j = choose|j: int|
                #![auto]
                0 <= j < k && spec_conflicts(systems[j], systems[k]) && colors1[j] == colors2[k];
            assert(colors1[j] == colors2[j]);
            assert(false);
        }
    }
}

/// Law: the first-fit coloring is unique, so the concurrency grouping the
/// dispatcher derives from the declared sets is deterministic and tick
/// ordering is reproducible from registration order alone.
pub proof fn lemma_first_fit_deterministic<S>(
    systems: Seq<SystemAndData<S>>,
    colors1: Seq<usize>,
    colors2: Seq<usize>,
)
    requires
        is_first_fit(systems, colors1),
        is_first_fit(systems, colors2),
    ensures
        colors1 == colors2,
{
    lemma_first_fit_agree_prefix(systems, colors1, colors2, systems.len() as int);
    assert(colors1 =~= colors2);
}

/// Law: a system that conflicts with no system registered before it is
/// always placed in the first concurrency group.
pub proof fn lemma_unconflicted_first_group<S>(
    systems: Seq<SystemAndData<S>>,
    colors: Seq<usize>,
    i: int,
)
    requires
        is_first_fit(systems, colors),
        0 <= i < systems.len(),
        forall|j: int| 0 <= j < i ==> !#[trigger] spec_conflicts(systems[j], systems[i]),
    ensures
        colors[i] == 0,
{
    if colors[i] != 0 {
        assert(color_used_before(systems, colors, i, 0));
        let j = choose|j: int|
            #![auto]
            0 <= j < i && spec_conflicts(systems[j], systems[i]) && colors[j] == 0;
        assert(false);
    }
}

/// Law: two systems each of whose declared accesses are disjoint from every
/// system registered before them land in the same (first) concurrency
/// group: systems with disjoint accesses are never spuriously serialized.
pub proof fn lemma_disjoint_same_group<S>(
    systems: Seq<SystemAndData<S>>,
    colors: Seq<usize>,
    i: int,
    j: int,
)
    requires
        is_first_fit(systems, colors),
        0 <= i < systems.len(),
        0 <= j < systems.len(),
        forall|k: int| 0 <= k < i ==> #[trigger] spec_disjoint(systems[k], systems[i]),
        forall|k: int| 0 <= k < j ==> #[trigger] spec_disjoint(systems[k], systems[j]),
    ensures
        colors[i] == colors[j],
        colors[i] == 0,
{
    assert forall|k: int| 0 <= k < i implies !#[trigger] spec_conflicts(
        systems[k],
        systems[i],
    ) by {
        lemma_disjoint_no_conflict(systems[k], systems[i]);
    }
    assert forall|k: int| 0 <= k < j implies !#[trigger] spec_conflicts(
        systems[k],
        systems[j],
    ) by {
        lemma_disjoint_no_conflict(systems[k], systems[j]);
    }
    lemma_unconflicted_first_group(systems, colors, i);
    lemma_unconflicted_first_group(systems, colors, j);
}

/// Whether the declared read set contains the given type identity.
fn reads_contain(reads: &Vec<ReadSpecification>, type_id: u64) -> (r: bool)
    ensures
        r == has_read(reads@, type_id),
{
    let mut q: usize = 0;
    while q < reads.len()
        invariant
            q <= reads@.len(),
            forall|p: int| 0 <= p < q ==> reads@[p].type_id != type_id,
        decreases reads@.len() - q,
    {
        if reads[q].type_id == type_id {
            return true;
        }
        q += 1;
    }
    false
}

/// Whether the declared write set contains the given type identity.
fn writes_contain(writes: &Vec<WriteSpecification>, type_id: u64) -> (r: bool)
    ensures
        r == has_write(writes@, type_id),
{
    let mut q: usize = 0;
    while q < writes.len()
        invariant
            q <= writes@.len(),
            forall|p: int| 0 <= p < q ==> writes@[p].type_id != type_id,
        decreases writes@.len() - q,
    {
        if writes[q].type_id == type_id {
            return true;
        }
        q += 1;
    }
    false
}

/// Decide whether two registered systems' declared accesses conflict:
/// whether the write set of either intersects the read or write set of the
/// other.
pub fn conflicts<S>(a: &SystemAndData<S>, b: &SystemAndData<S>) -> (r: bool)
    ensures
        r == spec_conflicts(*a, *b),
{
    let mut q: usize = 0;
    while q < a.writes.len()
        invariant
            q <= a.writes@.len(),
            forall|p: int| 0 <= p < q ==> !b.accesses(#[trigger] a.writes@[p].type_id),
        decreases a.writes@.len() - q,
    {
        let type_id = a.writes[q].type_id;
        if reads_contain(&b.reads, type_id) || writes_contain(&b.writes, type_id) {
            proof {
                assert(has_write(a.writes@, type_id));
                assert(b.accesses(type_id));
                assert(spec_conflicts(*a, *b));
            }
            return true;
        }
        q += 1;
    }
    let mut q2: usize = 0;
    while q2 < b.writes.len()
        invariant
            q2 <= b.writes@.len(),
            forall|p: int| 0 <= p < q2 ==> !a.accesses(#[trigger] b.writes@[p].type_id),
        decreases b.writes@.len() - q2,
    {
        let type_id = b.writes[q2].type_id;
        if reads_contain(&a.reads, type_id) || writes_contain(&a.writes, type_id) {
            proof {
                assert(has_write(b.writes@, type_id));
                assert(a.accesses(type_id));
                assert(spec_conflicts(*a, *b));
            }
            return true;
        }
        q2 += 1;
    }
    proof {
        if spec_conflicts(*a, *b) {
            let type_id = choose|type_id: u64|
                #![auto]
                (has_write(a.writes@, type_id) && b.accesses(type_id)) || (has_write(
                    b.writes@,
                    type_id,
                ) && a.accesses(type_id));
            if has_write(a.writes@, type_id) && b.accesses(type_id) {
                let p = choose|p: int| 0 <= p < a.writes@.len() && a.writes@[p].type_id == type_id;
                assert(!b.accesses(a.writes@[p].type_id));
            } else {
                let p = choose|p: int| 0 <= p < b.writes@.len() && b.writes@[p].type_id == type_id;
                assert(!a.accesses(b.writes@[p].type_id));
            }
        }
    }
    false
}

/// The scheduler: owns the registered systems and the resource reference,
/// and drives every system's pending work forward one tick at a time.
pub struct Dispatcher<S> {
    pub resource_reference: ResourceReference,
    pub systems: Vec<SystemAndData<S>>,
}

impl<S: System> Dispatcher<S> {
    /// Whether the dispatcher is between ticks: the resource reference is
    /// unset, so every handle access fails as unbound.
    pub open spec fn is_idle(self) -> bool {
        !self.resource_reference.is_bound()
    }

    /// Create a dispatcher with no registered systems and an unbound
    /// resource reference.
    pub fn new() -> (r: Dispatcher<S>)
        ensures
            r.is_idle(),
            r.systems@.len() == 0,
    {
        Dispatcher { resource_reference: ResourceReference::new(), systems: Vec::new() }
    }

    /// Add a system to the dispatcher, recording the read and write sets
    /// its data declares. The store is bound to the reference for the
    /// duration of the registration, exactly as for a tick.
    pub fn with<D: ResourceSpecification>(&mut self, resources: &mut Resources, system: S, data: &D)
        requires
            old(self).is_idle(),
        ensures
            final(self).is_idle(),
            final(self).systems@.len() == old(self).systems@.len() + 1,
            forall|i: int|
                0 <= i < old(self).systems@.len() ==> final(self).systems@[i] == old(
                    self,
                ).systems@[i],
            final(self).systems@.last().reads@ == data.read_specs(),
            final(self).systems@.last().writes@ == data.write_specs(),
            final(self).systems@.last().system == system,
            !final(self).systems@.last().done,
            *final(resources) == *old(resources),
    {
        let mut store = Resources::new();
        core::mem::swap(&mut store, resources);
        self.resource_reference.set_resources(store);

        let mut reads: Vec<ReadSpecification> = Vec::new();
        data.reads(&mut reads);
        let mut writes: Vec<WriteSpecification> = Vec::new();
        data.writes(&mut writes);
        proof {
            assert(reads@ =~= data.read_specs());
            assert(writes@ =~= data.write_specs());
        }

        self.systems.push(SystemAndData { reads, writes, system, done: false });

        match self.resource_reference.clear_resources() {
            Some(s) => {
                *resources = s;
            },
            None => {},
        }
    }

    /// Partition the registered systems into conflict-free concurrency
    /// groups: a greedy first-fit coloring in registration order. Systems
    /// given the same color may be advanced concurrently; the groups are
    /// advanced in ascending color order within a tick.
    pub fn plan(&self) -> (colors: Vec<usize>)
        ensures
            is_first_fit(self.systems@, colors@),
            forall|i: int| 0 <= i < colors@.len() ==> colors@[i] <= i,
    {
        let n = self.systems.len();
        let mut colors: Vec<usize> = Vec::new();
        while colors.len() < n
            invariant
                n == self.systems@.len(),
                colors@.len() <= n,
                forall|k: int| 0 <= k < colors@.len() ==> colors@[k] <= k,
                forall|i2: int, j2: int|
                    0 <= j2 < i2 < colors@.len() && #[trigger] spec_conflicts(
                        self.systems@[j2],
                        self.systems@[i2],
                    ) ==> colors@[j2] != colors@[i2],
                forall|i2: int, c2: int|
                    0 <= i2 < colors@.len() && 0 <= c2 < colors@[i2]
                        ==> #[trigger] color_used_before(self.systems@, colors@, i2, c2),
            decreases n - colors.len(),
        {
            let i = colors.len();
            let ghost prior = colors@;

            // mark every color already taken by an earlier conflicting system
            let mut used: Vec<bool> = Vec::new();
            while used.len() < i + 1
                invariant
                    i < n,
                    used@.len() <= i + 1,
                    forall|c2: int| 0 <= c2 < used@.len() ==> !used@[c2],
                decreases i + 1 - used.len(),
            {
                used.push(false);
            }

            let mut j: usize = 0;
            while j < i
                invariant
                    j <= i,
                    i < n == self.systems@.len(),
                    colors@.len() == i,
                    forall|k: int| 0 <= k < i ==> colors@[k] <= k,
                    used@.len() == i + 1,
                    !used@[i as int],
                    forall|c2: int|
                        0 <= c2 <= i && #[trigger] used@[c2] ==> color_used_before(
                            self.systems@,
                            colors@,
                            i as int,
                            c2,
                        ),
                    forall|j2: int|
                        0 <= j2 < j && #[trigger] spec_conflicts(
                            self.systems@[j2],
                            self.systems@[i as int],
                        ) ==> used@[colors@[j2] as int],
                decreases i - j,
            {
                if conflicts(&self.systems[j], &self.systems[i]) {
                    let cj = colors[j];
                    used.set(cj, true);
                }
                j += 1;
            }

            // the smallest color not yet taken; at most i, which is never taken
            let mut c: usize = 0;
            while used[c]
                invariant
                    c <= i,
                    used@.len() == i + 1,
                    !used@[i as int],
                    forall|c2: int| 0 <= c2 < c ==> used@[c2],
                decreases i - c,
            {
                c += 1;
            }

            colors.push(c);

            proof {
                assert forall|i2: int, c2: int|
                    0 <= i2 < colors@.len() && 0 <= c2 < colors@[i2] implies #[trigger] color_used_before(
                    self.systems@,
                    colors@,
                    i2,
                    c2,
                ) by {
                    if i2 < prior.len() {
                        assert(color_used_before(self.systems@, prior, i2, c2));
                        let j2 = choose|j2: int|
                            #![auto]
                            0 <= j2 < i2 && spec_conflicts(self.systems@[j2], self.systems@[i2])
                                && prior[j2] == c2;
                        assert(colors@[j2] == prior[j2]);
                    } else {
                        assert(i2 == i);
                        assert(used@[c2]);
                        assert(color_used_before(self.systems@, prior, i as int, c2));
                        let j2 = choose|j2: int|
                            #![auto]
                            0 <= j2 < i && spec_conflicts(self.systems@[j2], self.systems@[i as int])
                                && prior[j2] == c2;
                        assert(colors@[j2] == prior[j2]);
                    }
                }
                assert forall|i2: int, j2: int|
                    0 <= j2 < i2 < colors@.len() && #[trigger] spec_conflicts(
                        self.systems@[j2],
                        self.systems@[i2],
                    ) implies colors@[j2] != colors@[i2] by {
                    if i2 == i {
                        assert(used@[colors@[j2] as int]);
                        assert(!used@[c as int]);
                    }
                }
            }
        }
        colors
    }

    /// Run a single tick of the dispatcher: point the reference at the
    /// live store, advance every unretired system to its next suspension
    /// point or completion, one concurrency group after another, then
    /// clear the reference again. Completed systems are retired. Reports
    /// whether every registered system has now completed.
    ///
    /// The declared read and write sets of every registration are
    /// unchanged, and a system retired before this tick is left untouched.
    pub fn run(&mut self, resources: &mut Resources, current_frame: u64) -> (all_done: bool)
        requires
            old(self).is_idle(),
        ensures
            final(self).is_idle(),
            final(self).systems@.len() == old(self).systems@.len(),
            forall|i: int|
                0 <= i < old(self).systems@.len() ==> #[trigger] final(self).systems@[i].reads@
                    == old(self).systems@[i].reads@,
            forall|i: int|
                0 <= i < old(self).systems@.len() ==> #[trigger] final(self).systems@[i].writes@
                    == old(self).systems@[i].writes@,
            forall|i: int|
                0 <= i < old(self).systems@.len() && old(self).systems@[i].done ==> #[trigger] final(self).systems@[i]
                    == old(self).systems@[i],
            all_done == (forall|i: int|
                0 <= i < final(self).systems@.len() ==> #[trigger] final(self).systems@[i].done),
            (forall|i: int| 0 <= i < old(self).systems@.len() ==> #[trigger] old(
                self,
            ).systems@[i].done) ==> *final(resources) == *old(resources),
    {
        let colors = self.plan();
        let n = self.systems.len();

        let ghost entry_store = *resources;
        let mut store = Resources::new();
        core::mem::swap(&mut store, resources);
        self.resource_reference.set_resources(store);

        let mut c: usize = 0;
        while c < n
            invariant
                n == self.systems@.len(),
                n == old(self).systems@.len(),
                colors@.len() == n,
                forall|i: int|
                    0 <= i < n ==> #[trigger] self.systems@[i].reads@ == old(
                        self,
                    ).systems@[i].reads@,
                forall|i: int|
                    0 <= i < n ==> #[trigger] self.systems@[i].writes@ == old(
                        self,
                    ).systems@[i].writes@,
                forall|i: int|
                    0 <= i < n && old(self).systems@[i].done ==> #[trigger] self.systems@[i] == old(
                        self,
                    ).systems@[i],
                (forall|k: int| 0 <= k < n ==> #[trigger] old(self).systems@[k].done) ==> (
                self.resource_reference.is_bound() && self.resource_reference.store()
                    == entry_store),
            decreases n - c,
        {
            let mut i: usize = 0;
            while i < n
                invariant
                    n == self.systems@.len(),
                    n == old(self).systems@.len(),
                    colors@.len() == n,
                    forall|k: int|
                        0 <= k < n ==> #[trigger] self.systems@[k].reads@ == old(
                            self,
                        ).systems@[k].reads@,
                    forall|k: int|
                        0 <= k < n ==> #[trigger] self.systems@[k].writes@ == old(
                            self,
                        ).systems@[k].writes@,
                    forall|k: int|
                        0 <= k < n && old(self).systems@[k].done ==> #[trigger] self.systems@[k]
                            == old(self).systems@[k],
                    (forall|k: int| 0 <= k < n ==> #[trigger] old(self).systems@[k].done) ==> (
                    self.resource_reference.is_bound() && self.resource_reference.store()
                        == entry_store),
                decreases n - i,
            {
                if colors[i] == c && !self.systems[i].done {
                    let step = self.systems[i].system.poll_step(
                        &mut self.resource_reference,
                        current_frame,
                    );
                    match step {
                        Poll::Ready => {
                            self.systems[i].done = true;
                        },
                        Poll::Pending => {},
                    }
                }
                i += 1;
            }
            c += 1;
        }

        match self.resource_reference.clear_resources() {
            Some(s) => {
                *resources = s;
            },
            None => {},
        }

        let mut all_done = true;
        let mut k: usize = 0;
        while k < self.systems.len()
            invariant
                k <= self.systems@.len(),
                all_done == (forall|p: int|
                    0 <= p < k ==> #[trigger] self.systems@[p].done),
            decreases self.systems@.len() - k,
        {
            if !self.systems[k].done {
                all_done = false;
            }
            k += 1;
        }
        all_done
    }

    /// Just a convenience function to run this dispatcher as a tick-driven
    /// future over an owned store.
    pub fn into_future(self, resources: Resources) -> (r: DispatcherFuture<S>)
        ensures
            r.dispatcher == self,
            r.resources == resources,
    {
        DispatcherFuture { dispatcher: self, resources }
    }
}

/// The dispatcher driven as a future: each poll runs one full tick over the
/// owned store, and the future is ready once every registered system has
/// completed.
pub struct DispatcherFuture<S> {
    pub dispatcher: Dispatcher<S>,
    pub resources: Resources,
}

impl<S: System> DispatcherFuture<S> {
    /// Run one tick; `Ready` exactly when every system has completed.
    pub fn poll(&mut self, current_frame: u64) -> (r: Poll)
        requires
            old(self).dispatcher.is_idle(),
        ensures
            final(self).dispatcher.is_idle(),
            final(self).dispatcher.systems@.len() == old(self).dispatcher.systems@.len(),
            (r == Poll::Ready) == (forall|i: int|
                0 <= i < final(self).dispatcher.systems@.len() ==> #[trigger] final(self).dispatcher.systems@[i].done),
            (forall|i: int| 0 <= i < old(self).dispatcher.systems@.len() ==> #[trigger] old(
                self,
            ).dispatcher.systems@[i].done) ==> final(self).resources == old(self).resources,
    {
        let all_done = self.dispatcher.run(&mut self.resources, current_frame);
        if all_done {
            Poll::Ready
        } else {
            Poll::Pending
        }
    }
}

} // verus!
