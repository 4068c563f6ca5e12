//! The resource store, the indirection cell that suspended work resolves
//! resources through, and the declarative access protocol.
//!
//! A resource is a singleton value keyed by a numeric type identity: the
//! store holds at most one value per identity, and an insertion replaces any
//! prior value of the same identity.

use vstd::prelude::*;

verus! {

/// Why a handle access failed: the resource's type was never inserted, or
/// the access happened outside the window in which the dispatcher has the
/// reference bound to a live store.
#[derive(Clone, Copy, PartialEq, Eq, Structural, Debug)]
pub enum AccessError {
    ResourceMissing,
    ReferenceNotBound,
}

/// The backing table of the resource store: resource type identities mapped
/// to the stored values.
#[verifier::external_body]
pub struct ResourceTable {
    inner: hashbrown::HashMap<u64, u64>,
}

/// The mathematical contents of a backing table: which value, if any, each
/// resource type identity is mapped to.
pub uninterp spec fn table_contents(t: ResourceTable) -> Map<u64, u64>;

/// Relies on hashbrown::HashMap::new: creates an empty map.
#[verifier::external_body]
fn table_new() -> (r: ResourceTable)
    ensures
        forall|key: u64| !table_contents(r).contains_key(key),
{
    ResourceTable { inner: hashbrown::HashMap::new() }
}

/// Relies on hashbrown::HashMap::insert: maps the key to the value,
/// returning the value the key was mapped to before, if any.
#[verifier::external_body]
fn table_insert(t: &mut ResourceTable, key: u64, value: u64) -> (r: Option<u64>)
    ensures
        table_contents(*final(t)) == table_contents(*old(t)).insert(key, value),
        table_contents(*old(t)).contains_key(key)
            ==> r == Some(table_contents(*old(t))[key]),
        !table_contents(*old(t)).contains_key(key) ==> r is None,
{
    t.inner.insert(key, value)
}

/// Relies on hashbrown::HashMap::get: returns the value the key is mapped
/// to, or nothing when the key is absent.
#[verifier::external_body]
fn table_get(t: &ResourceTable, key: u64) -> (r: Option<u64>)
    ensures
        table_contents(*t).contains_key(key) ==> r == Some(table_contents(*t)[key]),
        !table_contents(*t).contains_key(key) ==> r is None,
{
    t.inner.get(&key).copied()
}

/// Shared resources: a table of singleton values, at most one per resource
/// type identity.
pub struct Resources {
    data: ResourceTable,
}

impl Resources {
    /// The store's contents: a map from resource type identity to the
    /// stored value.
    pub closed spec fn contents(self) -> Map<u64, u64> {
        table_contents(self.data)
    }

    /// Create a new, empty collection of resources.
    pub fn new() -> (r: Resources)
        ensures
            r.contents() == Map::<u64, u64>::empty(),
    {
        let table = table_new();
        proof {
            assert(table_contents(table) =~= Map::<u64, u64>::empty());
        }
        Resources { data: table }
    }

    /// Add the given resource, replacing any prior value of the same type.
    pub fn add_resource(&mut self, type_id: u64, value: u64)
        ensures
            final(self).contents() == old(self).contents().insert(type_id, value),
    {
        let _ = table_insert(&mut self.data, type_id, value);
    }

    /// Get the resource stored for the given type identity, if any.
    pub fn get(&self, type_id: u64) -> (r: Option<u64>)
        ensures
            self.contents().contains_key(type_id) ==> r == Some(self.contents()[type_id]),
            !self.contents().contains_key(type_id) ==> r is None,
    {
        table_get(&self.data, type_id)
    }

    /// Overwrite the resource stored for the given type identity; reports
    /// whether a value of that type was present to overwrite.
    pub fn set(&mut self, type_id: u64, value: u64) -> (r: bool)
        ensures
            r == old(self).contents().contains_key(type_id),
            r ==> final(self).contents() == old(self).contents().insert(type_id, value),
            !r ==> final(self).contents() == old(self).contents(),
    {
        match table_get(&self.data, type_id) {
            Some(_) => {
                let _ = table_insert(&mut self.data, type_id, value);
                true
            }
            None => false,
        }
    }
}

/// Law: inserting a resource and then reading the same type identity yields
/// exactly the inserted value, and inserting a second value of the same type
/// replaces the first, so that subsequent reads see only the new value.
pub proof fn lemma_resource_round_trip(
    before: Resources,
    after: Resources,
    again: Resources,
    type_id: u64,
    v1: u64,
    v2: u64,
)
    requires
        after.contents() == before.contents().insert(type_id, v1),
        again.contents() == after.contents().insert(type_id, v2),
    ensures
        after.contents().contains_key(type_id),
        after.contents()[type_id] == v1,
        again.contents().contains_key(type_id),
        again.contents()[type_id] == v2,
{
}

/// Indirection to access resources.
///
/// A suspended unit of work holds resource handles across many ticks while
/// the store it targets may legitimately move between ticks, so handles
/// never record the store itself: they resolve through this cell, which the
/// dispatcher points at the live store at the start of every tick and clears
/// at the end.
pub struct ResourceReference {
    resources: Option<Resources>,
}

impl ResourceReference {
    /// Whether the reference currently targets a live store.
    pub closed spec fn is_bound(self) -> bool {
        self.resources is Some
    }

    /// The store the reference currently targets.
    pub closed spec fn store(self) -> Resources {
        self.resources->Some_0
    }

    /// Create a new, unbound reference.
    pub fn new() -> (r: ResourceReference)
        ensures
            !r.is_bound(),
    {
        ResourceReference { resources: None }
    }

    /// Point the reference at a live store for the duration of a tick.
    pub fn set_resources(&mut self, resources: Resources)
        ensures
            final(self).is_bound(),
            final(self).store() == resources,
    {
        self.resources = Some(resources);
    }

    /// Unset the reference, handing the store back to its owner; every
    /// handle access until the next binding now fails as unbound.
    pub fn clear_resources(&mut self) -> (r: Option<Resources>)
        ensures
            !final(self).is_bound(),
            old(self).is_bound() ==> r == Some(old(self).store()),
            !old(self).is_bound() ==> r is None,
    {
        self.resources.take()
    }

    /// Resolve read access to the resource of the given type identity
    /// through the current target.
    pub fn get(&self, type_id: u64) -> (r: Result<u64, AccessError>)
        ensures
            !self.is_bound() ==> r == Err::<u64, AccessError>(AccessError::ReferenceNotBound),
            self.is_bound() && !self.store().contents().contains_key(type_id)
                ==> r == Err::<u64, AccessError>(AccessError::ResourceMissing),
            self.is_bound() && self.store().contents().contains_key(type_id)
                ==> r == Ok::<u64, AccessError>(self.store().contents()[type_id]),
    {
        match &self.resources {
            None => Err(AccessError::ReferenceNotBound),
            Some(store) => match store.get(type_id) {
                Some(v) => Ok(v),
                None => Err(AccessError::ResourceMissing),
            },
        }
    }

    /// Resolve write access to the resource of the given type identity
    /// through the current target, overwriting the stored value.
    pub fn set(&mut self, type_id: u64, value: u64) -> (r: Result<(), AccessError>)
        ensures
            final(self).is_bound() == old(self).is_bound(),
            !old(self).is_bound() ==> r == Err::<(), AccessError>(AccessError::ReferenceNotBound)
                && *final(self) == *old(self),
            old(self).is_bound() && !old(self).store().contents().contains_key(type_id)
                ==> r == Err::<(), AccessError>(AccessError::ResourceMissing)
                    && final(self).store().contents() == old(self).store().contents(),
            old(self).is_bound() && old(self).store().contents().contains_key(type_id)
                ==> r == Ok::<(), AccessError>(())
                    && final(self).store().contents()
                        == old(self).store().contents().insert(type_id, value),
    {
        match &mut self.resources {
            None => Err(AccessError::ReferenceNotBound),
            Some(store) => {
                if store.set(type_id, value) {
                    Ok(())
                } else {
                    Err(AccessError::ResourceMissing)
                }
            }
        }
    }
}

/// One declared shared-read dependency: the type identity a system reads.
#[derive(Clone, Copy, PartialEq, Eq, Structural, Debug)]
pub struct ReadSpecification {
    pub type_id: u64,
}

/// One declared exclusive-write dependency: the type identity a system
/// writes.
#[derive(Clone, Copy, PartialEq, Eq, Structural, Debug)]
pub struct WriteSpecification {
    pub type_id: u64,
}

/// A sink that collects declared dependencies one at a time.
pub trait Receiver<T> {
    /// The values received so far, in order.
    spec fn received(&self) -> Seq<T>;

    /// Receive the given value.
    fn receive(&mut self, value: T)
        ensures
            final(self).received() == old(self).received().push(value),
    ;
}

impl<T> Receiver<T> for Vec<T> {
    open spec fn received(&self) -> Seq<T> {
        self@
    }

    fn receive(&mut self, value: T) {
        self.push(value);
    }
}

/// The declarative access protocol: a value describing which resource types
/// a system reads and which it writes. Aggregates compose by forwarding to
/// each element in order.
pub trait ResourceSpecification: Sized {
    /// The read dependencies this specification declares, in order.
    spec fn read_specs(&self) -> Seq<ReadSpecification>;

    /// The write dependencies this specification declares, in order.
    spec fn write_specs(&self) -> Seq<WriteSpecification>;

    /// Append one read specification per resource type read.
    fn reads<R: Receiver<ReadSpecification>>(&self, out: &mut R)
        ensures
            final(out).received() == old(out).received() + self.read_specs(),
    ;

    /// Append one write specification per resource type written.
    fn writes<W: Receiver<WriteSpecification>>(&self, out: &mut W)
        ensures
            final(out).received() == old(out).received() + self.write_specs(),
    ;
}

/// A handle with shared-read access to the resource type it was fetched
/// for; it resolves through a reference cell handed in at access time.
#[derive(Clone, Copy, PartialEq, Eq, Structural, Debug)]
pub struct Read {
    pub type_id: u64,
}

impl Read {
    /// Create a read handle for the given resource type identity.
    pub fn fetch(type_id: u64) -> (r: Read)
        ensures
            r.type_id == type_id,
    {
        Read { type_id }
    }

    /// Read the resource this handle was fetched for through the given
    /// reference.
    pub fn get(&self, reference: &ResourceReference) -> (r: Result<u64, AccessError>)
        ensures
            !reference.is_bound()
                ==> r == Err::<u64, AccessError>(AccessError::ReferenceNotBound),
            reference.is_bound() && !reference.store().contents().contains_key(self.type_id)
                ==> r == Err::<u64, AccessError>(AccessError::ResourceMissing),
            reference.is_bound() && reference.store().contents().contains_key(self.type_id)
                ==> r == Ok::<u64, AccessError>(reference.store().contents()[self.type_id]),
    {
        reference.get(self.type_id)
    }
}

impl ResourceSpecification for Read {
    open spec fn read_specs(&self) -> Seq<ReadSpecification> {
        seq![ReadSpecification { type_id: self.type_id }]
    }

    open spec fn write_specs(&self) -> Seq<WriteSpecification> {
        Seq::empty()
    }

    fn reads<R: Receiver<ReadSpecification>>(&self, out: &mut R) {
        out.receive(ReadSpecification { type_id: self.type_id });
        proof {
            assert(old(out).received().push(ReadSpecification { type_id: self.type_id })
                =~= old(out).received() + self.read_specs());
        }
    }

    fn writes<W: Receiver<WriteSpecification>>(&self, out: &mut W) {
        proof {
            assert(old(out).received() + self.write_specs() =~= old(out).received());
        }
    }
}

/// A handle with exclusive-write access to the resource type it was fetched
/// for; it resolves through a reference cell handed in at access time.
#[derive(Clone, Copy, PartialEq, Eq, Structural, Debug)]
pub struct Write {
    pub type_id: u64,
}

impl Write {
    /// Create a write handle for the given resource type identity.
    pub fn fetch(type_id: u64) -> (r: Write)
        ensures
            r.type_id == type_id,
    {
        Write { type_id }
    }

    /// Read the resource this handle was fetched for through the given
    /// reference.
    pub fn get(&self, reference: &ResourceReference) -> (r: Result<u64, AccessError>)
        ensures
            !reference.is_bound()
                ==> r == Err::<u64, AccessError>(AccessError::ReferenceNotBound),
            reference.is_bound() && !reference.store().contents().contains_key(self.type_id)
                ==> r == Err::<u64, AccessError>(AccessError::ResourceMissing),
            reference.is_bound() && reference.store().contents().contains_key(self.type_id)
                ==> r == Ok::<u64, AccessError>(reference.store().contents()[self.type_id]),
    {
        reference.get(self.type_id)
    }

    /// Overwrite the resource this handle was fetched for through the given
    /// reference.
    pub fn set(&self, reference: &mut ResourceReference, value: u64) -> (r: Result<(), AccessError>)
        ensures
            final(reference).is_bound() == old(reference).is_bound(),
            !old(reference).is_bound()
                ==> r == Err::<(), AccessError>(AccessError::ReferenceNotBound)
                    && *final(reference) == *old(reference),
            old(reference).is_bound()
                    && !old(reference).store().contents().contains_key(self.type_id)
                ==> r == Err::<(), AccessError>(AccessError::ResourceMissing)
                    && final(reference).store().contents() == old(reference).store().contents(),
            old(reference).is_bound()
                    && old(reference).store().contents().contains_key(self.type_id)
                ==> r == Ok::<(), AccessError>(())
                    && final(reference).store().contents()
                        == old(reference).store().contents().insert(self.type_id, value),
    {
        reference.set(self.type_id, value)
    }
}

impl ResourceSpecification for Write {
    open spec fn read_specs(&self) -> Seq<ReadSpecification> {
        Seq::empty()
    }

    open spec fn write_specs(&self) -> Seq<WriteSpecification> {
        seq![WriteSpecification { type_id: self.type_id }]
    }

    fn reads<R: Receiver<ReadSpecification>>(&self, out: &mut R) {
        proof {
            assert(old(out).received() + self.read_specs() =~= old(out).received());
        }
    }

    fn writes<W: Receiver<WriteSpecification>>(&self, out: &mut W) {
        out.receive(WriteSpecification { type_id: self.type_id });
        proof {
            assert(old(out).received().push(WriteSpecification { type_id: self.type_id })
                =~= old(out).received() + self.write_specs());
        }
    }
}

/// The empty specification: a system declaring no access at all. It
/// conflicts with nothing and is always scheduled in the first group.
impl ResourceSpecification for () {
    open spec fn read_specs(&self) -> Seq<ReadSpecification> {
        Seq::empty()
    }

    open spec fn write_specs(&self) -> Seq<WriteSpecification> {
        Seq::empty()
    }

    fn reads<R: Receiver<ReadSpecification>>(&self, out: &mut R) {
        proof {
            assert(old(out).received() + self.read_specs() =~= old(out).received());
        }
    }

    fn writes<W: Receiver<WriteSpecification>>(&self, out: &mut W) {
        proof {
            assert(old(out).received() + self.write_specs() =~= old(out).received());
        }
    }
}

impl<A: ResourceSpecification, B: ResourceSpecification> ResourceSpecification for (A, B) {
    open spec fn read_specs(&self) -> Seq<ReadSpecification> {
        self.0.read_specs() + self.1.read_specs()
    }

    open spec fn write_specs(&self) -> Seq<WriteSpecification> {
        self.0.write_specs() + self.1.write_specs()
    }

    fn reads<R: Receiver<ReadSpecification>>(&self, out: &mut R) {
        self.0.reads(out);
        self.1.reads(out);
        proof {
            assert(old(out).received() + self.0.read_specs() + self.1.read_specs()
                =~= old(out).received() + self.read_specs());
        }
    }

    fn writes<W: Receiver<WriteSpecification>>(&self, out: &mut W) {
        self.0.writes(out);
        self.1.writes(out);
        proof {
            assert(old(out).received() + self.0.write_specs() + self.1.write_specs()
                =~= old(out).received() + self.write_specs());
        }
    }
}

} // verus!
