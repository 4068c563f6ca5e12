use shrek::resources::{
    AccessError, Read, ReadSpecification, Receiver, ResourceReference, ResourceSpecification,
    Write, WriteSpecification,
};
use shrek::Resources;

#[test]
fn round_trip_insert_then_get() {
    let mut resources = Resources::new();
    resources.add_resource(7, 42);
    assert_eq!(resources.get(7), Some(42));
}

#[test]
fn second_insert_replaces_first() {
    let mut resources = Resources::new();
    resources.add_resource(7, 42);
    resources.add_resource(7, 99);
    assert_eq!(resources.get(7), Some(99));
}

#[test]
fn get_of_absent_type_is_none() {
    let resources = Resources::new();
    assert_eq!(resources.get(7), None);
    let mut more = Resources::new();
    more.add_resource(1, 10);
    assert_eq!(more.get(2), None);
}

#[test]
fn set_updates_only_present_types() {
    let mut resources = Resources::new();
    assert!(!resources.set(7, 1));
    assert_eq!(resources.get(7), None);
    resources.add_resource(7, 1);
    assert!(resources.set(7, 2));
    assert_eq!(resources.get(7), Some(2));
}

#[test]
fn unbound_reference_reports_not_bound() {
    let reference = ResourceReference::new();
    assert_eq!(reference.get(7), Err(AccessError::ReferenceNotBound));
}

#[test]
fn bound_reference_resolves_and_clears() {
    let mut resources = Resources::new();
    resources.add_resource(7, 42);

    let mut reference = ResourceReference::new();
    reference.set_resources(resources);
    assert_eq!(reference.get(7), Ok(42));
    assert_eq!(reference.get(8), Err(AccessError::ResourceMissing));

    let store = reference.clear_resources().expect("a store was bound");
    assert_eq!(store.get(7), Some(42));
    assert_eq!(reference.get(7), Err(AccessError::ReferenceNotBound));
}

#[test]
fn write_through_reference_updates_store() {
    let mut resources = Resources::new();
    resources.add_resource(7, 42);

    let mut reference = ResourceReference::new();
    reference.set_resources(resources);
    assert_eq!(reference.set(7, 43), Ok(()));
    assert_eq!(reference.get(7), Ok(43));
    assert_eq!(reference.set(8, 1), Err(AccessError::ResourceMissing));

    let mut unbound = ResourceReference::new();
    assert_eq!(unbound.set(7, 1), Err(AccessError::ReferenceNotBound));
}

#[test]
fn handles_resolve_through_reference() {
    let mut resources = Resources::new();
    resources.add_resource(7, 42);

    let read = Read::fetch(7);
    let write = Write::fetch(7);
    let missing = Read::fetch(8);

    let mut reference = ResourceReference::new();
    assert_eq!(read.get(&reference), Err(AccessError::ReferenceNotBound));

    reference.set_resources(resources);
    assert_eq!(read.get(&reference), Ok(42));
    assert_eq!(missing.get(&reference), Err(AccessError::ResourceMissing));
    assert_eq!(write.set(&mut reference, 50), Ok(()));
    assert_eq!(write.get(&reference), Ok(50));
    assert_eq!(read.get(&reference), Ok(50));
}

#[test]
fn specifications_collect_declared_access() {
    let read = Read::fetch(3);
    let write = Write::fetch(4);

    let mut reads: Vec<ReadSpecification> = Vec::new();
    let mut writes: Vec<WriteSpecification> = Vec::new();
    read.reads(&mut reads);
    read.writes(&mut writes);
    assert_eq!(reads.len(), 1);
    assert_eq!(reads[0].type_id, 3);
    assert_eq!(writes.len(), 0);

    let pair = (read, write);
    let mut pair_reads: Vec<ReadSpecification> = Vec::new();
    let mut pair_writes: Vec<WriteSpecification> = Vec::new();
    pair.reads(&mut pair_reads);
    pair.writes(&mut pair_writes);
    assert_eq!(pair_reads.len(), 1);
    assert_eq!(pair_reads[0].type_id, 3);
    assert_eq!(pair_writes.len(), 1);
    assert_eq!(pair_writes[0].type_id, 4);

    let mut sink: Vec<u64> = Vec::new();
    sink.receive(9);
    sink.receive(10);
    assert_eq!(sink, vec![9, 10]);
}
