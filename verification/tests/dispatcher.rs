use shrek::dispatcher::{conflicts, SystemAndData};
use shrek::example::Example;
use shrek::resources::{ReadSpecification, ResourceReference, WriteSpecification};
use shrek::{Dispatcher, Poll, Read, Resources, System, Write};

fn record(
    read_ids: &[u64],
    write_ids: &[u64],
) -> SystemAndData<()> {
    SystemAndData {
        reads: read_ids.iter().map(|id| ReadSpecification { type_id: *id }).collect(),
        writes: write_ids.iter().map(|id| WriteSpecification { type_id: *id }).collect(),
        system: (),
        done: false,
    }
}

#[test]
fn write_write_overlap_conflicts() {
    let a = record(&[], &[2]);
    let b = record(&[], &[2]);
    assert!(conflicts(&a, &b));
}

#[test]
fn write_read_overlap_conflicts_both_ways() {
    let writer = record(&[], &[2]);
    let reader = record(&[2], &[]);
    assert!(conflicts(&writer, &reader));
    assert!(conflicts(&reader, &writer));
}

#[test]
fn read_read_overlap_never_conflicts() {
    let a = record(&[2], &[]);
    let b = record(&[2, 3], &[]);
    assert!(!conflicts(&a, &b));
}

#[test]
fn disjoint_accesses_never_conflict() {
    let a = record(&[1], &[2]);
    let b = record(&[3], &[4]);
    assert!(!conflicts(&a, &b));
    let empty = record(&[], &[]);
    assert!(!conflicts(&a, &empty));
    assert!(!conflicts(&empty, &empty));
}

enum Worker {
    /// Increments the resource it declared write access to, every tick.
    Writer { handle: Write },
    /// Records every value it observes of the resource it reads.
    Reader { handle: Read, seen: Vec<u64> },
    /// Completes on its first poll.
    Done,
}

impl System for Worker {
    fn poll_step(&mut self, reference: &mut ResourceReference, _current_frame: u64) -> Poll {
        match self {
            Worker::Writer { handle } => {
                if let Ok(v) = handle.get(reference) {
                    let _ = handle.set(reference, v + 1);
                }
                Poll::Pending
            }
            Worker::Reader { handle, seen } => {
                if let Ok(v) = handle.get(reference) {
                    seen.push(v);
                }
                Poll::Pending
            }
            Worker::Done => Poll::Ready,
        }
    }
}

#[test]
fn disjoint_systems_share_the_first_group() {
    let mut resources = Resources::new();
    resources.add_resource(2, 0);
    resources.add_resource(3, 0);

    let mut dispatcher: Dispatcher<Worker> = Dispatcher::new();
    dispatcher.with(&mut resources, Worker::Writer { handle: Write::fetch(2) }, &Write::fetch(2));
    dispatcher.with(&mut resources, Worker::Writer { handle: Write::fetch(3) }, &Write::fetch(3));

    assert_eq!(dispatcher.plan(), vec![0, 0]);
}

#[test]
fn conflicting_systems_get_distinct_groups() {
    let mut resources = Resources::new();
    resources.add_resource(2, 0);

    let mut dispatcher: Dispatcher<Worker> = Dispatcher::new();
    dispatcher.with(&mut resources, Worker::Writer { handle: Write::fetch(2) }, &Write::fetch(2));
    dispatcher.with(&mut resources, Worker::Writer { handle: Write::fetch(2) }, &Write::fetch(2));

    assert_eq!(dispatcher.plan(), vec![0, 1]);
}

#[test]
fn greedy_coloring_reuses_freed_colors() {
    let mut resources = Resources::new();
    let mut dispatcher: Dispatcher<Worker> = Dispatcher::new();
    dispatcher.with(&mut resources, Worker::Writer { handle: Write::fetch(2) }, &Write::fetch(2));
    dispatcher.with(&mut resources, Worker::Writer { handle: Write::fetch(2) }, &Write::fetch(2));
    dispatcher.with(&mut resources, Worker::Writer { handle: Write::fetch(3) }, &Write::fetch(3));

    // the third system conflicts with neither, so it lands back in group 0
    assert_eq!(dispatcher.plan(), vec![0, 1, 0]);
}

#[test]
fn no_access_system_lands_in_first_group() {
    let mut resources = Resources::new();
    let mut dispatcher: Dispatcher<Worker> = Dispatcher::new();
    dispatcher.with(&mut resources, Worker::Writer { handle: Write::fetch(2) }, &Write::fetch(2));
    dispatcher.with(&mut resources, Worker::Writer { handle: Write::fetch(2) }, &Write::fetch(2));
    dispatcher.with(&mut resources, Worker::Done, &());

    assert_eq!(dispatcher.plan(), vec![0, 1, 0]);
}

#[test]
fn registration_records_declared_sets_and_keeps_the_store() {
    let mut resources = Resources::new();
    resources.add_resource(1, 7);

    let mut dispatcher: Dispatcher<Worker> = Dispatcher::new();
    let data = (Read::fetch(1), Write::fetch(2));
    dispatcher.with(&mut resources, Worker::Writer { handle: Write::fetch(2) }, &data);

    assert_eq!(dispatcher.systems.len(), 1);
    assert_eq!(dispatcher.systems[0].reads.len(), 1);
    assert_eq!(dispatcher.systems[0].reads[0].type_id, 1);
    assert_eq!(dispatcher.systems[0].writes.len(), 1);
    assert_eq!(dispatcher.systems[0].writes[0].type_id, 2);
    assert!(!dispatcher.systems[0].done);
    // the store bound during registration came back intact
    assert_eq!(resources.get(1), Some(7));
}

#[test]
fn two_incrementing_systems_are_serialized_and_lose_nothing() {
    // Two systems, each declaring a read of the frame tick and a write of
    // the same number: the write/write conflict forces serialization, and
    // after every tick the number has grown by exactly one per system.
    let mut resources = Resources::new();
    resources.add_resource(1, 0); // the frame-tick resource
    resources.add_resource(2, 42); // the shared number

    let mut dispatcher: Dispatcher<Example> = Dispatcher::new();
    let a = Example { counter: 0, frame: Read::fetch(1), number: Write::fetch(2), poller: None };
    let b = Example { counter: 0, frame: Read::fetch(1), number: Write::fetch(2), poller: None };
    dispatcher.with(&mut resources, a, &(Read::fetch(1), Write::fetch(2)));
    dispatcher.with(&mut resources, b, &(Read::fetch(1), Write::fetch(2)));

    assert_eq!(dispatcher.plan(), vec![0, 1]);

    // first tick: both systems arm their frame barriers
    let done = dispatcher.run(&mut resources, 0);
    assert!(!done);
    assert_eq!(resources.get(2), Some(42));

    for frame in 1..=5 {
        let done = dispatcher.run(&mut resources, frame);
        assert!(!done);
        // one increment per system per tick, none lost, none duplicated
        assert_eq!(resources.get(2), Some(42 + 2 * frame));
    }
    assert_eq!(dispatcher.systems[0].system.counter, 5);
    assert_eq!(dispatcher.systems[1].system.counter, 5);
}

#[test]
fn reader_observes_only_complete_values() {
    // A reader of the number runs alongside a writer of the same number:
    // the read/write conflict serializes them, so every value the reader
    // observes is either the pre-tick value or the fully updated one.
    let mut resources = Resources::new();
    resources.add_resource(2, 42);

    let mut dispatcher: Dispatcher<Worker> = Dispatcher::new();
    dispatcher.with(&mut resources, Worker::Writer { handle: Write::fetch(2) }, &Write::fetch(2));
    dispatcher.with(
        &mut resources,
        Worker::Reader { handle: Read::fetch(2), seen: Vec::new() },
        &Read::fetch(2),
    );
    assert_eq!(dispatcher.plan(), vec![0, 1]);

    for frame in 0..5 {
        dispatcher.run(&mut resources, frame);
    }

    match &dispatcher.systems[1].system {
        Worker::Reader { seen, .. } => {
            assert_eq!(seen.len(), 5);
            for (tick, value) in seen.iter().enumerate() {
                let before = 42 + tick as u64;
                let after = before + 1;
                assert!(*value == before || *value == after);
                // the writer's group runs first here, so in fact:
                assert_eq!(*value, after);
            }
        }
        _ => panic!("the reader was registered second"),
    }
}

#[test]
fn completed_systems_are_retired() {
    let mut resources = Resources::new();
    let mut dispatcher: Dispatcher<Worker> = Dispatcher::new();
    dispatcher.with(&mut resources, Worker::Done, &Read::fetch(9));

    let done = dispatcher.run(&mut resources, 0);
    assert!(done);
    assert!(dispatcher.systems[0].done);
}

#[test]
fn example_retires_when_its_resource_is_missing() {
    // the shared number was never inserted: once the barrier is due, the
    // access fails and the system completes instead of continuing
    let mut resources = Resources::new();
    resources.add_resource(1, 0);

    let mut dispatcher: Dispatcher<Example> = Dispatcher::new();
    let a = Example { counter: 0, frame: Read::fetch(1), number: Write::fetch(2), poller: None };
    dispatcher.with(&mut resources, a, &(Read::fetch(1), Write::fetch(2)));

    assert!(!dispatcher.run(&mut resources, 0));
    assert!(dispatcher.run(&mut resources, 1));
    assert!(dispatcher.systems[0].done);
    assert_eq!(dispatcher.systems[0].system.counter, 0);
}

#[test]
fn dispatcher_future_is_ready_once_all_systems_complete() {
    let mut resources = Resources::new();
    resources.add_resource(2, 0);

    let mut dispatcher: Dispatcher<Worker> = Dispatcher::new();
    dispatcher.with(&mut resources, Worker::Done, &Read::fetch(9));
    dispatcher.with(&mut resources, Worker::Writer { handle: Write::fetch(2) }, &Write::fetch(2));

    let mut future = dispatcher.into_future(resources);
    assert_eq!(future.poll(0), Poll::Pending);

    let mut finished: Dispatcher<Worker> = Dispatcher::new();
    let mut empty_store = Resources::new();
    finished.with(&mut empty_store, Worker::Done, &Read::fetch(9));
    let mut done_future = finished.into_future(empty_store);
    assert_eq!(done_future.poll(0), Poll::Ready);
}

#[test]
fn empty_dispatcher_completes_immediately() {
    let mut resources = Resources::new();
    let mut dispatcher: Dispatcher<Worker> = Dispatcher::new();
    assert!(dispatcher.run(&mut resources, 0));
}
