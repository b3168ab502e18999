use libhotpatch::abi::boxed::{Box, BoxedSlice, Heap};
use libhotpatch::abi::str::{BoxedStr, Str};
use libhotpatch::abi::time::{AtomicDuration, AtomicInstant, Duration, Instant};

fn at(secs: u64, nanos: u32) -> Instant {
    Instant::from_origin(Duration::new(secs, nanos))
}

#[test]
fn duration_is_seconds_and_nanoseconds() {
    let d = Duration::new(3, 250_000_999);
    assert_eq!(d.as_secs(), 3);
    assert_eq!(d.subsec_nanos(), 250_000_999);
    assert_eq!(d.as_millis(), 3_250);
    assert_eq!(d.as_micros(), 3_250_000);
}

#[test]
fn duration_from_smaller_units() {
    let d = Duration::from_millis(1_234);
    assert_eq!((d.as_secs(), d.subsec_nanos()), (1, 234_000_000));
    let d = Duration::from_micros(2_000_001);
    assert_eq!((d.as_secs(), d.subsec_nanos()), (2, 1_000));
    let d = Duration::from_millis(u64::MAX);
    assert_eq!(d.as_millis(), u64::MAX as u128);
    let d = Duration::from_micros(u64::MAX);
    assert_eq!(d.as_micros(), u64::MAX as u128);
    assert_eq!(Duration::zero().as_micros(), 0);
}

#[test]
fn longest_duration_has_more_microseconds_than_a_cell_holds() {
    let d = Duration::new(u64::MAX, 999_999_999);
    assert_eq!(d.as_micros(), u64::MAX as u128 * 1_000_000 + 999_999);
    assert!(d.as_micros() > u64::MAX as u128);
}

#[test]
fn durations_compare_by_length() {
    assert!(Duration::new(1, 999_999_999).lt(&Duration::new(2, 0)));
    assert!(Duration::new(2, 1).lt(&Duration::new(2, 2)));
    assert!(!Duration::new(2, 2).lt(&Duration::new(2, 2)));
    assert!(!Duration::new(3, 0).lt(&Duration::new(2, 999_999_999)));
}

#[test]
fn durations_add_with_carry() {
    let sum = Duration::new(1, 600_000_000).checked_add(&Duration::new(2, 500_000_000)).unwrap();
    assert_eq!((sum.as_secs(), sum.subsec_nanos()), (4, 100_000_000));
    assert!(Duration::new(u64::MAX, 0).checked_add(&Duration::new(1, 0)).is_none());
    assert!(Duration::new(u64::MAX, 600_000_000)
        .checked_add(&Duration::new(0, 400_000_000))
        .is_none());
    let edge = Duration::new(u64::MAX, 0).checked_add(&Duration::new(0, 999_999_999)).unwrap();
    assert_eq!((edge.as_secs(), edge.subsec_nanos()), (u64::MAX, 999_999_999));
}

#[test]
fn durations_subtract_down_to_nothing() {
    let rest = Duration::new(5, 100).saturating_sub(&Duration::new(2, 200));
    assert_eq!((rest.as_secs(), rest.subsec_nanos()), (2, 999_999_900));
    let none = Duration::new(2, 200).saturating_sub(&Duration::new(5, 100));
    assert_eq!((none.as_secs(), none.subsec_nanos()), (0, 0));
    let same = Duration::new(2, 200).saturating_sub(&Duration::new(2, 200));
    assert_eq!(same.as_micros(), 0);
}

#[test]
fn instants_measure_from_the_earlier_one() {
    let early = at(10, 0);
    let late = at(12, 500);
    let span = late.duration_since(&early);
    assert_eq!((span.as_secs(), span.subsec_nanos()), (2, 500));
    assert_eq!(early.duration_since(&late).as_micros(), 0);
    assert_eq!(late.since_origin().as_secs(), 12);
    let later = early.checked_add(&Duration::new(1, 1)).unwrap();
    assert_eq!(later.duration_since(&early).subsec_nanos(), 1);
    assert!(at(u64::MAX, 0).checked_add(&Duration::new(1, 0)).is_none());
}

#[test]
fn atomic_duration_keeps_whole_microseconds() {
    let cell = AtomicDuration::new(Duration::new(1, 2_999));
    let held = cell.load();
    assert_eq!((held.as_secs(), held.subsec_nanos()), (1, 2_000));
}

#[test]
fn atomic_duration_takes_what_is_stored() {
    let mut cell = AtomicDuration::new(Duration::zero());
    assert_eq!(cell.load().as_micros(), 0);
    cell.store(Duration::from_micros(u64::MAX));
    assert_eq!(cell.load().as_micros(), u64::MAX as u128);
    cell.store(Duration::from_millis(100));
    assert_eq!(cell.load().as_millis(), 100);
}

#[test]
fn atomic_instant_starts_at_its_anchor() {
    let cell = AtomicInstant::now(at(100, 999));
    let held = cell.load();
    assert_eq!(held.since_origin().as_secs(), 100);
    assert_eq!(held.since_origin().subsec_nanos(), 999);
}

#[test]
fn atomic_instant_keeps_microseconds_from_the_anchor() {
    let mut cell = AtomicInstant::now(at(100, 999));
    cell.store(at(101, 5_000));
    let held = cell.load().since_origin();
    assert_eq!((held.as_secs(), held.subsec_nanos()), (101, 4_999));
    cell.store(at(100, 1_998));
    let held = cell.load().since_origin();
    assert_eq!((held.as_secs(), held.subsec_nanos()), (100, 999));
}

#[test]
fn atomic_instant_holds_its_anchor_for_an_earlier_reading() {
    let mut cell = AtomicInstant::now(at(100, 0));
    cell.store(at(200, 0));
    cell.store(at(50, 0));
    assert_eq!(cell.load().since_origin().as_secs(), 100);
}

#[test]
fn str_hands_back_what_it_borrowed() {
    let text = String::from("libtest_library.so");
    let borrowed = Str::new(&text);
    assert_eq!(borrowed.as_str(), "libtest_library.so");
    let copy = borrowed;
    assert_eq!(copy.as_str(), borrowed.as_str());
    assert_eq!(Str::new("").as_str(), "");
    assert_eq!(Str::new("grüße").as_str(), "grüße");
}

#[test]
fn boxed_str_owns_a_copy() {
    let owned = {
        let text = String::from("target/debug/.hotpatch/.tmpA1");
        BoxedStr::new(&text)
    };
    assert_eq!(owned.deref(), "target/debug/.hotpatch/.tmpA1");
    assert_eq!(owned.as_ref().as_str(), "target/debug/.hotpatch/.tmpA1");
}

#[test]
fn boxed_slice_copies_the_values() {
    let values = vec![3u8, 1, 4, 1, 5];
    let owned = BoxedSlice::new(&values);
    drop(values);
    assert_eq!(owned.len(), 5);
    assert_eq!(owned.deref(), &[3u8, 1, 4, 1, 5]);
    let empty: BoxedSlice<u64> = BoxedSlice::new(&[]);
    assert_eq!(empty.len(), 0);
}

#[test]
fn box_moves_a_value_into_the_heap() {
    let mut heap: Heap<String> = Heap::new();
    assert!(heap.can_allocate());
    let first = Box::new(&mut heap, String::from("one"));
    let second = Box::new(&mut heap, String::from("two"));
    assert_eq!(first.deref(&heap), "one");
    assert_eq!(second.deref(&heap), "two");
    let addr = first.into_raw();
    assert_ne!(addr, 0);
    assert!(heap.contains(addr));
    assert_eq!(heap.get(addr), "one");
    let again: Box<String> = Box::from_raw(addr);
    assert_eq!(again.drop(&mut heap), "one");
    assert!(!heap.contains(addr));
    assert_eq!(second.deref(&heap), "two");
}

#[test]
fn heap_never_hands_out_the_null_address() {
    let mut heap: Heap<u8> = Heap::new();
    assert!(!heap.contains(0));
    let addrs: Vec<usize> = (0..4).map(|v| Box::new(&mut heap, v).into_raw()).collect();
    assert!(addrs.iter().all(|addr| *addr != 0));
    assert!(!heap.contains(0));
    let mut sorted = addrs.clone();
    sorted.sort();
    sorted.dedup();
    assert_eq!(sorted.len(), 4);
}

#[test]
fn heap_takes_and_puts_a_value() {
    let mut heap: Heap<u32> = Heap::new();
    let addr = Box::new(&mut heap, 7).into_raw();
    assert_eq!(heap.take(addr), 7);
    assert!(!heap.contains(addr));
    heap.put(addr, 8);
    assert_eq!(*heap.get(addr), 8);
}
