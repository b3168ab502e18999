use libhotpatch::abi::boxed::Heap;
use libhotpatch::abi::time::{Duration, Instant};
use libhotpatch::hotpatch::{build_fn_table, LoadedLibrary, PatchSite, Registry};
use libhotpatch::identity::content_hash;
use libhotpatch::lock::LockDir;
use libhotpatch::merge::MergeStep;
use libhotpatch::os::Module;
use libhotpatch::watcher::{
    DirCreation, Disk, InitError, PollAction, Polled, Process, Startup, UpdateError, Updated,
    Watcher, WatcherCell, POLL_MS,
};

type Add = fn(i32, i32) -> i32;

fn add(a: i32, b: i32) -> i32 {
    a + b
}

fn add_new(a: i32, b: i32) -> i32 {
    a + b + 100
}

const OLD_BYTES: &[u8] = b"library, first build";
const NEW_BYTES: &[u8] = b"library, second build";

fn at_millis(millis: u64) -> Instant {
    Instant::from_origin(Duration::from_millis(millis))
}

fn startup<'a>() -> Startup<'a> {
    Startup {
        module: Module::current(Some("/work/target/debug/libdemo.so"), Some("libdemo.so")),
        opened: true,
        exports_init_watcher: true,
        modified: Some(Duration::new(1_700_000_000, 123_456_789)),
        coordination_dir: DirCreation::Created,
        contents: Some(OLD_BYTES),
    }
}

fn watcher_at(millis: u64) -> Watcher {
    Watcher::new(startup(), at_millis(millis)).unwrap()
}

fn process() -> Process<Add> {
    let mut registry = Registry::new();
    registry.register(PatchSite::new(add as Add, "unsafe fn add(a: i32, b: i32) -> i32", "demo::add"));
    let table = build_fn_table(&registry);
    Process { registry, table, heap: Heap::new(), locks: LockDir::new(), pid: 77 }
}

fn new_build(exports_init_watcher: bool, exports_fn_table: bool) -> LoadedLibrary<Add> {
    let mut registry = Registry::new();
    registry.register(PatchSite::new(
        add_new as Add,
        "unsafe fn add(a: i32, b: i32) -> i32",
        "demo::add",
    ));
    LoadedLibrary::new(9, registry, exports_init_watcher, exports_fn_table)
}

fn disk<'a>(modified: Duration, contents: &'a [u8], loaded: Option<LoadedLibrary<Add>>) -> Disk<'a, Add> {
    Disk { modified: Some(modified), contents: Some(contents), loaded, temp_dir: "tmp" }
}

fn call(process: &mut Process<Add>) -> i32 {
    let (target, guard) = process.registry.site(0).enter(&mut process.heap);
    let out = target(2, 2);
    let _ = guard.drop(&mut process.heap);
    out
}

#[test]
fn watcher_starts_from_what_was_found() {
    let watcher = watcher_at(5);
    assert_eq!(watcher.name(), "libdemo.so");
    assert_eq!(watcher.library_path("/work/target/debug"), "/work/target/debug/libdemo.so");
    assert!(watcher.is_current(&Duration::new(1_700_000_000, 123_999_999)));
    assert!(!watcher.is_current(&Duration::new(1_700_000_000, 124_000_000)));
    assert!(watcher.has_content(content_hash(OLD_BYTES)));
    assert!(!watcher.has_content(content_hash(NEW_BYTES)));
}

#[test]
fn start_fails_at_the_first_failed_step() {
    let cases: Vec<(Startup, InitError)> = vec![
        (Startup { module: None, opened: false, ..startup() }, InitError::ModuleNotFound),
        (Startup { opened: false, exports_init_watcher: false, ..startup() }, InitError::LibraryNotOpened),
        (Startup { exports_init_watcher: false, modified: None, ..startup() }, InitError::MissingExport),
        (Startup { modified: None, contents: None, ..startup() }, InitError::NoMetadata),
        (
            Startup { coordination_dir: DirCreation::Failed, contents: None, ..startup() },
            InitError::NoCoordinationDir,
        ),
        (Startup { contents: None, ..startup() }, InitError::Unreadable),
    ];
    for (found, error) in cases {
        assert_eq!(Watcher::new(found, at_millis(0)).err(), Some(error));
    }
}

#[test]
fn start_accepts_a_coordination_dir_that_exists() {
    let found = Startup { coordination_dir: DirCreation::AlreadyExists, ..startup() };
    assert!(Watcher::new(found, at_millis(0)).is_ok());
    let found = Startup { coordination_dir: DirCreation::Created, ..startup() };
    assert!(Watcher::new(found, at_millis(0)).is_ok());
}

#[test]
fn cell_is_settled_by_the_first_call() {
    let mut cell = WatcherCell::new();
    assert!(!cell.is_running());
    assert!(Watcher::get(&mut cell, startup(), at_millis(0)).is_some());
    assert!(cell.is_running());
    let failing = Startup { module: None, ..startup() };
    let watcher = Watcher::get(&mut cell, failing, at_millis(900)).unwrap();
    assert_eq!(watcher.name(), "libdemo.so");
    assert_eq!(watcher.poll_begin(at_millis(99)), PollAction::Throttled);
}

#[test]
fn cell_keeps_a_failed_start() {
    let mut cell = WatcherCell::new();
    let failing = Startup { opened: false, ..startup() };
    assert!(Watcher::get(&mut cell, failing, at_millis(0)).is_none());
    assert!(Watcher::get(&mut cell, startup(), at_millis(1)).is_none());
    assert!(!cell.is_running());
}

#[test]
fn cell_adopts_a_watcher_once() {
    let mut cell = WatcherCell::new();
    cell.init_watcher(watcher_at(1_000));
    assert!(cell.is_running());
    let mut other = startup();
    other.module = Module::current(Some("/x/libother.so"), Some("libother.so"));
    cell.init_watcher(Watcher::new(other, at_millis(2_000)).unwrap());
    let watcher = Watcher::get(&mut cell, startup(), at_millis(3_000)).unwrap();
    assert_eq!(watcher.name(), "libdemo.so");
    assert_eq!(watcher.poll_begin(at_millis(1_099)), PollAction::Throttled);
    assert_eq!(watcher.poll_begin(at_millis(1_100)), PollAction::Update);
}

#[test]
fn poll_is_throttled_for_the_poll_interval() {
    assert_eq!(POLL_MS, 100);
    let mut watcher = watcher_at(1_000);
    assert_eq!(watcher.poll_begin(at_millis(1_000)), PollAction::Throttled);
    assert_eq!(watcher.poll_begin(at_millis(1_099)), PollAction::Throttled);
    assert_eq!(watcher.poll_begin(at_millis(500)), PollAction::Throttled);
    let just_before = Instant::from_origin(Duration::new(1, 99_999_999));
    assert_eq!(watcher.poll_begin(just_before), PollAction::Throttled);
    assert_eq!(watcher.poll_begin(at_millis(1_100)), PollAction::Update);
}

#[test]
fn second_poll_waits_for_the_first() {
    let mut watcher = watcher_at(0);
    assert_eq!(watcher.poll_begin(at_millis(100)), PollAction::Update);
    assert_eq!(watcher.poll_begin(at_millis(100)), PollAction::Wait);
    assert_eq!(watcher.poll_begin(at_millis(5_000)), PollAction::Wait);
    watcher.poll_end(at_millis(150));
    assert_eq!(watcher.poll_begin(at_millis(249)), PollAction::Throttled);
    assert_eq!(watcher.poll_begin(at_millis(250)), PollAction::Update);
}

#[test]
fn polling_twice_within_the_interval_updates_once() {
    let mut watcher = watcher_at(0);
    let mut process = process();
    let same = Duration::new(1_700_000_000, 123_456_789);
    let first = watcher.poll(&mut process, at_millis(100), disk(same, OLD_BYTES, None), at_millis(101));
    assert!(matches!(first, Polled::Updated(Ok(Updated::Unchanged))));
    let second = watcher.poll(&mut process, at_millis(150), disk(same, OLD_BYTES, None), at_millis(151));
    assert!(matches!(second, Polled::Throttled));
    let third = watcher.poll(&mut process, at_millis(200), disk(same, OLD_BYTES, None), at_millis(200));
    assert!(matches!(third, Polled::Throttled));
    let fourth = watcher.poll(&mut process, at_millis(201), disk(same, OLD_BYTES, None), at_millis(202));
    assert!(matches!(fourth, Polled::Updated(_)));
}

#[test]
fn call_add_polls_and_returns_the_sum_without_a_change_on_disk() {
    let mut watcher = watcher_at(0);
    let mut process = process();
    let same = Duration::new(1_700_000_000, 123_456_789);
    let mut updates = 0;
    for now in [100u64, 120] {
        let polled = watcher.poll(&mut process, at_millis(now), disk(same, OLD_BYTES, None), at_millis(now));
        if matches!(polled, Polled::Updated(_)) {
            updates += 1;
        }
        assert_eq!(call(&mut process), 4);
    }
    assert_eq!(updates, 1);
    assert!(process.registry.site(0).handle().is_null());
}

#[test]
fn update_does_nothing_for_the_same_time() {
    let mut watcher = watcher_at(0);
    let mut process = process();
    let same_milli = Duration::new(1_700_000_000, 123_000_000);
    let outcome = watcher.update(&mut process, disk(same_milli, NEW_BYTES, Some(new_build(true, true))));
    assert!(matches!(outcome, Ok(Updated::Unchanged)));
    assert_eq!(call(&mut process), 4);
    assert!(watcher.has_content(content_hash(OLD_BYTES)));
    assert!(watcher.is_current(&Duration::new(1_700_000_000, 123_456_789)));
    assert!(!process.locks.any());
}

#[test]
fn update_takes_note_of_a_new_time_with_the_same_content() {
    let mut watcher = watcher_at(0);
    let mut process = process();
    let later = Duration::new(1_700_000_050, 0);
    let outcome = watcher.update(&mut process, disk(later, OLD_BYTES, Some(new_build(true, true))));
    assert!(matches!(outcome, Ok(Updated::Touched)));
    assert_eq!(call(&mut process), 4);
    assert!(process.registry.site(0).handle().is_null());
    assert!(watcher.is_current(&later));
    assert!(!watcher.is_current(&Duration::new(1_700_000_000, 123_456_789)));
    assert!(watcher.has_content(content_hash(OLD_BYTES)));
}

#[test]
fn update_patches_a_new_build() {
    let mut watcher = watcher_at(0);
    let mut process = process();
    let later = Duration::new(1_700_000_050, 0);
    let outcome = watcher.update(&mut process, disk(later, NEW_BYTES, Some(new_build(true, true))));
    let patched = match outcome {
        Ok(Updated::Patched(patched)) => patched,
        _ => panic!("the new build was not patched in"),
    };
    assert_eq!(patched.steps, vec![MergeStep::Updated(0, 0)]);
    assert_eq!(call(&mut process), 104);
    assert_eq!(process.heap.get(patched.library).directory(), "tmp");
    assert!(watcher.is_current(&later));
    assert!(watcher.has_content(content_hash(NEW_BYTES)));
    assert!(!process.locks.any());
}

#[test]
fn failed_update_is_tried_again() {
    let mut watcher = watcher_at(0);
    let mut process = process();
    let later = Duration::new(1_700_000_050, 0);
    let no_table = watcher.update(&mut process, disk(later, NEW_BYTES, Some(new_build(true, false))));
    match no_table {
        Err(UpdateError::MissingFnTable(aborted)) => assert_eq!(aborted.unloaded.os_handle(), 9),
        _ => panic!("a build without a table was accepted"),
    }
    assert_eq!(call(&mut process), 4);
    assert!(!watcher.is_current(&later));
    assert!(watcher.has_content(content_hash(OLD_BYTES)));
    assert!(!process.locks.any());

    let no_entry = watcher.update(&mut process, disk(later, NEW_BYTES, Some(new_build(false, true))));
    assert!(matches!(no_entry, Err(UpdateError::MissingInitWatcher)));
    let not_loaded = watcher.update(&mut process, disk(later, NEW_BYTES, None));
    assert!(matches!(not_loaded, Err(UpdateError::NotLoaded)));
    assert_eq!(call(&mut process), 4);

    let good = watcher.update(&mut process, disk(later, NEW_BYTES, Some(new_build(true, true))));
    assert!(matches!(good, Ok(Updated::Patched(_))));
    assert_eq!(call(&mut process), 104);
}

#[test]
fn update_fails_without_metadata_or_content() {
    let mut watcher = watcher_at(0);
    let mut process = process();
    let no_metadata: Disk<Add> = Disk { modified: None, contents: None, loaded: None, temp_dir: "tmp" };
    assert!(matches!(watcher.update(&mut process, no_metadata), Err(UpdateError::NoMetadata)));
    let unreadable: Disk<Add> = Disk {
        modified: Some(Duration::new(1_700_000_050, 0)),
        contents: None,
        loaded: None,
        temp_dir: "tmp",
    };
    assert!(matches!(watcher.update(&mut process, unreadable), Err(UpdateError::Unreadable)));
    assert!(watcher.is_current(&Duration::new(1_700_000_000, 123_456_789)));
}

#[test]
fn hotpatch_library_holds_the_lock_only_while_it_runs() {
    let watcher = watcher_at(0);
    let mut process = process();
    process.locks.create(12);
    let outcome = watcher.hotpatch_library(&mut process, Some(new_build(true, true)), "tmp");
    assert!(outcome.is_ok());
    assert!(!process.locks.contains(77));
    assert!(process.locks.contains(12));
    assert_eq!(call(&mut process), 104);
}

#[test]
fn poll_stamps_the_time_after_a_failed_update_too() {
    let mut watcher = watcher_at(0);
    let mut process = process();
    let failing: Disk<Add> = Disk { modified: None, contents: None, loaded: None, temp_dir: "tmp" };
    let polled = watcher.poll(&mut process, at_millis(100), failing, at_millis(130));
    assert!(matches!(polled, Polled::Updated(Err(UpdateError::NoMetadata))));
    assert_eq!(watcher.poll_begin(at_millis(229)), PollAction::Throttled);
    assert_eq!(watcher.poll_begin(at_millis(230)), PollAction::Update);
}

#[test]
fn stamp_is_cut_down_to_whole_microseconds() {
    let mut watcher = watcher_at(0);
    assert_eq!(watcher.poll_begin(at_millis(100)), PollAction::Update);
    watcher.poll_end(Instant::from_origin(Duration::new(0, 100_000_999)));
    let within = Instant::from_origin(Duration::new(0, 199_999_999));
    assert_eq!(watcher.poll_begin(within), PollAction::Throttled);
    let cut_off = Instant::from_origin(Duration::new(0, 200_000_500));
    assert_eq!(watcher.poll_begin(cut_off), PollAction::Update);
}
