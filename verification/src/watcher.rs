//! The watcher: the one coordinator of a process that notices a newer build
//! of the library on disk and has it patched in.
//!
//! Every call of a patched function polls the watcher. A poll that comes
//! less than [`POLL_MS`] after the last update does nothing. Otherwise the
//! poll takes the update lock, or leaves when another poll holds it, looks at
//! the library's file, and patches the process where the file has changed in
//! time and in content.

use vstd::prelude::*;
use vstd::string::StringExecFns;
use crate::abi::boxed::Heap;
use crate::abi::str::Str;
use crate::abi::time::{AtomicDuration, AtomicInstant, Duration, Instant, NANOS_PER_MICRO};
use crate::abi::time::NANOS_PER_MILLI;
use crate::hotpatch::{accounted, describes, merged, update_fn_table, Aborted, FnTable};
use crate::hotpatch::{LibraryPayload, LoadedLibrary, Patched, Registry};
use crate::identity::{content_hash, xxh3_64_of};
use crate::lock::{HotpatchLock, LockDir};
use crate::os::Module;

verus! {

/// The least time between two updates, in milliseconds.
pub const POLL_MS: u64 = 100;

/// Whether a poll at the clock reading `now` comes too soon after an update
/// at `last_update` to look at the file again.
pub open spec fn throttled(last_update: nat, now: nat) -> bool {
    now < last_update + POLL_MS * NANOS_PER_MILLI
}

/// Whether a poll at the clock reading `now` comes too soon after an update
/// at `last_update` to look at the file again.
pub fn is_throttled(last_update: &Instant, now: &Instant) -> (soon: bool)
    ensures
        soon == throttled(last_update@, now@),
{
    let elapsed = now.duration_since(last_update);
    elapsed.lt(&Duration::from_millis(POLL_MS))
}

/// Whether two times of a file's last change are the same to the watcher:
/// whether they lie in the same millisecond.
pub fn same_millisecond(known: &Duration, modified: &Duration) -> (same: bool)
    ensures
        same == (known.millis() == modified.millis()),
{
    modified.as_millis() == known.as_millis()
}

/// The state of the watcher.
pub struct Watcher {
    last_update: AtomicInstant,
    library_modified: AtomicDuration,
    library_hash: u64,
    library_name: String,
    update_lock: u32,
}

/// How an attempt to create the coordination directory ended.
#[derive(Clone, Copy, Debug, PartialEq, Eq, Structural)]
pub enum DirCreation {
    /// The directory was created.
    Created,
    /// The directory was there already.
    AlreadyExists,
    /// The directory is not there and could not be created.
    Failed,
}

/// What the start of a watcher found, step by step. A step that was not
/// reached, because an earlier one failed, is given as failed too.
pub struct Startup<'a> {
    /// The running library, if the operating system could tell it.
    pub module: Option<Module>,
    /// Whether the running library could be opened.
    pub opened: bool,
    /// Whether the running library exports the entry through which a new
    /// build adopts the watcher.
    pub exports_init_watcher: bool,
    /// The time of the last change of the library's file, as the span since
    /// the epoch, if the file could be asked.
    pub modified: Option<Duration>,
    /// How the creation of the coordination directory ended.
    pub coordination_dir: DirCreation,
    /// The bytes of the library's file, if it could be read.
    pub contents: Option<&'a [u8]>,
}

/// Why a watcher could not be started. Hot-patching is off for the rest of
/// the process.
#[derive(Clone, Copy, Debug, PartialEq, Eq, Structural)]
pub enum InitError {
    /// The operating system could not tell the running library.
    ModuleNotFound,
    /// The running library could not be opened.
    LibraryNotOpened,
    /// The running library lacks an export that patching needs.
    MissingExport,
    /// The library's file could not be asked for the time of its last
    /// change.
    NoMetadata,
    /// The coordination directory is not there and could not be created.
    NoCoordinationDir,
    /// The library's file could not be read.
    Unreadable,
}

/// The error with which a start that found `startup` ends, if it ends with
/// one: that of the first step that failed.
pub open spec fn startup_error(startup: Startup) -> Option<InitError> {
    if startup.module is None {
        Some(InitError::ModuleNotFound)
    } else if !startup.opened {
        Some(InitError::LibraryNotOpened)
    } else if !startup.exports_init_watcher {
        Some(InitError::MissingExport)
    } else if startup.modified is None {
        Some(InitError::NoMetadata)
    } else if startup.coordination_dir is Failed {
        Some(InitError::NoCoordinationDir)
    } else if startup.contents is None {
        Some(InitError::Unreadable)
    } else {
        None
    }
}

/// What a poll does.
#[derive(Clone, Copy, Debug, PartialEq, Eq, Structural)]
pub enum PollAction {
    /// Nothing: the last update is too recent.
    Throttled,
    /// It waits until the poll that holds the update lock has released it,
    /// and leaves.
    Wait,
    /// It holds the update lock now, and updates.
    Update,
}

/// What an update did.
pub enum Updated {
    /// Nothing: the file has the time of the last change that the watcher
    /// knows.
    Unchanged,
    /// It took note of the new time of the file, whose content is what the
    /// watcher knows.
    Touched,
    /// It patched the process with the new build.
    Patched(Patched),
}

/// What a poll did.
pub enum Polled {
    /// Nothing: the last update is too recent.
    Throttled,
    /// It left the update to the poll that holds the update lock.
    Waited,
    /// It updated, with this outcome.
    Updated(Result<Updated, UpdateError>),
}

/// Why an update failed. The next poll tries again.
pub enum UpdateError {
    /// The library's file could not be asked for the time of its last
    /// change.
    NoMetadata,
    /// The library's file could not be read.
    Unreadable,
    /// The new build could not be copied and loaded.
    NotLoaded,
    /// The new build lacks the entry through which it adopts the watcher.
    MissingInitWatcher,
    /// The new build exports no function table; it was unloaded again.
    MissingFnTable(Aborted),
}

/// The part of a process that patching reads and changes: the patch sites of
/// the running build with their function table, the libraries that were
/// loaded over it, and the lock files of the coordination directory.
pub struct Process<F> {
    /// The patch sites of the running build.
    pub registry: Registry<F>,
    /// The function table of the running build, built once.
    pub table: FnTable,
    /// The libraries that were loaded over the running build.
    pub heap: Heap<LibraryPayload>,
    /// The lock files of the coordination directory.
    pub locks: LockDir,
    /// The id of the process.
    pub pid: u32,
}

impl<F> Process<F> {
    /// Whether the parts of the process fit together: the table is that of
    /// the sites, the heap accounts for the sites, and the sites are few
    /// enough to be counted.
    pub open spec fn wf(&self) -> bool {
        &&& describes(self.table@, self.registry@)
        &&& accounted(self.registry@, self.heap@)
        &&& self.registry@.len() < u64::MAX - 1
    }
}

/// What the disk offers to an update: the time of the last change of the
/// library's file, the bytes of the file, and the build that loading a copy
/// of the file gives. Each is `None` where the step that gets it fails.
pub struct Disk<'a, F> {
    /// The time of the last change, as the span since the epoch.
    pub modified: Option<Duration>,
    /// The bytes of the file.
    pub contents: Option<&'a [u8]>,
    /// The build that the file holds.
    pub loaded: Option<LoadedLibrary<F>>,
    /// The directory in which the copy of the file is loaded.
    pub temp_dir: &'a str,
}

impl Watcher {
    /// The clock reading of the last update, in nanoseconds.
    pub closed spec fn last_update(&self) -> nat {
        self.last_update@
    }

    /// The clock reading with which the watcher was started, in
    /// nanoseconds.
    pub closed spec fn started(&self) -> nat {
        self.last_update.anchor()
    }

    /// The time of the last change of the library's file that the watcher
    /// knows, in microseconds since the epoch.
    pub closed spec fn library_modified(&self) -> nat {
        self.library_modified@
    }

    /// The content hash of the library's file that the watcher knows.
    pub closed spec fn library_hash(&self) -> u64 {
        self.library_hash
    }

    /// The name of the library's file.
    pub closed spec fn library_name(&self) -> Seq<char> {
        self.library_name@
    }

    /// Whether a poll holds the update lock.
    pub closed spec fn updating(&self) -> bool {
        self.update_lock != 0
    }

    /// Whether `other` knows the same file: the same name, time and content.
    pub open spec fn same_file(&self, other: &Watcher) -> bool {
        &&& self.library_name() == other.library_name()
        &&& self.library_modified() == other.library_modified()
        &&& self.library_hash() == other.library_hash()
    }

    /// Starts a watcher at the clock reading `now` from what the start found.
    /// The start fails with the error of its first step that failed. That
    /// the coordination directory was there already is no failure.
    pub fn new(startup: Startup, now: Instant) -> (started: Result<Watcher, InitError>)
        requires
            startup.modified is Some ==> startup.modified->0.micros() <= u64::MAX,
        ensures
            match started {
                Err(error) => startup_error(startup) == Some(error),
                Ok(watcher) => {
                    &&& startup_error(startup) is None
                    &&& watcher.last_update() == now@
                    &&& watcher.started() == now@
                    &&& watcher.library_modified() == startup.modified->0.micros()
                    &&& watcher.library_hash() == xxh3_64_of(startup.contents->0@)
                    &&& watcher.library_name() == startup.module->0.name()
                    &&& !watcher.updating()
                },
            },
    {
        let module = match &startup.module {
            Some(module) => module,
            None => {
                return Err(InitError::ModuleNotFound);
            },
        };
        if !startup.opened {
            return Err(InitError::LibraryNotOpened);
        }
        if !startup.exports_init_watcher {
            return Err(InitError::MissingExport);
        }
        let modified = match startup.modified {
            Some(modified) => modified,
            None => {
                return Err(InitError::NoMetadata);
            },
        };
        match startup.coordination_dir {
            DirCreation::Failed => {
                return Err(InitError::NoCoordinationDir);
            },
            _ => {},
        }
        let bytes = match startup.contents {
            Some(bytes) => bytes,
            None => {
                return Err(InitError::Unreadable);
            },
        };
        let hash = content_hash(bytes);
        Ok(
            Watcher {
                last_update: AtomicInstant::now(now),
                update_lock: 0,
                library_modified: AtomicDuration::new(modified),
                library_name: String::from_str(Str::new(module.file_name()).as_str()),
                library_hash: hash,
            },
        )
    }

    /// The name of the library's file.
    pub fn name(&self) -> (name: &str)
        ensures
            name@ == self.library_name(),
    {
        self.library_name.as_str()
    }

    /// The path of the library's file below `target_dir`.
    pub fn library_path(&self, target_dir: &str) -> (path: String)
        ensures
            path@ == target_dir@ + "/"@ + self.library_name(),
    {
        let mut path = String::from_str(target_dir);
        path.append("/");
        path.append(self.library_name.as_str());
        path
    }

    /// The first part of a poll at the clock reading `now`: the poll is
    /// throttled where the last update is less than [`POLL_MS`] back; it
    /// waits where another poll holds the update lock; and else it takes
    /// the lock, to update.
    pub fn poll_begin(&mut self, now: Instant) -> (action: PollAction)
        ensures
            action == if throttled(old(self).last_update(), now@) {
                PollAction::Throttled
            } else if old(self).updating() {
                PollAction::Wait
            } else {
                PollAction::Update
            },
            final(self).last_update() == old(self).last_update(),
            final(self).started() == old(self).started(),
            final(self).same_file(old(self)),
            final(self).updating() == (old(self).updating() || action is Update),
    {
        let last_update = self.last_update.load();
        if is_throttled(&last_update, &now) {
            return PollAction::Throttled;
        }
        if self.update_lock != 0 {
            return PollAction::Wait;
        }
        self.update_lock = 1;
        PollAction::Update
    }

    /// The last part of a poll that updated: the update lock is released, so
    /// that the polls that wait for it go on, and the clock reading `now`,
    /// taken after the update, is put down as the time of the last update.
    pub fn poll_end(&mut self, now: Instant)
        requires
            now@ - old(self).started() <= u64::MAX * NANOS_PER_MICRO,
        ensures
            !final(self).updating(),
            final(self).started() == old(self).started(),
            final(self).last_update() == AtomicInstant::stored(old(self).started(), now@),
            final(self).same_file(old(self)),
    {
        self.update_lock = 0;
        self.last_update.store(now);
    }

    /// The time of the last change of the library's file that the watcher
    /// knows, in milliseconds since the epoch.
    pub open spec fn library_modified_millis(&self) -> nat {
        self.library_modified() / 1000
    }

    /// Whether the library's file, last changed at `modified`, is the file
    /// that the watcher knows: whether the two times are the same
    /// millisecond.
    pub fn is_current(&self, modified: &Duration) -> (current: bool)
        ensures
            current == (modified.millis() == self.library_modified_millis()),
    {
        let known = self.library_modified.load();
        same_millisecond(&known, modified)
    }

    /// The time of the last change of the library's file that the watcher
    /// knows, as the span since the epoch.
    pub fn modified(&self) -> (modified: Duration)
        ensures
            modified.micros() == self.library_modified(),
    {
        self.library_modified.load()
    }

    /// The content hash of the library's file that the watcher knows.
    pub fn hash(&self) -> (hash: u64)
        ensures
            hash == self.library_hash(),
    {
        self.library_hash
    }

    /// Whether a file with the content hash `hash` has the content that the
    /// watcher knows.
    pub fn has_content(&self, hash: u64) -> (same: bool)
        ensures
            same == (hash == self.library_hash()),
    {
        hash == self.library_hash
    }

    /// Takes note that the file, with the content that the watcher knows,
    /// was last changed at `modified`.
    pub fn touch(&mut self, modified: Duration)
        requires
            modified.micros() <= u64::MAX,
        ensures
            final(self).library_modified() == modified.micros(),
            final(self).library_hash() == old(self).library_hash(),
            final(self).library_name() == old(self).library_name(),
            final(self).last_update() == old(self).last_update(),
            final(self).started() == old(self).started(),
            final(self).updating() == old(self).updating(),
    {
        self.library_modified.store(modified);
    }

    /// Takes note that the process runs the build with the content hash
    /// `hash`, whose file was last changed at `modified`.
    pub fn commit(&mut self, modified: Duration, hash: u64)
        requires
            modified.micros() <= u64::MAX,
        ensures
            final(self).library_modified() == modified.micros(),
            final(self).library_hash() == hash,
            final(self).library_name() == old(self).library_name(),
            final(self).last_update() == old(self).last_update(),
            final(self).started() == old(self).started(),
            final(self).updating() == old(self).updating(),
    {
        self.library_modified.store(modified);
        self.library_hash = hash;
    }
}

/// A poll that comes less than [`POLL_MS`] after the clock reading that the
/// last update put down is throttled: it does not look at the file. The cell
/// keeps the reading cut down to whole microseconds after the start of the
/// watcher, so this holds as long as more time is left of the interval than
/// was cut off.
pub proof fn lemma_second_poll_throttled(started: nat, stamped: nat, now: nat)
    requires
        stamped >= started,
        now < stamped + POLL_MS * NANOS_PER_MILLI,
        stamped + POLL_MS * NANOS_PER_MILLI - now > (stamped - started) % (NANOS_PER_MICRO as int),
    ensures
        throttled(AtomicInstant::stored(started, stamped), now),
{
}

impl<F> Process<F> {
    /// Whether `other` has the same sites, libraries and lock files.
    pub open spec fn same_state(&self, other: &Process<F>) -> bool {
        &&& self.registry@ == other.registry@
        &&& self.heap@ == other.heap@
        &&& self.locks@ == other.locks@
        &&& self.table@ == other.table@
        &&& self.pid == other.pid
    }
}

/// Whether the file that the disk offers was changed at another time than
/// the file that the watcher knows.
pub open spec fn changed_in_time<F>(watcher: &Watcher, disk: Disk<F>) -> bool {
    disk.modified is Some && disk.modified->0.millis() != watcher.library_modified_millis()
}

/// Whether the file that the disk offers was changed at another time and has
/// another content than the file that the watcher knows.
pub open spec fn changed_in_content<F>(watcher: &Watcher, disk: Disk<F>) -> bool {
    &&& changed_in_time(watcher, disk)
    &&& disk.contents is Some
    &&& xxh3_64_of(disk.contents->0@) != watcher.library_hash()
}

/// Whether `outcome`, with the watcher `after` and the process `then`, is
/// what an update of the watcher `before` and the process `process` gives
/// with what the disk offers.
pub open spec fn updated<F>(
    before: &Watcher,
    process: &Process<F>,
    disk: Disk<F>,
    after: &Watcher,
    then: &Process<F>,
    outcome: Result<Updated, UpdateError>,
) -> bool {
    match outcome {
        Ok(Updated::Unchanged) => {
            &&& disk.modified is Some
            &&& !changed_in_time(before, disk)
            &&& after.same_file(before)
            &&& then.same_state(process)
        },
        Ok(Updated::Touched) => {
            &&& changed_in_time(before, disk)
            &&& disk.contents is Some
            &&& !changed_in_content(before, disk)
            &&& after.library_modified() == disk.modified->0.micros()
            &&& after.library_hash() == before.library_hash()
            &&& then.same_state(process)
        },
        Ok(Updated::Patched(patched)) => {
            &&& changed_in_content(before, disk)
            &&& after.library_modified() == disk.modified->0.micros()
            &&& after.library_hash() == xxh3_64_of(disk.contents->0@)
            &&& then.locks@ == process.locks@.remove(process.pid)
            &&& disk.loaded is Some
            &&& disk.loaded->0.exports_init_watcher()
            &&& disk.loaded->0.fn_table() is Some
            &&& merged(
                process.registry@,
                process.heap@,
                process.table@,
                disk.loaded->0.sites(),
                disk.loaded->0.fn_table()->0,
                disk.loaded->0.lib_handle(),
                disk.temp_dir@,
                then.registry@,
                then.heap@,
                patched,
            )
        },
        Err(error) => {
            &&& after.same_file(before)
            &&& then.registry@ == process.registry@
            &&& then.heap@ == process.heap@
            &&& match error {
                UpdateError::NoMetadata => disk.modified is None && then.locks@ == process.locks@,
                UpdateError::Unreadable => {
                    &&& changed_in_time(before, disk)
                    &&& disk.contents is None
                    &&& then.locks@ == process.locks@
                },
                UpdateError::NotLoaded => {
                    &&& changed_in_content(before, disk)
                    &&& disk.loaded is None
                    &&& then.locks@ == process.locks@.remove(process.pid)
                },
                UpdateError::MissingInitWatcher => {
                    &&& changed_in_content(before, disk)
                    &&& disk.loaded is Some
                    &&& !disk.loaded->0.exports_init_watcher()
                    &&& then.locks@ == process.locks@.remove(process.pid)
                },
                UpdateError::MissingFnTable(aborted) => {
                    &&& changed_in_content(before, disk)
                    &&& disk.loaded is Some
                    &&& disk.loaded->0.exports_init_watcher()
                    &&& disk.loaded->0.fn_table() is None
                    &&& then.locks@ == process.locks@.remove(process.pid)
                    &&& aborted.unloaded.refcount() == 1
                    &&& aborted.unloaded.lib_handle() == disk.loaded->0.lib_handle()
                    &&& aborted.unloaded.temp_path() == disk.temp_dir@
                },
            }
        },
    }
}

impl Watcher {
    /// Patches the process with the build that was loaded from a copy of the
    /// library's file in `temp_dir`; `None` stands for a build that could not
    /// be copied and loaded.
    ///
    /// The process keeps its lock file from the first step to the last. A
    /// build that lacks the entry through which it adopts this watcher is
    /// left alone. Every other build is merged into the running one, as
    /// [`update_fn_table`] does it.
    pub fn hotpatch_library<F: Copy>(
        &self,
        process: &mut Process<F>,
        loaded: Option<LoadedLibrary<F>>,
        temp_dir: &str,
    ) -> (outcome: Result<Patched, UpdateError>)
        requires
            old(process).wf(),
            old(process).heap.has_room(),
        ensures
            final(process).wf(),
            final(process).pid == old(process).pid,
            final(process).table@ == old(process).table@,
            final(process).locks@ == old(process).locks@.remove(old(process).pid),
            match outcome {
                Ok(patched) => {
                    &&& loaded is Some
                    &&& loaded->0.exports_init_watcher()
                    &&& loaded->0.fn_table() is Some
                    &&& merged(
                        old(process).registry@,
                        old(process).heap@,
                        old(process).table@,
                        loaded->0.sites(),
                        loaded->0.fn_table()->0,
                        loaded->0.lib_handle(),
                        temp_dir@,
                        final(process).registry@,
                        final(process).heap@,
                        patched,
                    )
                },
                Err(error) => {
                    &&& final(process).registry@ == old(process).registry@
                    &&& final(process).heap@ == old(process).heap@
                    &&& match error {
                        UpdateError::NotLoaded => loaded is None,
                        UpdateError::MissingInitWatcher => loaded is Some
                            && !loaded->0.exports_init_watcher(),
                        UpdateError::MissingFnTable(aborted) => {
                            &&& loaded is Some
                            &&& loaded->0.exports_init_watcher()
                            &&& loaded->0.fn_table() is None
                            &&& aborted.unloaded.refcount() == 1
                            &&& aborted.unloaded.lib_handle() == loaded->0.lib_handle()
                            &&& aborted.unloaded.temp_path() == temp_dir@
                        },
                        _ => false,
                    }
                },
            },
    {
        let file_lock = HotpatchLock::new(&mut process.locks, process.pid);
        let outcome = match loaded {
            None => Err(UpdateError::NotLoaded),
            Some(library) => {
                if !library.has_init_watcher() {
                    Err(UpdateError::MissingInitWatcher)
                } else {
                    match update_fn_table(
                        &mut process.registry,
                        &process.table,
                        &mut process.heap,
                        library,
                        temp_dir,
                    ) {
                        Ok(patched) => Ok(patched),
                        Err(aborted) => Err(UpdateError::MissingFnTable(aborted)),
                    }
                }
            },
        };
        file_lock.drop(&mut process.locks);
        outcome
    }

    /// Brings the watcher and the process up to what the disk offers.
    ///
    /// Nothing happens where the file has the time of the last change that
    /// the watcher knows. Where only the time is new, and the content is what
    /// the watcher knows, the watcher takes note of the time. Where the
    /// content is new, the process is patched with the build that the file
    /// holds, and the watcher takes note of time and content once that has
    /// succeeded. After a failure the watcher knows what it knew, so that the
    /// next update tries again.
    pub fn update<F: Copy>(&mut self, process: &mut Process<F>, disk: Disk<F>) -> (outcome: Result<
        Updated,
        UpdateError,
    >)
        requires
            old(process).wf(),
            old(process).heap.has_room(),
            disk.modified is Some ==> disk.modified->0.micros() <= u64::MAX,
        ensures
            final(process).wf(),
            final(process).pid == old(process).pid,
            final(process).table@ == old(process).table@,
            final(self).library_name() == old(self).library_name(),
            final(self).last_update() == old(self).last_update(),
            final(self).started() == old(self).started(),
            final(self).updating() == old(self).updating(),
            updated(old(self), old(process), disk, final(self), final(process), outcome),
    {
        let modified = match disk.modified {
            Some(modified) => modified,
            None => {
                return Err(UpdateError::NoMetadata);
            },
        };
        if self.is_current(&modified) {
            return Ok(Updated::Unchanged);
        }
        let bytes = match disk.contents {
            Some(bytes) => bytes,
            None => {
                return Err(UpdateError::Unreadable);
            },
        };
        let hash = content_hash(bytes);
        if self.has_content(hash) {
            self.touch(modified);
            return Ok(Updated::Touched);
        }
        match self.hotpatch_library(process, disk.loaded, disk.temp_dir) {
            Err(error) => Err(error),
            Ok(patched) => {
                self.commit(modified, hash);
                Ok(Updated::Patched(patched))
            },
        }
    }

    /// One poll of the watcher, at the clock reading `now`: throttled, left
    /// to the poll that holds the update lock, or an update with what the
    /// disk offers. After an update the update lock is free again, and the
    /// clock reading `after`, taken when the update was over, is put down as
    /// the time of the last update, whether the update succeeded or failed.
    pub fn poll<F: Copy>(
        &mut self,
        process: &mut Process<F>,
        now: Instant,
        disk: Disk<F>,
        after: Instant,
    ) -> (polled: Polled)
        requires
            old(process).wf(),
            old(process).heap.has_room(),
            disk.modified is Some ==> disk.modified->0.micros() <= u64::MAX,
            after@ - old(self).started() <= u64::MAX * NANOS_PER_MICRO,
        ensures
            final(process).wf(),
            final(self).started() == old(self).started(),
            final(self).library_name() == old(self).library_name(),
            polled is Throttled == throttled(old(self).last_update(), now@),
            polled is Waited == (!throttled(old(self).last_update(), now@) && old(self).updating()),
            !(polled is Updated) ==> {
                &&& final(self).same_file(old(self))
                &&& final(self).last_update() == old(self).last_update()
                &&& final(self).updating() == old(self).updating()
                &&& final(process).same_state(old(process))
            },
            polled matches Polled::Updated(outcome) ==> {
                &&& !final(self).updating()
                &&& final(self).last_update() == AtomicInstant::stored(old(self).started(), after@)
                &&& updated(old(self), old(process), disk, final(self), final(process), outcome)
            },
    {
        match self.poll_begin(now) {
            PollAction::Throttled => Polled::Throttled,
            PollAction::Wait => Polled::Waited,
            PollAction::Update => {
                let outcome = self.update(process, disk);
                self.poll_end(after);
                Polled::Updated(outcome)
            },
        }
    }
}

/// An update with a file that was last changed when the file that the
/// watcher knows was, to the millisecond, changes nothing: the watcher knows
/// what it knew, and the sites, the libraries and the lock files of the
/// process are as they were.
pub proof fn lemma_unchanged_file_has_no_effect<F>(
    before: &Watcher,
    process: &Process<F>,
    disk: Disk<F>,
    after: &Watcher,
    then: &Process<F>,
    outcome: Result<Updated, UpdateError>,
)
    requires
        updated(before, process, disk, after, then, outcome),
        disk.modified is Some,
        disk.modified->0.millis() == before.library_modified_millis(),
    ensures
        outcome matches Ok(Updated::Unchanged),
        after.same_file(before),
        then.same_state(process),
{
}

/// An update with a file that was changed at another time and has the
/// content that the watcher knows takes note of the time and leaves the
/// process alone: no site is rebound and no library loaded.
pub proof fn lemma_touched_file_keeps_sites<F>(
    before: &Watcher,
    process: &Process<F>,
    disk: Disk<F>,
    after: &Watcher,
    then: &Process<F>,
    outcome: Result<Updated, UpdateError>,
)
    requires
        updated(before, process, disk, after, then, outcome),
        changed_in_time(before, disk),
        disk.contents is Some,
        xxh3_64_of(disk.contents->0@) == before.library_hash(),
    ensures
        outcome matches Ok(Updated::Touched),
        after.library_modified() == disk.modified->0.micros(),
        after.library_hash() == before.library_hash(),
        then.same_state(process),
{
}

/// The place of the one watcher of a process. It is settled once, by the
/// first call that asks for the watcher or by the build that hands its own
/// watcher on, and keeps what it was settled with: a watcher, or none where
/// the start failed.
pub struct WatcherCell {
    state: Option<Option<Watcher>>,
}

impl WatcherCell {
    /// Whether the cell has been settled.
    pub closed spec fn settled(&self) -> bool {
        self.state is Some
    }

    /// The watcher that the cell was settled with, if it was settled with
    /// one.
    pub closed spec fn watcher(&self) -> Option<Watcher> {
        match self.state {
            Some(watcher) => watcher,
            None => None,
        }
    }

    /// A cell that has not been settled.
    pub fn new() -> (cell: WatcherCell)
        ensures
            !cell.settled(),
            cell.watcher() is None,
    {
        WatcherCell { state: None }
    }

    /// Whether hot-patching is on: whether the cell was settled with a
    /// watcher.
    pub fn is_running(&self) -> (running: bool)
        ensures
            running == (self.watcher() is Some),
    {
        match &self.state {
            Some(Some(_)) => true,
            _ => false,
        }
    }

    /// Settles the cell with `watcher`, the watcher of the build that loaded
    /// this one, unless the cell has been settled.
    pub fn init_watcher(&mut self, watcher: Watcher)
        ensures
            final(self).settled(),
            old(self).settled() ==> final(self).watcher() == old(self).watcher(),
            !old(self).settled() ==> final(self).watcher() == Some(watcher),
    {
        if self.state.is_none() {
            self.state = Some(Some(watcher));
        }
    }
}

impl Watcher {
    /// The watcher of the process. The first call settles the cell: it starts
    /// a watcher from what the start found, and settles the cell with it, or
    /// with none where the start failed. Every later call finds the cell as
    /// it was settled.
    pub fn get<'a>(cell: &'a mut WatcherCell, startup: Startup, now: Instant) -> (watcher: Option<
        &'a mut Watcher,
    >)
        requires
            startup.modified is Some ==> startup.modified->0.micros() <= u64::MAX,
        ensures
            final(cell).settled(),
            watcher is Some ==> final(cell).watcher() == Some(*final(watcher->0)),
            watcher is None ==> final(cell).watcher() is None,
            old(cell).settled() ==> watcher is Some == (old(cell).watcher() is Some),
            old(cell).settled() && watcher is Some ==> *watcher->0 == old(cell).watcher()->0,
            !old(cell).settled() ==> watcher is Some == (startup_error(startup) is None),
            !old(cell).settled() && watcher is Some ==> {
                &&& watcher->0.last_update() == now@
                &&& watcher->0.started() == now@
                &&& watcher->0.library_modified() == startup.modified->0.micros()
                &&& watcher->0.library_hash() == xxh3_64_of(startup.contents->0@)
                &&& watcher->0.library_name() == startup.module->0.name()
                &&& !watcher->0.updating()
            },
    {
        if cell.state.is_none() {
            cell.state = Some(Watcher::new(startup, now).ok());
        }
        match &mut cell.state {
            Some(Some(watcher)) => Some(watcher),
            _ => None,
        }
    }
}

} // verus!
