//! The lock that tells other processes that a patch is under way.
//!
//! A process that patches itself keeps a lock file, named after its process
//! id, in the coordination directory below the target directory. A tool that
//! rebuilds the library looks for such files and waits while there is one.

use vstd::prelude::*;
use vstd::string::{StringExecFns, StringSliceAdditionalSpecFns};

verus! {

/// The digit with the value `digit`, which is below ten.
pub open spec fn digit_char(digit: nat) -> char {
    if digit == 0 {
        '0'
    } else if digit == 1 {
        '1'
    } else if digit == 2 {
        '2'
    } else if digit == 3 {
        '3'
    } else if digit == 4 {
        '4'
    } else if digit == 5 {
        '5'
    } else if digit == 6 {
        '6'
    } else if digit == 7 {
        '7'
    } else if digit == 8 {
        '8'
    } else {
        '9'
    }
}

/// The decimal digits of `n`, without leading zeros.
pub open spec fn decimal(n: nat) -> Seq<char>
    decreases n,
{
    if n < 10 {
        seq![digit_char(n)]
    } else {
        decimal(n / 10).push(digit_char(n % 10))
    }
}

/// The name of the lock file of the process `pid`.
pub open spec fn lock_file_name_of(pid: u32) -> Seq<char> {
    decimal(pid as nat) + ".lock"@
}

/// The path of the lock file of the process `pid` below `target_dir`.
pub open spec fn lock_path_of(target_dir: Seq<char>, pid: u32) -> Seq<char> {
    target_dir + "/.hotpatch/"@ + lock_file_name_of(pid)
}

/// The path of the coordination directory below `target_dir`.
pub open spec fn coordination_dir_of(target_dir: Seq<char>) -> Seq<char> {
    target_dir + "/.hotpatch"@
}

fn digit_str(digit: u32) -> (text: &'static str)
    requires
        digit < 10,
    ensures
        text@ == seq![digit_char(digit as nat)],
{
    proof {
        reveal_strlit("0");
        reveal_strlit("1");
        reveal_strlit("2");
        reveal_strlit("3");
        reveal_strlit("4");
        reveal_strlit("5");
        reveal_strlit("6");
        reveal_strlit("7");
        reveal_strlit("8");
        reveal_strlit("9");
    }
    let text = if digit == 0 {
        "0"
    } else if digit == 1 {
        "1"
    } else if digit == 2 {
        "2"
    } else if digit == 3 {
        "3"
    } else if digit == 4 {
        "4"
    } else if digit == 5 {
        "5"
    } else if digit == 6 {
        "6"
    } else if digit == 7 {
        "7"
    } else if digit == 8 {
        "8"
    } else {
        "9"
    };
    text
}

/// Writes the decimal digits of `n` behind what `out` holds.
pub fn push_decimal(out: &mut String, n: u32)
    ensures
        final(out)@ == old(out)@ + decimal(n as nat),
    decreases n,
{
    if n >= 10 {
        push_decimal(out, n / 10);
    }
    out.append(digit_str(n % 10));
}

/// The path of the coordination directory below `target_dir`.
pub fn coordination_dir(target_dir: &str) -> (path: String)
    ensures
        path@ == coordination_dir_of(target_dir@),
{
    let mut path = String::from_str(target_dir);
    path.append("/.hotpatch");
    path
}

/// The path of the lock file of the process `pid` below `target_dir`.
pub fn hotpatch_lock_path(target_dir: &str, pid: u32) -> (path: String)
    ensures
        path@ == lock_path_of(target_dir@, pid),
{
    let mut path = String::from_str(target_dir);
    path.append("/.hotpatch/");
    push_decimal(&mut path, pid);
    path.append(".lock");
    path
}

/// The bytes of the ending `.lock`.
pub open spec fn lock_suffix() -> Seq<u8> {
    seq![46u8, 108u8, 111u8, 99u8, 107u8]
}

/// Whether `name` ends in `suffix`.
pub open spec fn ends_with(name: Seq<u8>, suffix: Seq<u8>) -> bool {
    name.len() >= suffix.len() && name.subrange(name.len() - suffix.len(), name.len() as int)
        == suffix
}

/// Whether `name` is the name of a lock file: whether it ends in `.lock`.
pub fn is_lock_file_name(name: &str) -> (lock: bool)
    ensures
        lock == ends_with(name.spec_bytes(), lock_suffix()),
{
    let bytes = name.as_bytes();
    let len = bytes.len();
    if len < 5 {
        return false;
    }
    let lock = bytes[len - 5] == 46 && bytes[len - 4] == 108 && bytes[len - 3] == 111 && bytes[len
        - 2] == 99 && bytes[len - 1] == 107;
    proof {
        let tail = bytes@.subrange(len - 5, len as int);
        if lock {
            assert(tail =~= lock_suffix());
        }
    }
    lock
}

/// The lock files of the coordination directory, by the ids of the processes
/// that keep them.
pub struct LockDir {
    pids: Vec<u32>,
}

impl View for LockDir {
    type V = Set<u32>;

    /// The ids of the processes whose lock file exists.
    closed spec fn view(&self) -> Set<u32> {
        Set::new(|pid: u32| self.pids@.contains(pid))
    }
}

/// Whether `kept` holds the ids of `seen` but for `pid`.
spec fn keeps_others(kept: Seq<u32>, seen: Seq<u32>, pid: u32) -> bool {
    forall|other: u32|
        #![trigger kept.contains(other)]
        #![trigger seen.contains(other)]
        kept.contains(other) == (other != pid && seen.contains(other))
}

/// Whether any lock file exists among `locks`.
pub open spec fn locked(locks: Set<u32>) -> bool {
    exists|pid: u32| locks.contains(pid)
}

impl LockDir {
    /// A coordination directory without lock files.
    pub fn new() -> (dir: LockDir)
        ensures
            dir@ == Set::<u32>::empty(),
    {
        let dir = LockDir { pids: Vec::new() };
        dir
    }

    /// Whether the lock file of the process `pid` exists.
    pub fn contains(&self, pid: u32) -> (exists: bool)
        ensures
            exists == self@.contains(pid),
    {
        let mut k: usize = 0;
        while k < self.pids.len()
            invariant
                k <= self.pids@.len(),
                forall|e: int| 0 <= e < k ==> self.pids@[e] != pid,
            decreases self.pids@.len() - k,
        {
            if self.pids[k] == pid {
                return true;
            }
            k = k + 1;
        }
        false
    }

    /// Creates the lock file of the process `pid`, or leaves it where it
    /// exists.
    pub fn create(&mut self, pid: u32)
        ensures
            final(self)@ == old(self)@.insert(pid),
    {
        if !self.contains(pid) {
            self.pids.push(pid);
            assert forall|other: u32| self.pids@.contains(other) == (old(self).pids@.contains(other)
                || other == pid) by {
                if old(self).pids@.contains(other) {
                    let e = choose|e: int|
                        0 <= e < old(self).pids@.len() && old(self).pids@[e] == other;
                    assert(self.pids@[e] == other);
                }
                if other == pid {
                    assert(self.pids@[self.pids@.len() - 1] == other);
                }
            }
        }
    }

    /// Removes the lock file of the process `pid`, if it exists.
    pub fn remove(&mut self, pid: u32)
        ensures
            final(self)@ == old(self)@.remove(pid),
    {
        let mut kept: Vec<u32> = Vec::new();
        let mut k: usize = 0;
        while k < self.pids.len()
            invariant
                k <= self.pids@.len(),
                self.pids@ == old(self).pids@,
                keeps_others(kept@, self.pids@.take(k as int), pid),
            decreases self.pids@.len() - k,
        {
            let ghost before = kept@;
            let here = self.pids[k];
            if here != pid {
                kept.push(here);
            }
            let ghost next = self.pids@.take(k + 1);
            proof {
                let now = kept@;
                assert forall|other: u32|
                    #![trigger now.contains(other)]
                    #![trigger next.contains(other)]
                    now.contains(other) == (other != pid && next.contains(other)) by {
                    if other == here {
                        assert(next[k as int] == other);
                    }
                    if before.contains(other) {
                        let e = choose|e: int| 0 <= e < before.len() && before[e] == other;
                        assert(kept@[e] == other);
                    }
                    if here != pid && other == here {
                        assert(kept@[kept@.len() - 1] == other);
                    }
                }
            }
            k = k + 1;
        }
        assert(self.pids@.take(k as int) =~= self.pids@);
        self.pids = kept;
    }

    /// Whether any lock file exists.
    pub fn any(&self) -> (any: bool)
        ensures
            any == locked(self@),
    {
        if self.pids.len() > 0 {
            assert(self@.contains(self.pids@[0]));
            true
        } else {
            false
        }
    }
}

/// The hold of one process on the patch lock. The lock file of the process
/// exists from [`HotpatchLock::new`] to [`HotpatchLock::drop`].
pub struct HotpatchLock {
    pid: u32,
}

impl HotpatchLock {
    /// The id of the process that holds the lock.
    pub closed spec fn pid(&self) -> u32 {
        self.pid
    }

    /// Takes the lock for the process `pid`: its lock file is created.
    pub fn new(dir: &mut LockDir, pid: u32) -> (lock: HotpatchLock)
        ensures
            lock.pid() == pid,
            final(dir)@ == old(dir)@.insert(pid),
            locked(final(dir)@),
    {
        dir.create(pid);
        assert(dir@.contains(pid));
        HotpatchLock { pid }
    }

    /// Whether a patch is under way: whether any lock file exists.
    pub fn is_locked(dir: &LockDir) -> (held: bool)
        ensures
            held == locked(dir@),
    {
        dir.any()
    }

    /// Gives the lock up: the lock file of the process is removed.
    pub fn drop(self, dir: &mut LockDir)
        ensures
            final(dir)@ == old(dir)@.remove(self.pid()),
    {
        dir.remove(self.pid);
    }
}

/// For as long as the lock file of one process exists a patch counts as
/// under way, whatever other processes do with their own lock files.
pub proof fn lemma_locked_while_held(locks: Set<u32>, holder: u32, other: u32)
    requires
        locks.contains(holder),
        other != holder,
    ensures
        locked(locks),
        locked(locks.insert(other)),
        locked(locks.remove(other)),
{
    assert(locks.insert(other).contains(holder));
    assert(locks.remove(other).contains(holder));
}

} // verus!
