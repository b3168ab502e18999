//! Patch sites, the libraries behind them, and the merge that rebinds the
//! sites when a newer build of a library has been loaded.

use vstd::prelude::*;
use crate::abi::boxed::{Box, Heap};
use crate::abi::str::BoxedStr;
use crate::identity::{identity, identity_hash};
use crate::merge::{merge, merge_steps, orders, places, strictly_ascending, table_order};
use crate::merge::MergeStep;
use crate::merge::{lemma_common_paired, lemma_steps_ascend, lemma_steps_in_range};
use crate::merge::{lemma_mine_covered, lemma_theirs_covered};
use vstd::string::{StringExecFns, StringSliceAdditionalSpecFns};
use vstd::utf8::encode_utf8;

verus! {

/// What is kept of a loaded library for as long as any handle refers to it:
/// the count of those handles, the loader's handle on the library, and the
/// directory that holds the copy which was loaded.
pub struct LibraryPayload {
    refcount: u64,
    lib_handle: usize,
    temp_path: BoxedStr,
}

impl LibraryPayload {
    #[verifier::type_invariant]
    spec fn referred_to(self) -> bool {
        self.refcount >= 1
    }

    /// The number of handles that refer to the payload.
    pub closed spec fn refcount(self) -> nat {
        self.refcount as nat
    }

    /// The loader's handle on the library.
    pub closed spec fn lib_handle(self) -> usize {
        self.lib_handle
    }

    /// The directory that holds the loaded copy.
    pub closed spec fn temp_path(self) -> Seq<char> {
        self.temp_path@
    }

    /// The same library with `refcount` handles.
    pub closed spec fn with_refcount(self, refcount: nat) -> LibraryPayload {
        LibraryPayload { refcount: refcount as u64, ..self }
    }

    /// Puts a freshly loaded library under the heap's care and returns the
    /// one handle that refers to it.
    pub fn make_handle(heap: &mut Heap<LibraryPayload>, lib: usize, dir: &str) -> (handle:
        LibraryHandle)
        requires
            old(heap).has_room(),
        ensures
            handle.payload() != 0,
            !old(heap)@.dom().contains(handle.payload()),
            final(heap)@.dom() == old(heap)@.dom().insert(handle.payload()),
            final(heap)@[handle.payload()].refcount() == 1,
            final(heap)@[handle.payload()].lib_handle() == lib,
            final(heap)@[handle.payload()].temp_path() == dir@,
            forall|addr: usize|
                old(heap)@.dom().contains(addr) ==> final(heap)@[addr] == old(heap)@[addr],
    {
        let payload = Box::new(
            heap,
            LibraryPayload { refcount: 1, lib_handle: lib, temp_path: BoxedStr::new(dir) },
        );
        LibraryHandle { ptr: payload.into_raw() }
    }

    /// The number of handles that refer to the payload.
    pub fn handles(&self) -> (count: u64)
        ensures
            count == self.refcount(),
            count >= 1,
    {
        proof {
            use_type_invariant(self);
        }
        self.refcount
    }

    /// The loader's handle on the library, which the owner of an unloaded
    /// payload closes.
    pub fn os_handle(&self) -> (lib: usize)
        ensures
            lib == self.lib_handle(),
    {
        self.lib_handle
    }

    /// The directory of the loaded copy, which the owner of an unloaded
    /// payload removes.
    pub fn directory(&self) -> (dir: &str)
        ensures
            dir@ == self.temp_path(),
    {
        self.temp_path.deref()
    }
}

/// A reference to a loaded library, or to none. Every handle that refers to
/// a library counts in that library's payload; the library goes when the last
/// of them is dropped.
pub struct LibraryHandle {
    ptr: usize,
}

impl LibraryHandle {
    /// The address of the payload that the handle refers to, 0 for none.
    pub closed spec fn payload(&self) -> usize {
        self.ptr
    }

    /// Whether the handle may be cloned and dropped with `heap`: it refers to
    /// nothing, or to a payload that lives there.
    pub open spec fn bound_in(&self, heap: Map<usize, LibraryPayload>) -> bool {
        self.payload() != 0 ==> heap.dom().contains(self.payload())
    }

    /// The handle that refers to no library.
    pub fn null() -> (handle: LibraryHandle)
        ensures
            handle.payload() == 0,
    {
        LibraryHandle { ptr: 0 }
    }

    /// Whether the handle refers to no library.
    pub fn is_null(&self) -> (null: bool)
        ensures
            null == (self.payload() == 0),
    {
        self.ptr == 0
    }

    /// The address of the payload that the handle refers to, 0 for none.
    pub fn as_raw(&self) -> (addr: usize)
        ensures
            addr == self.payload(),
    {
        self.ptr
    }

    /// Makes this handle refer to what `new` referred to, and returns a
    /// handle on what it referred to before. No count changes.
    pub fn replace(&mut self, new: LibraryHandle) -> (previous: LibraryHandle)
        ensures
            final(self).payload() == new.payload(),
            previous.payload() == old(self).payload(),
    {
        let previous = LibraryHandle { ptr: self.ptr };
        self.ptr = new.ptr;
        previous
    }

    /// One more handle on the same library: the library's count goes up by
    /// one. A clone of the null handle is null and counts nowhere.
    pub fn clone(&self, heap: &mut Heap<LibraryPayload>) -> (copy: LibraryHandle)
        requires
            self.bound_in(old(heap)@),
            self.payload() != 0 ==> old(heap)@[self.payload()].refcount() < u64::MAX,
        ensures
            copy.payload() == self.payload(),
            final(heap).has_room() == old(heap).has_room(),
            final(heap)@ == after_clone(old(heap)@, self.payload()),
    {
        if self.ptr != 0 {
            let mut payload = heap.take(self.ptr);
            payload.refcount = payload.refcount + 1;
            heap.put(self.ptr, payload);
        }
        LibraryHandle { ptr: self.ptr }
    }

    /// Gives the reference up: the library's count goes down by one, and the
    /// library leaves the heap with its last handle. The payload of a library
    /// that left is returned, so that its owner can close the library and
    /// remove the directory. Dropping the null handle does nothing.
    pub fn drop(self, heap: &mut Heap<LibraryPayload>) -> (unloaded: Option<LibraryPayload>)
        requires
            self.bound_in(old(heap)@),
        ensures
            final(heap)@ == after_drop(old(heap)@, self.payload()),
            final(heap).has_room() == old(heap).has_room(),
            unloaded is Some == unloads(old(heap)@, self.payload()),
            unloaded is Some ==> unloaded->0 == old(heap)@[self.payload()],
    {
        if self.ptr == 0 {
            return None;
        }
        let mut payload = heap.take(self.ptr);
        proof {
            use_type_invariant(&payload);
        }
        if payload.refcount != 1 {
            payload.refcount = payload.refcount - 1;
            heap.put(self.ptr, payload);
            return None;
        }
        Some(payload)
    }
}

/// The heap after one more handle has been made on the payload at `addr`.
pub open spec fn after_clone(heap: Map<usize, LibraryPayload>, addr: usize) -> Map<
    usize,
    LibraryPayload,
> {
    if addr == 0 {
        heap
    } else {
        heap.insert(addr, heap[addr].with_refcount(heap[addr].refcount() + 1))
    }
}

/// The heap after one handle on the payload at `addr` has been dropped.
pub open spec fn after_drop(heap: Map<usize, LibraryPayload>, addr: usize) -> Map<
    usize,
    LibraryPayload,
> {
    if addr == 0 {
        heap
    } else if heap[addr].refcount() > 1 {
        heap.insert(addr, heap[addr].with_refcount((heap[addr].refcount() - 1) as nat))
    } else {
        heap.remove(addr)
    }
}

/// Whether dropping one handle on the payload at `addr` unloads the library.
pub open spec fn unloads(heap: Map<usize, LibraryPayload>, addr: usize) -> bool {
    addr != 0 && heap[addr].refcount() <= 1
}

/// A payload with another count is the same library in the same directory,
/// and counts what it was given to count.
pub proof fn lemma_with_refcount(payload: LibraryPayload, refcount: nat)
    requires
        refcount <= u64::MAX,
    ensures
        payload.with_refcount(refcount).refcount() == refcount,
        payload.with_refcount(refcount).lib_handle() == payload.lib_handle(),
        payload.with_refcount(refcount).temp_path() == payload.temp_path(),
        payload.with_refcount(payload.refcount()) == payload,
{
}

/// What is done with a handle on a library.
pub enum HandleOp {
    /// One more handle is made.
    Clone,
    /// One handle is dropped.
    Drop,
}

/// The handles that refer to a library after `ops`, when `start` of them
/// referred to it before: `start`, plus the clones, less the drops.
pub open spec fn live_references(start: nat, ops: Seq<HandleOp>) -> int
    decreases ops.len(),
{
    if ops.len() == 0 {
        start as int
    } else {
        live_references(start, ops.drop_last()) + match ops.last() {
            HandleOp::Clone => 1int,
            HandleOp::Drop => -1int,
        }
    }
}

/// The heap after `ops` have been done, in order, with handles on the
/// payload at `addr`.
pub open spec fn after_ops(heap: Map<usize, LibraryPayload>, addr: usize, ops: Seq<HandleOp>) -> Map<
    usize,
    LibraryPayload,
>
    decreases ops.len(),
{
    if ops.len() == 0 {
        heap
    } else {
        match ops.last() {
            HandleOp::Clone => after_clone(after_ops(heap, addr, ops.drop_last()), addr),
            HandleOp::Drop => after_drop(after_ops(heap, addr, ops.drop_last()), addr),
        }
    }
}

/// How often the library with the payload at `addr` is unloaded while `ops`
/// are done.
pub open spec fn unloads_in(heap: Map<usize, LibraryPayload>, addr: usize, ops: Seq<HandleOp>) -> nat
    decreases ops.len(),
{
    if ops.len() == 0 {
        0
    } else {
        unloads_in(heap, addr, ops.drop_last()) + if ops.last() is Drop && unloads(
            after_ops(heap, addr, ops.drop_last()),
            addr,
        ) {
            1nat
        } else {
            0nat
        }
    }
}

/// Whether `ops` can be done with handles on a library that `start` handles
/// refer to: each of them is done while a handle is left to do it with, and
/// the count of the handles never leaves its range.
pub open spec fn handles_suffice(start: nat, ops: Seq<HandleOp>) -> bool {
    &&& forall|n: int| 0 <= n < ops.len() ==> live_references(start, #[trigger] ops.take(n)) > 0
    &&& forall|n: int|
        0 <= n <= ops.len() ==> live_references(start, #[trigger] ops.take(n)) <= u64::MAX
}

/// The count of a library is conserved: after any clones and drops of its
/// handles the payload counts the handles it counted, plus the clones, less
/// the drops; it lives for as long as that is more than none; and the library
/// is unloaded once when the last handle is dropped, and never otherwise.
pub proof fn lemma_references_conserved(
    heap: Map<usize, LibraryPayload>,
    addr: usize,
    ops: Seq<HandleOp>,
)
    requires
        addr != 0,
        heap.dom().contains(addr),
        heap[addr].refcount() >= 1,
        handles_suffice(heap[addr].refcount(), ops),
    ensures
        live_references(heap[addr].refcount(), ops) >= 0,
        after_ops(heap, addr, ops).dom().contains(addr) == (live_references(
            heap[addr].refcount(),
            ops,
        ) > 0),
        after_ops(heap, addr, ops).dom().contains(addr) ==> after_ops(heap, addr, ops)[addr].refcount()
            == live_references(heap[addr].refcount(), ops),
        unloads_in(heap, addr, ops) == if live_references(heap[addr].refcount(), ops) == 0 {
            1nat
        } else {
            0nat
        },
    decreases ops.len(),
{
    let start = heap[addr].refcount();
    if ops.len() > 0 {
        let front = ops.drop_last();
        assert(ops.take(ops.len() as int) =~= ops);
        assert(handles_suffice(start, front)) by {
            assert forall|n: int| 0 <= n <= front.len() implies #[trigger] front.take(n)
                == ops.take(n) by {}
        }
        lemma_references_conserved(heap, addr, front);
    }
}

/// One patched function: the target that calls of the function go to, the
/// handle on the library that holds the target's code, and what the identity
/// of the function is made from. The handle is null for as long as the target
/// is the code that the process started with.
pub struct PatchSite<F> {
    fn_ptr: F,
    handle: LibraryHandle,
    signature: String,
    name: String,
}

impl<F> PatchSite<F> {
    /// The target that calls go to.
    pub closed spec fn target(&self) -> F {
        self.fn_ptr
    }

    /// The address of the payload of the library that holds the target, 0
    /// for the code that the process started with.
    pub closed spec fn library(&self) -> usize {
        self.handle.payload()
    }

    /// The text of the function's signature.
    pub closed spec fn signature(&self) -> Seq<char> {
        self.signature@
    }

    /// The qualified name of the function.
    pub closed spec fn name(&self) -> Seq<char> {
        self.name@
    }

    /// The identity hash of the function.
    pub closed spec fn hash(&self) -> u128 {
        identity_hash(encode_utf8(self.signature@), encode_utf8(self.name@))
    }

    /// Whether `other` is the site of the same function, whatever its target
    /// and library.
    pub open spec fn same_function(&self, other: &PatchSite<F>) -> bool {
        &&& self.signature() == other.signature()
        &&& self.name() == other.name()
        &&& self.hash() == other.hash()
    }

    /// The site of the function with the given signature text and qualified
    /// name, whose calls go to `target` in the code that the process started
    /// with.
    pub fn new(target: F, signature: &str, name: &str) -> (site: PatchSite<F>)
        ensures
            site.target() == target,
            site.library() == 0,
            site.signature() == signature@,
            site.name() == name@,
            site.hash() == identity_hash(signature.spec_bytes(), name.spec_bytes()),
    {
        PatchSite {
            fn_ptr: target,
            handle: LibraryHandle::null(),
            signature: String::from_str(signature),
            name: String::from_str(name),
        }
    }

    /// The identity of the function: its identity hash and its qualified
    /// name.
    pub fn identity(&self) -> (id: (u128, &str))
        ensures
            id.0 == self.hash(),
            id.1@ == self.name(),
    {
        identity(self.signature.as_str().as_bytes(), self.name.as_str())
    }

    /// The handle on the library that holds the target.
    pub fn handle(&self) -> (handle: &LibraryHandle)
        ensures
            handle.payload() == self.library(),
    {
        &self.handle
    }

    /// Sends the calls of the function to `target`, code of the library that
    /// `handle` refers to, and returns the handle on the library that held
    /// the target before.
    pub fn rebind(&mut self, target: F, handle: LibraryHandle) -> (previous: LibraryHandle)
        ensures
            final(self).target() == target,
            final(self).library() == handle.payload(),
            final(self).same_function(old(self)),
            previous.payload() == old(self).library(),
    {
        self.fn_ptr = target;
        self.handle.replace(handle)
    }
}

impl<F: Copy> PatchSite<F> {
    /// The target that calls go to.
    pub fn load(&self) -> (target: F)
        ensures
            target == self.target(),
    {
        self.fn_ptr
    }

    /// What a call of the function does before it runs the target: it takes
    /// a handle of its own on the library that holds the target, so that the
    /// library stays for as long as the call runs, and reads the target.
    pub fn enter(&self, heap: &mut Heap<LibraryPayload>) -> (call: (F, LibraryHandle))
        requires
            self.library() != 0 ==> old(heap)@.dom().contains(self.library()),
            self.library() != 0 ==> old(heap)@[self.library()].refcount() < u64::MAX,
        ensures
            call.0 == self.target(),
            call.1.payload() == self.library(),
            final(heap)@ == after_clone(old(heap)@, self.library()),
            final(heap).has_room() == old(heap).has_room(),
    {
        let guard = self.handle.clone(heap);
        (self.fn_ptr, guard)
    }
}

/// The number of sites among `sites` whose target lies in the library with
/// the payload at `addr`.
pub open spec fn holders<F>(sites: Seq<PatchSite<F>>, addr: usize) -> nat
    decreases sites.len(),
{
    if sites.len() == 0 {
        0
    } else {
        holders(sites.drop_last(), addr) + if sites.last().library() == addr {
            1nat
        } else {
            0nat
        }
    }
}

/// Whether the heap accounts for the sites: every library that holds the
/// target of a site lives in the heap, and counts at least as many handles as
/// there are such sites; and every library that lives in the heap has a
/// handle.
pub open spec fn accounted<F>(sites: Seq<PatchSite<F>>, heap: Map<usize, LibraryPayload>) -> bool {
    &&& forall|addr: usize|
        addr != 0 && #[trigger] holders(sites, addr) > 0 ==> heap.dom().contains(addr)
            && heap[addr].refcount() >= holders(sites, addr)
    &&& forall|addr: usize| #[trigger] heap.dom().contains(addr) ==> heap[addr].refcount() >= 1
}

/// Sites that hold no library are accounted for by every heap in which each
/// library has a handle.
pub proof fn lemma_unbound_sites_accounted<F>(
    sites: Seq<PatchSite<F>>,
    heap: Map<usize, LibraryPayload>,
)
    requires
        forall|s: int| 0 <= s < sites.len() ==> (#[trigger] sites[s]).library() == 0,
        forall|addr: usize| #[trigger] heap.dom().contains(addr) ==> heap[addr].refcount() >= 1,
    ensures
        accounted(sites, heap),
{
    assert forall|addr: usize| addr != 0 implies #[trigger] holders(sites, addr) == 0 by {
        lemma_no_holders(sites, addr);
    }
}

/// A library that no site holds has no holders.
proof fn lemma_no_holders<F>(sites: Seq<PatchSite<F>>, addr: usize)
    requires
        forall|s: int| 0 <= s < sites.len() ==> (#[trigger] sites[s]).library() != addr,
    ensures
        holders(sites, addr) == 0,
    decreases sites.len(),
{
    if sites.len() > 0 {
        lemma_no_holders(sites.drop_last(), addr);
    }
}

/// One more handle on a library that lives leaves the sites accounted for.
pub proof fn lemma_accounted_after_clone<F>(
    sites: Seq<PatchSite<F>>,
    heap: Map<usize, LibraryPayload>,
    addr: usize,
)
    requires
        accounted(sites, heap),
        addr != 0 ==> heap.dom().contains(addr) && heap[addr].refcount() < u64::MAX,
    ensures
        accounted(sites, after_clone(heap, addr)),
{
    let after = after_clone(heap, addr);
    assert forall|other: usize| other != 0 && #[trigger] holders(sites, other) > 0 implies after.dom().contains(
        other,
    ) && after[other].refcount() >= holders(sites, other) by {}
}

/// The drop of a handle that no site owns, one that a call took for
/// itself, leaves the sites accounted for.
pub proof fn lemma_accounted_after_drop<F>(
    sites: Seq<PatchSite<F>>,
    heap: Map<usize, LibraryPayload>,
    addr: usize,
)
    requires
        accounted(sites, heap),
        addr != 0 ==> heap.dom().contains(addr) && heap[addr].refcount() > holders(sites, addr),
    ensures
        accounted(sites, after_drop(heap, addr)),
{
}

/// No more sites hold a library than there are sites.
pub proof fn lemma_holders_bounded<F>(sites: Seq<PatchSite<F>>, addr: usize)
    ensures
        holders(sites, addr) <= sites.len(),
    decreases sites.len(),
{
    if sites.len() > 0 {
        lemma_holders_bounded(sites.drop_last(), addr);
    }
}

/// A site that holds a library counts among that library's holders.
pub proof fn lemma_holder_counts<F>(sites: Seq<PatchSite<F>>, index: int, addr: usize)
    requires
        0 <= index < sites.len(),
        sites[index].library() == addr,
    ensures
        holders(sites, addr) >= 1,
    decreases sites.len(),
{
    if index < sites.len() - 1 {
        lemma_holder_counts(sites.drop_last(), index, addr);
    }
}

/// Rebinding one site moves one holder from the library that the site held
/// to the library that it holds now.
pub proof fn lemma_holders_after_rebind<F>(
    sites: Seq<PatchSite<F>>,
    index: int,
    site: PatchSite<F>,
    addr: usize,
)
    requires
        0 <= index < sites.len(),
    ensures
        holders(sites.update(index, site), addr) == holders(sites, addr) - (if sites[index].library()
            == addr {
            1int
        } else {
            0int
        }) + (if site.library() == addr {
            1int
        } else {
            0int
        }),
    decreases sites.len(),
{
    let updated = sites.update(index, site);
    if index == sites.len() - 1 {
        assert(updated.drop_last() =~= sites.drop_last());
    } else {
        assert(updated.drop_last() =~= sites.drop_last().update(index, site));
        lemma_holders_after_rebind(sites.drop_last(), index, site, addr);
    }
}

/// The patch sites of one build of a library, in the order in which they
/// were registered.
pub struct Registry<F> {
    sites: Vec<PatchSite<F>>,
}

impl<F> View for Registry<F> {
    type V = Seq<PatchSite<F>>;

    /// The sites in the order of their registration.
    closed spec fn view(&self) -> Seq<PatchSite<F>> {
        self.sites@
    }
}

impl<F> Registry<F> {
    /// A registry without sites.
    pub fn new() -> (registry: Registry<F>)
        ensures
            registry@ == Seq::<PatchSite<F>>::empty(),
    {
        Registry { sites: Vec::new() }
    }

    /// Adds `site` behind the sites registered so far and returns its index.
    pub fn register(&mut self, site: PatchSite<F>) -> (index: usize)
        ensures
            index == old(self)@.len(),
            final(self)@ == old(self)@.push(site),
    {
        self.sites.push(site);
        self.sites.len() - 1
    }

    /// The number of sites.
    pub fn len(&self) -> (len: usize)
        ensures
            len == self@.len(),
    {
        self.sites.len()
    }

    /// The site with the given index.
    pub fn site(&self, index: usize) -> (site: &PatchSite<F>)
        requires
            index < self@.len(),
        ensures
            *site == self@[index as int],
    {
        &self.sites[index]
    }

    /// Rebinds the site with the given index, as [`PatchSite::rebind`] does.
    pub fn rebind(&mut self, index: usize, target: F, handle: LibraryHandle) -> (previous:
        LibraryHandle)
        requires
            index < old(self)@.len(),
        ensures
            final(self)@.len() == old(self)@.len(),
            final(self)@ == old(self)@.update(index as int, final(self)@[index as int]),
            final(self)@[index as int].target() == target,
            final(self)@[index as int].library() == handle.payload(),
            final(self)@[index as int].same_function(&old(self)@[index as int]),
            previous.payload() == old(self)@[index as int].library(),
    {
        let site = &mut self.sites[index];
        site.rebind(target, handle)
    }
}

/// One record of a function table: the index of a site in the registry that
/// the table was built from, with the identity of the site's function.
pub struct HotpatchFn {
    site: usize,
    hash: u128,
    name: String,
}

impl HotpatchFn {
    /// The index of the site in its registry.
    pub closed spec fn site(&self) -> usize {
        self.site
    }

    /// The identity hash of the site's function.
    pub closed spec fn hash(&self) -> u128 {
        self.hash
    }

    /// The qualified name of the site's function.
    pub closed spec fn name(&self) -> Seq<char> {
        self.name@
    }

    /// The index of the site in its registry.
    pub fn site_index(&self) -> (site: usize)
        ensures
            site == self.site(),
    {
        self.site
    }

    /// The identity hash of the site's function.
    pub fn identity_hash(&self) -> (hash: u128)
        ensures
            hash == self.hash(),
    {
        self.hash
    }

    /// The qualified name of the site's function.
    pub fn qualified_name(&self) -> (name: &str)
        ensures
            name@ == self.name(),
    {
        self.name.as_str()
    }
}

/// The identity hashes of `records`, in the order of the records.
pub open spec fn hashes(records: Seq<HotpatchFn>) -> Seq<u128> {
    Seq::new(records.len(), |k: int| records[k].hash())
}

/// Whether `records` has a record of the site with the index `site`.
pub open spec fn lists(records: Seq<HotpatchFn>, site: int) -> bool {
    exists|k: int| 0 <= k < records.len() && (#[trigger] records[k]).site() == site
}

/// Whether `records` is the function table of `sites`: one record for each
/// site, with the identity of the site's function, the records in ascending
/// order of their hashes and, among equal hashes, in the order of the sites.
pub open spec fn describes<F>(records: Seq<HotpatchFn>, sites: Seq<PatchSite<F>>) -> bool {
    &&& records.len() == sites.len()
    &&& forall|k: int|
        0 <= k < records.len() ==> {
            &&& (#[trigger] records[k]).site() < sites.len()
            &&& records[k].hash() == sites[records[k].site() as int].hash()
            &&& records[k].name() == sites[records[k].site() as int].name()
        }
    &&& forall|s: int| 0 <= s < sites.len() ==> #[trigger] lists(records, s)
    &&& forall|i: int, j: int|
        0 <= i < j < records.len() ==> {
            ||| (#[trigger] records[i]).hash() < (#[trigger] records[j]).hash()
            ||| records[i].hash() == records[j].hash() && records[i].site() < records[j].site()
        }
}

/// A function table: the records of a registry's sites in ascending order of
/// their identity hashes.
pub struct FnTable {
    records: Vec<HotpatchFn>,
}

impl View for FnTable {
    type V = Seq<HotpatchFn>;

    /// The records in the order of the table.
    closed spec fn view(&self) -> Seq<HotpatchFn> {
        self.records@
    }
}

impl FnTable {
    /// The number of records.
    pub fn len(&self) -> (len: usize)
        ensures
            len == self@.len(),
    {
        self.records.len()
    }

    /// The record at the given place of the table.
    pub fn record(&self, index: usize) -> (record: &HotpatchFn)
        requires
            index < self@.len(),
        ensures
            *record == self@[index as int],
    {
        &self.records[index]
    }
}

/// The function table of `registry`: the identity of every site is worked
/// out, and the records are put in ascending order of their hashes. Sites
/// whose hashes are equal keep the order of the registry.
pub fn build_fn_table<F>(registry: &Registry<F>) -> (table: FnTable)
    ensures
        describes(table@, registry@),
{
    let mut found: Vec<u128> = Vec::new();
    let mut s: usize = 0;
    while s < registry.len()
        invariant
            s <= registry@.len(),
            found@.len() == s,
            forall|k: int| 0 <= k < s ==> found@[k] == (#[trigger] registry@[k]).hash(),
        decreases registry@.len() - s,
    {
        let (hash, _) = registry.site(s).identity();
        found.push(hash);
        s = s + 1;
    }
    let order = table_order(found.as_slice());
    let mut records: Vec<HotpatchFn> = Vec::new();
    let mut k: usize = 0;
    while k < order.len()
        invariant
            k <= order@.len(),
            orders(order@, found@),
            found@.len() == registry@.len(),
            forall|e: int| 0 <= e < found@.len() ==> found@[e] == (#[trigger] registry@[e]).hash(),
            records@.len() == k,
            forall|e: int|
                0 <= e < k ==> {
                    &&& (#[trigger] records@[e]).site() == order@[e]
                    &&& records@[e].hash() == registry@[order@[e] as int].hash()
                    &&& records@[e].name() == registry@[order@[e] as int].name()
                },
        decreases order@.len() - k,
    {
        let site: usize = order[k];
        let (hash, name) = registry.site(site).identity();
        records.push(HotpatchFn { site, hash, name: String::from_str(name) });
        k = k + 1;
    }
    proof {
        assert forall|place: int| 0 <= place < registry@.len() implies #[trigger] lists(
            records@,
            place,
        ) by {
            assert(places(order@, place));
            let e = choose|e: int| 0 <= e < order@.len() && #[trigger] order@[e] == place;
            assert(records@[e].site() == place);
        }
    }
    FnTable { records }
}

impl FnTable {
    /// The identity hashes of the records, in the order of the table.
    pub fn hashes(&self) -> (list: Vec<u128>)
        ensures
            list@ == hashes(self@),
    {
        let mut list: Vec<u128> = Vec::new();
        let mut k: usize = 0;
        while k < self.records.len()
            invariant
                k <= self.records@.len(),
                list@ == hashes(self@).take(k as int),
            decreases self.records@.len() - k,
        {
            list.push(self.records[k].hash);
            k = k + 1;
        }
        list
    }
}

/// A newly loaded build of the library, as the loader hands it over: the
/// loader's handle, the build's own patch sites, and the function table that
/// the build exports, if it exports one.
pub struct LoadedLibrary<F> {
    lib_handle: usize,
    registry: Registry<F>,
    fn_table: Option<FnTable>,
    exports_init_watcher: bool,
}

impl<F> LoadedLibrary<F> {
    #[verifier::type_invariant]
    spec fn table_is_own(self) -> bool {
        self.fn_table is Some ==> describes(self.fn_table->0@, self.registry@)
    }

    /// The loader's handle on the library.
    pub closed spec fn lib_handle(&self) -> usize {
        self.lib_handle
    }

    /// The build's patch sites.
    pub closed spec fn sites(&self) -> Seq<PatchSite<F>> {
        self.registry@
    }

    /// The function table that the build exports, if it exports one.
    pub closed spec fn fn_table(&self) -> Option<Seq<HotpatchFn>> {
        match self.fn_table {
            Some(table) => Some(table@),
            None => None,
        }
    }

    /// Whether the build exports the entry through which it adopts the
    /// watcher of the running process.
    pub closed spec fn exports_init_watcher(&self) -> bool {
        self.exports_init_watcher
    }

    /// The build with the given sites behind the loader's handle `lib`. An
    /// exported function table is built from the sites at this moment.
    pub fn new(
        lib: usize,
        registry: Registry<F>,
        exports_init_watcher: bool,
        exports_fn_table: bool,
    ) -> (library: LoadedLibrary<F>)
        ensures
            library.lib_handle() == lib,
            library.sites() == registry@,
            library.exports_init_watcher() == exports_init_watcher,
            library.fn_table() is Some == exports_fn_table,
            exports_fn_table ==> describes(library.fn_table()->0, registry@),
    {
        let fn_table = if exports_fn_table {
            Some(build_fn_table(&registry))
        } else {
            None
        };
        LoadedLibrary { lib_handle: lib, registry, fn_table, exports_init_watcher }
    }

    /// Whether the build exports the entry through which it adopts the
    /// watcher of the running process.
    pub fn has_init_watcher(&self) -> (exported: bool)
        ensures
            exported == self.exports_init_watcher(),
    {
        self.exports_init_watcher
    }

    /// The loader's handle on the library.
    pub fn os_handle(&self) -> (lib: usize)
        ensures
            lib == self.lib_handle(),
    {
        self.lib_handle
    }
}

/// A library that has lost its last handle: the address at which its payload
/// lived, and the payload, whose library is to be closed and whose directory
/// is to be removed.
pub struct Unloaded {
    pub addr: usize,
    pub payload: LibraryPayload,
}

/// The outcome of a merge that ran.
pub struct Patched {
    /// The address of the payload of the new build.
    pub library: usize,
    /// The steps of the merge, in the order in which they were taken.
    pub steps: Vec<MergeStep>,
    /// The libraries that lost their last handle in the merge.
    pub unloaded: Vec<Unloaded>,
}

/// The outcome of a merge that could not run, because the new build exports
/// no function table: the build, which was unloaded again.
pub struct Aborted {
    pub unloaded: LibraryPayload,
}

/// The count of the payload at `addr` once the sites have gone from `before`
/// to `after`: what it was, less the sites that left the library, plus the
/// sites that came to it.
pub open spec fn balance<F>(
    before: Seq<PatchSite<F>>,
    heap: Map<usize, LibraryPayload>,
    after: Seq<PatchSite<F>>,
    addr: usize,
) -> int {
    heap[addr].refcount() - holders(before, addr) + holders(after, addr)
}

/// Whether `after_heap` is what becomes of `heap` when the sites go from
/// `before` to `after` and the new build `library` comes in: every older
/// library counts what it counted, less the sites that left it, and is gone
/// when nothing is left; the new build counts the sites that hold it and
/// `own` handles besides.
pub open spec fn rebalanced<F>(
    before: Seq<PatchSite<F>>,
    heap: Map<usize, LibraryPayload>,
    after: Seq<PatchSite<F>>,
    after_heap: Map<usize, LibraryPayload>,
    library: usize,
    own: nat,
    lib: usize,
    dir: Seq<char>,
) -> bool {
    &&& forall|addr: usize| #[trigger]
        after_heap.dom().contains(addr) <==> if addr == library {
            holders(after, library) + own > 0
        } else {
            heap.dom().contains(addr) && balance(before, heap, after, addr) > 0
        }
    &&& forall|addr: usize| #[trigger]
        after_heap.dom().contains(addr) && addr != library ==> {
            &&& after_heap[addr].refcount() == balance(before, heap, after, addr)
            &&& after_heap[addr].lib_handle() == heap[addr].lib_handle()
            &&& after_heap[addr].temp_path() == heap[addr].temp_path()
        }
    &&& after_heap.dom().contains(library) ==> {
        &&& after_heap[library].refcount() == holders(after, library) + own
        &&& after_heap[library].lib_handle() == lib
        &&& after_heap[library].temp_path() == dir
    }
}

/// Whether no site holds an older library that it did not hold before.
pub open spec fn no_older_gained<F>(
    before: Seq<PatchSite<F>>,
    after: Seq<PatchSite<F>>,
    library: usize,
) -> bool {
    forall|addr: usize|
        addr != library ==> #[trigger] holders(after, addr) <= holders(before, addr)
}

/// Whether `unloaded` has the library whose payload lived at `addr`.
pub open spec fn unloaded_has(unloaded: Seq<Unloaded>, addr: usize) -> bool {
    exists|u: int| 0 <= u < unloaded.len() && (#[trigger] unloaded[u]).addr == addr
}

/// Whether `unloaded` is the libraries that lived in `heap`, or are the new
/// build `library`, and do not live in `after_heap`: each of them once, with
/// its payload.
pub open spec fn unloaded_are_gone(
    unloaded: Seq<Unloaded>,
    heap: Map<usize, LibraryPayload>,
    after_heap: Map<usize, LibraryPayload>,
    library: usize,
    lib: usize,
    dir: Seq<char>,
) -> bool {
    &&& forall|u: int|
        0 <= u < unloaded.len() ==> {
            let gone = #[trigger] unloaded[u];
            &&& !after_heap.dom().contains(gone.addr)
            &&& gone.payload.refcount() == 1
            &&& if gone.addr == library {
                gone.payload.lib_handle() == lib && gone.payload.temp_path() == dir
            } else {
                &&& heap.dom().contains(gone.addr)
                &&& gone.payload.lib_handle() == heap[gone.addr].lib_handle()
                &&& gone.payload.temp_path() == heap[gone.addr].temp_path()
            }
        }
    &&& forall|u: int, v: int|
        0 <= u < v < unloaded.len() ==> (#[trigger] unloaded[u]).addr != (#[trigger] unloaded[v]).addr
    &&& forall|addr: usize|
        (heap.dom().contains(addr) || addr == library) && !after_heap.dom().contains(addr)
            ==> #[trigger] unloaded_has(unloaded, addr)
}

/// Whether every pair of a merge has been carried out: the site of the
/// running build goes to the target that the new build has for the function,
/// and holds the new build `library`.
pub open spec fn pairs_patched<F>(
    steps: Seq<MergeStep>,
    my_table: Seq<HotpatchFn>,
    their_table: Seq<HotpatchFn>,
    theirs: Seq<PatchSite<F>>,
    after: Seq<PatchSite<F>>,
    library: usize,
) -> bool {
    forall|k: int|
        0 <= k < steps.len() ==> (#[trigger] steps[k] matches MergeStep::Updated(x, y) ==> {
            let site = after[my_table[x as int].site() as int];
            &&& site.target() == theirs[their_table[y as int].site() as int].target()
            &&& site.library() == library
        })
}

/// Whether every function that a merge reported as removed has its site as
/// it was before the merge.
pub open spec fn removed_kept<F>(
    steps: Seq<MergeStep>,
    my_table: Seq<HotpatchFn>,
    before: Seq<PatchSite<F>>,
    after: Seq<PatchSite<F>>,
) -> bool {
    forall|k: int|
        0 <= k < steps.len() ==> (#[trigger] steps[k] matches MergeStep::Removed(x)
            ==> after[my_table[x as int].site() as int] == before[my_table[x as int].site() as int])
}

/// After a merge of tables in which no hash occurs twice, the site of every
/// function that both builds have goes to the target that the new build has
/// for that function, and holds the new build.
pub proof fn lemma_common_functions_patched<F>(
    my_table: Seq<HotpatchFn>,
    their_table: Seq<HotpatchFn>,
    theirs: Seq<PatchSite<F>>,
    after: Seq<PatchSite<F>>,
    library: usize,
    x: int,
    y: int,
)
    requires
        my_table.len() <= usize::MAX,
        their_table.len() <= usize::MAX,
        strictly_ascending(hashes(my_table)),
        strictly_ascending(hashes(their_table)),
        pairs_patched(
            merge_steps(hashes(my_table), hashes(their_table), 0, 0),
            my_table,
            their_table,
            theirs,
            after,
            library,
        ),
        0 <= x < my_table.len(),
        0 <= y < their_table.len(),
        my_table[x].hash() == their_table[y].hash(),
    ensures
        after[my_table[x].site() as int].target() == theirs[their_table[y].site() as int].target(),
        after[my_table[x].site() as int].library() == library,
{
    lemma_common_paired(hashes(my_table), hashes(their_table), 0, 0, x, y);
}

/// A function that only the running build has is reported as removed, and
/// its site stays as it was: its calls go where they went, and it holds the
/// library that it held.
pub proof fn lemma_removed_function_kept<F>(
    my_table: Seq<HotpatchFn>,
    their_table: Seq<HotpatchFn>,
    before: Seq<PatchSite<F>>,
    after: Seq<PatchSite<F>>,
    x: int,
)
    requires
        my_table.len() <= usize::MAX,
        their_table.len() <= usize::MAX,
        removed_kept(
            merge_steps(hashes(my_table), hashes(their_table), 0, 0),
            my_table,
            before,
            after,
        ),
        0 <= x < my_table.len(),
        forall|y: int| 0 <= y < their_table.len() ==> my_table[x].hash() != their_table[y].hash(),
    ensures
        merge_steps(hashes(my_table), hashes(their_table), 0, 0).contains(
            MergeStep::Removed(x as usize),
        ),
        after[my_table[x].site() as int] == before[my_table[x].site() as int],
{
    let mine = hashes(my_table);
    let theirs = hashes(their_table);
    let steps = merge_steps(mine, theirs, 0, 0);
    lemma_mine_covered(mine, theirs, 0, 0, x);
    if !steps.contains(MergeStep::Removed(x as usize)) {
        let y = choose|y: int|
            0 <= y < theirs.len() && #[trigger] steps.contains(
                MergeStep::Updated(x as usize, y as usize),
            );
        lemma_steps_in_range(mine, theirs, 0, 0, MergeStep::Updated(x as usize, y as usize));
    }
}

/// A function that only the new build has is reported as new, and no site of
/// the running build is sent to it.
pub proof fn lemma_new_function_unreached(
    my_table: Seq<HotpatchFn>,
    their_table: Seq<HotpatchFn>,
    y: int,
)
    requires
        my_table.len() <= usize::MAX,
        their_table.len() <= usize::MAX,
        0 <= y < their_table.len(),
        forall|x: int| 0 <= x < my_table.len() ==> my_table[x].hash() != their_table[y].hash(),
    ensures
        merge_steps(hashes(my_table), hashes(their_table), 0, 0).contains(
            MergeStep::Added(y as usize),
        ),
        forall|x: usize|
            !#[trigger] merge_steps(hashes(my_table), hashes(their_table), 0, 0).contains(
                MergeStep::Updated(x, y as usize),
            ),
{
    let mine = hashes(my_table);
    let theirs = hashes(their_table);
    let steps = merge_steps(mine, theirs, 0, 0);
    assert forall|x: usize| !#[trigger] steps.contains(MergeStep::Updated(x, y as usize)) by {
        if steps.contains(MergeStep::Updated(x, y as usize)) {
            lemma_steps_in_range(mine, theirs, 0, 0, MergeStep::Updated(x, y as usize));
        }
    }
    lemma_theirs_covered(mine, theirs, 0, 0, y);
}

/// A function whose identity hash is one in the running build and another in
/// the new build, as after a change of its signature, is two functions to the
/// merge: the one is reported as removed and keeps its site as it was, the
/// other is reported as new, and nothing is patched for either.
pub proof fn lemma_changed_function_disjoint<F>(
    my_table: Seq<HotpatchFn>,
    their_table: Seq<HotpatchFn>,
    before: Seq<PatchSite<F>>,
    after: Seq<PatchSite<F>>,
    x: int,
    y: int,
)
    requires
        my_table.len() <= usize::MAX,
        their_table.len() <= usize::MAX,
        removed_kept(
            merge_steps(hashes(my_table), hashes(their_table), 0, 0),
            my_table,
            before,
            after,
        ),
        0 <= x < my_table.len(),
        0 <= y < their_table.len(),
        forall|j: int| 0 <= j < their_table.len() ==> my_table[x].hash() != their_table[j].hash(),
        forall|i: int| 0 <= i < my_table.len() ==> my_table[i].hash() != their_table[y].hash(),
    ensures
        merge_steps(hashes(my_table), hashes(their_table), 0, 0).contains(
            MergeStep::Removed(x as usize),
        ),
        merge_steps(hashes(my_table), hashes(their_table), 0, 0).contains(
            MergeStep::Added(y as usize),
        ),
        after[my_table[x].site() as int] == before[my_table[x].site() as int],
{
    lemma_removed_function_kept(my_table, their_table, before, after, x);
    lemma_new_function_unreached(my_table, their_table, y);
}

/// Whatever holds of the target of every site before a merge, and of every
/// target that the new build offers, holds of the target of every site after
/// the merge: a merge leaves a target as it is or puts one of the new build's
/// in its place.
pub proof fn lemma_targets_stay_valid<F>(
    my_table: Seq<HotpatchFn>,
    their_table: Seq<HotpatchFn>,
    before: Seq<PatchSite<F>>,
    theirs: Seq<PatchSite<F>>,
    after: Seq<PatchSite<F>>,
    library: usize,
    valid: spec_fn(F) -> bool,
    s: int,
)
    requires
        my_table.len() <= usize::MAX,
        their_table.len() <= usize::MAX,
        describes(my_table, before),
        describes(their_table, theirs),
        pairs_patched(
            merge_steps(hashes(my_table), hashes(their_table), 0, 0),
            my_table,
            their_table,
            theirs,
            after,
            library,
        ),
        removed_kept(
            merge_steps(hashes(my_table), hashes(their_table), 0, 0),
            my_table,
            before,
            after,
        ),
        forall|i: int| 0 <= i < before.len() ==> valid(#[trigger] before[i].target()),
        forall|i: int| 0 <= i < theirs.len() ==> valid(#[trigger] theirs[i].target()),
        0 <= s < before.len(),
    ensures
        valid(after[s].target()),
{
    let mine = hashes(my_table);
    let other = hashes(their_table);
    assert(lists(my_table, s));
    let x = choose|x: int| 0 <= x < my_table.len() && (#[trigger] my_table[x]).site() == s;
    lemma_mine_covered(mine, other, 0, 0, x);
}

/// Whether `patched` with the sites `after` and the heap `after_heap` is the
/// outcome of the merge of a new build into a running one: the steps are
/// those of the merge of the two tables, every pair has been carried out,
/// every function reported as removed has its site as it was, the heap counts
/// what the sites hold, and the libraries that nothing holds any more are
/// handed over as unloaded.
pub open spec fn merged<F>(
    before: Seq<PatchSite<F>>,
    heap: Map<usize, LibraryPayload>,
    my_table: Seq<HotpatchFn>,
    theirs: Seq<PatchSite<F>>,
    their_table: Seq<HotpatchFn>,
    lib: usize,
    dir: Seq<char>,
    after: Seq<PatchSite<F>>,
    after_heap: Map<usize, LibraryPayload>,
    patched: Patched,
) -> bool {
    &&& patched.library != 0
    &&& !heap.dom().contains(patched.library)
    &&& patched.steps@ == merge_steps(hashes(my_table), hashes(their_table), 0, 0)
    &&& pairs_patched(patched.steps@, my_table, their_table, theirs, after, patched.library)
    &&& removed_kept(patched.steps@, my_table, before, after)
    &&& rebalanced(before, heap, after, after_heap, patched.library, 0, lib, dir)
    &&& unloaded_are_gone(patched.unloaded@, heap, after_heap, patched.library, lib, dir)
}

/// A site holds a library that lives, as long as the heap has followed the
/// sites.
proof fn lemma_holder_is_live<F>(
    before: Seq<PatchSite<F>>,
    heap: Map<usize, LibraryPayload>,
    now: Seq<PatchSite<F>>,
    now_heap: Map<usize, LibraryPayload>,
    library: usize,
    lib: usize,
    dir: Seq<char>,
    index: int,
)
    requires
        accounted(before, heap),
        rebalanced(before, heap, now, now_heap, library, 1, lib, dir),
        no_older_gained(before, now, library),
        0 <= index < now.len(),
        now[index].library() != 0,
    ensures
        now_heap.dom().contains(now[index].library()),
        now[index].library() != library ==> now_heap[now[index].library()].refcount() >= 1,
{
    let addr = now[index].library();
    lemma_holder_counts(now, index, addr);
}

/// Rebinding one site to the new build, with a fresh handle on the build and
/// the drop of the handle that the site held, keeps the heap in step with the
/// sites.
proof fn lemma_rebind_rebalances<F>(
    before: Seq<PatchSite<F>>,
    heap: Map<usize, LibraryPayload>,
    now: Seq<PatchSite<F>>,
    now_heap: Map<usize, LibraryPayload>,
    then: Seq<PatchSite<F>>,
    then_heap: Map<usize, LibraryPayload>,
    library: usize,
    lib: usize,
    dir: Seq<char>,
    index: int,
)
    requires
        accounted(before, heap),
        !heap.dom().contains(0),
        !heap.dom().contains(library),
        library != 0,
        rebalanced(before, heap, now, now_heap, library, 1, lib, dir),
        no_older_gained(before, now, library),
        0 <= index < now.len(),
        then == now.update(index, then[index]),
        then[index].library() == library,
        now_heap[library].refcount() < u64::MAX,
        then_heap == after_drop(after_clone(now_heap, library), now[index].library()),
    ensures
        rebalanced(before, heap, then, then_heap, library, 1, lib, dir),
        no_older_gained(before, then, library),
{
    let left = now[index].library();
    assert forall|addr: usize|
        holders(then, addr) == holders(now, addr) - (if left == addr {
            1int
        } else {
            0int
        }) + (if library == addr {
            1int
        } else {
            0int
        }) by {
        lemma_holders_after_rebind(now, index, then[index], addr);
    }
    if left != 0 {
        lemma_holder_is_live(before, heap, now, now_heap, library, lib, dir, index);
    }
}

/// Rebinds the sites of the running build to a newly loaded build.
///
/// The new build comes under the heap's care with one handle, which this
/// function holds for as long as it runs. A build that exports no function
/// table is unloaded again, and nothing else happens. Otherwise the tables of
/// the two builds are merged: every function that both builds have is sent to
/// the new build's code, its site gets a handle of its own on the new build,
/// and the handle that the site held is dropped. The functions that only one
/// of the builds has are passed over.
pub fn update_fn_table<F: Copy>(
    mine: &mut Registry<F>,
    my_table: &FnTable,
    heap: &mut Heap<LibraryPayload>,
    hotpatch_library: LoadedLibrary<F>,
    dir: &str,
) -> (outcome: Result<Patched, Aborted>)
    requires
        describes(my_table@, old(mine)@),
        accounted(old(mine)@, old(heap)@),
        old(heap).has_room(),
        old(mine)@.len() < u64::MAX - 1,
    ensures
        final(mine)@.len() == old(mine)@.len(),
        forall|s: int|
            0 <= s < old(mine)@.len() ==> (#[trigger] final(mine)@[s]).same_function(
                &old(mine)@[s],
            ),
        accounted(final(mine)@, final(heap)@),
        outcome is Ok == hotpatch_library.fn_table() is Some,
        match outcome {
            Err(aborted) => {
                &&& final(mine)@ == old(mine)@
                &&& final(heap)@ == old(heap)@
                &&& aborted.unloaded.refcount() == 1
                &&& aborted.unloaded.lib_handle() == hotpatch_library.lib_handle()
                &&& aborted.unloaded.temp_path() == dir@
            },
            Ok(patched) => merged(
                old(mine)@,
                old(heap)@,
                my_table@,
                hotpatch_library.sites(),
                hotpatch_library.fn_table()->0,
                hotpatch_library.lib_handle(),
                dir@,
                final(mine)@,
                final(heap)@,
                patched,
            ),
        },
{
    proof {
        use_type_invariant(&hotpatch_library);
        heap.lemma_null_is_free();
    }
    let handle = LibraryPayload::make_handle(heap, hotpatch_library.lib_handle, dir);
    let library: usize = handle.as_raw();
    let their_table = match &hotpatch_library.fn_table {
        Some(table) => table,
        None => {
            let unloaded = handle.drop(heap);
            return Err(Aborted { unloaded: unloaded.unwrap() });
        },
    };
    let mine_hashes = my_table.hashes();
    let their_hashes = their_table.hashes();
    let steps = merge(mine_hashes.as_slice(), their_hashes.as_slice());
    let mut unloaded: Vec<Unloaded> = Vec::new();
    let ghost lib = hotpatch_library.lib_handle();
    let ghost theirs = hotpatch_library.sites();
    proof {
        assert forall|addr: usize| #[trigger]
            heap@.dom().contains(addr) <==> if addr == library {
                holders(mine@, library) + 1 > 0
            } else {
                old(heap)@.dom().contains(addr) && balance(old(mine)@, old(heap)@, mine@, addr) > 0
            } by {}
    }
    let mut k: usize = 0;
    while k < steps.len()
        invariant
            k <= steps@.len(),
            steps@ == merge_steps(hashes(my_table@), hashes(their_table@), 0, 0),
            hashes(my_table@).len() <= usize::MAX,
            hashes(their_table@).len() <= usize::MAX,
            describes(my_table@, old(mine)@),
            describes(their_table@, theirs),
            theirs == hotpatch_library.registry@,
            accounted(old(mine)@, old(heap)@),
            !old(heap)@.dom().contains(0),
            !old(heap)@.dom().contains(library),
            library != 0,
            handle.payload() == library,
            mine@.len() == old(mine)@.len(),
            mine@.len() < u64::MAX - 1,
            forall|s: int|
                0 <= s < mine@.len() ==> (#[trigger] mine@[s]).same_function(&old(mine)@[s]),
            rebalanced(old(mine)@, old(heap)@, mine@, heap@, library, 1, lib, dir@),
            no_older_gained(old(mine)@, mine@, library),
            unloaded_are_gone(unloaded@, old(heap)@, heap@, library, lib, dir@),
            forall|e: int|
                0 <= e < k ==> (#[trigger] steps@[e] matches MergeStep::Updated(x, y) ==> {
                    let site = mine@[my_table@[x as int].site() as int];
                    &&& site.target() == theirs[their_table@[y as int].site() as int].target()
                    &&& site.library() == library
                }),
            forall|e: int|
                0 <= e < steps@.len() ==> (#[trigger] steps@[e] matches MergeStep::Removed(x)
                    ==> mine@[my_table@[x as int].site() as int] == old(mine)@[my_table@[x as int].site() as int]),
            forall|e: int|
                k <= e < steps@.len() ==> (#[trigger] steps@[e] matches MergeStep::Updated(x, y)
                    ==> mine@[my_table@[x as int].site() as int] == old(mine)@[my_table@[x as int].site() as int]),
        decreases steps@.len() - k,
    {
        proof {
            lemma_steps_in_range(
                hashes(my_table@),
                hashes(their_table@),
                0,
                0,
                steps@[k as int],
            );
        }
        match steps[k] {
            MergeStep::Updated(x, y) => {
                let index: usize = my_table.record(x).site;
                let target: F = hotpatch_library.registry.site(their_table.record(y).site).load();
                let ghost now = mine@;
                let ghost now_heap = heap@;
                proof {
                    lemma_holders_bounded(now, library);
                    if now[index as int].library() != 0 {
                        lemma_holder_is_live(
                            old(mine)@,
                            old(heap)@,
                            now,
                            now_heap,
                            library,
                            lib,
                            dir@,
                            index as int,
                        );
                    }
                }
                let copy = handle.clone(heap);
                let previous = mine.rebind(index, target, copy);
                let left: usize = previous.as_raw();
                let gone = previous.drop(heap);
                proof {
                    lemma_rebind_rebalances(
                        old(mine)@,
                        old(heap)@,
                        now,
                        now_heap,
                        mine@,
                        heap@,
                        library,
                        lib,
                        dir@,
                        index as int,
                    );
                    assert forall|e: int|
                        0 <= e < steps@.len() && e != k && (#[trigger] steps@[e]).mine()
                            is Some implies mine@[my_table@[steps@[e].mine()->0 as int].site() as int]
                        == now[my_table@[steps@[e].mine()->0 as int].site() as int] by {
                        lemma_steps_in_range(
                            hashes(my_table@),
                            hashes(their_table@),
                            0,
                            0,
                            steps@[e],
                        );
                        if e < k {
                            lemma_steps_ascend(
                                hashes(my_table@),
                                hashes(their_table@),
                                0,
                                0,
                                e,
                                k as int,
                            );
                        } else {
                            lemma_steps_ascend(
                                hashes(my_table@),
                                hashes(their_table@),
                                0,
                                0,
                                k as int,
                                e,
                            );
                        }
                    }
                }
                match gone {
                    Some(payload) => {
                        let ghost listed = unloaded@;
                        unloaded.push(Unloaded { addr: left, payload });
                        proof {
                            assert forall|addr: usize|
                                (old(heap)@.dom().contains(addr) || addr == library)
                                    && !heap@.dom().contains(addr) implies #[trigger] unloaded_has(
                                unloaded@,
                                addr,
                            ) by {
                                if addr == left {
                                    assert(unloaded@[listed.len() as int].addr == addr);
                                } else {
                                    assert(unloaded_has(listed, addr));
                                    let u = choose|u: int|
                                        0 <= u < listed.len() && (#[trigger] listed[u]).addr
                                            == addr;
                                    assert(unloaded@[u].addr == addr);
                                }
                            }
                        }
                    },
                    None => {},
                }
            },
            _ => {},
        }
        k = k + 1;
    }
    let gone = handle.drop(heap);
    match gone {
        Some(payload) => {
            let ghost listed = unloaded@;
            unloaded.push(Unloaded { addr: library, payload });
            proof {
                assert forall|addr: usize|
                    (old(heap)@.dom().contains(addr) || addr == library) && !heap@.dom().contains(
                        addr,
                    ) implies #[trigger] unloaded_has(unloaded@, addr) by {
                    if addr == library {
                        assert(unloaded@[listed.len() as int].addr == addr);
                    } else {
                        assert(unloaded_has(listed, addr));
                        let u = choose|u: int|
                            0 <= u < listed.len() && (#[trigger] listed[u]).addr == addr;
                        assert(unloaded@[u].addr == addr);
                    }
                }
            }
        },
        None => {},
    }
    Ok(Patched { library, steps, unloaded })
}

} // verus!
