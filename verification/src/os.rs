//! What the operating system tells about the running library.

use vstd::prelude::*;
use vstd::string::StringExecFns;

verus! {

/// The library that the running code was loaded from: the path of its file
/// and the name of the file.
#[derive(Debug)]
pub struct Module {
    path: String,
    name: String,
}

impl Module {
    /// The path of the library's file.
    pub closed spec fn path(&self) -> Seq<char> {
        self.path@
    }

    /// The name of the library's file.
    pub closed spec fn name(&self) -> Seq<char> {
        self.name@
    }

    /// The running library, from what the operating system told: the path
    /// of its file, if it could tell one, and the last component of that
    /// path, if it has one. Without either there is no module.
    pub fn current(path: Option<&str>, file_name: Option<&str>) -> (module: Option<Module>)
        ensures
            module is Some == (path is Some && file_name is Some),
            module is Some ==> module->0.path() == path->0@ && module->0.name() == file_name->0@,
    {
        match path {
            None => None,
            Some(path) => match file_name {
                None => None,
                Some(name) => Some(
                    Module { path: String::from_str(path), name: String::from_str(name) },
                ),
            },
        }
    }

    /// The path of the library's file.
    pub fn file_path(&self) -> (path: &str)
        ensures
            path@ == self.path(),
    {
        self.path.as_str()
    }

    /// The name of the library's file.
    pub fn file_name(&self) -> (name: &str)
        ensures
            name@ == self.name(),
    {
        self.name.as_str()
    }
}

/// Whether `align` is a power of two.
pub open spec fn is_power_of_two(align: usize) -> bool {
    align != 0 && align & ((align - 1) as usize) == 0
}

/// Where an allocation that asks for the alignment `align`, a power of two,
/// lies in a block that the system allocator placed at `base`: at the first
/// address that has no bit below `align` set and leaves room for one word in
/// front of it, in which the allocator keeps `base` until the allocation is
/// freed.
pub open spec fn aligned_in_block(base: usize, align: usize, word: usize) -> usize {
    ((base + word + (align - 1)) as usize) & !((align - 1) as usize)
}

/// The alignment that an allocation gets that asks for `align`: at least a
/// machine word.
pub fn effective_align(align: usize, word: usize) -> (effective: usize)
    ensures
        effective == if align >= word {
            align
        } else {
            word
        },
{
    if align >= word {
        align
    } else {
        word
    }
}

/// The size of the block to ask the system allocator for, so that `size`
/// bytes at the alignment `align` fit in it behind one word: `size`, a word
/// and `align - 1` bytes more, or the largest size where that is more than a
/// size can be.
pub fn padded_size(size: usize, align: usize, word: usize) -> (padded: usize)
    requires
        align >= 1,
    ensures
        padded == if size + word + (align - 1) <= usize::MAX {
            size + word + (align - 1)
        } else {
            usize::MAX as int
        },
{
    size.saturating_add(word).saturating_add(align - 1)
}

/// The address of the allocation in a block at `base`.
pub fn aligned_address(base: usize, align: usize, word: usize) -> (addr: usize)
    requires
        is_power_of_two(align),
        base + word + (align - 1) <= usize::MAX,
    ensures
        addr == aligned_in_block(base, align, word),
        addr & ((align - 1) as usize) == 0,
        base + word <= addr <= base + word + (align - 1),
{
    let mask: usize = align - 1;
    let top: usize = base + word + mask;
    let addr: usize = top & !mask;
    proof {
        lemma_round_down(top, align);
    }
    addr
}

/// Clearing the bits below a power of two rounds down to the next address
/// that has none of them set.
proof fn lemma_round_down(top: usize, align: usize)
    requires
        is_power_of_two(align),
    ensures
        (top & !((align - 1) as usize)) & ((align - 1) as usize) == 0,
        top & !((align - 1) as usize) <= top,
        top - (top & !((align - 1) as usize)) <= align - 1,
{
    let mask: usize = (align - 1) as usize;
    assert((top & !mask) & mask == 0 && top & !mask <= top && top - (top & !mask) <= mask)
        by (bit_vector);
}

} // verus!
