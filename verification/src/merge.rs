//! The ordered merge of two function tables.
//!
//! Both tables are in ascending order of their identity hashes. The merge
//! walks them side by side, one place in each: the smaller hash is passed
//! over, as a function that only the running build has or as one that only
//! the new build has, and equal hashes make a pair, a function that both
//! builds have.

use vstd::prelude::*;

verus! {

/// One step of a merge.
#[derive(Clone, Copy, Debug, PartialEq, Eq, Structural)]
pub enum MergeStep {
    /// The function at this place of the running table is not in the new
    /// table: it may have been removed.
    Removed(usize),
    /// The function at this place of the new table is not in the running
    /// table: it may be new.
    Added(usize),
    /// The functions at these places of the running and of the new table are
    /// the same one.
    Updated(usize, usize),
}

/// What is left to walk of the two tables when the merge stands at the
/// places `i` and `j`.
pub open spec fn left_to_walk(mine: Seq<u128>, theirs: Seq<u128>, i: int, j: int) -> nat {
    ((if i < mine.len() {
        mine.len() - i
    } else {
        0
    }) + (if j < theirs.len() {
        theirs.len() - j
    } else {
        0
    })) as nat
}

/// The step that the merge takes at the places `i` and `j`, of which at
/// least one lies in its table.
pub open spec fn step_at(mine: Seq<u128>, theirs: Seq<u128>, i: int, j: int) -> MergeStep {
    if j >= theirs.len() {
        MergeStep::Removed(i as usize)
    } else if i >= mine.len() {
        MergeStep::Added(j as usize)
    } else if mine[i] < theirs[j] {
        MergeStep::Removed(i as usize)
    } else if mine[i] > theirs[j] {
        MergeStep::Added(j as usize)
    } else {
        MergeStep::Updated(i as usize, j as usize)
    }
}

/// The steps of the merge from the places `i` and `j` on, in order.
pub open spec fn merge_steps(mine: Seq<u128>, theirs: Seq<u128>, i: int, j: int) -> Seq<MergeStep>
    decreases left_to_walk(mine, theirs, i, j),
{
    if i >= mine.len() && j >= theirs.len() {
        Seq::empty()
    } else {
        let step = step_at(mine, theirs, i, j);
        let rest = match step {
            MergeStep::Removed(_) => merge_steps(mine, theirs, i + 1, j),
            MergeStep::Added(_) => merge_steps(mine, theirs, i, j + 1),
            MergeStep::Updated(_, _) => merge_steps(mine, theirs, i + 1, j + 1),
        };
        seq![step] + rest
    }
}

/// A value is among a first element and the rest exactly if it is the first
/// element or among the rest.
pub proof fn lemma_contains_first_or_rest<T>(first: T, rest: Seq<T>, value: T)
    ensures
        (seq![first] + rest).contains(value) <==> first == value || rest.contains(value),
{
    let all = seq![first] + rest;
    if first == value {
        assert(all[0] == value);
    }
    if rest.contains(value) {
        let k = choose|k: int| 0 <= k < rest.len() && rest[k] == value;
        assert(all[k + 1] == value);
    }
}

/// Every step of a merge names places that lie in their tables and that the
/// merge had not passed, and a pair is made of equal hashes only.
pub proof fn lemma_steps_in_range(
    mine: Seq<u128>,
    theirs: Seq<u128>,
    i: int,
    j: int,
    step: MergeStep,
)
    requires
        0 <= i <= mine.len() <= usize::MAX,
        0 <= j <= theirs.len() <= usize::MAX,
        merge_steps(mine, theirs, i, j).contains(step),
    ensures
        match step {
            MergeStep::Removed(x) => i <= x < mine.len(),
            MergeStep::Added(y) => j <= y < theirs.len(),
            MergeStep::Updated(x, y) => i <= x < mine.len() && j <= y < theirs.len() && mine[x as int]
                == theirs[y as int],
        },
    decreases left_to_walk(mine, theirs, i, j),
{
    if i < mine.len() || j < theirs.len() {
        let first = step_at(mine, theirs, i, j);
        let (ni, nj) = match first {
            MergeStep::Removed(_) => (i + 1, j),
            MergeStep::Added(_) => (i, j + 1),
            MergeStep::Updated(_, _) => (i + 1, j + 1),
        };
        lemma_contains_first_or_rest(first, merge_steps(mine, theirs, ni, nj), step);
        if first != step {
            lemma_steps_in_range(mine, theirs, ni, nj, step);
        }
    }
}

/// A merge passes every place of the running table that lies ahead of it:
/// the function there is reported as removed, or makes a pair with a function
/// of the new table.
pub proof fn lemma_mine_covered(mine: Seq<u128>, theirs: Seq<u128>, i: int, j: int, x: int)
    requires
        0 <= i <= x < mine.len() <= usize::MAX,
        0 <= j <= theirs.len() <= usize::MAX,
    ensures
        merge_steps(mine, theirs, i, j).contains(MergeStep::Removed(x as usize)) || exists|y: int|
            j <= y < theirs.len() && #[trigger] merge_steps(mine, theirs, i, j).contains(
                MergeStep::Updated(x as usize, y as usize),
            ),
    decreases left_to_walk(mine, theirs, i, j),
{
    let first = step_at(mine, theirs, i, j);
    let (ni, nj) = match first {
        MergeStep::Removed(_) => (i + 1, j),
        MergeStep::Added(_) => (i, j + 1),
        MergeStep::Updated(_, _) => (i + 1, j + 1),
    };
    let all = merge_steps(mine, theirs, i, j);
    let rest = merge_steps(mine, theirs, ni, nj);
    if x == i && ni == i + 1 {
        assert(all[0] == first);
        if first is Updated {
            assert(all.contains(MergeStep::Updated(x as usize, j as usize)));
        }
    } else {
        lemma_mine_covered(mine, theirs, ni, nj, x);
        lemma_contains_first_or_rest(first, rest, MergeStep::Removed(x as usize));
        if !rest.contains(MergeStep::Removed(x as usize)) {
            let y = choose|y: int|
                nj <= y < theirs.len() && #[trigger] rest.contains(
                    MergeStep::Updated(x as usize, y as usize),
                );
            lemma_contains_first_or_rest(first, rest, MergeStep::Updated(x as usize, y as usize));
        }
    }
}

/// A merge passes every place of the new table that lies ahead of it: the
/// function there is reported as new, or makes a pair with a function of the
/// running table.
pub proof fn lemma_theirs_covered(mine: Seq<u128>, theirs: Seq<u128>, i: int, j: int, y: int)
    requires
        0 <= i <= mine.len() <= usize::MAX,
        0 <= j <= y < theirs.len() <= usize::MAX,
    ensures
        merge_steps(mine, theirs, i, j).contains(MergeStep::Added(y as usize)) || exists|x: int|
            i <= x < mine.len() && #[trigger] merge_steps(mine, theirs, i, j).contains(
                MergeStep::Updated(x as usize, y as usize),
            ),
    decreases left_to_walk(mine, theirs, i, j),
{
    let first = step_at(mine, theirs, i, j);
    let (ni, nj) = match first {
        MergeStep::Removed(_) => (i + 1, j),
        MergeStep::Added(_) => (i, j + 1),
        MergeStep::Updated(_, _) => (i + 1, j + 1),
    };
    let all = merge_steps(mine, theirs, i, j);
    let rest = merge_steps(mine, theirs, ni, nj);
    if y == j && nj == j + 1 {
        assert(all[0] == first);
        if first is Updated {
            assert(all.contains(MergeStep::Updated(i as usize, y as usize)));
        }
    } else {
        lemma_theirs_covered(mine, theirs, ni, nj, y);
        lemma_contains_first_or_rest(first, rest, MergeStep::Added(y as usize));
        if !rest.contains(MergeStep::Added(y as usize)) {
            let x = choose|x: int|
                ni <= x < mine.len() && #[trigger] rest.contains(
                    MergeStep::Updated(x as usize, y as usize),
                );
            lemma_contains_first_or_rest(first, rest, MergeStep::Updated(x as usize, y as usize));
        }
    }
}

/// Whether `hashes` ascend and no hash occurs twice.
pub open spec fn strictly_ascending(hashes: Seq<u128>) -> bool {
    forall|i: int, j: int| 0 <= i < j < hashes.len() ==> hashes[i] < hashes[j]
}

/// In tables without equal hashes, a merge pairs every function that both
/// tables have.
pub proof fn lemma_common_paired(
    mine: Seq<u128>,
    theirs: Seq<u128>,
    i: int,
    j: int,
    x: int,
    y: int,
)
    requires
        0 <= i <= x < mine.len() <= usize::MAX,
        0 <= j <= y < theirs.len() <= usize::MAX,
        strictly_ascending(mine),
        strictly_ascending(theirs),
        mine[x] == theirs[y],
    ensures
        merge_steps(mine, theirs, i, j).contains(MergeStep::Updated(x as usize, y as usize)),
    decreases left_to_walk(mine, theirs, i, j),
{
    let first = step_at(mine, theirs, i, j);
    let all = merge_steps(mine, theirs, i, j);
    if i == x && j == y {
        assert(all[0] == first);
    } else {
        let (ni, nj) = match first {
            MergeStep::Removed(_) => (i + 1, j),
            MergeStep::Added(_) => (i, j + 1),
            MergeStep::Updated(_, _) => (i + 1, j + 1),
        };
        lemma_common_paired(mine, theirs, ni, nj, x, y);
        lemma_contains_first_or_rest(
            first,
            merge_steps(mine, theirs, ni, nj),
            MergeStep::Updated(x as usize, y as usize),
        );
    }
}

impl MergeStep {
    /// The place of the running table that the step passes, if it passes
    /// one.
    pub open spec fn mine(self) -> Option<usize> {
        match self {
            MergeStep::Removed(x) => Some(x),
            MergeStep::Added(_) => None,
            MergeStep::Updated(x, _) => Some(x),
        }
    }

    /// The place of the new table that the step passes, if it passes one.
    pub open spec fn theirs(self) -> Option<usize> {
        match self {
            MergeStep::Removed(_) => None,
            MergeStep::Added(y) => Some(y),
            MergeStep::Updated(_, y) => Some(y),
        }
    }
}

/// A merge passes the places of each table in ascending order, each of them
/// once.
pub proof fn lemma_steps_ascend(
    mine: Seq<u128>,
    theirs: Seq<u128>,
    i: int,
    j: int,
    earlier: int,
    later: int,
)
    requires
        0 <= i <= mine.len() <= usize::MAX,
        0 <= j <= theirs.len() <= usize::MAX,
        0 <= earlier < later < merge_steps(mine, theirs, i, j).len(),
    ensures
        ({
            let first = merge_steps(mine, theirs, i, j)[earlier];
            let second = merge_steps(mine, theirs, i, j)[later];
            &&& first.mine() is Some && second.mine() is Some ==> first.mine()->0
                < second.mine()->0
            &&& first.theirs() is Some && second.theirs() is Some ==> first.theirs()->0
                < second.theirs()->0
        }),
    decreases left_to_walk(mine, theirs, i, j),
{
    let all = merge_steps(mine, theirs, i, j);
    let first = step_at(mine, theirs, i, j);
    let (ni, nj) = match first {
        MergeStep::Removed(_) => (i + 1, j),
        MergeStep::Added(_) => (i, j + 1),
        MergeStep::Updated(_, _) => (i + 1, j + 1),
    };
    let rest = merge_steps(mine, theirs, ni, nj);
    if earlier == 0 {
        lemma_steps_in_range(mine, theirs, ni, nj, rest[later - 1]);
    } else {
        lemma_steps_ascend(mine, theirs, ni, nj, earlier - 1, later - 1);
    }
}

/// Merges two tables that are given by their identity hashes, the hashes of
/// each in ascending order, and returns the steps in the order in which they
/// are taken.
pub fn merge(mine: &[u128], theirs: &[u128]) -> (steps: Vec<MergeStep>)
    ensures
        steps@ == merge_steps(mine@, theirs@, 0, 0),
{
    let mut steps: Vec<MergeStep> = Vec::new();
    let mut i: usize = 0;
    let mut j: usize = 0;
    while i < mine.len() || j < theirs.len()
        invariant
            i <= mine@.len(),
            j <= theirs@.len(),
            steps@ + merge_steps(mine@, theirs@, i as int, j as int) == merge_steps(
                mine@,
                theirs@,
                0,
                0,
            ),
        decreases left_to_walk(mine@, theirs@, i as int, j as int),
    {
        let ghost before = steps@;
        let ghost ahead = merge_steps(mine@, theirs@, i as int, j as int);
        if j >= theirs.len() || (i < mine.len() && mine[i] < theirs[j]) {
            steps.push(MergeStep::Removed(i));
            i = i + 1;
        } else if i >= mine.len() || mine[i] > theirs[j] {
            steps.push(MergeStep::Added(j));
            j = j + 1;
        } else {
            steps.push(MergeStep::Updated(i, j));
            i = i + 1;
            j = j + 1;
        }
    }
    steps
}

/// Whether `order` has the place `place` of a list.
pub open spec fn places(order: Seq<usize>, place: int) -> bool {
    exists|k: int| 0 <= k < order.len() && #[trigger] order[k] == place
}

/// Whether `order` puts the places of `hashes` in the order of a function
/// table: every place once, in ascending order of the hashes and, among equal
/// hashes, of the places.
pub open spec fn orders(order: Seq<usize>, hashes: Seq<u128>) -> bool {
    &&& order.len() == hashes.len()
    &&& forall|k: int| 0 <= k < order.len() ==> #[trigger] order[k] < hashes.len()
    &&& forall|place: int| 0 <= place < hashes.len() ==> #[trigger] places(order, place)
    &&& forall|i: int, j: int|
        0 <= i < j < order.len() ==> {
            ||| hashes[#[trigger] order[i] as int] < hashes[#[trigger] order[j] as int]
            ||| hashes[order[i] as int] == hashes[order[j] as int] && order[i] < order[j]
        }
}

/// The order in which a function table lists the functions with the given
/// identity hashes.
pub fn table_order(hashes: &[u128]) -> (order: Vec<usize>)
    ensures
        orders(order@, hashes@),
{
    let mut order: Vec<usize> = Vec::new();
    let mut s: usize = 0;
    while s < hashes.len()
        invariant
            s <= hashes@.len(),
            order@.len() == s,
            forall|k: int| 0 <= k < order@.len() ==> #[trigger] order@[k] < s,
            forall|place: int| 0 <= place < s ==> #[trigger] places(order@, place),
            forall|i: int, j: int|
                0 <= i < j < order@.len() ==> {
                    ||| hashes@[#[trigger] order@[i] as int] < hashes@[#[trigger] order@[j] as int]
                    ||| hashes@[order@[i] as int] == hashes@[order@[j] as int] && order@[i]
                        < order@[j]
                },
        decreases hashes@.len() - s,
    {
        let hash = hashes[s];
        let mut at: usize = 0;
        while at < order.len() && hashes[order[at]] <= hash
            invariant
                at <= order@.len(),
                s < hashes@.len(),
                hash == hashes@[s as int],
                forall|k: int| 0 <= k < order@.len() ==> #[trigger] order@[k] < s,
                forall|k: int| 0 <= k < at ==> hashes@[#[trigger] order@[k] as int] <= hash,
            decreases order@.len() - at,
        {
            at = at + 1;
        }
        let ghost before = order@;
        order.insert(at, s);
        proof {
            let after = order@;
            assert forall|place: int| 0 <= place < s + 1 implies #[trigger] places(
                after,
                place,
            ) by {
                if place == s {
                    assert(after[at as int] == place);
                } else {
                    assert(places(before, place));
                    let k = choose|k: int| 0 <= k < before.len() && #[trigger] before[k] == place;
                    if k < at {
                        assert(after[k] == place);
                    } else {
                        assert(after[k + 1] == place);
                    }
                }
            }
        }
        s = s + 1;
    }
    order
}

} // verus!
