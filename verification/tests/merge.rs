use libhotpatch::merge::{merge, MergeStep};

#[test]
fn merge_of_empty_tables_has_no_steps() {
    assert!(merge(&[], &[]).is_empty());
}

#[test]
fn merge_reports_all_as_removed_against_an_empty_table() {
    assert_eq!(
        merge(&[1, 5, 9], &[]),
        vec![MergeStep::Removed(0), MergeStep::Removed(1), MergeStep::Removed(2)]
    );
}

#[test]
fn merge_reports_all_as_new_from_an_empty_table() {
    assert_eq!(merge(&[], &[3, 4]), vec![MergeStep::Added(0), MergeStep::Added(1)]);
}

#[test]
fn merge_walks_both_tables_in_order() {
    assert_eq!(
        merge(&[1, 3, 5, 8], &[2, 3, 8, 9]),
        vec![
            MergeStep::Removed(0),
            MergeStep::Added(0),
            MergeStep::Updated(1, 1),
            MergeStep::Removed(2),
            MergeStep::Updated(3, 2),
            MergeStep::Added(3),
        ]
    );
}

#[test]
fn merge_pairs_equal_hashes_in_order() {
    assert_eq!(
        merge(&[7, 7], &[7]),
        vec![MergeStep::Updated(0, 0), MergeStep::Removed(1)]
    );
    assert_eq!(
        merge(&[7], &[7, 7]),
        vec![MergeStep::Updated(0, 0), MergeStep::Added(1)]
    );
}

#[test]
fn merge_handles_the_largest_hash() {
    assert_eq!(
        merge(&[0, u128::MAX], &[u128::MAX]),
        vec![MergeStep::Removed(0), MergeStep::Updated(1, 0)]
    );
}
