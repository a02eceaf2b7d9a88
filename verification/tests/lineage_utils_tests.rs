use aigc_history::utils::lineage_utils::{
    common_ancestor_path, compute_lineage, depth_difference, is_ancestor, validate_lineage_depth,
    DepthExceeded,
};
use aigc_history::utils::uuid_utils::{explain_parsed_uuid, validate_uuid, validate_uuid_list};
use uuid::Uuid;

fn fresh() -> u128 {
    Uuid::new_v4().as_u128()
}

#[test]
fn test_compute_lineage() {
    let parent_lineage = vec![fresh(), fresh()];
    let new_id = fresh();

    let lineage = compute_lineage(&parent_lineage, new_id);

    assert_eq!(lineage.len(), 3);
    assert_eq!(lineage[2], new_id);
}

#[test]
fn test_is_ancestor() {
    let ancestor = fresh();
    let middle = fresh();
    let leaf = fresh();
    let lineage = vec![ancestor, middle, leaf];

    assert!(is_ancestor(ancestor, &lineage));
    assert!(is_ancestor(middle, &lineage));
    assert!(!is_ancestor(fresh(), &lineage));
}

#[test]
fn test_common_ancestor_path() {
    let root = fresh();
    let common = fresh();
    let branch_a = fresh();
    let branch_b = fresh();

    let lineage_a = vec![root, common, branch_a];
    let lineage_b = vec![root, common, branch_b];

    let common_path = common_ancestor_path(&lineage_a, &lineage_b);

    assert_eq!(common_path, vec![root, common]);
}

#[test]
fn compute_lineage_keeps_the_parent_chain() {
    assert_eq!(compute_lineage(&[], 7), vec![7]);
    assert_eq!(compute_lineage(&[1, 2, 3], 4), vec![1, 2, 3, 4]);
}

#[test]
fn depth_difference_of_two_siblings_is_two() {
    let (r, a, b, c) = (1u128, 2u128, 3u128, 4u128);
    assert_eq!(common_ancestor_path(&[r, a, b], &[r, a, c]), vec![r, a]);
    assert_eq!(depth_difference(&[r, a, b], &[r, a, c]), 2);
}

#[test]
fn depth_difference_exact_values() {
    assert_eq!(depth_difference(&[1, 2, 3], &[1, 2, 3]), 0);
    assert_eq!(depth_difference(&[1], &[1, 2, 3, 4]), 3);
    assert_eq!(depth_difference(&[1, 2, 3], &[9, 8]), 5);
    assert_eq!(depth_difference(&[], &[]), 0);
    assert_eq!(depth_difference(&[], &[5, 6]), 2);
}

#[test]
fn common_ancestor_path_edge_cases() {
    assert_eq!(common_ancestor_path(&[], &[1, 2]), Vec::<u128>::new());
    assert_eq!(common_ancestor_path(&[1, 2], &[3, 2]), Vec::<u128>::new());
    assert_eq!(common_ancestor_path(&[1, 2], &[1, 2, 3]), vec![1, 2]);
    assert_eq!(common_ancestor_path(&[1, 2, 3], &[1, 2]), vec![1, 2]);
    // the chains agree again after they diverged: only the prefix counts
    assert_eq!(common_ancestor_path(&[1, 2, 3, 4], &[1, 9, 3, 4]), vec![1]);
}

#[test]
fn validate_lineage_depth_at_and_over_the_limit() {
    assert_eq!(validate_lineage_depth(&[1, 2, 3], 3), Ok(()));
    assert_eq!(validate_lineage_depth(&[1, 2, 3], 4), Ok(()));
    assert_eq!(
        validate_lineage_depth(&[1, 2, 3, 4], 3),
        Err(DepthExceeded { depth: 4, max_depth: 3 })
    );
    assert_eq!(validate_lineage_depth(&[], 0), Ok(()));
    assert_eq!(validate_lineage_depth(&[1], 0), Err(DepthExceeded { depth: 1, max_depth: 0 }));
}

#[test]
fn is_ancestor_on_an_empty_lineage() {
    assert!(!is_ancestor(1, &[]));
}

#[test]
fn validate_uuid_reads_hyphenated_and_simple_forms() {
    assert_eq!(
        validate_uuid("a1a2a3a4-b1b2-c1c2-d1d2-d3d4d5d6d7d8"),
        Ok(0xa1a2a3a4b1b2c1c2d1d2d3d4d5d6d7d8u128)
    );
    assert_eq!(
        validate_uuid("a1a2a3a4b1b2c1c2d1d2d3d4d5d6d7d8"),
        Ok(0xa1a2a3a4b1b2c1c2d1d2d3d4d5d6d7d8u128)
    );
}

#[test]
fn validate_uuid_rejects_other_text() {
    let rejected = validate_uuid("not-a-uuid");
    let message = rejected.unwrap_err();
    assert!(message.starts_with("Invalid UUID: "));
    let reason = Uuid::parse_str("not-a-uuid").unwrap_err().to_string();
    assert_eq!(message, format!("Invalid UUID: {}", reason));
}

#[test]
fn explain_parsed_uuid_keeps_ids_and_prefixes_reasons() {
    assert_eq!(explain_parsed_uuid(Ok(5)), Ok(5));
    assert_eq!(
        explain_parsed_uuid(Err("too short".to_string())),
        Err("Invalid UUID: too short".to_string())
    );
}

#[test]
fn validate_uuid_list_rejects_the_empty_list() {
    assert_eq!(validate_uuid_list(&[]), Err("UUID list cannot be empty".to_string()));
    assert_eq!(validate_uuid_list(&[1]), Ok(()));
}
