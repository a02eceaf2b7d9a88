pub mod lineage_utils;
pub mod scan;
pub mod text;
pub mod uuid_utils;

pub use lineage_utils::{
    common_ancestor_path, compute_lineage, depth_difference, is_ancestor,
    validate_lineage_depth, DepthExceeded,
};
pub use uuid_utils::{validate_uuid, validate_uuid_list};
