pub mod branch_repo;
pub mod lineage_path;
pub mod lineage_repo;
pub mod share_repo;

pub use branch_repo::BranchRepository;
pub use lineage_repo::LineageRepository;
pub use share_repo::ShareRepository;
