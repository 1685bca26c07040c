//! Lists the local branches of a set of repositories and lays them out as an
//! aligned, coloured report.
pub mod collect;
pub mod layout;
pub mod model;
pub mod order;
pub mod render;

pub use collect::{collect_repo, display_name};
pub use layout::{compute_layout, try_compute_layout, Layout};
pub use model::{Branch, Config, RawBranch, RepoReport, ReportError, RepositoryState, STATE_LABEL_WIDTH};
pub use render::{render, RenderOptions, Segment, Tone};
pub use order::{branch_before, name_le, sort_branches};
