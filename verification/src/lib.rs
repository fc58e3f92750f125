//! Capability-based sandbox filesystem, a bounded command executor on top of
//! it, and the builder of a sandbox.
pub mod cap_fs;
pub mod error;
pub mod guest_path;
pub mod handles;
pub mod limits;
pub mod model;
pub mod perms;
pub mod random;
pub mod sandbox;
pub mod table;
pub mod text;
pub mod toolbox;

pub use cap_fs::CapFs;
pub use error::FsError;
pub use limits::FilesystemLimits;
pub use perms::{DescriptorFlags, DescriptorStat, DescriptorType, Dir, DirPerms, FilePerms};
pub use perms::{MountLifetime, OpenFlags, PathFlags, WorkDirAccess};
pub use sandbox::{ExecutionResult, GuestSandbox, NoGuest, SandboxBuilder, SandboxConfig, Snapshot};
pub use toolbox::Toolbox;
