pub mod approval;
pub mod classifier;
pub mod clock;
pub mod ident;
pub mod json;
pub mod launch;
pub mod mcp_manager;
pub mod process;
pub mod state;
pub mod supervisor;
pub mod table;
pub mod text;
pub mod worktree;

pub use crate::classifier::parse_claude_json_line;
pub use crate::process::{ClaudeProcess, ProcessOutput};
pub use crate::state::AppState;
pub use crate::worktree::{GitWorktreeInfo, WorktreeConfig};
