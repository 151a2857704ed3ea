//! The decisions of the XCP-HL orchestrator and its agents: which component to
//! rebuild, which tag to push, what to do with every reply of GitHub, how a
//! build is watched, and what the dashboard says of it. Input and output stay
//! outside: the functions here take plain values and hand plain values back.

use vstd::prelude::*;

pub mod api;
pub mod build_config;
pub mod clock;
pub mod credentials;
pub mod dashboard;
pub mod encoding;
pub mod error;
pub mod github;
pub mod iso_agent;
pub mod ollama;
pub mod orchestrator;
pub mod pipeline;
pub mod status;
pub mod tags;
pub mod text;
pub mod types;
pub mod upstream;
pub mod version_state;
pub mod xoa_agent;

verus! {

/// GitHub organization owner for all repositories.
pub const OWNER: &'static str = "Vagrantin";

/// Default branch for all repositories.
pub const DEFAULT_BRANCH: &'static str = "main";

/// Documentation repository name.
pub const DOCS_REPO: &'static str = "xcp-hl";

/// Path to releases data file in docs repo.
pub const RELEASES_DATA_PATH: &'static str = "docs/_data/releases.yml";

/// Target XCP-ng base release version.
pub const XCPNG_TARGET_VERSION: &'static str = "8.3";

/// Base directory for all orchestrator state files.
pub const STATE_DIR: &'static str = "/var/lib/xcp-hl-orchestrator";

/// History file path.
pub const HISTORY_FILE: &'static str = "/var/lib/xcp-hl-orchestrator/history.json";

/// Ollama API endpoint.
pub const OLLAMA_URL: &'static str = "http://localhost:11434/api/generate";

/// Ollama model for diagnostics.
pub const MODEL_NAME: &'static str = "qwen3-coder:30b";

/// Dashboard output directory.
pub const TARGET_REPORT_DIR: &'static str = "/var/www/html/orchestrator";

} // verus!
