//! What the GitHub API hands back, trimmed to what the agents read.

use crate::clock::Timestamp;
use vstd::prelude::*;

verus! {

/// GitHub workflow run response.
#[derive(Debug)]
pub struct GHRun {
    pub id: u64,
    pub html_url: String,
    pub status: String,
    pub conclusion: Option<String>,
    pub created_at: Timestamp,
    pub head_branch: Option<String>,
}

/// What a [`GHRun`] holds.
pub struct GHRunView {
    pub id: u64,
    pub html_url: Seq<char>,
    pub status: Seq<char>,
    pub conclusion: Option<Seq<char>>,
    pub created_at: Timestamp,
    pub head_branch: Option<Seq<char>>,
}

impl View for GHRun {
    type V = GHRunView;

    open spec fn view(&self) -> GHRunView {
        GHRunView {
            id: self.id,
            html_url: self.html_url@,
            status: self.status@,
            conclusion: self.conclusion.deep_view(),
            created_at: self.created_at,
            head_branch: self.head_branch.deep_view(),
        }
    }
}

impl DeepView for GHRun {
    type V = GHRunView;

    open spec fn deep_view(&self) -> GHRunView {
        self@
    }
}

/// GitHub workflow runs list response.
#[derive(Debug)]
pub struct GHRunsResponse {
    pub workflow_runs: Vec<GHRun>,
}

/// What a [`GHRunsResponse`] holds.
pub struct GHRunsResponseView {
    pub workflow_runs: Seq<GHRunView>,
}

impl View for GHRunsResponse {
    type V = GHRunsResponseView;

    open spec fn view(&self) -> GHRunsResponseView {
        GHRunsResponseView {
            workflow_runs: self.workflow_runs.deep_view(),
        }
    }
}

impl DeepView for GHRunsResponse {
    type V = GHRunsResponseView;

    open spec fn deep_view(&self) -> GHRunsResponseView {
        self@
    }
}

/// GitHub job response.
#[derive(Debug)]
pub struct GHJob {
    pub id: u64,
    pub conclusion: Option<String>,
}

/// What a [`GHJob`] holds.
pub struct GHJobView {
    pub id: u64,
    pub conclusion: Option<Seq<char>>,
}

impl View for GHJob {
    type V = GHJobView;

    open spec fn view(&self) -> GHJobView {
        GHJobView {
            id: self.id,
            conclusion: self.conclusion.deep_view(),
        }
    }
}

impl DeepView for GHJob {
    type V = GHJobView;

    open spec fn deep_view(&self) -> GHJobView {
        self@
    }
}

/// GitHub jobs list response.
#[derive(Debug)]
pub struct GHJobsResponse {
    pub jobs: Vec<GHJob>,
}

/// What a [`GHJobsResponse`] holds.
pub struct GHJobsResponseView {
    pub jobs: Seq<GHJobView>,
}

impl View for GHJobsResponse {
    type V = GHJobsResponseView;

    open spec fn view(&self) -> GHJobsResponseView {
        GHJobsResponseView {
            jobs: self.jobs.deep_view(),
        }
    }
}

impl DeepView for GHJobsResponse {
    type V = GHJobsResponseView;

    open spec fn deep_view(&self) -> GHJobsResponseView {
        self@
    }
}

/// GitHub file content response.
#[derive(Debug)]
pub struct GHFileContent {
    /// The contents, in Base64 with line breaks.
    pub content: String,
    pub sha: String,
}

/// What a [`GHFileContent`] holds.
pub struct GHFileContentView {
    pub content: Seq<char>,
    pub sha: Seq<char>,
}

impl View for GHFileContent {
    type V = GHFileContentView;

    open spec fn view(&self) -> GHFileContentView {
        GHFileContentView {
            content: self.content@,
            sha: self.sha@,
        }
    }
}

impl DeepView for GHFileContent {
    type V = GHFileContentView;

    open spec fn deep_view(&self) -> GHFileContentView {
        self@
    }
}

/// GitHub release response.
#[derive(Debug)]
pub struct GHRelease {
    pub tag_name: String,
    /// The JSON text of each asset.
    pub assets: Vec<String>,
}

/// What a [`GHRelease`] holds.
pub struct GHReleaseView {
    pub tag_name: Seq<char>,
    pub assets: Seq<Seq<char>>,
}

impl View for GHRelease {
    type V = GHReleaseView;

    open spec fn view(&self) -> GHReleaseView {
        GHReleaseView {
            tag_name: self.tag_name@,
            assets: self.assets.deep_view(),
        }
    }
}

impl DeepView for GHRelease {
    type V = GHReleaseView;

    open spec fn deep_view(&self) -> GHReleaseView {
        self@
    }
}

/// An uploaded release asset.
#[derive(Debug)]
pub struct ReleaseAsset {
    pub name: String,
    pub browser_download_url: String,
}

/// What a [`ReleaseAsset`] holds.
pub struct ReleaseAssetView {
    pub name: Seq<char>,
    pub browser_download_url: Seq<char>,
}

impl View for ReleaseAsset {
    type V = ReleaseAssetView;

    open spec fn view(&self) -> ReleaseAssetView {
        ReleaseAssetView {
            name: self.name@,
            browser_download_url: self.browser_download_url@,
        }
    }
}

impl DeepView for ReleaseAsset {
    type V = ReleaseAssetView;

    open spec fn deep_view(&self) -> ReleaseAssetView {
        self@
    }
}

/// A published release, trimmed to what the agents need to decide whether an
/// artefact already exists.
#[derive(Debug)]
pub struct ReleaseInfo {
    pub tag_name: String,
    pub html_url: String,
    pub assets: Vec<ReleaseAsset>,
}

/// What a [`ReleaseInfo`] holds.
pub struct ReleaseInfoView {
    pub tag_name: Seq<char>,
    pub html_url: Seq<char>,
    pub assets: Seq<ReleaseAssetView>,
}

impl View for ReleaseInfo {
    type V = ReleaseInfoView;

    open spec fn view(&self) -> ReleaseInfoView {
        ReleaseInfoView {
            tag_name: self.tag_name@,
            html_url: self.html_url@,
            assets: self.assets.deep_view(),
        }
    }
}

impl DeepView for ReleaseInfo {
    type V = ReleaseInfoView;

    open spec fn deep_view(&self) -> ReleaseInfoView {
        self@
    }
}

/// The object that a Git reference points at.
#[derive(Debug)]
pub struct RefObject {
    pub sha: String,
    /// What it is: a commit, or an annotated tag.
    pub object_type: String,
}

/// What a [`RefObject`] holds.
pub struct RefObjectView {
    pub sha: Seq<char>,
    pub object_type: Seq<char>,
}

impl View for RefObject {
    type V = RefObjectView;

    open spec fn view(&self) -> RefObjectView {
        RefObjectView {
            sha: self.sha@,
            object_type: self.object_type@,
        }
    }
}

impl DeepView for RefObject {
    type V = RefObjectView;

    open spec fn deep_view(&self) -> RefObjectView {
        self@
    }
}

} // verus!
