//! The XOA VM agent: builds and publishes the image of the appliance.
//!
//! A run goes through numbered phases: is there anything to build, build the
//! package on GitHub, check this machine, fetch the scripts, resolve what the
//! build needs, write its files, run Packer, find the image, publish it.

use crate::build_config::{BuildConfig, BuildConfigView, OUTPUT_DIR};
use crate::clock;
use crate::clock::Timestamp;
use crate::encoding;
use crate::encoding::lossy_text;
use crate::error::{outcome, OrchestratorError, OrchestratorErrorView};
use crate::github;
use crate::github::{is_status, is_success, status_text};
use crate::status::{
    component_named, names_distinct, set_component_keeps_names_distinct, with_component,
};
use crate::status::{AgentStatus, AgentStatusView, WorkflowStatus, WorkflowStatusView};
use crate::tags;
use crate::tags::{can_shorten, is_image_release, short_sha_text, IMAGE_TAG_PREFIX};
use crate::text;
use crate::text::{
    byte_len, decimal, has_text, is_hex_digit, joined, lemma_has_part, lemma_has_tail,
    lemma_has_text_within, number, signed_decimal, text_lines, text_words, trimmed,
    without_suffixes,
};
use crate::types::{ReleaseAssetView, ReleaseInfo, ReleaseInfoView};
use vstd::prelude::*;

verus! {

/// Where the agent reports its status.
pub const STATUS_FILE: &'static str = "/var/lib/xcp-hl-orchestrator/xoa-vm-agent.status.json";

/// Where the agent keeps what it built.
pub const VERSION_STATE_FILE: &'static str =
    "/var/lib/xcp-hl-orchestrator/xoa_agent_version_state.json";

/// Where the scripts for the image are kept.
pub const REPO_DIR: &'static str = "/var/lib/xcp-hl-orchestrator/repos/build-xoa-hl";

/// Where the image is built.
pub const BUILD_DIR: &'static str = "/var/lib/xcp-hl-orchestrator/build/xoa-hl";

/// The repository of the appliance, with its owner.
pub const XOA_HL_REPO: &'static str = "Vagrantin/xoa-hl";

/// The repository of the scripts, with its owner.
pub const BUILD_XOA_HL_REPO: &'static str = "Vagrantin/build-xoa-hl";

/// The workflow that builds the package and releases it.
pub const XOA_HL_WORKFLOW_FILE: &'static str = "build-xoa.yml";

/// How many releases are looked at.
pub const RELEASES_PER_PAGE: u8 = 30;

/// Free space that a build needs, in bytes (100 GB).
pub const REQUIRED_DISK_SPACE_BYTES: u64 = 107_374_182_400;

/// Hard timeout for the whole Packer build, in seconds.
pub const PACKER_TIMEOUT_SECS: u64 = 3600;

/// How long Packer gets to end after it was asked to, in seconds.
pub const PACKER_SIGTERM_GRACE_SECS: u64 = 30;

/// Hard timeout for the workflow on GitHub, in seconds.
pub const WORKFLOW_TIMEOUT_SECS: u64 = 3600;

/// How long to wait between two looks at the workflow, in seconds.
pub const WORKFLOW_POLL_SECS: u64 = 30;

/// Status polls that may fail in a row before the watch is given up.
pub const MAX_CONSECUTIVE_POLL_FAILURES: u32 = 5;

/// The installation medium of AlmaLinux, as its checksum lists name it.
pub const ISO_FILENAME: &'static str = "AlmaLinux-9-latest-x86_64-minimal.iso";

/// The checksum list in BSD style.
pub const BSD_CHECKSUM_URL: &'static str =
    "https://repo.almalinux.org/almalinux/9/isos/x86_64/CHECKSUM";

/// The checksum list in GNU style.
pub const GNU_CHECKSUM_URL: &'static str =
    "https://repo.almalinux.org/almalinux/9/isos/x86_64/SHA256SUMS";

/// A text of a `Result`, by what it holds.
pub open spec fn checked(r: Result<(), String>) -> Result<(), Seq<char>> {
    match r {
        Ok(()) => Ok(()),
        Err(e) => Err(e@),
    }
}

// ── Version state ──────────────────────────────────────────────────────────

/// What the agent built last.
#[derive(Debug)]
pub struct XoaHlVersionState {
    pub last_built_sha: String,
    pub last_tag: String,
    pub last_built_at: Option<Timestamp>,
}

/// What a [`XoaHlVersionState`] holds.
pub struct XoaHlVersionStateView {
    pub last_built_sha: Seq<char>,
    pub last_tag: Seq<char>,
    pub last_built_at: Option<Timestamp>,
}

impl View for XoaHlVersionState {
    type V = XoaHlVersionStateView;

    open spec fn view(&self) -> XoaHlVersionStateView {
        XoaHlVersionStateView {
            last_built_sha: self.last_built_sha@,
            last_tag: self.last_tag@,
            last_built_at: self.last_built_at,
        }
    }
}

impl DeepView for XoaHlVersionState {
    type V = XoaHlVersionStateView;

    open spec fn deep_view(&self) -> XoaHlVersionStateView {
        self@
    }
}

impl Default for XoaHlVersionState {
    fn default() -> (state: Self)
        ensures
            state@ == (XoaHlVersionStateView {
                last_built_sha: Seq::empty(),
                last_tag: Seq::empty(),
                last_built_at: None,
            }),
    {
        XoaHlVersionState {
            last_built_sha: String::new(),
            last_tag: String::new(),
            last_built_at: None,
        }
    }
}

impl XoaHlVersionStateView {
    /// An image was built and published from a commit.
    pub open spec fn is_up_to_date(self, head_sha: Seq<char>) -> bool {
        self.last_built_sha.len() > 0 && head_sha == self.last_built_sha
            && IMAGE_TAG_PREFIX@.is_prefix_of(self.last_tag)
    }

    /// The state after an image was published from a commit, under a tag.
    pub open spec fn published(
        self,
        head_sha: Seq<char>,
        tag: Seq<char>,
        now: Timestamp,
    ) -> XoaHlVersionStateView {
        XoaHlVersionStateView {
            last_built_sha: head_sha,
            last_tag: tag,
            last_built_at: Some(now),
        }
    }
}

impl XoaHlVersionState {
    /// Whether an image was built and published from a commit, as far as is
    /// remembered. The package alone does not count: the image is what the agent
    /// is for.
    pub fn is_up_to_date(&self, head_sha: &str) -> (yes: bool)
        ensures
            yes == self@.is_up_to_date(head_sha@),
    {
        !self.last_built_sha.as_str().is_empty() && text::same(head_sha, &self.last_built_sha)
            && text::starts_with(&self.last_tag, IMAGE_TAG_PREFIX)
    }

    /// Remembers an image that is published from a commit, as of now.
    pub fn record(&mut self, head_sha: &str, tag: &str)
        ensures
            exists|now: Timestamp|
                #[trigger] now.in_calendar() && final(self)@ == old(self)@.published(
                    head_sha@,
                    tag@,
                    now,
                ),
    {
        let now = clock::utc_now();
        self.last_built_sha = head_sha.to_string();
        self.last_tag = tag.to_string();
        self.last_built_at = Some(now);
        assert(self@ == old(self)@.published(head_sha@, tag@, now));
    }
}

// ── Is there anything to build? ────────────────────────────────────────────

/// What is already published for a commit.
#[derive(Debug)]
pub enum Published {
    /// The image: nothing is left to build.
    Image { tag: String, url: String },
    /// No image. The newest release of a package is this one; if its tag points
    /// at the commit, only the image is left to build.
    Package { tag: String, url: String },
    Nothing,
}

/// What a [`Published`] says.
pub enum PublishedView {
    Image { tag: Seq<char>, url: Seq<char> },
    Package { tag: Seq<char>, url: Seq<char> },
    Nothing,
}

impl View for Published {
    type V = PublishedView;

    open spec fn view(&self) -> PublishedView {
        match self {
            Published::Image { tag, url } => PublishedView::Image { tag: tag@, url: url@ },
            Published::Package { tag, url } => PublishedView::Package { tag: tag@, url: url@ },
            Published::Nothing => PublishedView::Nothing,
        }
    }
}

/// The first release that carries the image of a commit.
pub open spec fn first_image(releases: Seq<ReleaseInfoView>, short: Seq<char>) -> Option<
    ReleaseInfoView,
>
    decreases releases.len(),
{
    if releases.len() == 0 {
        None
    } else if is_image_release(releases[0], short) {
        Some(releases[0])
    } else {
        first_image(releases.drop_first(), short)
    }
}

/// The first release that is not tagged as an image.
pub open spec fn first_package(releases: Seq<ReleaseInfoView>) -> Option<ReleaseInfoView>
    decreases releases.len(),
{
    if releases.len() == 0 {
        None
    } else if !IMAGE_TAG_PREFIX@.is_prefix_of(releases[0].tag_name) {
        Some(releases[0])
    } else {
        first_package(releases.drop_first())
    }
}

/// What some releases, newest first, hold for a commit.
pub open spec fn published_for(releases: Seq<ReleaseInfoView>, short: Seq<char>) -> PublishedView {
    match first_image(releases, short) {
        Some(image) => PublishedView::Image { tag: image.tag_name, url: image.html_url },
        None => match first_package(releases) {
            Some(package) => PublishedView::Package {
                tag: package.tag_name,
                url: package.html_url,
            },
            None => PublishedView::Nothing,
        },
    }
}

/// What some releases, newest first, hold for a commit.
pub fn find_published(releases: &Vec<ReleaseInfo>, short_sha: &str) -> (found: Published)
    ensures
        found@ == published_for(releases.deep_view(), short_sha@),
{
    let ghost all = releases.deep_view();
    assert(all.skip(0) =~= all);
    let mut i: usize = 0;
    while i < releases.len()
        invariant
            i <= releases@.len(),
            all == releases.deep_view(),
            first_image(all, short_sha@) == first_image(all.skip(i as int), short_sha@),
        decreases releases@.len() - i,
    {
        proof {
            assert(all.skip(i as int)[0] == releases@[i as int]@);
            assert(all.skip(i as int).drop_first() =~= all.skip(i + 1));
        }
        if tags::is_image_release_for(&releases[i], short_sha) {
            return Published::Image {
                tag: releases[i].tag_name.clone(),
                url: releases[i].html_url.clone(),
            };
        }
        i += 1;
    }
    let mut k: usize = 0;
    while k < releases.len()
        invariant
            k <= releases@.len(),
            all == releases.deep_view(),
            first_image(all, short_sha@) is None,
            first_package(all) == first_package(all.skip(k as int)),
        decreases releases@.len() - k,
    {
        proof {
            assert(all.skip(k as int)[0] == releases@[k as int]@);
            assert(all.skip(k as int).drop_first() =~= all.skip(k + 1));
        }
        if !text::starts_with(&releases[k].tag_name, IMAGE_TAG_PREFIX) {
            return Published::Package {
                tag: releases[k].tag_name.clone(),
                url: releases[k].html_url.clone(),
            };
        }
        k += 1;
    }
    Published::Nothing
}

/// Whether the package is up to date: its tag could be resolved, to the newest
/// commit.
pub fn is_package_current(tag_sha: &Option<String>, head_sha: &str) -> (yes: bool)
    ensures
        yes == (tag_sha.deep_view() == Some(head_sha@)),
{
    match tag_sha {
        Some(sha) => text::same(sha, head_sha),
        None => false,
    }
}

// ── Reports ────────────────────────────────────────────────────────────────

/// The phases of a run that are reported.
#[derive(Clone, Copy, Debug, PartialEq, Eq, Structural)]
pub enum Phase {
    CheckRebuild,
    TriggerWorkflow,
    ValidatePrerequisites,
    SyncRepo,
    ResolveValues,
    GenerateFiles,
    RunPacker,
    LocateXva,
    UploadAsset,
    PersistState,
}

impl Phase {
    /// What the phase is called.
    pub open spec fn name_text(self) -> Seq<char> {
        match self {
            Phase::CheckRebuild => "phase_1_check_rebuild"@,
            Phase::TriggerWorkflow => "phase_2_trigger_workflow"@,
            Phase::ValidatePrerequisites => "phase_3_validate_prerequisites"@,
            Phase::SyncRepo => "phase_4_sync_repo"@,
            Phase::ResolveValues => "phase_5_resolve_values"@,
            Phase::GenerateFiles => "phase_6_generate_files"@,
            Phase::RunPacker => "phase_7_run_packer"@,
            Phase::LocateXva => "phase_8_locate_xva"@,
            Phase::UploadAsset => "phase_9_upload_asset"@,
            Phase::PersistState => "phase_10_persist_state"@,
        }
    }

    /// What the phase is called.
    pub fn name(self) -> (name: &'static str)
        ensures
            name@ == self.name_text(),
    {
        match self {
            Phase::CheckRebuild => "phase_1_check_rebuild",
            Phase::TriggerWorkflow => "phase_2_trigger_workflow",
            Phase::ValidatePrerequisites => "phase_3_validate_prerequisites",
            Phase::SyncRepo => "phase_4_sync_repo",
            Phase::ResolveValues => "phase_5_resolve_values",
            Phase::GenerateFiles => "phase_6_generate_files",
            Phase::RunPacker => "phase_7_run_packer",
            Phase::LocateXva => "phase_8_locate_xva",
            Phase::UploadAsset => "phase_9_upload_asset",
            Phase::PersistState => "phase_10_persist_state",
        }
    }
}

/// A step of a run whose failure ends the run without touching a component.
#[derive(Clone, Copy, Debug, PartialEq, Eq, Structural)]
pub enum Stage {
    Prerequisites,
    Sync,
    Config,
    Values,
    Files,
    Packer,
    Xva,
}

impl Stage {
    /// How the failure of the step is reported.
    pub open spec fn failure_text(self) -> Seq<char> {
        match self {
            Stage::Prerequisites => "Prerequisite check failed: "@,
            Stage::Sync => "Repository sync failed: "@,
            Stage::Config => "Build config invalid: "@,
            Stage::Values => "Value resolution failed: "@,
            Stage::Files => "Build file generation failed: "@,
            Stage::Packer => "Packer error: "@,
            Stage::Xva => "XVA not found: "@,
        }
    }

    fn failure(self) -> (start: &'static str)
        ensures
            start@ == self.failure_text(),
    {
        match self {
            Stage::Prerequisites => "Prerequisite check failed: ",
            Stage::Sync => "Repository sync failed: ",
            Stage::Config => "Build config invalid: ",
            Stage::Values => "Value resolution failed: ",
            Stage::Files => "Build file generation failed: ",
            Stage::Packer => "Packer error: ",
            Stage::Xva => "XVA not found: ",
        }
    }
}

/// What happens in a run, as it is reported.
#[derive(Debug)]
pub enum XoaEvent {
    Entered { phase: Phase },
    /// The commit is the one that the last image was built from.
    Unchanged { head_sha: String },
    /// The image of the commit is published already.
    AlreadyPublished { tag: String, url: String, short_sha: String },
    /// The package of the commit is there already, on this page.
    PackageCurrent { url: String },
    DispatchFailed { message: String },
    WorkflowRunning { url: String },
    WorkflowSucceeded { url: String },
    WorkflowFailed { message: String, url: String },
    StageFailed { stage: Stage, message: String },
    ReleaseFailed { message: String },
    Uploading { url: String },
    UploadFailed { message: String, url: String },
    Uploaded { url: String },
}

/// What a [`XoaEvent`] says.
pub enum XoaEventView {
    Entered { phase: Phase },
    Unchanged { head_sha: Seq<char> },
    AlreadyPublished { tag: Seq<char>, url: Seq<char>, short_sha: Seq<char> },
    PackageCurrent { url: Seq<char> },
    DispatchFailed { message: Seq<char> },
    WorkflowRunning { url: Seq<char> },
    WorkflowSucceeded { url: Seq<char> },
    WorkflowFailed { message: Seq<char>, url: Seq<char> },
    StageFailed { stage: Stage, message: Seq<char> },
    ReleaseFailed { message: Seq<char> },
    Uploading { url: Seq<char> },
    UploadFailed { message: Seq<char>, url: Seq<char> },
    Uploaded { url: Seq<char> },
}

impl View for XoaEvent {
    type V = XoaEventView;

    open spec fn view(&self) -> XoaEventView {
        match self {
            XoaEvent::Entered { phase } => XoaEventView::Entered { phase: *phase },
            XoaEvent::Unchanged { head_sha } => XoaEventView::Unchanged { head_sha: head_sha@ },
            XoaEvent::AlreadyPublished { tag, url, short_sha } =>
                XoaEventView::AlreadyPublished { tag: tag@, url: url@, short_sha: short_sha@ },
            XoaEvent::PackageCurrent { url } => XoaEventView::PackageCurrent { url: url@ },
            XoaEvent::DispatchFailed { message } => XoaEventView::DispatchFailed {
                message: message@,
            },
            XoaEvent::WorkflowRunning { url } => XoaEventView::WorkflowRunning { url: url@ },
            XoaEvent::WorkflowSucceeded { url } => XoaEventView::WorkflowSucceeded { url: url@ },
            XoaEvent::WorkflowFailed { message, url } => XoaEventView::WorkflowFailed {
                message: message@,
                url: url@,
            },
            XoaEvent::StageFailed { stage, message } => XoaEventView::StageFailed {
                stage: *stage,
                message: message@,
            },
            XoaEvent::ReleaseFailed { message } => XoaEventView::ReleaseFailed {
                message: message@,
            },
            XoaEvent::Uploading { url } => XoaEventView::Uploading { url: url@ },
            XoaEvent::UploadFailed { message, url } => XoaEventView::UploadFailed {
                message: message@,
                url: url@,
            },
            XoaEvent::Uploaded { url } => XoaEventView::Uploaded { url: url@ },
        }
    }
}

impl XoaEventView {
    /// A commit that is reported as unchanged is long enough to be cut short.
    pub open spec fn well_formed(self) -> bool {
        self matches XoaEventView::Unchanged { head_sha } ==> can_shorten(head_sha) && byte_len(
            head_sha,
        ) >= 7
    }
}

/// A report of failure.
pub open spec fn failed_with(report: AgentStatusView, detail: Seq<char>) -> AgentStatusView {
    AgentStatusView { status: WorkflowStatusView::Failure, detail, ..report }
}

/// The report after something happened.
pub open spec fn xoa_report(report: AgentStatusView, event: XoaEventView) -> AgentStatusView {
    match event {
        XoaEventView::Entered { phase } => AgentStatusView {
            phase: phase.name_text(),
            detail: match phase {
                Phase::TriggerWorkflow => "Dispatching xoa-hl GitHub Actions workflow"@,
                Phase::RunPacker => "Running packer validate + build"@,
                _ => report.detail,
            },
            ..report
        },
        XoaEventView::Unchanged { head_sha } => AgentStatusView {
            status: WorkflowStatusView::Skipped,
            detail: "No changes (SHA: "@ + short_sha_text(head_sha) + ")"@,
            ..report
        },
        XoaEventView::AlreadyPublished { tag, url, short_sha } => AgentStatusView {
            status: WorkflowStatusView::Skipped,
            detail: "Image "@ + tag + " already published (SHA: "@ + short_sha + ")"@,
            ..report
        }.with_component("xoa-hl"@, WorkflowStatusView::Skipped, Seq::empty()).with_component(
            "xoa-image"@,
            WorkflowStatusView::Success,
            url,
        ),
        XoaEventView::PackageCurrent { url } => report.with_component(
            "xoa-hl"@,
            WorkflowStatusView::Skipped,
            url,
        ),
        XoaEventView::DispatchFailed { message } => failed_with(
            report,
            "Workflow dispatch failed: "@ + message,
        ).with_component("xoa-hl"@, WorkflowStatusView::Failure, Seq::empty()),
        XoaEventView::WorkflowRunning { url } => AgentStatusView {
            url,
            detail: "Waiting for workflow: "@ + url,
            ..report
        }.with_component("xoa-hl"@, WorkflowStatusView::InProgress, url),
        XoaEventView::WorkflowSucceeded { url } => report.with_component(
            "xoa-hl"@,
            WorkflowStatusView::Success,
            url,
        ),
        XoaEventView::WorkflowFailed { message, url } => failed_with(
            report,
            "Workflow failed: "@ + message,
        ).with_component("xoa-hl"@, WorkflowStatusView::Failure, url),
        XoaEventView::StageFailed { stage, message } => failed_with(
            report,
            stage.failure_text() + message,
        ),
        XoaEventView::ReleaseFailed { message } => failed_with(
            report,
            "Release creation failed: "@ + message,
        ).with_component("xoa-image"@, WorkflowStatusView::Failure, Seq::empty()),
        XoaEventView::Uploading { url } => report.with_component(
            "xoa-image"@,
            WorkflowStatusView::InProgress,
            url,
        ),
        XoaEventView::UploadFailed { message, url } => failed_with(
            report,
            "Asset upload failed: "@ + message,
        ).with_component("xoa-image"@, WorkflowStatusView::Failure, url),
        XoaEventView::Uploaded { url } => report.with_component(
            "xoa-image"@,
            WorkflowStatusView::Success,
            url,
        ),
    }
}

fn fail_report(report: &mut AgentStatus, detail: String)
    ensures
        final(report)@ == failed_with(old(report)@, detail@),
{
    report.status = WorkflowStatus::Failure;
    report.detail = detail;
}

/// Reports what happened.
pub fn report(report: &mut AgentStatus, event: &XoaEvent)
    requires
        event@.well_formed(),
    ensures
        final(report)@ == xoa_report(old(report)@, event@),
{
    proof {
        reveal_strlit("");
    }
    assert(""@ =~= Seq::<char>::empty());
    match event {
        XoaEvent::Entered { phase } => {
            report.phase = phase.name().to_string();
            match phase {
                Phase::TriggerWorkflow => {
                    report.detail = "Dispatching xoa-hl GitHub Actions workflow".to_string();
                },
                Phase::RunPacker => {
                    report.detail = "Running packer validate + build".to_string();
                },
                _ => {},
            }
        },
        XoaEvent::Unchanged { head_sha } => {
            report.status = WorkflowStatus::Skipped;
            report.detail = "No changes (SHA: ".to_string().concat(
                &tags::short_sha(head_sha),
            ).concat(")");
        },
        XoaEvent::AlreadyPublished { tag, url, short_sha } => {
            report.status = WorkflowStatus::Skipped;
            report.detail = "Image ".to_string().concat(tag).concat(
                " already published (SHA: ",
            ).concat(short_sha).concat(")");
            report.set_component("xoa-hl", WorkflowStatus::Skipped, "");
            report.set_component("xoa-image", WorkflowStatus::Success, url);
        },
        XoaEvent::PackageCurrent { url } => {
            report.set_component("xoa-hl", WorkflowStatus::Skipped, url);
        },
        XoaEvent::DispatchFailed { message } => {
            fail_report(report, "Workflow dispatch failed: ".to_string().concat(message));
            report.set_component("xoa-hl", WorkflowStatus::Failure, "");
        },
        XoaEvent::WorkflowRunning { url } => {
            report.url = url.clone();
            report.detail = "Waiting for workflow: ".to_string().concat(url);
            report.set_component("xoa-hl", WorkflowStatus::InProgress, url);
        },
        XoaEvent::WorkflowSucceeded { url } => {
            report.set_component("xoa-hl", WorkflowStatus::Success, url);
        },
        XoaEvent::WorkflowFailed { message, url } => {
            fail_report(report, "Workflow failed: ".to_string().concat(message));
            report.set_component("xoa-hl", WorkflowStatus::Failure, url);
        },
        XoaEvent::StageFailed { stage, message } => {
            fail_report(report, stage.failure().to_string().concat(message));
        },
        XoaEvent::ReleaseFailed { message } => {
            fail_report(report, "Release creation failed: ".to_string().concat(message));
            report.set_component("xoa-image", WorkflowStatus::Failure, "");
        },
        XoaEvent::Uploading { url } => {
            report.set_component("xoa-image", WorkflowStatus::InProgress, url);
        },
        XoaEvent::UploadFailed { message, url } => {
            fail_report(report, "Asset upload failed: ".to_string().concat(message));
            report.set_component("xoa-image", WorkflowStatus::Failure, url);
        },
        XoaEvent::Uploaded { url } => {
            report.set_component("xoa-image", WorkflowStatus::Success, url);
        },
    }
}

/// The report of a run that published an image, at a moment.
pub open spec fn finished_report(
    report: AgentStatusView,
    tag: Seq<char>,
    xva_path: Seq<char>,
    now: Timestamp,
) -> AgentStatusView {
    AgentStatusView {
        phase: "phase_11_finalize"@,
        status: WorkflowStatusView::Success,
        detail: "Build complete. Tag: "@ + tag + ". XVA: "@ + xva_path,
        timestamp: now,
        ..report
    }
}

/// Reports that a run published an image, as of now.
pub fn report_finished(report: &mut AgentStatus, tag: &str, xva_path: &str)
    ensures
        exists|now: Timestamp|
            #[trigger] now.in_calendar() && final(report)@ == finished_report(
                old(report)@,
                tag@,
                xva_path@,
                now,
            ),
{
    let now = clock::utc_now();
    report.phase = "phase_11_finalize".to_string();
    report.status = WorkflowStatus::Success;
    report.detail = "Build complete. Tag: ".to_string().concat(tag).concat(". XVA: ").concat(
        xva_path,
    );
    report.timestamp = now;
    assert(report@ == finished_report(old(report)@, tag@, xva_path@, now));
}

/// Where the state alone says that the image of a commit is published, the run
/// is over: reports that. Whether it is so.
pub fn conclude_unchanged(
    state: &XoaHlVersionState,
    head_sha: &str,
    status: &mut AgentStatus,
) -> (done: bool)
    requires
        state@.is_up_to_date(head_sha@) ==> can_shorten(head_sha@) && byte_len(head_sha@) >= 7,
    ensures
        done == state@.is_up_to_date(head_sha@),
        final(status)@ == (if done {
            xoa_report(old(status)@, XoaEventView::Unchanged { head_sha: head_sha@ })
        } else {
            old(status)@
        }),
{
    if state.is_up_to_date(head_sha) {
        report(status, &XoaEvent::Unchanged { head_sha: head_sha.to_string() });
        true
    } else {
        false
    }
}

/// Where the releases say that the image of a commit is published, the run is
/// over: reports that, and remembers the image. What is published otherwise.
pub fn conclude_published(
    state: &mut XoaHlVersionState,
    releases: &Vec<ReleaseInfo>,
    head_sha: &str,
    status: &mut AgentStatus,
) -> (found: Published)
    requires
        can_shorten(head_sha@),
    ensures
        found@ == published_for(releases.deep_view(), short_sha_text(head_sha@)),
        match found@ {
            PublishedView::Image { tag, url } => {
                &&& final(status)@ == xoa_report(
                    old(status)@,
                    XoaEventView::AlreadyPublished {
                        tag,
                        url,
                        short_sha: short_sha_text(head_sha@),
                    },
                )
                &&& exists|now: Timestamp|
                    #[trigger] now.in_calendar() && final(state)@ == old(state)@.published(
                        head_sha@,
                        tag,
                        now,
                    )
            },
            _ => final(status)@ == old(status)@ && final(state)@ == old(state)@,
        },
{
    let short = tags::short_sha(head_sha);
    let found = find_published(releases, &short);
    if let Published::Image { tag, url } = &found {
        state.record(head_sha, tag);
        report(
            status,
            &XoaEvent::AlreadyPublished { tag: tag.clone(), url: url.clone(), short_sha: short },
        );
    }
    found
}

// ── The workflow on GitHub ─────────────────────────────────────────────────

/// Where the workflow that builds the package is started.
pub open spec fn workflow_url_text() -> Seq<char> {
    "https://api.github.com/repos/"@ + XOA_HL_REPO@ + "/actions/workflows/"@
        + XOA_HL_WORKFLOW_FILE@ + "/dispatches"@
}

/// Where the workflow that builds the package is started.
pub fn workflow_url() -> (text: String)
    ensures
        text@ == workflow_url_text(),
{
    "https://api.github.com/repos/".to_string()
        .concat(XOA_HL_REPO)
        .concat("/actions/workflows/")
        .concat(XOA_HL_WORKFLOW_FILE)
        .concat("/dispatches")
}

/// A number of whole seconds, as a duration is written: none at all in
/// nanoseconds.
pub open spec fn seconds_text(secs: u64) -> Seq<char> {
    if secs == 0 {
        "0ns"@
    } else {
        decimal(secs as nat) + "s"@
    }
}

fn write_seconds(secs: u64) -> (t: String)
    ensures
        t@ == seconds_text(secs),
{
    if secs == 0 {
        "0ns".to_string()
    } else {
        text::decimal_of(secs).concat("s")
    }
}

/// The watch over the workflow.
#[derive(Debug)]
pub struct WorkflowWait {
    pub run_url: String,
    pub timeout_secs: u64,
    pub poll_failures: u32,
}

/// What a [`WorkflowWait`] holds.
pub struct WorkflowWaitView {
    pub run_url: Seq<char>,
    pub timeout_secs: u64,
    pub poll_failures: u32,
}

impl View for WorkflowWait {
    type V = WorkflowWaitView;

    open spec fn view(&self) -> WorkflowWaitView {
        WorkflowWaitView {
            run_url: self.run_url@,
            timeout_secs: self.timeout_secs,
            poll_failures: self.poll_failures,
        }
    }
}

/// What a poll of the workflow means.
#[derive(Debug)]
pub enum WaitStep {
    /// It is still running, or the poll failed: look again.
    Continue,
    Succeeded,
    /// The watch ends: what failed, and the error of the last poll if that is why.
    Failed { message: String, cause: Option<OrchestratorError> },
}

/// What a [`WaitStep`] says.
pub enum WaitStepView {
    Continue,
    Succeeded,
    Failed { message: Seq<char>, cause: Option<OrchestratorErrorView> },
}

impl View for WaitStep {
    type V = WaitStepView;

    open spec fn view(&self) -> WaitStepView {
        match self {
            WaitStep::Continue => WaitStepView::Continue,
            WaitStep::Succeeded => WaitStepView::Succeeded,
            WaitStep::Failed { message, cause } => WaitStepView::Failed {
                message: message@,
                cause: match cause {
                    Some(e) => Some(e@),
                    None => None,
                },
            },
        }
    }
}

impl WorkflowWaitView {
    /// The watch is not given up yet.
    pub open spec fn well_formed(self) -> bool {
        self.poll_failures < MAX_CONSECUTIVE_POLL_FAILURES
    }

    /// After so many nanoseconds the watch took too long.
    pub open spec fn is_over(self, elapsed_nanos: u128) -> bool {
        elapsed_nanos > self.timeout_secs * 1_000_000_000
    }

    /// What is said once the watch took too long.
    pub open spec fn timeout_text(self) -> Seq<char> {
        "Timed out after "@ + seconds_text(self.timeout_secs)
            + " waiting for xoa-hl workflow ("@ + self.run_url + ")"@
    }

    /// What a poll means.
    pub open spec fn step(self, reply: Result<Seq<char>, OrchestratorErrorView>) -> WaitStepView {
        match reply {
            Ok(conclusion) => if conclusion == "success"@ || conclusion == "Success"@ {
                WaitStepView::Succeeded
            } else if conclusion == "In Progress"@ {
                WaitStepView::Continue
            } else {
                WaitStepView::Failed {
                    message: "xoa-hl workflow ended with '"@ + conclusion + "' ("@ + self.run_url
                        + ")"@,
                    cause: None,
                }
            },
            Err(e) => if self.poll_failures + 1 >= MAX_CONSECUTIVE_POLL_FAILURES {
                WaitStepView::Failed {
                    message: "Failed to query workflow conclusion"@,
                    cause: Some(e),
                }
            } else {
                WaitStepView::Continue
            },
        }
    }

    /// The watch after a poll.
    pub open spec fn polled(self, reply: Result<Seq<char>, OrchestratorErrorView>) -> WorkflowWaitView {
        WorkflowWaitView {
            poll_failures: if reply is Ok {
                0
            } else {
                (self.poll_failures + 1) as u32
            },
            ..self
        }
    }
}

impl WorkflowWait {
    /// The watch over a run, for so many seconds at most.
    pub fn new(run_url: &str, timeout_secs: u64) -> (wait: Self)
        ensures
            wait@ == (WorkflowWaitView { run_url: run_url@, timeout_secs, poll_failures: 0 }),
            wait@.well_formed(),
    {
        WorkflowWait { run_url: run_url.to_string(), timeout_secs, poll_failures: 0 }
    }

    /// How many seconds to wait before the next look, after so many nanoseconds;
    /// an error once the watch took too long.
    pub fn next_look(&self, elapsed_nanos: u128) -> (r: Result<u64, String>)
        ensures
            match r {
                Ok(secs) => !self@.is_over(elapsed_nanos) && secs == WORKFLOW_POLL_SECS,
                Err(m) => self@.is_over(elapsed_nanos) && m@ == self@.timeout_text(),
            },
    {
        if elapsed_nanos > self.timeout_secs as u128 * 1_000_000_000 {
            Err(
                "Timed out after ".to_string()
                    .concat(&write_seconds(self.timeout_secs))
                    .concat(" waiting for xoa-hl workflow (")
                    .concat(&self.run_url)
                    .concat(")"),
            )
        } else {
            Ok(WORKFLOW_POLL_SECS)
        }
    }

    /// Takes in what a poll brought.
    pub fn polled(&mut self, reply: Result<String, OrchestratorError>) -> (step: WaitStep)
        requires
            old(self)@.well_formed(),
        ensures
            step@ == old(self)@.step(outcome(reply)),
            final(self)@ == old(self)@.polled(outcome(reply)),
            step is Continue ==> final(self)@.well_formed(),
    {
        match reply {
            Ok(conclusion) => {
                self.poll_failures = 0;
                if text::same(&conclusion, "success") || text::same(&conclusion, "Success") {
                    WaitStep::Succeeded
                } else if text::same(&conclusion, "In Progress") {
                    WaitStep::Continue
                } else {
                    WaitStep::Failed {
                        message: "xoa-hl workflow ended with '".to_string()
                            .concat(&conclusion)
                            .concat("' (")
                            .concat(&self.run_url)
                            .concat(")"),
                        cause: None,
                    }
                }
            },
            Err(e) => {
                self.poll_failures = self.poll_failures + 1;
                if self.poll_failures >= MAX_CONSECUTIVE_POLL_FAILURES {
                    WaitStep::Failed {
                        message: "Failed to query workflow conclusion".to_string(),
                        cause: Some(e),
                    }
                } else {
                    WaitStep::Continue
                }
            },
        }
    }
}

// ── Prerequisites ──────────────────────────────────────────────────────────

/// What the version check of Packer means.
pub open spec fn version_check(success: bool, stderr: Seq<char>) -> Result<(), Seq<char>> {
    if success {
        Ok(())
    } else {
        Err("Packer version check failed: "@ + stderr)
    }
}

/// What the version check of Packer means.
pub fn check_packer_version(success: bool, stderr: &[u8]) -> (r: Result<(), String>)
    ensures
        checked(r) == version_check(success, lossy_text(stderr@)),
{
    if success {
        Ok(())
    } else {
        Err("Packer version check failed: ".to_string().concat(&encoding::utf8_lossy(stderr)))
    }
}

/// What is said where the plugin for the hypervisor is missing.
pub const PLUGIN_MISSING: &'static str =
    "XCP-ng Packer plugin not installed.\nRun: packer plugins install github.com/ddelnano/xenserver";

/// The list of installed plugins has the one for the hypervisor.
pub open spec fn plugin_check(list: Seq<char>) -> Result<(), Seq<char>> {
    if has_text(list, "xenserver"@) {
        Ok(())
    } else {
        Err(PLUGIN_MISSING@)
    }
}

/// Whether the list of installed plugins has the one for the hypervisor.
pub fn check_plugin_list(list: &str) -> (r: Result<(), String>)
    ensures
        checked(r) == plugin_check(list@),
{
    if text::contains(list, "xenserver") {
        Ok(())
    } else {
        Err(PLUGIN_MISSING.to_string())
    }
}

/// Whether what Packer printed lists the plugin for the hypervisor.
pub fn check_plugins(stdout: &[u8]) -> (r: Result<(), String>)
    ensures
        checked(r) == plugin_check(lossy_text(stdout@)),
{
    check_plugin_list(&encoding::utf8_lossy(stdout))
}

/// The free kilobytes that `df` reports: the fourth column of its second line.
/// What is not a number counts as none; `None` if there is no such column.
pub open spec fn free_kilobytes(report: Seq<char>) -> Option<nat> {
    let lines = text_lines(report);
    if lines.len() < 2 || text_words(lines[1]).len() < 4 {
        None
    } else {
        match number(text_words(lines[1])[3], u64::MAX as nat) {
            Some(n) => Some(n),
            None => Some(0),
        }
    }
}

/// The free bytes fit in 64 bits.
pub open spec fn is_plausible_disk(report: Seq<char>) -> bool {
    match free_kilobytes(report) {
        Some(kb) => kb * 1024 <= u64::MAX,
        None => true,
    }
}

/// There is enough free space, as far as is reported.
pub open spec fn disk_check(report: Seq<char>) -> Result<(), Seq<char>> {
    match free_kilobytes(report) {
        Some(kb) => if kb * 1024 < REQUIRED_DISK_SPACE_BYTES {
            Err(
                "Insufficient disk space — required "@ + decimal(100) + "GB, have "@
                    + decimal(kb * 1024 / 1073741824) + "GB"@,
            )
        } else {
            Ok(())
        },
        None => Ok(()),
    }
}

fn read_free_kilobytes(report: &str) -> (kb: Option<u64>)
    ensures
        match kb {
            Some(n) => free_kilobytes(report@) == Some(n as nat),
            None => free_kilobytes(report@) is None,
        },
{
    let lines = text::lines(report);
    if lines.len() < 2 {
        return None;
    }
    assert(lines.deep_view()[1] == lines@[1]@);
    let words = text::words(&lines[1]);
    if words.len() < 4 {
        return None;
    }
    assert(words.deep_view()[3] == words@[3]@);
    match text::parse_u64(&words[3]) {
        Some(n) => Some(n),
        None => Some(0),
    }
}

/// Whether there is enough free space, as far as is reported.
pub fn check_disk_report(report: &str) -> (r: Result<(), String>)
    requires
        is_plausible_disk(report@),
    ensures
        checked(r) == disk_check(report@),
{
    if let Some(kb) = read_free_kilobytes(report) {
        let bytes: u64 = kb * 1024;
        if bytes < REQUIRED_DISK_SPACE_BYTES {
            let required: u64 = REQUIRED_DISK_SPACE_BYTES / 1073741824;
            let free: u64 = bytes / 1073741824;
            return Err(
                "Insufficient disk space — required ".to_string()
                    .concat(&text::decimal_of(required))
                    .concat("GB, have ")
                    .concat(&text::decimal_of(free))
                    .concat("GB"),
            );
        }
    }
    Ok(())
}

/// Whether there is enough free space, from what `df` printed; `None` if it
/// reports more than can be counted.
pub fn check_disk(stdout: &[u8]) -> (r: Option<Result<(), String>>)
    ensures
        match r {
            Some(checked_disk) => is_plausible_disk(lossy_text(stdout@)) && checked(checked_disk)
                == disk_check(lossy_text(stdout@)),
            None => !is_plausible_disk(lossy_text(stdout@)),
        },
{
    let report = encoding::utf8_lossy(stdout);
    if let Some(kb) = read_free_kilobytes(&report) {
        if kb > u64::MAX / 1024 {
            return None;
        }
    }
    Some(check_disk_report(&report))
}

/// The ports that Packer may serve the kickstart file on. All have to be free.
pub open spec fn port_list() -> Seq<u16> {
    seq![8000, 8001, 8002, 8003, 8004, 8005, 8006, 8007, 8008, 8009, 9000]
}

/// The ports that Packer may serve the kickstart file on.
pub fn required_ports() -> (ports: Vec<u16>)
    ensures
        ports@ == port_list(),
{
    let ports: Vec<u16> = vec![8000, 8001, 8002, 8003, 8004, 8005, 8006, 8007, 8008, 8009, 9000];
    assert(ports@ =~= port_list());
    ports
}

/// Numbers as they are written in a list.
pub open spec fn decimals(ports: Seq<u16>) -> Seq<Seq<char>> {
    ports.map_values(|port: u16| decimal(port as nat))
}

/// No port is taken by another program.
pub open spec fn port_check(blocked: Seq<u16>) -> Result<(), Seq<char>> {
    if blocked.len() == 0 {
        Ok(())
    } else {
        Err(
            "Required ports already in use: ["@ + joined(decimals(blocked), ", "@)
                + "]\nPacker needs these free for its kickstart HTTP server."@,
        )
    }
}

/// Whether every port could be had, given those that could not.
pub fn check_ports(blocked: &Vec<u16>) -> (r: Result<(), String>)
    ensures
        checked(r) == port_check(blocked@),
{
    if blocked.len() == 0 {
        return Ok(());
    }
    let mut written: Vec<String> = Vec::new();
    for i in 0..blocked.len()
        invariant
            written.deep_view() =~= decimals(blocked@.take(i as int)),
    {
        let ghost before = written.deep_view();
        written.push(text::decimal_of(blocked[i] as u64));
        assert(written.deep_view() =~= before.push(decimal(blocked@[i as int] as nat)));
    }
    assert(blocked@.take(blocked@.len() as int) =~= blocked@);
    Err(
        "Required ports already in use: [".to_string()
            .concat(&text::join(&written, ", "))
            .concat("]\nPacker needs these free for its kickstart HTTP server."),
    )
}

/// What the machine needs before a build, in the order in which it is checked.
#[derive(Clone, Copy, Debug, PartialEq, Eq, Structural)]
pub enum Prerequisite {
    PackerVersion,
    Plugin,
    DiskSpace,
    Ports,
}

impl Prerequisite {
    /// What is checked next.
    pub open spec fn followed_by(self) -> Option<Prerequisite> {
        match self {
            Prerequisite::PackerVersion => Some(Prerequisite::Plugin),
            Prerequisite::Plugin => Some(Prerequisite::DiskSpace),
            Prerequisite::DiskSpace => Some(Prerequisite::Ports),
            Prerequisite::Ports => None,
        }
    }

    /// This is checked before another one.
    pub open spec fn comes_before(self, other: Prerequisite) -> bool {
        match other {
            Prerequisite::PackerVersion => false,
            Prerequisite::Plugin => self == Prerequisite::PackerVersion,
            Prerequisite::DiskSpace => self == Prerequisite::PackerVersion || self
                == Prerequisite::Plugin,
            Prerequisite::Ports => self != Prerequisite::Ports,
        }
    }

    fn next(self) -> (next: Option<Prerequisite>)
        ensures
            next == self.followed_by(),
    {
        match self {
            Prerequisite::PackerVersion => Some(Prerequisite::Plugin),
            Prerequisite::Plugin => Some(Prerequisite::DiskSpace),
            Prerequisite::DiskSpace => Some(Prerequisite::Ports),
            Prerequisite::Ports => None,
        }
    }
}

/// What a check found.
#[derive(Debug)]
pub enum Finding {
    /// How the version check of Packer ended, and what it complained of.
    PackerVersion { success: bool, stderr: Vec<u8> },
    /// The list of installed plugins.
    Plugin { stdout: Vec<u8> },
    /// What `df` printed.
    DiskSpace { stdout: Vec<u8> },
    /// The ports that could not be had.
    Ports { blocked: Vec<u16> },
}

/// What a [`Finding`] says.
pub enum FindingView {
    PackerVersion { success: bool, stderr: Seq<u8> },
    Plugin { stdout: Seq<u8> },
    DiskSpace { stdout: Seq<u8> },
    Ports { blocked: Seq<u16> },
}

impl View for Finding {
    type V = FindingView;

    open spec fn view(&self) -> FindingView {
        match self {
            Finding::PackerVersion { success, stderr } => FindingView::PackerVersion {
                success: *success,
                stderr: stderr@,
            },
            Finding::Plugin { stdout } => FindingView::Plugin { stdout: stdout@ },
            Finding::DiskSpace { stdout } => FindingView::DiskSpace { stdout: stdout@ },
            Finding::Ports { blocked } => FindingView::Ports { blocked: blocked@ },
        }
    }
}

impl FindingView {
    /// What was checked.
    pub open spec fn subject(self) -> Prerequisite {
        match self {
            FindingView::PackerVersion { .. } => Prerequisite::PackerVersion,
            FindingView::Plugin { .. } => Prerequisite::Plugin,
            FindingView::DiskSpace { .. } => Prerequisite::DiskSpace,
            FindingView::Ports { .. } => Prerequisite::Ports,
        }
    }

    /// What the finding means; `None` if more free space is reported than can be
    /// counted.
    pub open spec fn verdict(self) -> Option<Result<(), Seq<char>>> {
        match self {
            FindingView::PackerVersion { success, stderr } => Some(
                version_check(success, lossy_text(stderr)),
            ),
            FindingView::Plugin { stdout } => Some(plugin_check(lossy_text(stdout))),
            FindingView::DiskSpace { stdout } => if is_plausible_disk(lossy_text(stdout)) {
                Some(disk_check(lossy_text(stdout)))
            } else {
                None
            },
            FindingView::Ports { blocked } => Some(port_check(blocked)),
        }
    }

    /// The machine has what was checked.
    pub open spec fn holds(self) -> bool {
        self.verdict() == Some(Ok::<(), Seq<char>>(()))
    }
}

impl Finding {
    fn subject(&self) -> (check: Prerequisite)
        ensures
            check == self@.subject(),
    {
        match self {
            Finding::PackerVersion { .. } => Prerequisite::PackerVersion,
            Finding::Plugin { .. } => Prerequisite::Plugin,
            Finding::DiskSpace { .. } => Prerequisite::DiskSpace,
            Finding::Ports { .. } => Prerequisite::Ports,
        }
    }

    fn verdict(&self) -> (r: Option<Result<(), String>>)
        ensures
            match r {
                Some(checked_one) => self@.verdict() == Some(checked(checked_one)),
                None => self@.verdict() is None,
            },
    {
        match self {
            Finding::PackerVersion { success, stderr } => Some(
                check_packer_version(*success, stderr.as_slice()),
            ),
            Finding::Plugin { stdout } => Some(check_plugins(stdout.as_slice())),
            Finding::DiskSpace { stdout } => check_disk(stdout.as_slice()),
            Finding::Ports { blocked } => Some(check_ports(blocked)),
        }
    }
}

/// How far the checks of the machine are.
#[derive(Debug)]
pub enum Readiness {
    /// This is checked next.
    Check(Prerequisite),
    /// The machine has everything.
    Ready,
    /// Something is missing.
    NotReady(String),
    /// More free space is reported than can be counted.
    Uncountable,
}

/// What a [`Readiness`] says.
pub enum ReadinessView {
    Check(Prerequisite),
    Ready,
    NotReady(Seq<char>),
    Uncountable,
}

impl View for Readiness {
    type V = ReadinessView;

    open spec fn view(&self) -> ReadinessView {
        match self {
            Readiness::Check(check) => ReadinessView::Check(*check),
            Readiness::Ready => ReadinessView::Ready,
            Readiness::NotReady(m) => ReadinessView::NotReady(m@),
            Readiness::Uncountable => ReadinessView::Uncountable,
        }
    }
}

impl ReadinessView {
    /// How far the checks are after a finding. What was not asked for does not
    /// count.
    pub open spec fn after(self, finding: FindingView) -> ReadinessView {
        if self != ReadinessView::Check(finding.subject()) {
            self
        } else {
            match finding.verdict() {
                Some(Ok(())) => match finding.subject().followed_by() {
                    Some(check) => ReadinessView::Check(check),
                    None => ReadinessView::Ready,
                },
                Some(Err(m)) => ReadinessView::NotReady(m),
                None => ReadinessView::Uncountable,
            }
        }
    }
}

/// How far the checks are after the findings so far.
pub open spec fn readiness_after(findings: Seq<FindingView>) -> ReadinessView
    decreases findings.len(),
{
    if findings.len() == 0 {
        ReadinessView::Check(Prerequisite::PackerVersion)
    } else {
        readiness_after(findings.drop_last()).after(findings.last())
    }
}

impl Readiness {
    /// Nothing is checked yet.
    pub fn start() -> (readiness: Readiness)
        ensures
            readiness@ == readiness_after(Seq::empty()),
    {
        Readiness::Check(Prerequisite::PackerVersion)
    }

    /// Takes a finding in: what is checked next, or the end of the checks.
    pub fn after(self, finding: Finding) -> (next: Readiness)
        ensures
            next@ == self@.after(finding@),
    {
        let subject = finding.subject();
        match self {
            Readiness::Check(check) if check == subject => match finding.verdict() {
                Some(Ok(())) => match subject.next() {
                    Some(check) => Readiness::Check(check),
                    None => Readiness::Ready,
                },
                Some(Err(m)) => Readiness::NotReady(m),
                None => Readiness::Uncountable,
            },
            other => other,
        }
    }
}

// ── Scripts for the image ──────────────────────────────────────────────────

/// A call of Git that brings the scripts up to date.
#[derive(Clone, Copy, Debug, PartialEq, Eq, Structural)]
pub enum GitStep {
    Clone,
    Fetch,
    Reset,
}

/// How `std` writes the exit code of a program.
pub open spec fn exit_code_text(code: Option<i32>) -> Seq<char> {
    match code {
        Some(n) => "Some("@ + signed_decimal(n as int) + ")"@,
        None => "None"@,
    }
}

fn write_exit_code(code: Option<i32>) -> (t: String)
    ensures
        t@ == exit_code_text(code),
{
    match code {
        Some(n) => "Some(".to_string().concat(&text::signed_decimal_of(n)).concat(")"),
        None => "None".to_string(),
    }
}

impl GitStep {
    /// The first call, given whether the scripts were fetched before.
    pub open spec fn first_step(repo_exists: bool) -> GitStep {
        if repo_exists {
            GitStep::Fetch
        } else {
            GitStep::Clone
        }
    }

    /// The call to make after this one succeeded.
    pub open spec fn followed_by(self) -> Option<GitStep> {
        match self {
            GitStep::Fetch => Some(GitStep::Reset),
            GitStep::Clone | GitStep::Reset => None,
        }
    }

    /// What the end of the call means.
    pub open spec fn check(self, success: bool, code: Option<i32>) -> Result<(), Seq<char>> {
        if success {
            Ok(())
        } else {
            Err("git "@ + self.command_text() + " exited with "@ + exit_code_text(code))
        }
    }

    /// The command of the call.
    pub open spec fn command_text(self) -> Seq<char> {
        match self {
            GitStep::Clone => "clone"@,
            GitStep::Fetch => "fetch"@,
            GitStep::Reset => "reset"@,
        }
    }

    /// The arguments of the call.
    pub open spec fn arg_texts(self) -> Seq<Seq<char>> {
        match self {
            GitStep::Clone => seq![
                "clone"@,
                "https://github.com/"@ + BUILD_XOA_HL_REPO@,
                REPO_DIR@,
            ],
            GitStep::Fetch => seq!["fetch"@],
            GitStep::Reset => seq!["reset"@, "--hard"@, "origin/main"@],
        }
    }

    /// The command of the call.
    pub fn command(self) -> (name: &'static str)
        ensures
            name@ == self.command_text(),
    {
        match self {
            GitStep::Clone => "clone",
            GitStep::Fetch => "fetch",
            GitStep::Reset => "reset",
        }
    }

    /// The arguments of the call.
    pub fn args(self) -> (args: Vec<String>)
        ensures
            args.deep_view() == self.arg_texts(),
    {
        let args = match self {
            GitStep::Clone => vec![
                "clone".to_string(),
                "https://github.com/".to_string().concat(BUILD_XOA_HL_REPO),
                REPO_DIR.to_string(),
            ],
            GitStep::Fetch => vec!["fetch".to_string()],
            GitStep::Reset => vec![
                "reset".to_string(),
                "--hard".to_string(),
                "origin/main".to_string(),
            ],
        };
        assert(args.deep_view() =~= self.arg_texts());
        args
    }

    /// Whether the call is made inside the directory of the scripts.
    pub fn runs_in_repo(self) -> (yes: bool)
        ensures
            yes == (self != GitStep::Clone),
    {
        match self {
            GitStep::Clone => false,
            _ => true,
        }
    }

    /// What is said of a call that could not be made.
    pub fn not_run(self) -> (message: String)
        ensures
            message@ == "git "@ + self.command_text() + " failed"@,
    {
        "git ".to_string().concat(self.command()).concat(" failed")
    }

    /// What the end of the call means.
    pub fn result(self, success: bool, code: Option<i32>) -> (r: Result<(), String>)
        ensures
            checked(r) == self.check(success, code),
    {
        if success {
            Ok(())
        } else {
            Err(
                "git ".to_string().concat(self.command()).concat(" exited with ").concat(
                    &write_exit_code(code),
                ),
            )
        }
    }

    /// The first call that brings the scripts up to date.
    pub fn first(repo_exists: bool) -> (step: GitStep)
        ensures
            step == GitStep::first_step(repo_exists),
    {
        if repo_exists {
            GitStep::Fetch
        } else {
            GitStep::Clone
        }
    }

    /// The call to make after this one ended; none after a clone or a reset. The
    /// reset is made only after a fetch that succeeded.
    pub fn next(self, success: bool, code: Option<i32>) -> (r: Result<Option<GitStep>, String>)
        ensures
            match r {
                Ok(step) => success && step == self.followed_by(),
                Err(m) => !success && Err::<(), Seq<char>>(m@) == self.check(success, code),
            },
    {
        match self.result(success, code) {
            Ok(()) => match self {
                GitStep::Fetch => Ok(Some(GitStep::Reset)),
                _ => Ok(None),
            },
            Err(m) => Err(m),
        }
    }
}

// ── What the build needs ───────────────────────────────────────────────────

/// The configuration with the passwords, from the files that hold them.
pub fn set_passwords(config: &mut BuildConfig, xcpng_password: &str, root_password: &str)
    ensures
        final(config)@ == (BuildConfigView {
            xcpng_password: trimmed(xcpng_password@),
            almalinux_root_password: trimmed(root_password@),
            ..old(config)@
        }),
{
    config.xcpng_password = text::trim(xcpng_password);
    config.almalinux_root_password = text::trim(root_password);
}

/// The hash that a line of a BSD-style list, `SHA256 (file) = hash`, gives for
/// the medium.
pub open spec fn bsd_hash(line: Seq<char>) -> Option<Seq<char>> {
    let words = text_words(line);
    if has_text(line, ISO_FILENAME@) && words.len() > 0 && byte_len(words.last()) == 64 && (
    forall|i: int| 0 <= i < words.last().len() ==> is_hex_digit(#[trigger] words.last()[i])) {
        Some(words.last())
    } else {
        None
    }
}

/// The hash that a line of a GNU-style list, `hash  file`, gives for the medium.
pub open spec fn gnu_hash(line: Seq<char>) -> Option<Seq<char>> {
    let words = text_words(line);
    if line.len() > 0 && is_hex_digit(line[0]) && has_text(line, ISO_FILENAME@) && words.len() > 0
        && byte_len(words[0]) == 64 {
        Some(words[0])
    } else {
        None
    }
}

/// The style of a checksum list.
#[derive(Clone, Copy, Debug, PartialEq, Eq, Structural)]
pub enum ListStyle {
    Bsd,
    Gnu,
}

/// The hash that a line of a list gives for the medium.
pub open spec fn line_hash(style: ListStyle, line: Seq<char>) -> Option<Seq<char>> {
    match style {
        ListStyle::Bsd => bsd_hash(line),
        ListStyle::Gnu => gnu_hash(line),
    }
}

/// The first hash that the lines of a list give for the medium.
pub open spec fn first_hash(style: ListStyle, lines: Seq<Seq<char>>) -> Option<Seq<char>>
    decreases lines.len(),
{
    if lines.len() == 0 {
        None
    } else {
        match line_hash(style, lines[0]) {
            Some(hash) => Some(hash),
            None => first_hash(style, lines.drop_first()),
        }
    }
}

/// The checksum of the medium, as Packer takes it, from a list.
pub open spec fn listed_checksum(style: ListStyle, list: Seq<char>) -> Option<Seq<char>> {
    match first_hash(style, text_lines(list)) {
        Some(hash) => Some("sha256:"@ + hash),
        None => None,
    }
}

fn all_hex(s: &str) -> (yes: bool)
    ensures
        yes == (forall|i: int| 0 <= i < s@.len() ==> is_hex_digit(#[trigger] s@[i])),
{
    let cs = text::chars_of(s);
    #[verifier::loop_isolation(false)]
    for i in 0..cs.len()
        invariant
            forall|j: int| 0 <= j < i ==> is_hex_digit(#[trigger] s@[j]),
    {
        if !text::hex_digit(cs[i]) {
            assert(!is_hex_digit(s@[i as int]));
            return false;
        }
    }
    true
}

fn hash_of_line(style: ListStyle, line: &str) -> (hash: Option<String>)
    ensures
        hash.deep_view() == line_hash(style, line@),
{
    if !text::contains(line, ISO_FILENAME) {
        return None;
    }
    let words = text::words(line);
    let n = words.len();
    if n == 0 {
        return None;
    }
    let ghost all = words.deep_view();
    match style {
        ListStyle::Bsd => {
            assert(all[n - 1] == words@[n - 1]@);
            if words[n - 1].as_str().as_bytes().len() == 64 && all_hex(&words[n - 1]) {
                Some(words[n - 1].clone())
            } else {
                None
            }
        },
        ListStyle::Gnu => {
            assert(all[0] == words@[0]@);
            let cs = text::chars_of(line);
            if cs.len() > 0 && text::hex_digit(cs[0]) && words[0].as_str().as_bytes().len() == 64 {
                Some(words[0].clone())
            } else {
                None
            }
        },
    }
}

/// The checksum of the medium, as Packer takes it, from a list in a style.
pub fn checksum_from_list(style: ListStyle, list: &str) -> (checksum: Option<String>)
    ensures
        checksum.deep_view() == listed_checksum(style, list@),
{
    let lines = text::lines(list);
    let ghost all = lines.deep_view();
    assert(all.skip(0) =~= all);
    let mut i: usize = 0;
    while i < lines.len()
        invariant
            i <= lines@.len(),
            all == lines.deep_view(),
            all == text_lines(list@),
            first_hash(style, all) == first_hash(style, all.skip(i as int)),
        decreases lines@.len() - i,
    {
        proof {
            assert(all.skip(i as int)[0] == lines@[i as int]@);
            assert(all.skip(i as int).drop_first() =~= all.skip(i + 1));
        }
        if let Some(hash) = hash_of_line(style, &lines[i]) {
            return Some("sha256:".to_string().concat(&hash));
        }
        i += 1;
    }
    None
}

/// The checksum of the medium from the lists that could be had, the BSD-style
/// one first.
pub open spec fn checksum_of(bsd: Option<Seq<char>>, gnu: Option<Seq<char>>) -> Result<
    Seq<char>,
    Seq<char>,
> {
    match (bsd, gnu) {
        (Some(list), _) if listed_checksum(ListStyle::Bsd, list) is Some => Ok(
            listed_checksum(ListStyle::Bsd, list)->0,
        ),
        (_, Some(list)) if listed_checksum(ListStyle::Gnu, list) is Some => Ok(
            listed_checksum(ListStyle::Gnu, list)->0,
        ),
        _ => Err("Could not resolve AlmaLinux ISO checksum from official sources"@),
    }
}

/// The checksum of the medium from the lists that could be had, the BSD-style
/// one first. The GNU-style one matters only where the first gives nothing.
pub fn resolve_checksum(bsd: &Option<String>, gnu: &Option<String>) -> (r: Result<String, String>)
    ensures
        crate::error::text_outcome(r) == checksum_of(bsd.deep_view(), gnu.deep_view()),
{
    if let Some(list) = bsd {
        if let Some(checksum) = checksum_from_list(ListStyle::Bsd, list) {
            return Ok(checksum);
        }
    }
    if let Some(list) = gnu {
        if let Some(checksum) = checksum_from_list(ListStyle::Gnu, list) {
            return Ok(checksum);
        }
    }
    Err("Could not resolve AlmaLinux ISO checksum from official sources".to_string())
}

/// The files of all releases, in order.
pub open spec fn all_assets(releases: Seq<ReleaseInfoView>) -> Seq<ReleaseAssetView>
    decreases releases.len(),
{
    if releases.len() == 0 {
        Seq::empty()
    } else {
        all_assets(releases.drop_last()) + releases.last().assets
    }
}

/// The position of the first package among some files; their number if there
/// is none.
pub open spec fn rpm_position(assets: Seq<ReleaseAssetView>) -> nat
    decreases assets.len(),
{
    if assets.len() == 0 || ".rpm"@.is_suffix_of(assets[0].name) {
        0
    } else {
        1 + rpm_position(assets.drop_first())
    }
}

/// Where the newest package is, given the releases, newest first.
pub open spec fn rpm_url_of(releases: Seq<ReleaseInfoView>) -> Result<Seq<char>, Seq<char>> {
    let assets = all_assets(releases);
    if rpm_position(assets) < assets.len() {
        Ok(assets[rpm_position(assets) as int].browser_download_url)
    } else {
        Err("No RPM asset found in recent xoa-hl releases"@)
    }
}

proof fn lemma_rpm_position(assets: Seq<ReleaseAssetView>, at: int)
    requires
        0 <= at <= assets.len(),
        at < assets.len() ==> ".rpm"@.is_suffix_of(assets[at].name),
        forall|i: int| 0 <= i < at ==> !".rpm"@.is_suffix_of((#[trigger] assets[i]).name),
    ensures
        rpm_position(assets) == at,
    decreases assets.len(),
{
    if assets.len() > 0 && at > 0 {
        assert(!".rpm"@.is_suffix_of(assets[0].name));
        let rest = assets.drop_first();
        assert forall|i: int| 0 <= i < at - 1 implies !".rpm"@.is_suffix_of(
            (#[trigger] rest[i]).name,
        ) by {
            assert(rest[i] == assets[i + 1]);
        }
        lemma_rpm_position(rest, at - 1);
    }
}

proof fn lemma_assets_of_first(releases: Seq<ReleaseInfoView>, n: int)
    requires
        0 <= n <= releases.len(),
    ensures
        all_assets(releases.take(n)).is_prefix_of(all_assets(releases)),
    decreases releases.len() - n,
{
    if n == releases.len() {
        assert(releases.take(n) =~= releases);
    } else {
        lemma_assets_of_first(releases, n + 1);
        assert(releases.take(n + 1).drop_last() =~= releases.take(n));
        let next = all_assets(releases.take(n + 1));
        let now = all_assets(releases.take(n));
        assert(next.take(now.len() as int) =~= now);
        assert(all_assets(releases).take(now.len() as int) =~= now);
    }
}

/// Where the newest package is, given the releases, newest first. The newest
/// release of all may be an image, which has none.
pub fn resolve_rpm_url(releases: &Vec<ReleaseInfo>) -> (r: Result<String, String>)
    ensures
        crate::error::text_outcome(r) == rpm_url_of(releases.deep_view()),
{
    let ghost all = releases.deep_view();
    let ghost assets = all_assets(all);
    let ghost mut seen: int = 0;
    for i in 0..releases.len()
        invariant
            all == releases.deep_view(),
            assets == all_assets(all),
            seen == all_assets(all.take(i as int)).len(),
            0 <= seen <= assets.len(),
            forall|j: int| 0 <= j < seen ==> !".rpm"@.is_suffix_of((#[trigger] assets[j]).name),
    {
        let files = &releases[i].assets;
        let ghost before = seen;
        proof {
            lemma_assets_of_first(all, i + 1);
            assert(all.take(i + 1).drop_last() =~= all.take(i as int));
            assert(all[i as int] == releases@[i as int]@);
            assert(all.take(i + 1).last() == all[i as int]);
            let next = all_assets(all.take(i + 1));
            assert(next == all_assets(all.take(i as int)) + files.deep_view());
            assert forall|k: int| 0 <= k < files@.len() implies assets[before + k]
                == #[trigger] files@[k]@ by {
                assert(next[before + k] == files.deep_view()[k]);
                assert(assets.take(next.len() as int)[before + k] == assets[before + k]);
            }
        }
        for k in 0..files.len()
            invariant
                before + files@.len() <= assets.len(),
                0 <= before,
                assets == all_assets(all),
                all == releases.deep_view(),
                forall|m: int| 0 <= m < files@.len() ==> assets[before + m] == #[trigger] files@[m]@,
                forall|j: int|
                    0 <= j < before + k ==> !".rpm"@.is_suffix_of((#[trigger] assets[j]).name),
        {
            assert(assets[before + k] == files@[k as int]@);
            if text::ends_with(&files[k].name, ".rpm") {
                proof {
                    lemma_rpm_position(assets, before + k);
                }
                return Ok(files[k].browser_download_url.clone());
            }
        }
        proof {
            seen = before + files@.len();
        }
    }
    proof {
        assert(all.take(all.len() as int) =~= all);
        lemma_rpm_position(assets, seen);
    }
    Err("No RPM asset found in recent xoa-hl releases".to_string())
}

/// The scripts that are copied into the build, where they exist.
pub open spec fn script_texts() -> Seq<Seq<char>> {
    seq![
        "scripts/xoa-first-boot.sh"@,
        "scripts/xoa-credentials.sh"@,
        "systemd/xoa-first-boot.service"@,
        "systemd/xoa-credentials.service"@,
    ]
}

/// The scripts that are copied into the build, where they exist.
pub fn build_scripts() -> (scripts: Vec<String>)
    ensures
        scripts.deep_view() == script_texts(),
{
    let scripts = vec![
        "scripts/xoa-first-boot.sh".to_string(),
        "scripts/xoa-credentials.sh".to_string(),
        "systemd/xoa-first-boot.service".to_string(),
        "systemd/xoa-credentials.service".to_string(),
    ];
    assert(scripts.deep_view() =~= script_texts());
    scripts
}

// ── Packer ─────────────────────────────────────────────────────────────────

/// What the validation of the template means.
pub open spec fn template_check(success: bool, stderr: Seq<char>) -> Result<(), Seq<char>> {
    if success {
        Ok(())
    } else {
        Err("Packer validate failed:\n"@ + stderr)
    }
}

/// What the validation of the template means.
pub fn check_packer_template(success: bool, stderr: &[u8]) -> (r: Result<(), String>)
    ensures
        checked(r) == template_check(success, lossy_text(stderr@)),
{
    if success {
        Ok(())
    } else {
        Err("Packer validate failed:\n".to_string().concat(&encoding::utf8_lossy(stderr)))
    }
}

/// What becomes of the wait for Packer.
#[derive(Debug)]
pub enum PackerEvent {
    /// It ended.
    Exited { success: bool, code: Option<i32> },
    /// It could not be waited for.
    WaitFailed { message: String },
    /// The time for the wait is up.
    TimedOut,
}

/// What a [`PackerEvent`] says.
pub enum PackerEventView {
    Exited { success: bool, code: Option<i32> },
    WaitFailed { message: Seq<char> },
    TimedOut,
}

impl View for PackerEvent {
    type V = PackerEventView;

    open spec fn view(&self) -> PackerEventView {
        match self {
            PackerEvent::Exited { success, code } => PackerEventView::Exited {
                success: *success,
                code: *code,
            },
            PackerEvent::WaitFailed { message } => PackerEventView::WaitFailed {
                message: message@,
            },
            PackerEvent::TimedOut => PackerEventView::TimedOut,
        }
    }
}

/// What to do with Packer.
#[derive(Debug)]
pub enum PackerAction {
    Succeed,
    Fail(String),
    /// Ask it to end, and wait for that.
    Terminate,
    /// End it by force, then fail.
    KillAndFail(String),
}

/// What a [`PackerAction`] says.
pub enum PackerActionView {
    Succeed,
    Fail(Seq<char>),
    Terminate,
    KillAndFail(Seq<char>),
}

impl View for PackerAction {
    type V = PackerActionView;

    open spec fn view(&self) -> PackerActionView {
        match self {
            PackerAction::Succeed => PackerActionView::Succeed,
            PackerAction::Fail(m) => PackerActionView::Fail(m@),
            PackerAction::Terminate => PackerActionView::Terminate,
            PackerAction::KillAndFail(m) => PackerActionView::KillAndFail(m@),
        }
    }
}

/// The watch over Packer.
#[derive(Clone, Copy, Debug, PartialEq, Eq, Structural)]
pub enum PackerWatch {
    Building,
    /// It was asked to end.
    Terminating,
}

/// The watch over the build, which starts only after a good validation of the
/// template.
pub fn after_validate(success: bool, stderr: &[u8]) -> (r: Result<PackerWatch, String>)
    ensures
        match r {
            Ok(watch) => success && watch == PackerWatch::Building,
            Err(m) => !success && Err::<(), Seq<char>>(m@) == template_check(
                success,
                lossy_text(stderr@),
            ),
        },
{
    match check_packer_template(success, stderr) {
        Ok(()) => Ok(PackerWatch::Building),
        Err(m) => Err(m),
    }
}

/// What is said of a build that took too long.
pub open spec fn packer_timeout_text() -> Seq<char> {
    "Packer build timed out after "@ + seconds_text(PACKER_TIMEOUT_SECS)
}

impl PackerWatch {
    /// What to do after an event.
    pub open spec fn action(self, event: PackerEventView) -> PackerActionView {
        match self {
            PackerWatch::Building => match event {
                PackerEventView::Exited { success, code } => if success {
                    PackerActionView::Succeed
                } else {
                    PackerActionView::Fail(
                        "Packer build failed (exit code: "@ + exit_code_text(code) + ")"@,
                    )
                },
                PackerEventView::WaitFailed { message } => PackerActionView::Fail(
                    "Packer process error: "@ + message,
                ),
                PackerEventView::TimedOut => PackerActionView::Terminate,
            },
            PackerWatch::Terminating => match event {
                PackerEventView::TimedOut => PackerActionView::KillAndFail(packer_timeout_text()),
                _ => PackerActionView::Fail(packer_timeout_text()),
            },
        }
    }

    /// How long to wait, in seconds.
    pub fn patience(&self) -> (secs: u64)
        ensures
            secs == (match self {
                PackerWatch::Building => PACKER_TIMEOUT_SECS,
                PackerWatch::Terminating => PACKER_SIGTERM_GRACE_SECS,
            }),
    {
        match self {
            PackerWatch::Building => PACKER_TIMEOUT_SECS,
            PackerWatch::Terminating => PACKER_SIGTERM_GRACE_SECS,
        }
    }

    /// Takes an event in: done, failed, or to be ended.
    pub fn step(&mut self, event: PackerEvent) -> (action: PackerAction)
        ensures
            action@ == old(self).action(event@),
            *final(self) == (if action@ is Terminate {
                PackerWatch::Terminating
            } else {
                *old(self)
            }),
    {
        match *self {
            PackerWatch::Building => match event {
                PackerEvent::Exited { success, code } => {
                    if success {
                        PackerAction::Succeed
                    } else {
                        PackerAction::Fail(
                            "Packer build failed (exit code: ".to_string().concat(
                                &write_exit_code(code),
                            ).concat(")"),
                        )
                    }
                },
                PackerEvent::WaitFailed { message } => PackerAction::Fail(
                    "Packer process error: ".to_string().concat(&message),
                ),
                PackerEvent::TimedOut => {
                    *self = PackerWatch::Terminating;
                    PackerAction::Terminate
                },
            },
            PackerWatch::Terminating => {
                let message = "Packer build timed out after ".to_string().concat(
                    &write_seconds(PACKER_TIMEOUT_SECS),
                );
                match event {
                    PackerEvent::TimedOut => PackerAction::KillAndFail(message),
                    _ => PackerAction::Fail(message),
                }
            },
        }
    }
}

// ── The image ──────────────────────────────────────────────────────────────

/// A moment of change is later than another; any moment is later than none.
pub open spec fn is_newer(a: Option<Timestamp>, b: Option<Timestamp>) -> bool {
    match (a, b) {
        (Some(x), Some(y)) => !y.at_or_after(x),
        (Some(_), None) => true,
        (None, _) => false,
    }
}

/// The file at a position is the newest one, and the first of those.
pub open spec fn is_first_newest(times: Seq<Option<Timestamp>>, at: int) -> bool {
    &&& 0 <= at < times.len()
    &&& forall|i: int| 0 <= i < times.len() ==> !is_newer(#[trigger] times[i], times[at])
    &&& forall|i: int| 0 <= i < at ==> is_newer(times[at], #[trigger] times[i])
}

fn newer(a: &Option<Timestamp>, b: &Option<Timestamp>) -> (yes: bool)
    ensures
        yes == is_newer(*a, *b),
{
    match (a, b) {
        (Some(x), Some(y)) => !y.not_before(x),
        (Some(_), None) => true,
        (None, _) => false,
    }
}

/// What is said where no image was found.
pub open spec fn no_xva_text() -> Seq<char> {
    "No .xva or .xva.gz file found in "@ + OUTPUT_DIR@
}

/// Which image to publish: the newest one, given when each was changed last.
pub fn newest_xva(times: &Vec<Option<Timestamp>>) -> (r: Result<usize, String>)
    ensures
        match r {
            Ok(at) => is_first_newest(times@, at as int),
            Err(m) => times@.len() == 0 && m@ == no_xva_text(),
        },
{
    if times.len() == 0 {
        return Err("No .xva or .xva.gz file found in ".to_string().concat(OUTPUT_DIR));
    }
    let mut at: usize = 0;
    for i in 1..times.len()
        invariant
            1 <= i <= times@.len(),
            at < i,
            is_first_newest(times@.take(i as int), at as int),
    {
        let ghost seen = times@.take(i as int);
        let ghost next = times@.take(i + 1);
        assert(forall|j: int| 0 <= j < i ==> #[trigger] next[j] == seen[j]);
        if newer(&times[i], &times[at]) {
            proof {
                assert forall|j: int| 0 <= j < i implies is_newer(next[i as int], #[trigger] next[j]) by {
                    assert(!is_newer(seen[j], seen[at as int]));
                }
                assert forall|j: int| 0 <= j < next.len() implies !is_newer(
                    #[trigger] next[j],
                    next[i as int],
                ) by {
                    if j < i {
                        assert(!is_newer(seen[j], seen[at as int]));
                    }
                }
            }
            at = i;
        } else {
            proof {
                assert forall|j: int| 0 <= j < next.len() implies !is_newer(
                    #[trigger] next[j],
                    next[at as int],
                ) by {
                    if j < i {
                        assert(!is_newer(seen[j], seen[at as int]));
                    }
                }
                assert forall|j: int| 0 <= j < at implies is_newer(
                    next[at as int],
                    #[trigger] next[j],
                ) by {
                    assert(is_newer(seen[at as int], seen[j]));
                }
            }
        }
    }
    assert(times@.take(times@.len() as int) =~= times@);
    Ok(at)
}

/// What the release of an image is called.
pub open spec fn image_name_text(tag: Seq<char>) -> Seq<char> {
    "XOA HomeLab Edition - "@ + tag
}

/// What the release of an image is called.
pub fn image_name(tag: &str) -> (text: String)
    ensures
        text@ == image_name_text(tag@),
{
    "XOA HomeLab Edition - ".to_string().concat(tag)
}

/// The release under a tag.
pub open spec fn release_by_tag_url_text(tag: Seq<char>) -> Seq<char> {
    "https://api.github.com/repos/"@ + XOA_HL_REPO@ + "/releases/tags/"@ + tag
}

/// The release under a tag.
pub fn release_by_tag_url(tag: &str) -> (text: String)
    ensures
        text@ == release_by_tag_url_text(tag@),
{
    "https://api.github.com/repos/".to_string()
        .concat(XOA_HL_REPO)
        .concat("/releases/tags/")
        .concat(tag)
}

/// Where a release is made.
pub open spec fn new_release_url_text() -> Seq<char> {
    "https://api.github.com/repos/"@ + XOA_HL_REPO@ + "/releases"@
}

/// Where a release is made.
pub fn new_release_url() -> (text: String)
    ensures
        text@ == new_release_url_text(),
{
    "https://api.github.com/repos/".to_string().concat(XOA_HL_REPO).concat("/releases")
}

/// Where a file is added to a release.
pub open spec fn asset_url_text(upload_url: Seq<char>, file_name: Seq<char>) -> Seq<char> {
    upload_url + "?name="@ + file_name
}

/// Where a file is added to a release.
pub fn asset_url(upload_url: &str, file_name: &str) -> (text: String)
    ensures
        text@ == asset_url_text(upload_url@, file_name@),
{
    upload_url.to_string().concat("?name=").concat(file_name)
}

/// A release that is to be made. Its tag is made with it.
#[derive(Debug)]
pub struct ReleaseRequest {
    pub tag_name: String,
    pub target_commitish: String,
    pub name: String,
    pub body: String,
    pub draft: bool,
    pub prerelease: bool,
}

/// What a [`ReleaseRequest`] holds.
pub struct ReleaseRequestView {
    pub tag_name: Seq<char>,
    pub target_commitish: Seq<char>,
    pub name: Seq<char>,
    pub body: Seq<char>,
    pub draft: bool,
    pub prerelease: bool,
}

impl View for ReleaseRequest {
    type V = ReleaseRequestView;

    open spec fn view(&self) -> ReleaseRequestView {
        ReleaseRequestView {
            tag_name: self.tag_name@,
            target_commitish: self.target_commitish@,
            name: self.name@,
            body: self.body@,
            draft: self.draft,
            prerelease: self.prerelease,
        }
    }
}

impl DeepView for ReleaseRequest {
    type V = ReleaseRequestView;

    open spec fn deep_view(&self) -> ReleaseRequestView {
        self@
    }
}

/// The release of an image that was built from a commit.
pub fn release_request(tag: &str, name: &str, target_sha: &str) -> (request: ReleaseRequest)
    ensures
        request@ == (ReleaseRequestView {
            tag_name: tag@,
            target_commitish: target_sha@,
            name: name@,
            body: "XOA HomeLab Edition VM image\nSource commit: "@ + target_sha@,
            draft: false,
            prerelease: false,
        }),
{
    ReleaseRequest {
        tag_name: tag.to_string(),
        target_commitish: target_sha.to_string(),
        name: name.to_string(),
        body: "XOA HomeLab Edition VM image\nSource commit: ".to_string().concat(target_sha),
        draft: false,
        prerelease: false,
    }
}

/// What GitHub says of a release that was made, or was there.
#[derive(Debug)]
pub struct ReleaseReply {
    pub upload_url: String,
    pub html_url: String,
}

/// What a [`ReleaseReply`] holds.
pub struct ReleaseReplyView {
    pub upload_url: Seq<char>,
    pub html_url: Seq<char>,
}

impl View for ReleaseReply {
    type V = ReleaseReplyView;

    open spec fn view(&self) -> ReleaseReplyView {
        ReleaseReplyView {
            upload_url: self.upload_url@,
            html_url: self.html_url@,
        }
    }
}

impl DeepView for ReleaseReply {
    type V = ReleaseReplyView;

    open spec fn deep_view(&self) -> ReleaseReplyView {
        self@
    }
}

/// Where files are added to a release, and its page: the address without the
/// template at its end.
pub fn release_urls(reply: &ReleaseReply) -> (urls: (String, String))
    ensures
        urls.0@ == without_suffixes(reply@.upload_url, "{?name,label}"@),
        urls.1@ == reply@.html_url,
{
    (text::trim_end_matches(&reply.upload_url, "{?name,label}"), reply.html_url.clone())
}

/// Where files are added to a release, and its page, if the look-up of its tag
/// found it: then it is used again. A reply that says otherwise, or that could
/// not be read, counts as none.
pub fn reusable_release(status: u16, reply: &Option<ReleaseReply>) -> (urls: Option<
    (String, String),
>)
    ensures
        urls.deep_view() == (match reply.deep_view() {
            Some(found) if is_success(status) => Some(
                (without_suffixes(found.upload_url, "{?name,label}"@), found.html_url),
            ),
            _ => None::<(Seq<char>, Seq<char>)>,
        }),
{
    match reply {
        Some(found) => if status >= 200 && status < 300 {
            Some(release_urls(found))
        } else {
            None
        },
        None => None,
    }
}

/// What the reply to a request means, where only the success counts.
pub open spec fn reply_check(what: Seq<char>, status: u16, body: Seq<char>) -> Result<(), Seq<char>> {
    if is_success(status) {
        Ok(())
    } else {
        Err(what + " ("@ + status_text(status) + "): "@ + body)
    }
}

fn check_reply(what: &str, status: u16, body: &str) -> (r: Result<(), String>)
    requires
        is_status(status),
    ensures
        checked(r) == reply_check(what@, status, body@),
{
    if status >= 200 && status < 300 {
        Ok(())
    } else {
        Err(
            what.to_string().concat(" (").concat(&github::show_status(status)).concat("): ").concat(
                body,
            ),
        )
    }
}

/// What the reply to the request for a release means.
pub fn check_release_reply(status: u16, body: &str) -> (r: Result<(), String>)
    requires
        is_status(status),
    ensures
        checked(r) == reply_check("GitHub Release creation failed"@, status, body@),
{
    check_reply("GitHub Release creation failed", status, body)
}

/// What the reply to an upload means.
pub fn check_upload_reply(status: u16, body: &str) -> (r: Result<(), String>)
    requires
        is_status(status),
    ensures
        checked(r) == reply_check("GitHub asset upload failed"@, status, body@),
{
    check_reply("GitHub asset upload failed", status, body)
}

// ── Laws ───────────────────────────────────────────────────────────────────

/// After an image was published under the tag that is made for it, the same
/// commit is not built again.
pub proof fn published_image_is_not_repeated(
    state: XoaHlVersionStateView,
    date: Seq<char>,
    head_sha: Seq<char>,
    now: Timestamp,
)
    requires
        head_sha.len() > 0,
    ensures
        state.published(head_sha, tags::image_tag_text(date, head_sha), now).is_up_to_date(
            head_sha,
        ),
{
    let tag = tags::image_tag_text(date, head_sha);
    assert(tag.take(IMAGE_TAG_PREFIX@.len() as int) =~= IMAGE_TAG_PREFIX@);
}

/// After the state was filled in from a published image, the same commit is not
/// built again.
pub proof fn found_image_is_not_repeated(
    state: XoaHlVersionStateView,
    releases: Seq<ReleaseInfoView>,
    head_sha: Seq<char>,
    short: Seq<char>,
    now: Timestamp,
)
    requires
        head_sha.len() > 0,
        published_for(releases, short) is Image,
    ensures
        state.published(
            head_sha,
            published_for(releases, short)->Image_tag,
            now,
        ).is_up_to_date(head_sha),
{
    lemma_first_image(releases, short);
}

/// The image that is found is an image of the commit.
proof fn lemma_first_image(releases: Seq<ReleaseInfoView>, short: Seq<char>)
    ensures
        first_image(releases, short) is Some ==> is_image_release(
            first_image(releases, short)->0,
            short,
        ),
    decreases releases.len(),
{
    if releases.len() > 0 {
        lemma_first_image(releases.drop_first(), short);
    }
}

/// A published image is found: if any of the releases carries the image of a
/// commit, nothing is built for it.
pub proof fn published_image_is_found(
    releases: Seq<ReleaseInfoView>,
    short: Seq<char>,
    at: int,
)
    requires
        0 <= at < releases.len(),
        is_image_release(releases[at], short),
    ensures
        published_for(releases, short) is Image,
    decreases releases.len(),
{
    if !is_image_release(releases[0], short) {
        let rest = releases.drop_first();
        assert(rest[at - 1] == releases[at]);
        published_image_is_found(rest, short, at - 1);
        assert(first_image(rest, short) is Some);
    }
}

/// An image that was released under the tag that is made for its commit, on
/// whatever day, is found again: nothing is built for that commit.
pub proof fn built_image_is_found(
    releases: Seq<ReleaseInfoView>,
    at: int,
    asset: int,
    date: Seq<char>,
    head_sha: Seq<char>,
)
    requires
        0 <= at < releases.len(),
        releases[at].tag_name == tags::image_tag_text(date, head_sha),
        0 <= asset < releases[at].assets.len(),
        tags::is_xva_text(releases[at].assets[asset].name),
    ensures
        published_for(releases, short_sha_text(head_sha)) is Image,
{
    tags::image_tag_is_recognised(date, head_sha, releases[at]);
    published_image_is_found(releases, short_sha_text(head_sha), at);
}

/// Where an image was published, only another commit calls for a new one.
pub proof fn image_rebuild_has_a_cause(state: XoaHlVersionStateView, head_sha: Seq<char>)
    requires
        state.last_built_sha.len() > 0,
        IMAGE_TAG_PREFIX@.is_prefix_of(state.last_tag),
        !state.is_up_to_date(head_sha),
    ensures
        head_sha != state.last_built_sha,
{
}

/// A run is reported as a success only at its end: no event before that turns a
/// report into one.
pub proof fn success_comes_last(report: AgentStatusView, event: XoaEventView)
    ensures
        xoa_report(report, event).status is Success ==> report.status is Success,
{
}

/// No report names a component twice: every event keeps the names distinct.
pub proof fn reports_keep_names_distinct(report: AgentStatusView, event: XoaEventView)
    requires
        names_distinct(report.components),
    ensures
        names_distinct(xoa_report(report, event).components),
{
    match event {
        XoaEventView::AlreadyPublished { tag, url, short_sha } => {
            let once = with_component(
                report.components,
                "xoa-hl"@,
                WorkflowStatusView::Skipped,
                Seq::empty(),
            );
            set_component_keeps_names_distinct(
                report.components,
                "xoa-hl"@,
                WorkflowStatusView::Skipped,
                Seq::empty(),
            );
            set_component_keeps_names_distinct(
                once,
                "xoa-image"@,
                WorkflowStatusView::Success,
                url,
            );
        },
        XoaEventView::PackageCurrent { url } => {
            set_component_keeps_names_distinct(
                report.components,
                "xoa-hl"@,
                WorkflowStatusView::Skipped,
                url,
            );
        },
        XoaEventView::DispatchFailed { message } => {
            set_component_keeps_names_distinct(
                report.components,
                "xoa-hl"@,
                WorkflowStatusView::Failure,
                Seq::empty(),
            );
        },
        XoaEventView::WorkflowRunning { url } => {
            set_component_keeps_names_distinct(
                report.components,
                "xoa-hl"@,
                WorkflowStatusView::InProgress,
                url,
            );
        },
        XoaEventView::WorkflowSucceeded { url } => {
            set_component_keeps_names_distinct(
                report.components,
                "xoa-hl"@,
                WorkflowStatusView::Success,
                url,
            );
        },
        XoaEventView::WorkflowFailed { message, url } => {
            set_component_keeps_names_distinct(
                report.components,
                "xoa-hl"@,
                WorkflowStatusView::Failure,
                url,
            );
        },
        XoaEventView::ReleaseFailed { message } => {
            set_component_keeps_names_distinct(
                report.components,
                "xoa-image"@,
                WorkflowStatusView::Failure,
                Seq::empty(),
            );
        },
        XoaEventView::Uploading { url } => {
            set_component_keeps_names_distinct(
                report.components,
                "xoa-image"@,
                WorkflowStatusView::InProgress,
                url,
            );
        },
        XoaEventView::UploadFailed { message, url } => {
            set_component_keeps_names_distinct(
                report.components,
                "xoa-image"@,
                WorkflowStatusView::Failure,
                url,
            );
        },
        XoaEventView::Uploaded { url } => {
            set_component_keeps_names_distinct(
                report.components,
                "xoa-image"@,
                WorkflowStatusView::Success,
                url,
            );
        },
        _ => {},
    }
}

proof fn lemma_past_checks_hold(findings: Seq<FindingView>, check: Prerequisite)
    requires
        readiness_after(findings) is Ready || (readiness_after(findings) matches
            ReadinessView::Check(next) && check.comes_before(next)),
    ensures
        exists|i: int|
            0 <= i < findings.len() && (#[trigger] findings[i]).subject() == check
                && findings[i].holds(),
    decreases findings.len(),
{
    if findings.len() > 0 {
        let before = findings.drop_last();
        let last = findings.last();
        if last.subject() == check && last.holds() {
            assert(findings[findings.len() - 1] == last);
        } else {
            lemma_past_checks_hold(before, check);
            let i = choose|i: int|
                0 <= i < before.len() && (#[trigger] before[i]).subject() == check
                    && before[i].holds();
            assert(findings[i] == before[i]);
        }
    }
}

/// The machine counts as ready only after each of the checks was made and held.
pub proof fn ready_means_all_checks_held(findings: Seq<FindingView>, check: Prerequisite)
    requires
        readiness_after(findings) is Ready,
    ensures
        exists|i: int|
            0 <= i < findings.len() && (#[trigger] findings[i]).subject() == check
                && findings[i].holds(),
{
    lemma_past_checks_hold(findings, check);
}

/// The checks are made in order, the machine is ready exactly if all of them
/// hold, and the first that does not hold ends them and says why.
pub proof fn first_failed_check_decides(
    version: FindingView,
    plugin: FindingView,
    disk: FindingView,
    ports: FindingView,
)
    requires
        version.subject() == Prerequisite::PackerVersion,
        plugin.subject() == Prerequisite::Plugin,
        disk.subject() == Prerequisite::DiskSpace,
        ports.subject() == Prerequisite::Ports,
    ensures
        readiness_after(seq![version, plugin, disk, ports]) is Ready <==> version.holds()
            && plugin.holds() && disk.holds() && ports.holds(),
        forall|m: Seq<char>|
            readiness_after(seq![version, plugin, disk, ports]) == ReadinessView::NotReady(m) <==> {
                ||| version.verdict() == Some(Err::<(), Seq<char>>(m))
                ||| version.holds() && plugin.verdict() == Some(Err::<(), Seq<char>>(m))
                ||| version.holds() && plugin.holds() && disk.verdict() == Some(
                    Err::<(), Seq<char>>(m),
                )
                ||| version.holds() && plugin.holds() && disk.holds() && ports.verdict() == Some(
                    Err::<(), Seq<char>>(m),
                )
            },
{
    let none = Seq::<FindingView>::empty();
    let one = seq![version];
    let two = seq![version, plugin];
    let three = seq![version, plugin, disk];
    let four = seq![version, plugin, disk, ports];
    assert(one.drop_last() =~= none);
    assert(two.drop_last() =~= one);
    assert(three.drop_last() =~= two);
    assert(four.drop_last() =~= three);
    assert(readiness_after(one) == readiness_after(none).after(version));
    assert(readiness_after(two) == readiness_after(one).after(plugin));
    assert(readiness_after(three) == readiness_after(two).after(disk));
    assert(readiness_after(four) == readiness_after(three).after(ports));
}

/// The scripts are reset only after a fetch, and every way of bringing them up
/// to date ends: a clone alone, or a fetch and then a reset.
pub proof fn git_steps_end(repo_exists: bool)
    ensures
        forall|step: GitStep| #[trigger]
            step.followed_by() == Some(GitStep::Reset) <==> step == GitStep::Fetch,
        GitStep::first_step(repo_exists).followed_by() is None <==> !repo_exists,
        repo_exists ==> GitStep::first_step(repo_exists).followed_by() == Some(GitStep::Reset),
        GitStep::Reset.followed_by() is None,
{
}

/// Packer is ended by force only after it was asked to end and did not, and a
/// build that was asked to end never succeeds.
pub proof fn packer_is_asked_first(watch: PackerWatch, event: PackerEventView)
    ensures
        watch.action(event) is KillAndFail ==> watch == PackerWatch::Terminating,
        watch.action(event) is Terminate ==> watch == PackerWatch::Building,
        watch.action(event) is Succeed ==> watch == PackerWatch::Building,
        watch == PackerWatch::Terminating ==> watch.action(event) is Fail || watch.action(
            event,
        ) is KillAndFail,
{
}

/// The watch over the workflow ends for failed polls exactly when the last one
/// it tolerates fails: five in a row. It reports that last failure.
pub proof fn workflow_watch_tolerates_four_failures(
    wait: WorkflowWaitView,
    error: OrchestratorErrorView,
)
    requires
        wait.well_formed(),
    ensures
        wait.step(Err(error)) is Continue <==> wait.polled(Err(error)).well_formed(),
        wait.step(Err(error)) is Failed <==> wait.poll_failures == 4,
        wait.step(Err(error)) matches WaitStepView::Failed { cause, .. } ==> cause == Some(error),
{
}

/// The newest image is the only one that is both newest and first.
pub proof fn newest_image_is_unique(times: Seq<Option<Timestamp>>, a: int, b: int)
    requires
        is_first_newest(times, a),
        is_first_newest(times, b),
    ensures
        a == b,
{
    if a < b {
        assert(is_newer(times[b], times[a]));
    } else if b < a {
        assert(is_newer(times[a], times[b]));
    }
}

/// A commit counts as published exactly if it is the one that the last image was
/// built from, and the last tag is that of an image; a package alone, or nothing at
/// all, does not count.
pub proof fn only_a_published_image_counts(
    state: XoaHlVersionStateView,
    head_sha: Seq<char>,
    tag: Seq<char>,
    now: Timestamp,
)
    ensures
        state.is_up_to_date(head_sha) <==> head_sha.len() > 0 && state.last_built_sha == head_sha
            && "xoa-image-"@.is_prefix_of(state.last_tag),
        state.published(head_sha, tag, now).last_built_sha == head_sha,
        state.published(head_sha, tag, now).last_tag == tag,
        state.published(head_sha, tag, now).last_built_at == Some(now),
{
}

/// What is found published for a commit: its image, if a release carries it, in the
/// first such release; else the first release that is not tagged as an image; else
/// nothing.
pub proof fn published_is_image_or_package(releases: Seq<ReleaseInfoView>, short: Seq<char>)
    ensures
        match published_for(releases, short) {
            PublishedView::Image { tag, url } => exists|i: int|
                0 <= i < releases.len() && is_image_release(#[trigger] releases[i], short)
                    && releases[i].tag_name == tag && releases[i].html_url == url && forall|j: int|
                    0 <= j < i ==> !is_image_release(#[trigger] releases[j], short),
            PublishedView::Package { tag, url } => {
                &&& forall|j: int|
                    0 <= j < releases.len() ==> !is_image_release(#[trigger] releases[j], short)
                &&& exists|i: int|
                    0 <= i < releases.len() && (#[trigger] releases[i]).tag_name == tag
                        && releases[i].html_url == url && !"xoa-image-"@.is_prefix_of(tag)
                        && forall|j: int|
                        0 <= j < i ==> "xoa-image-"@.is_prefix_of((#[trigger] releases[j]).tag_name)
            },
            PublishedView::Nothing => forall|j: int|
                0 <= j < releases.len() ==> !is_image_release(#[trigger] releases[j], short)
                    && "xoa-image-"@.is_prefix_of(releases[j].tag_name),
        },
{
    lemma_first_image_position(releases, short);
    lemma_first_package_position(releases);
}

proof fn lemma_first_image_position(releases: Seq<ReleaseInfoView>, short: Seq<char>)
    ensures
        match first_image(releases, short) {
            Some(image) => exists|i: int|
                0 <= i < releases.len() && is_image_release(#[trigger] releases[i], short)
                    && releases[i] == image && forall|j: int|
                    0 <= j < i ==> !is_image_release(#[trigger] releases[j], short),
            None => forall|j: int|
                0 <= j < releases.len() ==> !is_image_release(#[trigger] releases[j], short),
        },
    decreases releases.len(),
{
    if releases.len() > 0 && !is_image_release(releases[0], short) {
        let rest = releases.drop_first();
        lemma_first_image_position(rest, short);
        if let Some(image) = first_image(rest, short) {
            let k = choose|i: int|
                0 <= i < rest.len() && is_image_release(#[trigger] rest[i], short) && rest[i]
                    == image && forall|j: int|
                    0 <= j < i ==> !is_image_release(#[trigger] rest[j], short);
            assert(releases[k + 1] == rest[k]);
            assert forall|j: int| 0 <= j < k + 1 implies !is_image_release(
                #[trigger] releases[j],
                short,
            ) by {
                if j > 0 {
                    assert(releases[j] == rest[j - 1]);
                }
            }
        } else {
            assert forall|j: int| 0 <= j < releases.len() implies !is_image_release(
                #[trigger] releases[j],
                short,
            ) by {
                if j > 0 {
                    assert(releases[j] == rest[j - 1]);
                }
            }
        }
    }
}

proof fn lemma_first_package_position(releases: Seq<ReleaseInfoView>)
    ensures
        match first_package(releases) {
            Some(package) => exists|i: int|
                0 <= i < releases.len() && (#[trigger] releases[i]) == package
                    && !"xoa-image-"@.is_prefix_of(package.tag_name) && forall|j: int|
                    0 <= j < i ==> "xoa-image-"@.is_prefix_of((#[trigger] releases[j]).tag_name),
            None => forall|j: int|
                0 <= j < releases.len() ==> "xoa-image-"@.is_prefix_of(
                    (#[trigger] releases[j]).tag_name,
                ),
        },
    decreases releases.len(),
{
    if releases.len() > 0 && "xoa-image-"@.is_prefix_of(releases[0].tag_name) {
        let rest = releases.drop_first();
        lemma_first_package_position(rest);
        if let Some(package) = first_package(rest) {
            let k = choose|i: int|
                0 <= i < rest.len() && (#[trigger] rest[i]) == package
                    && !"xoa-image-"@.is_prefix_of(package.tag_name) && forall|j: int|
                    0 <= j < i ==> "xoa-image-"@.is_prefix_of((#[trigger] rest[j]).tag_name);
            assert(releases[k + 1] == rest[k]);
            assert forall|j: int| 0 <= j < k + 1 implies "xoa-image-"@.is_prefix_of(
                (#[trigger] releases[j]).tag_name,
            ) by {
                if j > 0 {
                    assert(releases[j] == rest[j - 1]);
                }
            }
        } else {
            assert forall|j: int| 0 <= j < releases.len() implies "xoa-image-"@.is_prefix_of(
                (#[trigger] releases[j]).tag_name,
            ) by {
                if j > 0 {
                    assert(releases[j] == rest[j - 1]);
                }
            }
        }
    }
}

/// A conclusion ends the watch over the workflow unless the run is in progress: as a
/// success for a success, and as a failure that names the conclusion for anything
/// else. Any reply that could be had clears the failures; a poll that failed counts.
pub proof fn workflow_watch_follows_the_run(
    wait: WorkflowWaitView,
    conclusion: Seq<char>,
    error: OrchestratorErrorView,
)
    requires
        wait.well_formed(),
    ensures
        wait.step(Ok(conclusion)) is Succeeded <==> conclusion == "success"@ || conclusion
            == "Success"@,
        wait.step(Ok(conclusion)) is Continue <==> conclusion == "In Progress"@,
        wait.step(Ok(conclusion)) matches WaitStepView::Failed { message, cause } ==> cause is None
            && has_text(message, conclusion) && has_text(message, wait.run_url),
        wait.step(Err(error)) is Continue <==> wait.poll_failures < 4,
        wait.poll_failures == 4 ==> (wait.step(Err(error)) matches WaitStepView::Failed {
            message,
            cause,
        } && cause == Some(error)),
        wait.polled(Ok(conclusion)).poll_failures == 0,
        wait.polled(Err(error)).poll_failures == wait.poll_failures + 1,
        wait.polled(Ok(conclusion)).run_url == wait.run_url,
        wait.polled(Ok(conclusion)).timeout_secs == wait.timeout_secs,
        wait.polled(Err(error)).run_url == wait.run_url,
        wait.polled(Err(error)).timeout_secs == wait.timeout_secs,
{
    reveal_strlit("success");
    reveal_strlit("Success");
    reveal_strlit("In Progress");
    assert("success"@.len() == 7 && "Success"@.len() == 7 && "In Progress"@.len() == 11);
    lemma_has_part("xoa-hl workflow ended with '"@, conclusion, "' ("@ + wait.run_url + ")"@);
    let text = "xoa-hl workflow ended with '"@ + conclusion + "' ("@ + wait.run_url + ")"@;
    assert(text =~= "xoa-hl workflow ended with '"@ + conclusion + ("' ("@ + wait.run_url + ")"@));
    lemma_has_part(
        "xoa-hl workflow ended with '"@ + conclusion + "' ("@,
        wait.run_url,
        ")"@,
    );
}

/// The watch over the workflow is over once more time has passed than it has, to the
/// nanosecond, and stays over. It says how long it lasted, and for which run.
pub proof fn workflow_watch_keeps_its_time(wait: WorkflowWaitView, now: u128, later: u128)
    ensures
        wait.is_over(now) <==> now > wait.timeout_secs * 1_000_000_000,
        wait.is_over(now) && now <= later ==> wait.is_over(later),
        has_text(wait.timeout_text(), wait.run_url),
        wait.timeout_secs > 0 ==> has_text(
            wait.timeout_text(),
            decimal(wait.timeout_secs as nat) + "s"@,
        ),
{
    let shown = seconds_text(wait.timeout_secs);
    let rest = " waiting for xoa-hl workflow ("@ + wait.run_url + ")"@;
    assert(wait.timeout_text() =~= "Timed out after "@ + shown + rest);
    lemma_has_part("Timed out after "@, shown, rest);
    lemma_has_part(
        "Timed out after "@ + shown + " waiting for xoa-hl workflow ("@,
        wait.run_url,
        ")"@,
    );
}

/// What each check of the machine asks for: a Packer that answers, its plugin for the
/// hypervisor, 100 GB of free space as far as `df` tells, and all ports free.
pub proof fn checks_ask_for_what_a_build_needs(
    success: bool,
    stderr: Seq<char>,
    list: Seq<char>,
    report: Seq<char>,
    blocked: Seq<u16>,
    at: int,
)
    ensures
        version_check(success, stderr) is Ok <==> success,
        version_check(success, stderr) matches Err(m) ==> has_text(m, stderr),
        plugin_check(list) is Ok <==> has_text(list, "xenserver"@),
        disk_check(report) is Ok <==> free_kilobytes(report) is None || free_kilobytes(report)->0
            >= 104_857_600,
        port_check(blocked) is Ok <==> blocked.len() == 0,
        0 <= at < blocked.len() ==> (port_check(blocked) matches Err(m) && has_text(
            m,
            decimal(blocked[at] as nat),
        )),
        template_check(success, stderr) is Ok <==> success,
        template_check(success, stderr) matches Err(m) ==> has_text(m, stderr),
{
    lemma_has_tail("Packer version check failed: "@, stderr);
    lemma_has_tail("Packer validate failed:\n"@, stderr);
    if 0 <= at < blocked.len() {
        let parts = decimals(blocked);
        assert(parts[at] == decimal(blocked[at] as nat));
        lemma_joined_has(parts, ", "@, at);
        lemma_has_text_within(
            "Required ports already in use: ["@,
            joined(parts, ", "@),
            "]\nPacker needs these free for its kickstart HTTP server."@,
            decimal(blocked[at] as nat),
        );
    }
}

proof fn lemma_joined_has(parts: Seq<Seq<char>>, sep: Seq<char>, at: int)
    requires
        0 <= at < parts.len(),
    ensures
        has_text(joined(parts, sep), parts[at]),
    decreases parts.len(),
{
    let none = Seq::<char>::empty();
    if parts.len() == 1 {
        lemma_has_part(none, parts[0], none);
        assert(none + parts[0] + none =~= parts[0]);
    } else if at == parts.len() - 1 {
        lemma_has_tail(joined(parts.drop_last(), sep) + sep, parts[at]);
    } else {
        lemma_joined_has(parts.drop_last(), sep, at);
        let before = joined(parts.drop_last(), sep);
        lemma_has_text_within(none, before, sep + parts.last(), parts[at]);
        assert(none + before + (sep + parts.last()) =~= before + sep + parts.last());
    }
}

/// A finding means what the check of its subject says of it, and each finding is
/// about one subject.
pub proof fn findings_mean_their_check(
    success: bool,
    bytes: Seq<u8>,
    blocked: Seq<u16>,
)
    ensures
        ({
            let version = FindingView::PackerVersion { success, stderr: bytes };
            let plugin = FindingView::Plugin { stdout: bytes };
            let disk = FindingView::DiskSpace { stdout: bytes };
            let ports = FindingView::Ports { blocked };
            &&& version.subject() == Prerequisite::PackerVersion
            &&& plugin.subject() == Prerequisite::Plugin
            &&& disk.subject() == Prerequisite::DiskSpace
            &&& ports.subject() == Prerequisite::Ports
            &&& version.holds() <==> success
            &&& plugin.holds() <==> has_text(lossy_text(bytes), "xenserver"@)
            &&& disk.holds() <==> free_kilobytes(lossy_text(bytes)) is None || (
            free_kilobytes(lossy_text(bytes))->0 >= 104_857_600 && free_kilobytes(
                lossy_text(bytes),
            )->0 * 1024 <= u64::MAX)
            &&& ports.holds() <==> blocked.len() == 0
        }),
{
}

/// The free space is the fourth column of the second line: a number counts as it is
/// written, anything else there as none. Without such a column nothing is known.
pub proof fn free_space_is_the_fourth_column(report: Seq<char>, kilobytes: u64)
    ensures
        text_lines(report).len() < 2 ==> free_kilobytes(report) is None,
        text_lines(report).len() >= 2 && text_words(text_lines(report)[1]).len() < 4
            ==> free_kilobytes(report) is None,
        text_lines(report).len() >= 2 && text_words(text_lines(report)[1]).len() >= 4 ==> {
            &&& text_words(text_lines(report)[1])[3] == decimal(kilobytes as nat)
                ==> free_kilobytes(report) == Some(kilobytes as nat)
            &&& number(text_words(text_lines(report)[1])[3], u64::MAX as nat) is None
                ==> free_kilobytes(report) == Some(0nat)
        },
{
    text::number_reads_decimal(kilobytes as nat, u64::MAX as nat);
}

/// Each call of Git does what it is for: a clone of the scripts into their directory,
/// a fetch, and a reset to what was fetched. A call that failed ends the rest, and is
/// named with its exit code.
pub proof fn git_calls_do_their_part(step: GitStep, success: bool, code: i32)
    ensures
        step.check(success, Some(code)) is Ok <==> success,
        step.check(false, Some(code)) matches Err(m) && has_text(m, step.command_text())
            && has_text(m, signed_decimal(code as int)),
        step.arg_texts().len() > 0 && step.arg_texts()[0] == step.command_text(),
        GitStep::Clone.command_text() == "clone"@,
        GitStep::Fetch.command_text() == "fetch"@,
        GitStep::Reset.command_text() == "reset"@,
        GitStep::Clone.arg_texts().last() == REPO_DIR@,
        GitStep::Clone.arg_texts().len() == 3 && GitStep::Clone.arg_texts()[1]
            == "https://github.com/Vagrantin/build-xoa-hl"@,
        GitStep::Reset.arg_texts() == seq!["reset"@, "--hard"@, "origin/main"@],
        GitStep::Fetch.arg_texts() == seq!["fetch"@],
{
    reveal_strlit("https://github.com/");
    reveal_strlit("Vagrantin/build-xoa-hl");
    reveal_strlit("https://github.com/Vagrantin/build-xoa-hl");
    assert("https://github.com/"@ + BUILD_XOA_HL_REPO@
        =~= "https://github.com/Vagrantin/build-xoa-hl"@);
    let name = step.command_text();
    let shown = exit_code_text(Some(code));
    let rest = " exited with "@ + shown;
    let m = "git "@ + name + " exited with "@ + shown;
    assert(m =~= "git "@ + name + rest);
    lemma_has_part("git "@, name, rest);
    let digits = signed_decimal(code as int);
    let head = "git "@ + name + " exited with "@ + "Some("@;
    assert(m =~= head + digits + ")"@);
    lemma_has_part(head, digits, ")"@);
}

/// A checksum is that of the medium: it comes from the first line of the list that
/// names the medium and has a hash of 64 bytes where the style of the list puts it,
/// and it is handed on as SHA-256. There is none exactly if no line is such.
pub proof fn checksum_is_that_of_the_medium(style: ListStyle, list: Seq<char>)
    ensures
        match listed_checksum(style, list) {
            Some(checksum) => exists|i: int, hash: Seq<char>|
                0 <= i < text_lines(list).len() && #[trigger] gives_hash(
                    style,
                    text_lines(list)[i],
                    hash,
                ) && checksum == "sha256:"@ + hash && forall|j: int, other: Seq<char>|
                    0 <= j < i ==> !#[trigger] gives_hash(style, text_lines(list)[j], other),
            None => forall|j: int, other: Seq<char>|
                0 <= j < text_lines(list).len() ==> !#[trigger] gives_hash(
                    style,
                    text_lines(list)[j],
                    other,
                ),
        },
{
    lemma_first_hash(style, text_lines(list));
}

/// A line names the medium, and its last word (in a BSD-style list), or its first
/// word (in a GNU-style list), is a hash of it.
pub open spec fn gives_hash(style: ListStyle, line: Seq<char>, hash: Seq<char>) -> bool {
    &&& has_text(line, "AlmaLinux-9-latest-x86_64-minimal.iso"@)
    &&& text_words(line).len() > 0
    &&& byte_len(hash) == 64
    &&& match style {
        ListStyle::Bsd => hash == text_words(line).last() && forall|i: int|
            0 <= i < hash.len() ==> is_hex_digit(#[trigger] hash[i]),
        ListStyle::Gnu => hash == text_words(line)[0] && line.len() > 0 && is_hex_digit(line[0]),
    }
}

proof fn lemma_first_hash(style: ListStyle, lines: Seq<Seq<char>>)
    ensures
        match first_hash(style, lines) {
            Some(hash) => exists|i: int|
                0 <= i < lines.len() && #[trigger] gives_hash(style, lines[i], hash) && forall|
                    j: int,
                    other: Seq<char>,
                |
                    0 <= j < i ==> !#[trigger] gives_hash(style, lines[j], other),
            None => forall|j: int, other: Seq<char>|
                0 <= j < lines.len() ==> !#[trigger] gives_hash(style, lines[j], other),
        },
    decreases lines.len(),
{
    if lines.len() > 0 {
        let rest = lines.drop_first();
        match line_hash(style, lines[0]) {
            Some(hash) => {
                assert(gives_hash(style, lines[0], hash));
            },
            None => {
                assert forall|other: Seq<char>| !#[trigger] gives_hash(style, lines[0], other) by {
                }
                lemma_first_hash(style, rest);
                match first_hash(style, rest) {
                    Some(hash) => {
                        let k = choose|i: int|
                            0 <= i < rest.len() && #[trigger] gives_hash(style, rest[i], hash)
                                && forall|j: int, other: Seq<char>|
                                0 <= j < i ==> !#[trigger] gives_hash(style, rest[j], other);
                        assert(lines[k + 1] == rest[k]);
                        assert forall|j: int, other: Seq<char>|
                            0 <= j < k + 1 implies !#[trigger] gives_hash(style, lines[j], other) by {
                            if j > 0 {
                                assert(lines[j] == rest[j - 1]);
                                assert(!gives_hash(style, rest[j - 1], other));
                            }
                        }
                    },
                    None => {
                        assert forall|j: int, other: Seq<char>|
                            0 <= j < lines.len() implies !#[trigger] gives_hash(
                            style,
                            lines[j],
                            other,
                        ) by {
                            if j > 0 {
                                assert(lines[j] == rest[j - 1]);
                                assert(!gives_hash(style, rest[j - 1], other));
                            }
                        }
                    },
                }
            },
        }
    }
}

/// The BSD-style list goes first, and the GNU-style one is asked only where that
/// gives nothing. Without either there is no checksum.
pub proof fn first_list_with_a_checksum_counts(
    bsd: Option<Seq<char>>,
    gnu: Option<Seq<char>>,
)
    ensures
        ({
            let first = match bsd {
                Some(list) => listed_checksum(ListStyle::Bsd, list),
                None => None,
            };
            let second = match gnu {
                Some(list) => listed_checksum(ListStyle::Gnu, list),
                None => None,
            };
            &&& first matches Some(c) ==> checksum_of(bsd, gnu) == Ok::<Seq<char>, Seq<char>>(c)
            &&& first is None && second is Some ==> checksum_of(bsd, gnu) == Ok::<
                Seq<char>,
                Seq<char>,
            >(second->0)
            &&& first is None && second is None ==> checksum_of(bsd, gnu) is Err
        }),
{
}

/// The package that is installed is a file of a release that ends in `.rpm`, and no
/// file of an earlier release in the list, and none before it in its own, does. There
/// is none exactly if no release has one.
pub proof fn newest_package_is_taken(releases: Seq<ReleaseInfoView>)
    ensures
        match rpm_url_of(releases) {
            Ok(url) => exists|r: int, k: int|
                is_rpm_at(releases, r, k) && releases[r].assets[k].browser_download_url == url
                    && forall|q: int, m: int| #[trigger]
                    is_rpm_at(releases, q, m) ==> r < q || (r == q && k <= m),
            Err(_) => forall|q: int, m: int| !#[trigger] is_rpm_at(releases, q, m),
        },
{
    lemma_rpm_among_releases(releases);
}

/// A file of a release, by their positions, is a package.
pub open spec fn is_rpm_at(releases: Seq<ReleaseInfoView>, r: int, k: int) -> bool {
    &&& 0 <= r < releases.len()
    &&& 0 <= k < releases[r].assets.len()
    &&& ".rpm"@.is_suffix_of(releases[r].assets[k].name)
}

proof fn lemma_rpm_position_found(assets: Seq<ReleaseAssetView>)
    ensures
        rpm_position(assets) <= assets.len(),
        rpm_position(assets) < assets.len() ==> ".rpm"@.is_suffix_of(
            assets[rpm_position(assets) as int].name,
        ),
        forall|i: int|
            0 <= i < rpm_position(assets) ==> !".rpm"@.is_suffix_of((#[trigger] assets[i]).name),
    decreases assets.len(),
{
    if assets.len() > 0 && !".rpm"@.is_suffix_of(assets[0].name) {
        let rest = assets.drop_first();
        lemma_rpm_position_found(rest);
        assert forall|i: int| 0 <= i < rpm_position(assets) implies !".rpm"@.is_suffix_of(
            (#[trigger] assets[i]).name,
        ) by {
            if i > 0 {
                assert(assets[i] == rest[i - 1]);
            }
        }
    }
}

proof fn lemma_rpm_among_releases(releases: Seq<ReleaseInfoView>)
    ensures
        match rpm_url_of(releases) {
            Ok(url) => exists|r: int, k: int|
                is_rpm_at(releases, r, k) && releases[r].assets[k].browser_download_url == url
                    && forall|q: int, m: int| #[trigger]
                    is_rpm_at(releases, q, m) ==> r < q || (r == q && k <= m),
            Err(_) => forall|q: int, m: int| !#[trigger] is_rpm_at(releases, q, m),
        },
    decreases releases.len(),
{
    let assets = all_assets(releases);
    lemma_rpm_position_found(assets);
    if releases.len() > 0 {
        let before = releases.drop_last();
        let last = releases.last();
        let n = releases.len() - 1;
        let earlier = all_assets(before);
        lemma_rpm_among_releases(before);
        lemma_rpm_position_found(earlier);
        lemma_rpm_position_found(last.assets);
        assert(assets == earlier + last.assets);
        assert forall|q: int, m: int| #[trigger] is_rpm_at(releases, q, m) && q < n implies is_rpm_at(
            before,
            q,
            m,
        ) by {
            assert(before[q] == releases[q]);
        }
        match rpm_url_of(before) {
            Ok(url) => {
                let at = rpm_position(earlier) as int;
                assert forall|i: int| 0 <= i < at implies !".rpm"@.is_suffix_of(
                    (#[trigger] assets[i]).name,
                ) by {
                    assert(assets[i] == earlier[i]);
                }
                assert(assets[at] == earlier[at]);
                lemma_rpm_position(assets, at);
                assert(rpm_url_of(releases) == Ok::<Seq<char>, Seq<char>>(url));
                let (r, k) = choose|r: int, k: int|
                    is_rpm_at(before, r, k) && before[r].assets[k].browser_download_url == url
                        && forall|q: int, m: int| #[trigger]
                        is_rpm_at(before, q, m) ==> r < q || (r == q && k <= m);
                assert(before[r] == releases[r]);
                assert(is_rpm_at(releases, r, k));
                assert forall|q: int, m: int| #[trigger] is_rpm_at(releases, q, m) implies r < q || (r
                    == q && k <= m) by {
                    if q < n {
                        assert(is_rpm_at(before, q, m));
                    }
                }
            },
            Err(_) => {
                let k = rpm_position(last.assets) as int;
                let at = earlier.len() + k;
                assert forall|i: int| 0 <= i < at implies !".rpm"@.is_suffix_of(
                    (#[trigger] assets[i]).name,
                ) by {
                    if i < earlier.len() {
                        assert(assets[i] == earlier[i]);
                    } else {
                        assert(assets[i] == last.assets[i - earlier.len()]);
                    }
                }
                if k < last.assets.len() {
                    assert(assets[at] == last.assets[k]);
                    lemma_rpm_position(assets, at);
                    assert(is_rpm_at(releases, n, k));
                    assert forall|q: int, m: int| #[trigger] is_rpm_at(releases, q, m) implies n < q
                        || (n == q && k <= m) by {
                        if q < n {
                            assert(is_rpm_at(before, q, m));
                        } else if m < k {
                            assert(!".rpm"@.is_suffix_of(last.assets[m].name));
                        }
                    }
                    let (r, kk) = (n, k);
                    assert(releases[r].assets[kk].browser_download_url == rpm_url_of(
                        releases,
                    )->Ok_0);
                } else {
                    lemma_rpm_position(assets, assets.len() as int);
                    assert forall|q: int, m: int| !#[trigger] is_rpm_at(releases, q, m) by {
                        if is_rpm_at(releases, q, m) {
                            if q < n {
                                assert(is_rpm_at(before, q, m));
                            } else {
                                assert(!".rpm"@.is_suffix_of(last.assets[m].name));
                            }
                        }
                    }
                }
            },
        }
    }
}

/// What is done with Packer in full: a build succeeds exactly if it ended with
/// success while nothing was wrong. It is asked to end once its time is up, and ended
/// by force once it did not; any other end is a failure that says why.
pub proof fn packer_ends_as_it_ended(
    watch: PackerWatch,
    success: bool,
    code: Option<i32>,
    message: Seq<char>,
)
    ensures
        ({
            let exited = PackerEventView::Exited { success, code };
            let lost = PackerEventView::WaitFailed { message };
            &&& watch.action(exited) is Succeed <==> watch == PackerWatch::Building && success
            &&& watch.action(exited) is Fail <==> !(watch == PackerWatch::Building && success)
            &&& PackerWatch::Building.action(lost) matches PackerActionView::Fail(m) && has_text(
                m,
                message,
            )
            &&& PackerWatch::Building.action(
                PackerEventView::Exited { success: false, code },
            ) matches PackerActionView::Fail(m) && has_text(m, exit_code_text(code))
            &&& PackerWatch::Building.action(PackerEventView::TimedOut) is Terminate
            &&& PackerWatch::Terminating.action(PackerEventView::TimedOut) is KillAndFail
            &&& PackerWatch::Terminating.action(exited) matches PackerActionView::Fail(m) && m
                == "Packer build timed out after 3600s"@
            &&& PackerWatch::Terminating.action(PackerEventView::TimedOut) matches
                PackerActionView::KillAndFail(m) && m == "Packer build timed out after 3600s"@
        }),
{
    lemma_has_tail("Packer process error: "@, message);
    lemma_has_part("Packer build failed (exit code: "@, exit_code_text(code), ")"@);
    reveal_strlit("Packer build timed out after ");
    reveal_strlit("Packer build timed out after 3600s");
    reveal_strlit("s");
    assert(decimal(3600) =~= seq!['3', '6', '0', '0']) by {
        reveal_with_fuel(decimal, 5);
    }
    assert(packer_timeout_text() =~= "Packer build timed out after 3600s"@);
}

/// Of two files the one that was changed later is newer, and a file with a known
/// change is newer than one without; no file is newer than itself.
pub proof fn later_changes_are_newer(a: Timestamp, b: Timestamp)
    ensures
        is_newer(Some(a), Some(b)) <==> a.secs > b.secs || (a.secs == b.secs && a.nanos > b.nanos),
        is_newer(Some(a), None),
        !is_newer(None, Some(a)),
        !is_newer(None, None),
{
}

/// Of several images the one that is published is not older than any other.
pub proof fn newest_image_is_published(times: Seq<Option<Timestamp>>, at: int, other: int)
    requires
        is_first_newest(times, at),
        0 <= other < times.len(),
    ensures
        0 <= at < times.len(),
        times[other] matches Some(b) ==> (times[at] matches Some(a) && a.at_or_after(b)),
        times[other] == times[at] ==> at <= other,
{
    assert(!is_newer(times[other], times[at]));
    if other < at {
        assert(is_newer(times[at], times[other]));
    }
}

/// What a run reports of its events: which component they concern and how it stands,
/// where it can be looked at, and that the run failed exactly where something did.
/// The other component stays as it was reported.
pub proof fn xoa_reports_say_what_happened(report: AgentStatusView, event: XoaEventView)
    ensures
        ({
            let after = xoa_report(report, event);
            let hl = component_named(after.components, "xoa-hl"@);
            let image = component_named(after.components, "xoa-image"@);
            let hl_before = component_named(report.components, "xoa-hl"@);
            let image_before = component_named(report.components, "xoa-image"@);
            &&& after.timestamp == report.timestamp
            &&& !(event is Entered) ==> after.phase == report.phase
            &&& !(event is WorkflowRunning) ==> after.url == report.url
            &&& event is DispatchFailed || event is WorkflowFailed || event is StageFailed || event
                is ReleaseFailed || event is UploadFailed ==> after.status is Failure
            &&& event is Unchanged || event is AlreadyPublished ==> after.status is Skipped
            &&& event is Entered || event is PackageCurrent || event is WorkflowRunning || event
                is WorkflowSucceeded || event is Uploading || event is Uploaded ==> after.status
                == report.status
            &&& match event {
                XoaEventView::Entered { phase } => after.phase == phase.name_text()
                    && after.components == report.components,
                XoaEventView::Unchanged { head_sha } => has_text(
                    after.detail,
                    short_sha_text(head_sha),
                ) && after.components == report.components,
                XoaEventView::AlreadyPublished { tag, url, short_sha } => {
                    &&& has_text(after.detail, tag)
                    &&& has_text(after.detail, short_sha)
                    &&& hl matches Some(c) && c.status is Skipped
                    &&& image matches Some(c) && c.status is Success && (url.len() > 0 ==> c.url
                        == url)
                },
                XoaEventView::PackageCurrent { url } => {
                    &&& hl matches Some(c) && c.status is Skipped && (url.len() > 0 ==> c.url == url)
                    &&& image == image_before
                    &&& after.detail == report.detail
                },
                XoaEventView::DispatchFailed { message } => {
                    &&& has_text(after.detail, message)
                    &&& hl matches Some(c) && c.status is Failure
                    &&& image == image_before
                },
                XoaEventView::WorkflowRunning { url } => {
                    &&& after.url == url
                    &&& has_text(after.detail, url)
                    &&& hl matches Some(c) && c.status is InProgress && (url.len() > 0 ==> c.url
                        == url)
                    &&& image == image_before
                },
                XoaEventView::WorkflowSucceeded { url } => {
                    &&& after.detail == report.detail
                    &&& hl matches Some(c) && c.status is Success && (url.len() > 0 ==> c.url == url)
                    &&& image == image_before
                },
                XoaEventView::WorkflowFailed { message, url } => {
                    &&& has_text(after.detail, message)
                    &&& hl matches Some(c) && c.status is Failure && (url.len() > 0 ==> c.url == url)
                    &&& image == image_before
                },
                XoaEventView::StageFailed { stage, message } => {
                    &&& has_text(after.detail, message)
                    &&& stage.failure_text().is_prefix_of(after.detail)
                    &&& after.components == report.components
                },
                XoaEventView::ReleaseFailed { message } => {
                    &&& has_text(after.detail, message)
                    &&& image matches Some(c) && c.status is Failure
                    &&& hl == hl_before
                },
                XoaEventView::Uploading { url } => {
                    &&& after.detail == report.detail
                    &&& image matches Some(c) && c.status is InProgress && (url.len() > 0 ==> c.url
                        == url)
                    &&& hl == hl_before
                },
                XoaEventView::UploadFailed { message, url } => {
                    &&& has_text(after.detail, message)
                    &&& image matches Some(c) && c.status is Failure && (url.len() > 0 ==> c.url
                        == url)
                    &&& hl == hl_before
                },
                XoaEventView::Uploaded { url } => {
                    &&& after.detail == report.detail
                    &&& image matches Some(c) && c.status is Success && (url.len() > 0 ==> c.url
                        == url)
                    &&& hl == hl_before
                },
            }
        }),
{
    let none = Seq::<char>::empty();
    match event {
        XoaEventView::Entered { phase } => {},
        XoaEventView::Unchanged { head_sha } => {
            lemma_has_part("No changes (SHA: "@, short_sha_text(head_sha), ")"@);
        },
        XoaEventView::AlreadyPublished { tag, url, short_sha } => {
            let rest = " already published (SHA: "@ + short_sha + ")"@;
            let text = "Image "@ + tag + " already published (SHA: "@ + short_sha + ")"@;
            assert(text =~= "Image "@ + tag + rest);
            lemma_has_part("Image "@, tag, rest);
            lemma_has_part("Image "@ + tag + " already published (SHA: "@, short_sha, ")"@);
            let once = with_component(
                report.components,
                "xoa-hl"@,
                WorkflowStatusView::Skipped,
                none,
            );
            lemma_xoa_component(report.components, true, WorkflowStatusView::Skipped, none);
            lemma_xoa_component(once, false, WorkflowStatusView::Success, url);
        },
        XoaEventView::PackageCurrent { url } => {
            lemma_xoa_component(report.components, true, WorkflowStatusView::Skipped, url);
        },
        XoaEventView::DispatchFailed { message } => {
            lemma_has_tail("Workflow dispatch failed: "@, message);
            lemma_xoa_component(report.components, true, WorkflowStatusView::Failure, none);
        },
        XoaEventView::WorkflowRunning { url } => {
            lemma_has_tail("Waiting for workflow: "@, url);
            lemma_xoa_component(report.components, true, WorkflowStatusView::InProgress, url);
        },
        XoaEventView::WorkflowSucceeded { url } => {
            lemma_xoa_component(report.components, true, WorkflowStatusView::Success, url);
        },
        XoaEventView::WorkflowFailed { message, url } => {
            lemma_has_tail("Workflow failed: "@, message);
            lemma_xoa_component(report.components, true, WorkflowStatusView::Failure, url);
        },
        XoaEventView::StageFailed { stage, message } => {
            lemma_has_tail(stage.failure_text(), message);
            let detail = stage.failure_text() + message;
            assert(detail.subrange(0, stage.failure_text().len() as int) =~= stage.failure_text());
        },
        XoaEventView::ReleaseFailed { message } => {
            lemma_has_tail("Release creation failed: "@, message);
            lemma_xoa_component(report.components, false, WorkflowStatusView::Failure, none);
        },
        XoaEventView::Uploading { url } => {
            lemma_xoa_component(report.components, false, WorkflowStatusView::InProgress, url);
        },
        XoaEventView::UploadFailed { message, url } => {
            lemma_has_tail("Asset upload failed: "@, message);
            lemma_xoa_component(report.components, false, WorkflowStatusView::Failure, url);
        },
        XoaEventView::Uploaded { url } => {
            lemma_xoa_component(report.components, false, WorkflowStatusView::Success, url);
        },
    }
}

proof fn lemma_xoa_component(
    components: Seq<crate::status::ComponentStatusView>,
    package: bool,
    status: WorkflowStatusView,
    url: Seq<char>,
)
    ensures
        ({
            let name = if package {
                "xoa-hl"@
            } else {
                "xoa-image"@
            };
            let other = if package {
                "xoa-image"@
            } else {
                "xoa-hl"@
            };
            let after = with_component(components, name, status, url);
            &&& component_named(after, name) matches Some(c) && c.status == status && (url.len() > 0
                ==> c.url == url)
            &&& component_named(after, other) == component_named(components, other)
        }),
{
    reveal_strlit("xoa-hl");
    reveal_strlit("xoa-image");
    assert("xoa-hl"@.len() == 6 && "xoa-image"@.len() == 9);
    let name = if package {
        "xoa-hl"@
    } else {
        "xoa-image"@
    };
    let other = if package {
        "xoa-image"@
    } else {
        "xoa-hl"@
    };
    crate::status::set_component_is_found(components, name, status, url);
    crate::status::set_component_leaves_others(components, name, status, url, other);
}

/// The report at the end of a run is a success that names the tag and the image; the
/// components stay as they were reported.
pub proof fn finished_report_names_the_image(
    report: AgentStatusView,
    tag: Seq<char>,
    xva_path: Seq<char>,
    now: Timestamp,
)
    ensures
        ({
            let after = finished_report(report, tag, xva_path, now);
            &&& after.status is Success
            &&& after.timestamp == now
            &&& after.components == report.components
            &&& after.url == report.url
            &&& has_text(after.detail, tag)
            &&& has_text(after.detail, xva_path)
        }),
{
    let text = "Build complete. Tag: "@ + tag + ". XVA: "@ + xva_path;
    assert(text =~= "Build complete. Tag: "@ + tag + (". XVA: "@ + xva_path));
    lemma_has_part("Build complete. Tag: "@, tag, ". XVA: "@ + xva_path);
    lemma_has_tail("Build complete. Tag: "@ + tag + ". XVA: "@, xva_path);
}

/// A request to GitHub succeeded exactly if the reply says so; a failure holds what
/// was asked, the status and the body.
pub proof fn failed_requests_are_reported(what: Seq<char>, status: u16, body: Seq<char>)
    ensures
        reply_check(what, status, body) is Ok <==> 200 <= status <= 299,
        reply_check(what, status, body) matches Err(m) ==> has_text(m, body) && has_text(m, what)
            && has_text(m, decimal(status as nat)),
{
    let none = Seq::<char>::empty();
    let m = what + " ("@ + status_text(status) + "): "@ + body;
    lemma_has_tail(what + " ("@ + status_text(status) + "): "@, body);
    let rest = " ("@ + status_text(status) + "): "@ + body;
    assert(m =~= none + what + rest);
    lemma_has_part(none, what, rest);
    let digits = decimal(status as nat);
    let tail = " "@ + github::status_reason(status) + "): "@ + body;
    assert(m =~= (what + " ("@) + digits + tail);
    lemma_has_part(what + " ("@, digits, tail);
}

/// The address for uploads is the one of the reply without the template at its end,
/// and a file goes there under its own name.
pub proof fn uploads_go_to_the_release(address: Seq<char>, name: Seq<char>, other: Seq<char>)
    requires
        !"{?name,label}"@.is_suffix_of(address),
    ensures
        without_suffixes(address + "{?name,label}"@, "{?name,label}"@) == address,
        without_suffixes(address, "{?name,label}"@) == address,
        asset_url_text(address, name) == asset_url_text(address, other) ==> name == other,
{
    reveal_strlit("{?name,label}");
    let p = "{?name,label}"@;
    let whole = address + p;
    assert(whole.subrange(whole.len() - p.len(), whole.len() as int) =~= p);
    assert(whole.take(whole.len() - p.len()) =~= address);
    reveal_with_fuel(without_suffixes, 2);
    let none = Seq::<char>::empty();
    text::lemma_middle_is_determined(address + "?name="@, name, other, none);
    assert(address + "?name="@ + name + none =~= asset_url_text(address, name));
    assert(address + "?name="@ + other + none =~= asset_url_text(address, other));
}

/// The image is published in the repository of the package: a release is made there,
/// found there by its tag, and named after the tag; its workflow is started there.
pub proof fn images_go_to_the_package_repository(tag: Seq<char>)
    ensures
        release_by_tag_url_text(tag)
            == "https://api.github.com/repos/Vagrantin/xoa-hl/releases/tags/"@ + tag,
        new_release_url_text() == "https://api.github.com/repos/Vagrantin/xoa-hl/releases"@,
        workflow_url_text()
            == "https://api.github.com/repos/Vagrantin/xoa-hl/actions/workflows/build-xoa.yml/dispatches"@,
        has_text(image_name_text(tag), tag),
{
    reveal_strlit("https://api.github.com/repos/");
    reveal_strlit("Vagrantin/xoa-hl");
    reveal_strlit("/releases/tags/");
    reveal_strlit("/releases");
    reveal_strlit("/actions/workflows/");
    reveal_strlit("build-xoa.yml");
    reveal_strlit("/dispatches");
    reveal_strlit("https://api.github.com/repos/Vagrantin/xoa-hl/releases/tags/");
    reveal_strlit("https://api.github.com/repos/Vagrantin/xoa-hl/releases");
    reveal_strlit(
        "https://api.github.com/repos/Vagrantin/xoa-hl/actions/workflows/build-xoa.yml/dispatches",
    );
    assert("https://api.github.com/repos/"@ + XOA_HL_REPO@ + "/releases/tags/"@
        =~= "https://api.github.com/repos/Vagrantin/xoa-hl/releases/tags/"@);
    assert(new_release_url_text() =~= "https://api.github.com/repos/Vagrantin/xoa-hl/releases"@);
    assert(workflow_url_text()
        =~= "https://api.github.com/repos/Vagrantin/xoa-hl/actions/workflows/build-xoa.yml/dispatches"@);
    lemma_has_tail("XOA HomeLab Edition - "@, tag);
}

/// Reports tell the phases of a run apart, and the stages at which it failed.
pub proof fn phases_and_stages_differ(a: Phase, b: Phase, c: Stage, d: Stage)
    ensures
        a.name_text() == b.name_text() ==> a == b,
        c.failure_text() == d.failure_text() ==> c == d,
        "phase_"@.is_prefix_of(a.name_text()),
{
    reveal_strlit("phase_");
    reveal_strlit("phase_1_check_rebuild");
    reveal_strlit("phase_2_trigger_workflow");
    reveal_strlit("phase_3_validate_prerequisites");
    reveal_strlit("phase_4_sync_repo");
    reveal_strlit("phase_5_resolve_values");
    reveal_strlit("phase_6_generate_files");
    reveal_strlit("phase_7_run_packer");
    reveal_strlit("phase_8_locate_xva");
    reveal_strlit("phase_9_upload_asset");
    reveal_strlit("phase_10_persist_state");
    assert(a.name_text().subrange(0, 6) =~= "phase_"@);
    assert("phase_1_check_rebuild"@[6] == '1' && "phase_1_check_rebuild"@[7] == '_');
    assert("phase_2_trigger_workflow"@[6] == '2');
    assert("phase_3_validate_prerequisites"@[6] == '3');
    assert("phase_4_sync_repo"@[6] == '4');
    assert("phase_5_resolve_values"@[6] == '5');
    assert("phase_6_generate_files"@[6] == '6');
    assert("phase_7_run_packer"@[6] == '7');
    assert("phase_8_locate_xva"@[6] == '8');
    assert("phase_9_upload_asset"@[6] == '9');
    assert("phase_10_persist_state"@[6] == '1' && "phase_10_persist_state"@[7] == '0');
    reveal_strlit("Prerequisite check failed: ");
    reveal_strlit("Repository sync failed: ");
    reveal_strlit("Build config invalid: ");
    reveal_strlit("Value resolution failed: ");
    reveal_strlit("Build file generation failed: ");
    reveal_strlit("Packer error: ");
    reveal_strlit("XVA not found: ");
    assert("Prerequisite check failed: "@.len() == 27 && "Repository sync failed: "@.len() == 24);
    assert("Build config invalid: "@.len() == 22 && "Value resolution failed: "@.len() == 25);
    assert("Build file generation failed: "@.len() == 30 && "Packer error: "@.len() == 14);
    assert("XVA not found: "@.len() == 15);
}

/// The ports that have to be free are those from 8000 to 8009, and 9000.
pub proof fn ports_of_packer(port: u16)
    ensures
        port_list().contains(port) <==> 8000 <= port <= 8009 || port == 9000,
{
    let ports = port_list();
    if 8000 <= port <= 8009 {
        assert(ports[port - 8000] == port);
    }
    if port == 9000 {
        assert(ports[10] == port);
    }
}

/// The scripts are cloned where there are none yet, and else fetched and then reset to
/// what was fetched; nothing comes after either.
pub proof fn scripts_are_cloned_or_renewed()
    ensures
        GitStep::first_step(false) == GitStep::Clone,
        GitStep::Clone.followed_by() is None,
        GitStep::first_step(true) == GitStep::Fetch,
        GitStep::Fetch.followed_by() == Some(GitStep::Reset),
        GitStep::Reset.followed_by() is None,
{
}

/// The checks are made in their order, Packer itself first, and the machine is ready
/// once the last one is passed.
pub proof fn checks_are_made_in_turn(finding: FindingView)
    ensures
        readiness_after(Seq::empty()) == ReadinessView::Check(Prerequisite::PackerVersion),
        ({
            let asked = ReadinessView::Check(finding.subject());
            let next = asked.after(finding);
            &&& finding.verdict() is None <==> next == ReadinessView::Uncountable
            &&& next is NotReady <==> finding.verdict() is Some && finding.verdict()->0 is Err
            &&& finding.verdict() == Some(Ok::<(), Seq<char>>(())) ==> match finding {
                FindingView::PackerVersion { .. } => next == ReadinessView::Check(
                    Prerequisite::Plugin,
                ),
                FindingView::Plugin { .. } => next == ReadinessView::Check(Prerequisite::DiskSpace),
                FindingView::DiskSpace { .. } => next == ReadinessView::Check(Prerequisite::Ports),
                FindingView::Ports { .. } => next == ReadinessView::Ready,
            }
            &&& finding.verdict() matches Some(Err(m)) ==> next == ReadinessView::NotReady(m)
        }),
        ReadinessView::Ready.after(finding) == ReadinessView::Ready,
{
}

} // verus!
