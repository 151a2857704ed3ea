//! Requests to the GitHub API, and what their replies mean.

use crate::clock::Timestamp;
use crate::error::{outcome, OrchestratorError, OrchestratorErrorView};
use crate::tags;
use crate::tags::{collision_count, next_tag, tag_counter};
use crate::text;
use crate::text::{decimal, has_text, joined, text_lines};
use crate::types::{
    GHJobView, GHJobsResponse, GHRun, GHRunView, GHRunsResponse, RefObject, RefObjectView,
};
use crate::{DEFAULT_BRANCH, OWNER};
use vstd::prelude::*;
use vstd::utf8::encode_utf8;

verus! {

// ── Authentication ─────────────────────────────────────────────────────────

/// Some bytes can stand in a header: no control characters but tabs.
pub open spec fn is_header_value(bytes: Seq<u8>) -> bool {
    forall|i: int|
        0 <= i < bytes.len() ==> (#[trigger] bytes[i] >= 32 && bytes[i] != 127) || bytes[i] == 9
}

/// `reqwest::header::HeaderValue::from_str`: accepts exactly the texts whose
/// bytes can stand in a header; its error always has the same text.
#[verifier::external_body]
fn check_header_value(value: &str) -> (r: Result<(), String>)
    ensures
        r is Ok <==> is_header_value(encode_utf8(value@)),
        r is Err ==> r->Err_0@ == "failed to parse header value"@,
{
    reqwest::header::HeaderValue::from_str(value).map(|_| ()).map_err(|e| e.to_string())
}

/// The headers of every request: who asks, with what, and for which format.
pub open spec fn github_headers_for(token: Seq<char>) -> Result<
    Seq<(Seq<char>, Seq<char>)>,
    OrchestratorErrorView,
> {
    let bearer = "Bearer "@ + token;
    if is_header_value(encode_utf8(bearer)) {
        Ok(
            seq![
                ("Authorization"@, bearer),
                ("User-Agent"@, "XCP-Orchestrator-Rust-Agent"@),
                ("Accept"@, "application/vnd.github+json"@),
            ],
        )
    } else {
        Err(
            OrchestratorErrorView::GitHubApi(
                "header creation"@,
                "failed to parse header value"@,
            ),
        )
    }
}

/// The headers of every request with a token. Fails for a token that cannot
/// stand in a header.
pub fn github_headers(token: &str) -> (headers: Result<Vec<(String, String)>, OrchestratorError>)
    ensures
        outcome(headers) == github_headers_for(token@),
{
    let bearer = "Bearer ".to_string().concat(token);
    match check_header_value(&bearer) {
        Ok(()) => {
            let headers = vec![
                ("Authorization".to_string(), bearer),
                ("User-Agent".to_string(), "XCP-Orchestrator-Rust-Agent".to_string()),
                ("Accept".to_string(), "application/vnd.github+json".to_string()),
            ];
            assert(headers.deep_view() =~= github_headers_for(token@)->Ok_0);
            Ok(headers)
        },
        Err(m) => Err(OrchestratorError::GitHubApi("header creation".to_string(), m)),
    }
}

// ── Replies ────────────────────────────────────────────────────────────────

/// The status of a reply is one that HTTP knows of.
pub open spec fn is_status(status: u16) -> bool {
    100 <= status <= 999
}

/// The reply says that the request succeeded.
pub open spec fn is_success(status: u16) -> bool {
    200 <= status < 300
}

/// The reason that `reqwest` gives for a status.
pub uninterp spec fn status_reason(status: u16) -> Seq<char>;

/// A status as it is shown: its code and its reason.
pub open spec fn status_text(status: u16) -> Seq<char> {
    decimal(status as nat) + " "@ + status_reason(status)
}

/// `std::fmt::Display` for `reqwest::StatusCode`: the code in decimal digits and,
/// after a space, a reason that is determined by the code.
#[verifier::external_body]
pub(crate) fn show_status(status: u16) -> (shown: String)
    requires
        is_status(status),
    ensures
        shown@ == decimal(status as nat) + " "@ + status_reason(status),
{
    reqwest::StatusCode::from_u16(status).unwrap().to_string()
}

/// The body of a reply to a request, or the error that it stands for.
pub open spec fn reply_body(status: u16, body: Seq<char>, context: Seq<char>) -> Result<
    Seq<char>,
    OrchestratorErrorView,
> {
    if is_success(status) {
        Ok(body)
    } else {
        Err(
            OrchestratorErrorView::GitHubApi(
                context + " (status "@ + status_text(status) + ")"@,
                body,
            ),
        )
    }
}

/// The body of a reply, to be read as JSON; every status but a successful one is
/// an error that names the request, the status and the body.
pub fn parse_github_response(status: u16, body: String, context: &str) -> (r: Result<
    String,
    OrchestratorError,
>)
    requires
        is_status(status),
    ensures
        outcome(r) == reply_body(status, body@, context@),
{
    if status >= 200 && status < 300 {
        Ok(body)
    } else {
        Err(
            OrchestratorError::GitHubApi(
                context.to_string().concat(" (status ").concat(&show_status(status)).concat(")"),
                body,
            ),
        )
    }
}

/// The body of a reply about something that may not exist: nothing if the reply
/// says that it was not found.
pub open spec fn optional_reply_body(status: u16, body: Seq<char>, context: Seq<char>) -> Result<
    Option<Seq<char>>,
    OrchestratorErrorView,
> {
    if status == 404 {
        Ok(None)
    } else {
        match reply_body(status, body, context) {
            Ok(b) => Ok(Some(b)),
            Err(e) => Err(e),
        }
    }
}

/// The body of a reply about something that may not exist.
pub fn parse_optional_response(status: u16, body: String, context: &str) -> (r: Result<
    Option<String>,
    OrchestratorError,
>)
    requires
        is_status(status),
    ensures
        outcome(r) == optional_reply_body(status, body@, context@),
{
    if status == 404 {
        Ok(None)
    } else {
        match parse_github_response(status, body, context) {
            Ok(b) => Ok(Some(b)),
            Err(e) => Err(e),
        }
    }
}

// ── Addresses ──────────────────────────────────────────────────────────────

/// The newest commit of a repository.
pub open spec fn head_url_text(repo: Seq<char>) -> Seq<char> {
    "https://api.github.com/repos/"@ + OWNER@ + "/"@ + repo + "/commits/"@ + DEFAULT_BRANCH@
}

/// The newest commit of a repository.
pub fn head_url(repo: &str) -> (text: String)
    ensures
        text@ == head_url_text(repo@),
{
    "https://api.github.com/repos/".to_string()
        .concat(OWNER)
        .concat("/")
        .concat(repo)
        .concat("/commits/")
        .concat(DEFAULT_BRANCH)
}

/// What is asked of the newest commit.
pub open spec fn head_context_text(repo: Seq<char>) -> Seq<char> {
    "fetch_repo_head_sha for "@ + repo
}

/// What is asked of the newest commit.
pub fn head_context(repo: &str) -> (text: String)
    ensures
        text@ == head_context_text(repo@),
{
    "fetch_repo_head_sha for ".to_string().concat(repo)
}

/// Where the tags of a repository are made.
pub open spec fn refs_url_text(repo: Seq<char>) -> Seq<char> {
    "https://api.github.com/repos/"@ + OWNER@ + "/"@ + repo + "/git/refs"@
}

/// Where the tags of a repository are made.
pub fn refs_url(repo: &str) -> (text: String)
    ensures
        text@ == refs_url_text(repo@),
{
    "https://api.github.com/repos/".to_string()
        .concat(OWNER)
        .concat("/")
        .concat(repo)
        .concat("/git/refs")
}

/// The latest published release of a repository.
pub open spec fn latest_release_url_text(repo: Seq<char>) -> Seq<char> {
    "https://api.github.com/repos/"@ + OWNER@ + "/"@ + repo + "/releases/latest"@
}

/// The latest published release of a repository.
pub fn latest_release_url(repo: &str) -> (text: String)
    ensures
        text@ == latest_release_url_text(repo@),
{
    "https://api.github.com/repos/".to_string()
        .concat(OWNER)
        .concat("/")
        .concat(repo)
        .concat("/releases/latest")
}

/// What is asked of the latest release.
pub open spec fn latest_release_context_text(repo: Seq<char>) -> Seq<char> {
    "fetch_latest_release_ref for "@ + repo
}

/// What is asked of the latest release.
pub fn latest_release_context(repo: &str) -> (text: String)
    ensures
        text@ == latest_release_context_text(repo@),
{
    "fetch_latest_release_ref for ".to_string().concat(repo)
}

/// What a tag of a repository points at.
pub open spec fn tag_ref_url_text(repo: Seq<char>, tag: Seq<char>) -> Seq<char> {
    "https://api.github.com/repos/"@ + OWNER@ + "/"@ + repo + "/git/ref/tags/"@ + tag
}

/// What a tag of a repository points at.
pub fn tag_ref_url(repo: &str, tag: &str) -> (text: String)
    ensures
        text@ == tag_ref_url_text(repo@, tag@),
{
    "https://api.github.com/repos/".to_string()
        .concat(OWNER)
        .concat("/")
        .concat(repo)
        .concat("/git/ref/tags/")
        .concat(tag)
}

/// What is asked of a tag.
pub open spec fn tag_ref_context_text(repo: Seq<char>, tag: Seq<char>) -> Seq<char> {
    "fetch_tag_commit_sha for "@ + tag + " on "@ + repo
}

/// What is asked of a tag.
pub fn tag_ref_context(repo: &str, tag: &str) -> (text: String)
    ensures
        text@ == tag_ref_context_text(repo@, tag@),
{
    "fetch_tag_commit_sha for ".to_string().concat(tag).concat(" on ").concat(repo)
}

/// An annotated tag of a repository, by the SHA of the tag itself.
pub open spec fn tag_object_url_text(repo: Seq<char>, sha: Seq<char>) -> Seq<char> {
    "https://api.github.com/repos/"@ + OWNER@ + "/"@ + repo + "/git/tags/"@ + sha
}

/// An annotated tag of a repository, by the SHA of the tag itself.
pub fn tag_object_url(repo: &str, sha: &str) -> (text: String)
    ensures
        text@ == tag_object_url_text(repo@, sha@),
{
    "https://api.github.com/repos/".to_string()
        .concat(OWNER)
        .concat("/")
        .concat(repo)
        .concat("/git/tags/")
        .concat(sha)
}

/// What is asked of an annotated tag.
pub open spec fn tag_object_context_text(repo: Seq<char>, tag: Seq<char>) -> Seq<char> {
    "dereference annotated tag "@ + tag + " on "@ + repo
}

/// What is asked of an annotated tag.
pub fn tag_object_context(repo: &str, tag: &str) -> (text: String)
    ensures
        text@ == tag_object_context_text(repo@, tag@),
{
    "dereference annotated tag ".to_string().concat(tag).concat(" on ").concat(repo)
}

/// The releases of a repository, newest first.
pub open spec fn releases_url_text(repo: Seq<char>, per_page: u8) -> Seq<char> {
    "https://api.github.com/repos/"@ + OWNER@ + "/"@ + repo + "/releases?per_page="@
        + decimal(per_page as nat)
}

/// The releases of a repository, newest first.
pub fn releases_url(repo: &str, per_page: u8) -> (text: String)
    ensures
        text@ == releases_url_text(repo@, per_page),
{
    "https://api.github.com/repos/".to_string()
        .concat(OWNER)
        .concat("/")
        .concat(repo)
        .concat("/releases?per_page=")
        .concat(&text::decimal_of(per_page as u64))
}

/// What is asked of the releases.
pub open spec fn releases_context_text(repo: Seq<char>) -> Seq<char> {
    "fetch_releases for "@ + repo
}

/// What is asked of the releases.
pub fn releases_context(repo: &str) -> (text: String)
    ensures
        text@ == releases_context_text(repo@),
{
    "fetch_releases for ".to_string().concat(repo)
}

/// A workflow run.
pub open spec fn run_url_text(repo: Seq<char>, run_id: u64) -> Seq<char> {
    "https://api.github.com/repos/"@ + OWNER@ + "/"@ + repo + "/actions/runs/"@
        + decimal(run_id as nat)
}

/// A workflow run.
pub fn run_url(repo: &str, run_id: u64) -> (text: String)
    ensures
        text@ == run_url_text(repo@, run_id),
{
    "https://api.github.com/repos/".to_string()
        .concat(OWNER)
        .concat("/")
        .concat(repo)
        .concat("/actions/runs/")
        .concat(&text::decimal_of(run_id))
}

/// The jobs of a workflow run.
pub open spec fn jobs_url_text(repo: Seq<char>, run_id: u64) -> Seq<char> {
    "https://api.github.com/repos/"@ + OWNER@ + "/"@ + repo + "/actions/runs/"@
        + decimal(run_id as nat) + "/jobs"@
}

/// The jobs of a workflow run.
pub fn jobs_url(repo: &str, run_id: u64) -> (text: String)
    ensures
        text@ == jobs_url_text(repo@, run_id),
{
    "https://api.github.com/repos/".to_string()
        .concat(OWNER)
        .concat("/")
        .concat(repo)
        .concat("/actions/runs/")
        .concat(&text::decimal_of(run_id))
        .concat("/jobs")
}

/// The log of a job.
pub open spec fn job_logs_url_text(repo: Seq<char>, job_id: u64) -> Seq<char> {
    "https://api.github.com/repos/"@ + OWNER@ + "/"@ + repo + "/actions/jobs/"@
        + decimal(job_id as nat) + "/logs"@
}

/// The log of a job.
pub fn job_logs_url(repo: &str, job_id: u64) -> (text: String)
    ensures
        text@ == job_logs_url_text(repo@, job_id),
{
    "https://api.github.com/repos/".to_string()
        .concat(OWNER)
        .concat("/")
        .concat(repo)
        .concat("/actions/jobs/")
        .concat(&text::decimal_of(job_id))
        .concat("/logs")
}

/// Where a workflow is started.
pub open spec fn dispatch_url_text(repo: Seq<char>, workflow_file: Seq<char>) -> Seq<char> {
    "https://api.github.com/repos/"@ + OWNER@ + "/"@ + repo + "/actions/workflows/"@
        + workflow_file + "/dispatches"@
}

/// Where a workflow is started.
pub fn dispatch_url(repo: &str, workflow_file: &str) -> (text: String)
    ensures
        text@ == dispatch_url_text(repo@, workflow_file@),
{
    "https://api.github.com/repos/".to_string()
        .concat(OWNER)
        .concat("/")
        .concat(repo)
        .concat("/actions/workflows/")
        .concat(workflow_file)
        .concat("/dispatches")
}

/// What is asked when a workflow is started.
pub open spec fn dispatch_context_text(repo: Seq<char>) -> Seq<char> {
    "dispatch_workflow for "@ + repo
}

/// What is asked when a workflow is started.
pub fn dispatch_context(repo: &str) -> (text: String)
    ensures
        text@ == dispatch_context_text(repo@),
{
    "dispatch_workflow for ".to_string().concat(repo)
}

// ── Tags ───────────────────────────────────────────────────────────────────

/// What a tag points at.
#[derive(Debug)]
pub enum TagTarget {
    /// The commit with this SHA.
    Commit(String),
    /// An annotated tag with this SHA, which has to be looked up in turn.
    Annotated(String),
}

/// What a [`TagTarget`] says.
pub enum TagTargetView {
    Commit(Seq<char>),
    Annotated(Seq<char>),
}

impl View for TagTarget {
    type V = TagTargetView;

    open spec fn view(&self) -> TagTargetView {
        match self {
            TagTarget::Commit(sha) => TagTargetView::Commit(sha@),
            TagTarget::Annotated(sha) => TagTargetView::Annotated(sha@),
        }
    }
}

/// What the object of a reference means.
pub open spec fn tag_target_of(object: RefObjectView) -> TagTargetView {
    if object.object_type == "tag"@ {
        TagTargetView::Annotated(object.sha)
    } else {
        TagTargetView::Commit(object.sha)
    }
}

/// What the object of a reference means: only an annotated tag needs another
/// look-up.
pub fn tag_target(object: &RefObject) -> (target: TagTarget)
    ensures
        target@ == tag_target_of(object@),
{
    if text::same(&object.object_type, "tag") {
        TagTarget::Annotated(object.sha.clone())
    } else {
        TagTarget::Commit(object.sha.clone())
    }
}

/// How many times a tag is tried under changing names.
pub const MAX_TAG_ATTEMPTS: u32 = 99;

/// A tag on its way to a repository. Where a name is taken, the next one is
/// tried.
#[derive(Debug)]
pub struct TagPush {
    pub repo: String,
    /// The name that was asked for.
    pub base_tag: String,
    pub sha: String,
    /// The name that is tried now.
    pub tag: String,
    /// How many names were found taken.
    pub attempt: u32,
}

/// What a [`TagPush`] holds.
pub struct TagPushView {
    pub repo: Seq<char>,
    pub base_tag: Seq<char>,
    pub sha: Seq<char>,
    pub tag: Seq<char>,
    pub attempt: u32,
}

impl View for TagPush {
    type V = TagPushView;

    open spec fn view(&self) -> TagPushView {
        TagPushView {
            repo: self.repo@,
            base_tag: self.base_tag@,
            sha: self.sha@,
            tag: self.tag@,
            attempt: self.attempt,
        }
    }
}

/// What becomes of a tag after a reply.
#[derive(Debug)]
pub enum TagPushStep {
    /// The next name is to be tried.
    Retry,
    /// The tag stands under this name.
    Pushed(String),
    Failed(OrchestratorError),
}

/// What a [`TagPushStep`] says.
pub enum TagPushStepView {
    Retry,
    Pushed(Seq<char>),
    Failed(OrchestratorErrorView),
}

impl View for TagPushStep {
    type V = TagPushStepView;

    open spec fn view(&self) -> TagPushStepView {
        match self {
            TagPushStep::Retry => TagPushStepView::Retry,
            TagPushStep::Pushed(tag) => TagPushStepView::Pushed(tag@),
            TagPushStep::Failed(e) => TagPushStepView::Failed(e@),
        }
    }
}

/// The tag that is tried after `tries` names were found taken; `None` once
/// there is no next name.
pub open spec fn nth_tag(base_tag: Seq<char>, tries: nat) -> Option<Seq<char>>
    decreases tries,
{
    if tries == 0 {
        Some(base_tag)
    } else {
        match nth_tag(base_tag, (tries - 1) as nat) {
            Some(tag) => next_tag(tag),
            None => None,
        }
    }
}

/// The reply says that the name is taken.
pub open spec fn is_taken(status: u16, body: Seq<char>) -> bool {
    status == 422 && has_text(body, "Reference already exists"@)
}

impl TagPushView {
    /// The tag that is tried now is the one that follows from the names found
    /// taken, and the tries are not used up.
    pub open spec fn well_formed(self) -> bool {
        &&& self.attempt < MAX_TAG_ATTEMPTS
        &&& nth_tag(self.base_tag, self.attempt as nat) == Some(self.tag)
    }

    /// After a name was found taken, the tries are used up.
    pub open spec fn is_last(self) -> bool {
        self.attempt + 1 >= MAX_TAG_ATTEMPTS
    }

    /// The tag as it is tried next.
    pub open spec fn retried(self) -> TagPushView {
        TagPushView {
            tag: next_tag(self.tag)->0,
            attempt: (self.attempt + 1) as u32,
            ..self
        }
    }

    /// What a reply means for the tag.
    pub open spec fn step(self, status: u16, body: Seq<char>) -> TagPushStepView {
        if is_success(status) {
            TagPushStepView::Pushed(self.tag)
        } else if is_taken(status, body) {
            if self.is_last() {
                TagPushStepView::Failed(
                    OrchestratorErrorView::TagCreation(
                        "Failed to create tag on "@ + self.repo + ": tried "@ + self.base_tag
                            + " through "@ + self.tag + " (all exist), giving up"@,
                    ),
                )
            } else if next_tag(self.tag) is Some {
                TagPushStepView::Retry
            } else {
                TagPushStepView::Failed(
                    OrchestratorErrorView::TagCreation(
                        "Tag "@ + self.tag
                            + " already exists and no increment strategy applies to it"@,
                    ),
                )
            }
        } else {
            TagPushStepView::Failed(
                OrchestratorErrorView::GitHubApi(
                    "create_and_push_tag for "@ + self.repo,
                    "Failed to create tag "@ + self.tag + ": "@ + body,
                ),
            )
        }
    }
}

impl TagPush {
    /// A tag that is to be pushed to a repository, at a commit.
    pub fn new(repo: &str, base_tag: &str, sha: &str) -> (push: Self)
        ensures
            push@ == (TagPushView {
                repo: repo@,
                base_tag: base_tag@,
                sha: sha@,
                tag: base_tag@,
                attempt: 0,
            }),
            push@.well_formed(),
    {
        TagPush {
            repo: repo.to_string(),
            base_tag: base_tag.to_string(),
            sha: sha.to_string(),
            tag: base_tag.to_string(),
            attempt: 0,
        }
    }

    /// The reference to make.
    pub fn reference(&self) -> (name: String)
        ensures
            name@ == "refs/tags/"@ + self@.tag,
    {
        "refs/tags/".to_string().concat(&self.tag)
    }

    /// The error of a request that could not be sent, or of a reply that could
    /// not be read.
    pub fn unsent(&self, message: &str) -> (e: OrchestratorError)
        ensures
            e@ == OrchestratorErrorView::GitHubApi(self@.tag, message@),
    {
        OrchestratorError::GitHubApi(self.tag.clone(), message.to_string())
    }

    /// Whether the name that is tried has a successor to count up to.
    pub fn can_count_up(&self) -> (yes: bool)
        ensures
            yes == (tag_counter(self@.tag) != Some(u32::MAX)),
    {
        match tags::counter_of_tag(&self.tag) {
            Some(counter) => counter != u32::MAX,
            None => true,
        }
    }

    /// Takes a reply in: done, failed, or to be tried again under the next name.
    pub fn step(&mut self, status: u16, body: &str) -> (next: TagPushStep)
        requires
            old(self)@.well_formed(),
            is_taken(status, body@) && !old(self)@.is_last() ==> tag_counter(old(self)@.tag) != Some(
                u32::MAX,
            ),
        ensures
            next@ == old(self)@.step(status, body@),
            final(self)@ == (if next@ is Retry {
                old(self)@.retried()
            } else {
                old(self)@
            }),
            final(self)@.well_formed(),
    {
        if status >= 200 && status < 300 {
            return TagPushStep::Pushed(self.tag.clone());
        }
        if status == 422 && text::contains(body, "Reference already exists") {
            if self.attempt + 1 >= MAX_TAG_ATTEMPTS {
                return TagPushStep::Failed(
                    OrchestratorError::TagCreation(
                        "Failed to create tag on ".to_string()
                            .concat(&self.repo)
                            .concat(": tried ")
                            .concat(&self.base_tag)
                            .concat(" through ")
                            .concat(&self.tag)
                            .concat(" (all exist), giving up"),
                    ),
                );
            }
            return match tags::next_tag_candidate(&self.tag) {
                Some(next) => {
                    self.tag = next;
                    self.attempt = self.attempt + 1;
                    TagPushStep::Retry
                },
                None => TagPushStep::Failed(
                    OrchestratorError::TagCreation(
                        "Tag ".to_string()
                            .concat(&self.tag)
                            .concat(" already exists and no increment strategy applies to it"),
                    ),
                ),
            };
        }
        TagPushStep::Failed(
            OrchestratorError::GitHubApi(
                "create_and_push_tag for ".to_string().concat(&self.repo),
                "Failed to create tag ".to_string().concat(&self.tag).concat(": ").concat(body),
            ),
        )
    }
}

// ── Workflow runs ──────────────────────────────────────────────────────────

/// How long a run is searched for, in seconds.
pub const SEARCH_LIMIT_SECS: u64 = 180;

/// How long to wait before each look at the runs, in seconds.
pub const SEARCH_DELAY_SECS: u64 = 6;

/// How much earlier than its trigger a run may claim to be made, in seconds:
/// the two clocks may differ.
pub const CLOCK_SKEW_SECS: u32 = 5;

/// What started a run.
#[derive(Debug)]
pub enum Trigger {
    /// The push of a tag: the run carries the name of the tag as its branch, or
    /// no branch at all.
    TagPush(String),
    /// A dispatch through the API: the moment is all that tells.
    Dispatch,
}

/// What a [`Trigger`] says.
pub enum TriggerView {
    TagPush(Seq<char>),
    Dispatch,
}

impl View for Trigger {
    type V = TriggerView;

    open spec fn view(&self) -> TriggerView {
        match self {
            Trigger::TagPush(tag) => TriggerView::TagPush(tag@),
            Trigger::Dispatch => TriggerView::Dispatch,
        }
    }
}

/// The search for the run that something started.
#[derive(Debug)]
pub struct RunSearch {
    pub repo: String,
    pub trigger: Trigger,
    /// When the run was triggered.
    pub marker: Timestamp,
}

/// What a [`RunSearch`] holds.
pub struct RunSearchView {
    pub repo: Seq<char>,
    pub trigger: TriggerView,
    pub marker: Timestamp,
}

impl View for RunSearch {
    type V = RunSearchView;

    open spec fn view(&self) -> RunSearchView {
        RunSearchView { repo: self.repo@, trigger: self.trigger@, marker: self.marker }
    }
}

/// What to do next in a search.
#[derive(Debug)]
pub enum SearchStep {
    /// Wait this many seconds, then look at the runs.
    LookAfter(u64),
    GiveUp(OrchestratorError),
}

/// What a [`SearchStep`] says.
pub enum SearchStepView {
    LookAfter(u64),
    GiveUp(OrchestratorErrorView),
}

impl View for SearchStep {
    type V = SearchStepView;

    open spec fn view(&self) -> SearchStepView {
        match self {
            SearchStep::LookAfter(secs) => SearchStepView::LookAfter(*secs),
            SearchStep::GiveUp(e) => SearchStepView::GiveUp(e@),
        }
    }
}

impl RunSearchView {
    /// The marker is a moment from which the skew can be taken.
    pub open spec fn well_formed(self) -> bool {
        self.marker.in_calendar() && self.marker.can_go_back(CLOCK_SKEW_SECS)
    }

    /// A run is new enough to have been started by the trigger.
    pub open spec fn is_recent(self, run: GHRunView) -> bool {
        run.created_at.at_or_after(self.marker.back(CLOCK_SKEW_SECS))
    }

    /// A run is the one that is searched for.
    pub open spec fn matches_run(self, run: GHRunView) -> bool {
        match self.trigger {
            TriggerView::TagPush(tag) => run.head_branch == Some(tag) || (run.head_branch is None
                && self.is_recent(run)),
            TriggerView::Dispatch => self.is_recent(run),
        }
    }

    /// The first run of a list that is searched for.
    pub open spec fn first_match(self, runs: Seq<GHRunView>) -> Option<(u64, Seq<char>)>
        decreases runs.len(),
    {
        if runs.len() == 0 {
            None
        } else if self.matches_run(runs[0]) {
            Some((runs[0].id, runs[0].html_url))
        } else {
            self.first_match(runs.drop_first())
        }
    }

    /// Where the runs are listed.
    pub open spec fn url(self) -> Seq<char> {
        match self.trigger {
            TriggerView::TagPush(_) =>
                "https://api.github.com/repos/"@ + OWNER@ + "/"@ + self.repo
                    + "/actions/runs?event=push&per_page=5"@,
            TriggerView::Dispatch =>
                "https://api.github.com/repos/"@ + OWNER@ + "/"@ + self.repo
                    + "/actions/runs?event=workflow_dispatch&per_page=10"@,
        }
    }

    /// What is asked of the runs.
    pub open spec fn context(self) -> Seq<char> {
        match self.trigger {
            TriggerView::TagPush(tag) =>
                "locate_tag_triggered_run for "@ + tag + " on "@ + self.repo,
            TriggerView::Dispatch => "locate_dispatch_triggered_run for "@ + self.repo,
        }
    }

    /// Why the search was given up.
    pub open spec fn not_found(self) -> OrchestratorErrorView {
        OrchestratorErrorView::WorkflowRunNotFound(
            match self.trigger {
                TriggerView::TagPush(tag) =>
                    "Timeout waiting for tag-push run matching "@ + tag + " in repo "@ + self.repo,
                TriggerView::Dispatch =>
                    "Timeout waiting for workflow_dispatch-triggered run in repo "@ + self.repo,
            },
        )
    }
}

impl RunSearch {
    /// The search for the run that the push of a tag started.
    pub fn for_tag_push(repo: &str, tag: &str, marker: Timestamp) -> (search: Self)
        ensures
            search@ == (RunSearchView {
                repo: repo@,
                trigger: TriggerView::TagPush(tag@),
                marker,
            }),
    {
        RunSearch { repo: repo.to_string(), trigger: Trigger::TagPush(tag.to_string()), marker }
    }

    /// The search for the run that a dispatch started.
    pub fn for_dispatch(repo: &str, marker: Timestamp) -> (search: Self)
        ensures
            search@ == (RunSearchView { repo: repo@, trigger: TriggerView::Dispatch, marker }),
    {
        RunSearch { repo: repo.to_string(), trigger: Trigger::Dispatch, marker }
    }

    /// Whether the marker is a moment that a search can start from.
    pub fn can_search(&self) -> (yes: bool)
        ensures
            yes == self@.well_formed(),
    {
        self.marker.is_in_calendar() && self.marker.has_room_before(CLOCK_SKEW_SECS)
    }

    /// Where the runs are listed.
    pub fn url(&self) -> (url: String)
        ensures
            url@ == self@.url(),
    {
        match &self.trigger {
            Trigger::TagPush(_) =>
                "https://api.github.com/repos/".to_string()
                    .concat(OWNER)
                    .concat("/")
                    .concat(&self.repo)
                    .concat("/actions/runs?event=push&per_page=5"),
            Trigger::Dispatch =>
                "https://api.github.com/repos/".to_string()
                    .concat(OWNER)
                    .concat("/")
                    .concat(&self.repo)
                    .concat("/actions/runs?event=workflow_dispatch&per_page=10"),
        }
    }

    /// What is asked of the runs.
    pub fn context(&self) -> (context: String)
        ensures
            context@ == self@.context(),
    {
        match &self.trigger {
            Trigger::TagPush(tag) =>
                "locate_tag_triggered_run for ".to_string()
                    .concat(tag)
                    .concat(" on ")
                    .concat(&self.repo),
            Trigger::Dispatch => "locate_dispatch_triggered_run for ".to_string().concat(&self.repo),
        }
    }

    /// The error of a request that could not be sent.
    pub fn unsent(&self, message: &str) -> (e: OrchestratorError)
        ensures
            e@ == OrchestratorErrorView::GitHubApi(
                match self@.trigger {
                    TriggerView::TagPush(tag) => tag,
                    TriggerView::Dispatch => self@.repo,
                },
                message@,
            ),
    {
        let about = match &self.trigger {
            Trigger::TagPush(tag) => tag.clone(),
            Trigger::Dispatch => self.repo.clone(),
        };
        OrchestratorError::GitHubApi(about, message.to_string())
    }

    /// What to do next, after so many whole seconds of search.
    pub fn next(&self, elapsed_secs: u64) -> (step: SearchStep)
        ensures
            step@ == (if elapsed_secs < SEARCH_LIMIT_SECS {
                SearchStepView::LookAfter(SEARCH_DELAY_SECS)
            } else {
                SearchStepView::GiveUp(self@.not_found())
            }),
    {
        if elapsed_secs < SEARCH_LIMIT_SECS {
            return SearchStep::LookAfter(SEARCH_DELAY_SECS);
        }
        let message = match &self.trigger {
            Trigger::TagPush(tag) =>
                "Timeout waiting for tag-push run matching ".to_string()
                    .concat(tag)
                    .concat(" in repo ")
                    .concat(&self.repo),
            Trigger::Dispatch =>
                "Timeout waiting for workflow_dispatch-triggered run in repo ".to_string()
                    .concat(&self.repo),
        };
        SearchStep::GiveUp(OrchestratorError::WorkflowRunNotFound(message))
    }

    fn matches_run(&self, run: &GHRun) -> (yes: bool)
        requires
            self@.well_formed(),
        ensures
            yes == self@.matches_run(run@),
    {
        let recent = run.created_at.not_before(&self.marker.back_by(CLOCK_SKEW_SECS));
        match &self.trigger {
            Trigger::TagPush(tag) => match &run.head_branch {
                Some(branch) => text::same(branch, tag),
                None => recent,
            },
            Trigger::Dispatch => recent,
        }
    }

    /// The first run that is searched for: its number and its page.
    pub fn find(&self, response: &GHRunsResponse) -> (found: Option<(u64, String)>)
        requires
            self@.well_formed(),
        ensures
            found.deep_view() == self@.first_match(response@.workflow_runs),
    {
        let runs = &response.workflow_runs;
        let ghost all = runs.deep_view();
        assert(all.skip(0) =~= all);
        let mut i: usize = 0;
        while i < runs.len()
            invariant
                self@.well_formed(),
                i <= runs@.len(),
                all == runs.deep_view(),
                all == response@.workflow_runs,
                self@.first_match(all) == self@.first_match(all.skip(i as int)),
            decreases runs@.len() - i,
        {
            proof {
                assert(all.skip(i as int)[0] == runs@[i as int]@);
                assert(all.skip(i as int).drop_first() =~= all.skip(i + 1));
            }
            if self.matches_run(&runs[i]) {
                return Some((runs[i].id, runs[i].html_url.clone()));
            }
            i += 1;
        }
        None
    }
}

/// How a run ended, or that it has not.
pub open spec fn run_conclusion_of(run: GHRunView) -> Seq<char> {
    if run.status == "completed"@ {
        match run.conclusion {
            Some(conclusion) => conclusion,
            None => "unknown"@,
        }
    } else {
        "In Progress"@
    }
}

/// How a run ended, or that it has not.
pub fn run_conclusion(run: &GHRun) -> (conclusion: String)
    ensures
        conclusion@ == run_conclusion_of(run@),
{
    if text::same(&run.status, "completed") {
        match &run.conclusion {
            Some(conclusion) => conclusion.clone(),
            None => "unknown".to_string(),
        }
    } else {
        "In Progress".to_string()
    }
}

// ── Logs ───────────────────────────────────────────────────────────────────

/// What stands in for the log of a run in which no job failed.
pub const NO_FAILED_JOB: &'static str = "Could not resolve failed job log metrics.";

/// How many lines of a log are kept.
pub const LOG_TAIL_LINES: usize = 250;

/// The number of the first job that failed.
pub open spec fn first_failed_job(jobs: Seq<GHJobView>) -> Option<u64>
    decreases jobs.len(),
{
    if jobs.len() == 0 {
        None
    } else if jobs[0].conclusion == Some("failure"@) {
        Some(jobs[0].id)
    } else {
        first_failed_job(jobs.drop_first())
    }
}

/// The number of the first job that failed.
pub fn failed_job(response: &GHJobsResponse) -> (id: Option<u64>)
    ensures
        id == first_failed_job(response@.jobs),
{
    let jobs = &response.jobs;
    let ghost all = jobs.deep_view();
    assert(all.skip(0) =~= all);
    let mut i: usize = 0;
    while i < jobs.len()
        invariant
            i <= jobs@.len(),
            all == jobs.deep_view(),
            all == response@.jobs,
            first_failed_job(all) == first_failed_job(all.skip(i as int)),
        decreases jobs@.len() - i,
    {
        proof {
            assert(all.skip(i as int)[0] == jobs@[i as int]@);
            assert(all.skip(i as int).drop_first() =~= all.skip(i + 1));
        }
        let failed = match &jobs[i].conclusion {
            Some(conclusion) => text::same(conclusion, "failure"),
            None => false,
        };
        if failed {
            return Some(jobs[i].id);
        }
        i += 1;
    }
    None
}

/// The last lines of a log.
pub open spec fn log_tail_of(log: Seq<char>) -> Seq<char> {
    let lines = text_lines(log);
    joined(
        if lines.len() > LOG_TAIL_LINES {
            lines.skip(lines.len() - LOG_TAIL_LINES)
        } else {
            lines
        },
        "\n"@,
    )
}

/// The last lines of a log.
pub fn log_tail(log: &str) -> (tail: String)
    ensures
        tail@ == log_tail_of(log@),
{
    let lines = text::lines(log);
    let ghost all = lines.deep_view();
    let len = lines.len();
    let start: usize = if len > LOG_TAIL_LINES {
        len - LOG_TAIL_LINES
    } else {
        0
    };
    let mut kept: Vec<String> = Vec::new();
    for i in start..len
        invariant
            all == lines.deep_view(),
            len == lines@.len(),
            start <= i <= len,
            kept.deep_view() =~= all.subrange(start as int, i as int),
    {
        let ghost before = kept.deep_view();
        kept.push(lines[i].clone());
        proof {
            assert(all[i as int] == lines@[i as int]@);
            assert(kept.deep_view() =~= before.push(all[i as int]));
        }
    }
    assert(kept.deep_view() =~= all.skip(start as int));
    assert(all.skip(0) =~= all);
    text::join(&kept, "\n")
}

// ── Dispatch ───────────────────────────────────────────────────────────────

/// What a dispatch that was refused is reported as.
pub open spec fn dispatch_refusal_text(status: u16, body: Seq<char>) -> Seq<char> {
    "workflow_dispatch returned "@ + status_text(status) + " — "@ + body
}

/// What the reply to a dispatch means: only "no content" is a success.
pub open spec fn dispatch_outcome(status: u16, body: Seq<char>) -> Result<(), Seq<char>> {
    if status == 204 {
        Ok(())
    } else {
        Err(dispatch_refusal_text(status, body))
    }
}

/// What the reply to a dispatch means: only "no content" is a success.
pub fn dispatch_reply(status: u16, body: &str) -> (r: Result<(), String>)
    requires
        is_status(status),
    ensures
        match r {
            Ok(()) => dispatch_outcome(status, body@) == Ok::<(), Seq<char>>(()),
            Err(e) => dispatch_outcome(status, body@) == Err::<(), Seq<char>>(e@),
        },
{
    if status == 204 {
        Ok(())
    } else {
        Err(
            "workflow_dispatch returned ".to_string().concat(&show_status(status)).concat(
                " — ",
            ).concat(body),
        )
    }
}

/// What the reply to a dispatch on a repository means.
pub fn dispatch_result(repo: &str, status: u16, body: &str) -> (r: Result<(), OrchestratorError>)
    requires
        is_status(status),
    ensures
        outcome(r) == (match dispatch_outcome(status, body@) {
            Ok(()) => Ok::<(), OrchestratorErrorView>(()),
            Err(m) => Err(OrchestratorErrorView::GitHubApi(dispatch_context_text(repo@), m)),
        }),
{
    match dispatch_reply(status, body) {
        Ok(()) => Ok(()),
        Err(m) => Err(OrchestratorError::GitHubApi(dispatch_context(repo), m)),
    }
}

// ── Laws ───────────────────────────────────────────────────────────────────

/// The tags that are tried for one tag all differ: their counters count up one
/// by one from that of the first.
pub proof fn tried_tags_count_up(base_tag: Seq<char>, tries: nat)
    requires
        nth_tag(base_tag, tries) is Some,
        collision_count(base_tag) is Some,
        collision_count(base_tag)->0 + tries <= u32::MAX,
    ensures
        collision_count(nth_tag(base_tag, tries)->0) == Some(
            (collision_count(base_tag)->0 + tries) as u32,
        ),
    decreases tries,
{
    if tries > 0 {
        tried_tags_count_up(base_tag, (tries - 1) as nat);
        tags::next_tag_counts_up(nth_tag(base_tag, (tries - 1) as nat)->0);
    }
}

/// A tag is sent at most as often as there are attempts: every retry uses one
/// up, and the last one is never followed by another.
pub proof fn tag_push_is_bounded(push: TagPushView, status: u16, body: Seq<char>)
    requires
        push.well_formed(),
        push.step(status, body) is Retry,
    ensures
        push.retried().well_formed(),
        push.retried().attempt == push.attempt + 1,
        push.retried().attempt < MAX_TAG_ATTEMPTS,
{
}

/// A tag is reported as pushed only where GitHub accepted it, and under the name
/// that was sent: the first that follows from the names found taken.
pub proof fn pushed_tag_was_accepted(push: TagPushView, status: u16, body: Seq<char>)
    requires
        push.well_formed(),
    ensures
        is_success(status) <==> push.step(status, body) is Pushed,
        push.step(status, body) matches TagPushStepView::Pushed(tag) ==> nth_tag(
            push.base_tag,
            push.attempt as nat,
        ) == Some(tag),
{
}

/// The run that a search finds is one of the list, it matches, and no run before
/// it does; where nothing is found, no run matches.
pub proof fn found_run_is_first_match(search: RunSearchView, runs: Seq<GHRunView>)
    ensures
        match search.first_match(runs) {
            Some((id, url)) => exists|i: int|
                0 <= i < runs.len() && search.matches_run(#[trigger] runs[i]) && runs[i].id == id
                    && runs[i].html_url == url && forall|j: int|
                    0 <= j < i ==> !search.matches_run(#[trigger] runs[j]),
            None => forall|j: int| 0 <= j < runs.len() ==> !search.matches_run(#[trigger] runs[j]),
        },
    decreases runs.len(),
{
    if runs.len() > 0 && !search.matches_run(runs[0]) {
        let rest = runs.drop_first();
        found_run_is_first_match(search, rest);
        match search.first_match(rest) {
            Some((id, url)) => {
                let k = choose|i: int|
                    0 <= i < rest.len() && search.matches_run(#[trigger] rest[i]) && rest[i].id == id
                        && rest[i].html_url == url && forall|j: int|
                        0 <= j < i ==> !search.matches_run(#[trigger] rest[j]);
                assert(runs[k + 1] == rest[k]);
                assert forall|j: int| 0 <= j < k + 1 implies !search.matches_run(
                    #[trigger] runs[j],
                ) by {
                    if j > 0 {
                        assert(runs[j] == rest[j - 1]);
                    }
                }
            },
            None => {
                assert forall|j: int| 0 <= j < runs.len() implies !search.matches_run(
                    #[trigger] runs[j],
                ) by {
                    if j > 0 {
                        assert(runs[j] == rest[j - 1]);
                    }
                }
            },
        }
    }
}

/// A run that was made at or after its trigger is a match for a dispatch, and for
/// the push of a tag if it has no branch; one that carries the pushed tag as its
/// branch is a match whenever it was made. If such a run is in the list, something
/// is found.
pub proof fn run_after_its_trigger_is_found(
    search: RunSearchView,
    runs: Seq<GHRunView>,
    at: int,
)
    requires
        search.well_formed(),
        0 <= at < runs.len(),
        match search.trigger {
            TriggerView::Dispatch => runs[at].created_at.at_or_after(search.marker),
            TriggerView::TagPush(tag) => runs[at].head_branch == Some(tag) || (
            runs[at].head_branch is None && runs[at].created_at.at_or_after(search.marker)),
        },
    ensures
        search.matches_run(runs[at]),
        search.first_match(runs) is Some,
{
    crate::clock::back_is_earlier(search.marker, CLOCK_SKEW_SECS);
    crate::clock::moments_are_ordered(
        runs[at].created_at,
        search.marker,
        search.marker.back(CLOCK_SKEW_SECS),
    );
    found_run_is_first_match(search, runs);
}

/// Matching is upward closed in time: a run that is as recent as a matching one,
/// or more recent, and has the same branch, matches too.
pub proof fn later_run_matches_too(search: RunSearchView, run: GHRunView, later: GHRunView)
    requires
        search.matches_run(run),
        later.created_at.at_or_after(run.created_at),
        later.head_branch == run.head_branch,
    ensures
        search.matches_run(later),
{
    crate::clock::moments_are_ordered(
        later.created_at,
        run.created_at,
        search.marker.back(CLOCK_SKEW_SECS),
    );
}

/// A run that was made more than five seconds before its trigger is not taken for
/// the one that a dispatch started, and not for that of a tag unless it carries
/// the tag. A run of another branch is never that of a tag. For a dispatch the
/// branch does not matter.
pub proof fn unrelated_run_is_not_taken(
    search: RunSearchView,
    run: GHRunView,
    branch: Option<Seq<char>>,
)
    requires
        search.marker.nanos < 1_000_000_000,
    ensures
        ({
            let old_run = run.created_at.secs < search.marker.secs - 5 || (run.created_at.secs
                == search.marker.secs - 5 && run.created_at.nanos < search.marker.nanos);
            match search.trigger {
                TriggerView::Dispatch => {
                    &&& search.marker.secs >= i64::MIN + 5 ==> (search.matches_run(run)
                        <==> !old_run)
                    &&& search.matches_run(run) == search.matches_run(
                        GHRunView { head_branch: branch, ..run },
                    )
                },
                TriggerView::TagPush(tag) => {
                    &&& search.marker.secs >= i64::MIN + 5 && run.head_branch is None ==> (
                    search.matches_run(run) <==> !old_run)
                    &&& run.head_branch is Some ==> (search.matches_run(run) <==> run.head_branch
                        == Some(tag))
                },
            }
        }),
{
}

/// A reply counts exactly if its status is from 200 to 299: then its body is
/// handed on as it is. Any other is an error that holds the body, and names the
/// request and the status.
pub proof fn only_successful_replies_count(status: u16, body: Seq<char>, context: Seq<char>)
    ensures
        is_success(status) <==> 200 <= status <= 299,
        200 <= status <= 299 ==> reply_body(status, body, context) == Ok::<
            Seq<char>,
            OrchestratorErrorView,
        >(body),
        !(200 <= status <= 299) ==> {
            &&& reply_body(status, body, context) matches Err(OrchestratorErrorView::GitHubApi(
                about,
                m,
            )) && m == body && has_text(about, context) && has_text(about, decimal(status as nat))
        },
        optional_reply_body(404, body, context) == Ok::<
            Option<Seq<char>>,
            OrchestratorErrorView,
        >(None),
        status != 404 && 200 <= status <= 299 ==> optional_reply_body(status, body, context) == Ok::<
            Option<Seq<char>>,
            OrchestratorErrorView,
        >(Some(body)),
        status != 404 && !(200 <= status <= 299) ==> optional_reply_body(status, body, context)
            is Err && optional_reply_body(status, body, context)->Err_0 == reply_body(
            status,
            body,
            context,
        )->Err_0,
{
    let about = context + " (status "@ + status_text(status) + ")"@;
    let none = Seq::<char>::empty();
    assert(about =~= none + context + (" (status "@ + status_text(status) + ")"@));
    text::lemma_has_part(none, context, " (status "@ + status_text(status) + ")"@);
    let digits = decimal(status as nat);
    assert(about =~= (context + " (status "@) + digits + (" "@ + status_reason(status) + ")"@));
    text::lemma_has_part(context + " (status "@, digits, " "@ + status_reason(status) + ")"@);
}

/// What becomes of a tag: it stands exactly if GitHub accepted it. A name that is
/// taken, and only that, is followed by the next name, as long as there is one and
/// the tries are not used up. Anything else ends the push with an error.
pub proof fn only_taken_names_are_retried(push: TagPushView, status: u16, body: Seq<char>)
    requires
        push.well_formed(),
    ensures
        200 <= status <= 299 ==> push.step(status, body) == TagPushStepView::Pushed(push.tag),
        push.step(status, body) is Retry <==> {
            &&& status == 422
            &&& has_text(body, "Reference already exists"@)
            &&& push.attempt < 98
            &&& next_tag(push.tag) is Some
        },
        push.step(status, body) is Failed <==> !(200 <= status <= 299) && !(push.step(status, body)
            is Retry),
        push.step(status, body) matches TagPushStepView::Failed(e) ==> if status == 422 && has_text(
            body,
            "Reference already exists"@,
        ) {
            e is TagCreation && has_text(e->TagCreation_0, push.tag)
        } else {
            e is GitHubApi && has_text(e->GitHubApi_1, body)
        },
{
    text::lemma_has_tail("Failed to create tag "@ + push.tag + ": "@, body);
    let through = "Failed to create tag on "@ + push.repo + ": tried "@ + push.base_tag
        + " through "@;
    text::lemma_has_part(through, push.tag, " (all exist), giving up"@);
    text::lemma_has_part(
        "Tag "@,
        push.tag,
        " already exists and no increment strategy applies to it"@,
    );
}

/// After a name was found taken, the same commit is tried on the same repository
/// under a name that stands for one collision more.
pub proof fn retried_tag_is_the_next_one(push: TagPushView, status: u16, body: Seq<char>)
    requires
        push.well_formed(),
        push.step(status, body) is Retry,
        collision_count(push.tag) != Some(u32::MAX),
    ensures
        push.retried().repo == push.repo,
        push.retried().sha == push.sha,
        push.retried().base_tag == push.base_tag,
        collision_count(push.tag) is Some,
        collision_count(push.retried().tag) == Some((collision_count(push.tag)->0 + 1) as u32),
        push.retried().tag != push.tag,
{
    tags::next_tag_counts_up(push.tag);
}

/// Only an annotated tag has to be looked up in turn; everything else points at a
/// commit. The SHA is that of the object either way.
pub proof fn only_annotated_tags_are_followed(object: RefObjectView)
    ensures
        object.object_type == "tag"@ ==> tag_target_of(object) == TagTargetView::Annotated(
            object.sha,
        ),
        object.object_type != "tag"@ ==> tag_target_of(object) == TagTargetView::Commit(object.sha),
{
}

/// A run that is not completed is in progress whatever its conclusion is said to
/// be; a completed one ended as it says.
pub proof fn only_completed_runs_have_ended(run: GHRunView, conclusion: Seq<char>)
    ensures
        run.status != "completed"@ ==> run_conclusion_of(run) == "In Progress"@,
        run.status == "completed"@ && run.conclusion == Some(conclusion) ==> run_conclusion_of(run)
            == conclusion,
        run.status == "completed"@ && run.conclusion is None ==> run_conclusion_of(run)
            == "unknown"@,
{
}

/// The job whose log is read is the first one that failed; there is none exactly
/// if no job failed.
pub proof fn failed_job_is_the_first(jobs: Seq<GHJobView>)
    ensures
        match first_failed_job(jobs) {
            Some(id) => exists|i: int|
                0 <= i < jobs.len() && (#[trigger] jobs[i]).id == id && jobs[i].conclusion == Some(
                    "failure"@,
                ) && forall|j: int|
                    0 <= j < i ==> (#[trigger] jobs[j]).conclusion != Some("failure"@),
            None => forall|j: int|
                0 <= j < jobs.len() ==> (#[trigger] jobs[j]).conclusion != Some("failure"@),
        },
    decreases jobs.len(),
{
    if jobs.len() > 0 && jobs[0].conclusion != Some("failure"@) {
        let rest = jobs.drop_first();
        failed_job_is_the_first(rest);
        match first_failed_job(rest) {
            Some(id) => {
                let k = choose|i: int|
                    0 <= i < rest.len() && (#[trigger] rest[i]).id == id && rest[i].conclusion
                        == Some("failure"@) && forall|j: int|
                        0 <= j < i ==> (#[trigger] rest[j]).conclusion != Some("failure"@);
                assert(jobs[k + 1] == rest[k]);
                assert forall|j: int| 0 <= j < k + 1 implies (#[trigger] jobs[j]).conclusion != Some(
                    "failure"@,
                ) by {
                    if j > 0 {
                        assert(jobs[j] == rest[j - 1]);
                    }
                }
            },
            None => {
                assert forall|j: int| 0 <= j < jobs.len() implies (#[trigger] jobs[j]).conclusion
                    != Some("failure"@) by {
                    if j > 0 {
                        assert(jobs[j] == rest[j - 1]);
                    }
                }
            },
        }
    }
}

/// Of a log the last lines are kept, in order, and all of them if there are no
/// more than 250.
pub proof fn log_tail_keeps_the_last_lines(log: Seq<char>)
    ensures
        ({
            let lines = text_lines(log);
            &&& lines.len() <= 250 ==> log_tail_of(log) == joined(lines, "\n"@)
            &&& lines.len() > 250 ==> exists|kept: Seq<Seq<char>>|
                kept.len() == 250 && #[trigger] kept.is_suffix_of(lines) && log_tail_of(log)
                    == joined(kept, "\n"@)
        }),
{
    let lines = text_lines(log);
    if lines.len() > 250 {
        let kept = lines.skip(lines.len() - 250);
        assert(lines.subrange(lines.len() - 250, lines.len() as int) =~= kept);
        assert(kept.is_suffix_of(lines));
    }
}

/// A dispatch was taken exactly if the reply is "no content"; any other reply is
/// reported with its body.
pub proof fn only_no_content_is_a_dispatch(status: u16, body: Seq<char>)
    ensures
        dispatch_outcome(status, body) is Ok <==> status == 204,
        dispatch_outcome(status, body) matches Err(m) ==> has_text(m, body) && has_text(
            m,
            decimal(status as nat),
        ),
{
    text::lemma_has_tail("workflow_dispatch returned "@ + status_text(status) + " — "@, body);
    let digits = decimal(status as nat);
    let rest = " "@ + status_reason(status) + " — "@ + body;
    assert(dispatch_refusal_text(status, body) =~= "workflow_dispatch returned "@ + digits + rest);
    text::lemma_has_part("workflow_dispatch returned "@, digits, rest);
}

/// Every request carries its token, and nothing else stands in the way of one: it
/// fails exactly if the token cannot stand in a header.
pub proof fn requests_carry_the_token(token: Seq<char>, other: Seq<char>)
    ensures
        github_headers_for(token) is Ok <==> is_header_value(encode_utf8("Bearer "@ + token)),
        github_headers_for(token) matches Ok(headers) ==> headers.contains(
            ("Authorization"@, "Bearer "@ + token),
        ),
        github_headers_for(token) is Ok && github_headers_for(token) == github_headers_for(other)
            ==> token == other,
{
    if let Ok(headers) = github_headers_for(token) {
        assert(headers[0] == ("Authorization"@, "Bearer "@ + token));
        if github_headers_for(token) == github_headers_for(other) {
            let theirs = github_headers_for(other)->Ok_0;
            assert(theirs[0] == ("Authorization"@, "Bearer "@ + other));
            assert(("Bearer "@ + token).skip("Bearer "@.len() as int) =~= token);
            assert(("Bearer "@ + other).skip("Bearer "@.len() as int) =~= other);
        }
    }
}

/// The addresses of two repositories differ, and so do those of two tags, two runs
/// or two jobs of one repository.
pub proof fn addresses_tell_things_apart(
    repo: Seq<char>,
    a: Seq<char>,
    b: Seq<char>,
    x: u64,
    y: u64,
)
    ensures
        head_url_text(a) == head_url_text(b) ==> a == b,
        refs_url_text(a) == refs_url_text(b) ==> a == b,
        latest_release_url_text(a) == latest_release_url_text(b) ==> a == b,
        tag_ref_url_text(repo, a) == tag_ref_url_text(repo, b) ==> a == b,
        tag_object_url_text(repo, a) == tag_object_url_text(repo, b) ==> a == b,
        dispatch_url_text(repo, a) == dispatch_url_text(repo, b) ==> a == b,
        run_url_text(repo, x) == run_url_text(repo, y) ==> x == y,
        jobs_url_text(repo, x) == jobs_url_text(repo, y) ==> x == y,
        job_logs_url_text(repo, x) == job_logs_url_text(repo, y) ==> x == y,
        jobs_url_text(repo, x) == run_url_text(repo, x) + "/jobs"@,
{
    let base = "https://api.github.com/repos/"@ + OWNER@ + "/"@;
    text::lemma_middle_is_determined(base, a, b, "/commits/"@ + DEFAULT_BRANCH@);
    assert(head_url_text(a) =~= base + a + ("/commits/"@ + DEFAULT_BRANCH@));
    assert(head_url_text(b) =~= base + b + ("/commits/"@ + DEFAULT_BRANCH@));
    text::lemma_middle_is_determined(base, a, b, "/git/refs"@);
    text::lemma_middle_is_determined(base, a, b, "/releases/latest"@);
    let none = Seq::<char>::empty();
    let refs = base + repo + "/git/ref/tags/"@;
    text::lemma_middle_is_determined(refs, a, b, none);
    assert(refs + a + none =~= tag_ref_url_text(repo, a));
    assert(refs + b + none =~= tag_ref_url_text(repo, b));
    let objects = base + repo + "/git/tags/"@;
    text::lemma_middle_is_determined(objects, a, b, none);
    assert(objects + a + none =~= tag_object_url_text(repo, a));
    assert(objects + b + none =~= tag_object_url_text(repo, b));
    text::lemma_middle_is_determined(base + repo + "/actions/workflows/"@, a, b, "/dispatches"@);
    let (dx, dy) = (decimal(x as nat), decimal(y as nat));
    text::number_reads_decimal(x as nat, u64::MAX as nat);
    text::number_reads_decimal(y as nat, u64::MAX as nat);
    let runs = base + repo + "/actions/runs/"@;
    text::lemma_middle_is_determined(runs, dx, dy, none);
    assert(runs + dx + none =~= run_url_text(repo, x));
    assert(runs + dy + none =~= run_url_text(repo, y));
    text::lemma_middle_is_determined(runs, dx, dy, "/jobs"@);
    text::lemma_middle_is_determined(base + repo + "/actions/jobs/"@, dx, dy, "/logs"@);
}

/// Where things are on GitHub: everything of a repository lies under the address of
/// that repository, a run, a job, a tag and a workflow under their own names.
pub proof fn addresses_lie_in_the_repository(
    repo: Seq<char>,
    name: Seq<char>,
    id: u64,
    per_page: u8,
    marker: Timestamp,
)
    ensures
        ({
            let base = "https://api.github.com/repos/Vagrantin/"@ + repo;
            &&& head_url_text(repo) == base + "/commits/main"@
            &&& refs_url_text(repo) == base + "/git/refs"@
            &&& latest_release_url_text(repo) == base + "/releases/latest"@
            &&& tag_ref_url_text(repo, name) == base + "/git/ref/tags/"@ + name
            &&& tag_object_url_text(repo, name) == base + "/git/tags/"@ + name
            &&& releases_url_text(repo, per_page) == base + "/releases?per_page="@ + decimal(
                per_page as nat,
            )
            &&& run_url_text(repo, id) == base + "/actions/runs/"@ + decimal(id as nat)
            &&& jobs_url_text(repo, id) == base + "/actions/runs/"@ + decimal(id as nat) + "/jobs"@
            &&& job_logs_url_text(repo, id) == base + "/actions/jobs/"@ + decimal(id as nat)
                + "/logs"@
            &&& dispatch_url_text(repo, name) == base + "/actions/workflows/"@ + name
                + "/dispatches"@
            &&& (RunSearchView { repo, trigger: TriggerView::TagPush(name), marker }).url() == base
                + "/actions/runs?event=push&per_page=5"@
            &&& (RunSearchView { repo, trigger: TriggerView::Dispatch, marker }).url() == base
                + "/actions/runs?event=workflow_dispatch&per_page=10"@
        }),
{
    reveal_strlit("https://api.github.com/repos/Vagrantin/");
    reveal_strlit("https://api.github.com/repos/");
    reveal_strlit("Vagrantin");
    reveal_strlit("/");
    reveal_strlit("/commits/main");
    reveal_strlit("/commits/");
    reveal_strlit("main");
    assert("https://api.github.com/repos/Vagrantin/"@ =~= "https://api.github.com/repos/"@ + OWNER@
        + "/"@);
    assert("/commits/main"@ =~= "/commits/"@ + DEFAULT_BRANCH@);
    let base = "https://api.github.com/repos/Vagrantin/"@ + repo;
    assert(head_url_text(repo) =~= base + "/commits/main"@);
}

/// What is asked of GitHub names the repository it is asked about, and the tag where
/// there is one; so does a search that found nothing.
pub proof fn requests_name_what_they_ask_for(repo: Seq<char>, tag: Seq<char>, marker: Timestamp)
    ensures
        has_text(head_context_text(repo), repo),
        has_text(latest_release_context_text(repo), repo),
        has_text(releases_context_text(repo), repo),
        has_text(dispatch_context_text(repo), repo),
        has_text(tag_ref_context_text(repo, tag), repo),
        has_text(tag_ref_context_text(repo, tag), tag),
        has_text(tag_object_context_text(repo, tag), repo),
        has_text(tag_object_context_text(repo, tag), tag),
        ({
            let pushed = RunSearchView { repo, trigger: TriggerView::TagPush(tag), marker };
            let dispatched = RunSearchView { repo, trigger: TriggerView::Dispatch, marker };
            &&& has_text(pushed.context(), repo) && has_text(pushed.context(), tag)
            &&& has_text(dispatched.context(), repo)
            &&& pushed.not_found() matches OrchestratorErrorView::WorkflowRunNotFound(m)
                && has_text(m, repo) && has_text(m, tag)
            &&& dispatched.not_found() matches OrchestratorErrorView::WorkflowRunNotFound(m)
                && has_text(m, repo)
        }),
{
    text::lemma_has_tail("fetch_repo_head_sha for "@, repo);
    text::lemma_has_tail("fetch_latest_release_ref for "@, repo);
    text::lemma_has_tail("fetch_releases for "@, repo);
    text::lemma_has_tail("dispatch_workflow for "@, repo);
    text::lemma_has_tail("locate_dispatch_triggered_run for "@, repo);
    text::lemma_has_tail("Timeout waiting for workflow_dispatch-triggered run in repo "@, repo);
    lemma_names_both("fetch_tag_commit_sha for "@, tag, " on "@, repo);
    lemma_names_both("dereference annotated tag "@, tag, " on "@, repo);
    lemma_names_both("locate_tag_triggered_run for "@, tag, " on "@, repo);
    lemma_names_both("Timeout waiting for tag-push run matching "@, tag, " in repo "@, repo);
}

proof fn lemma_names_both(start: Seq<char>, a: Seq<char>, middle: Seq<char>, b: Seq<char>)
    ensures
        has_text(start + a + middle + b, a),
        has_text(start + a + middle + b, b),
{
    assert(start + a + middle + b =~= start + a + (middle + b));
    text::lemma_has_part(start, a, middle + b);
    text::lemma_has_tail(start + a + middle, b);
}

/// Names are tried in turn, from the first one on: each is the next name after the one
/// that was found taken, and where there is none, nothing more is tried.
pub proof fn names_are_tried_in_turn(base_tag: Seq<char>, tries: nat)
    ensures
        nth_tag(base_tag, 0) == Some(base_tag),
        nth_tag(base_tag, tries) matches Some(tag) ==> nth_tag(base_tag, tries + 1) == next_tag(
            tag,
        ),
        nth_tag(base_tag, tries) is None ==> nth_tag(base_tag, tries + 1) is None,
{
}

} // verus!
