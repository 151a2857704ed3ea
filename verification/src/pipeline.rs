//! The pipeline as a single run, without agents: XO Lite CE by tag, xoa-proxy by
//! dispatch, then the ISO, and a dashboard of its own.

use crate::clock;
use crate::clock::Timestamp;
use crate::dashboard;
use crate::dashboard::{
    all_in_calendar, are_local_times, heading_html, hint_html, page_html, page_shows_cards,
    row_html,
};
use crate::github;
use crate::github::{is_status, is_success, status_text};
use crate::iso_agent::Component;
use crate::tags;
use crate::tags::ce_tag_text;
use crate::text;
use crate::text::{
    can_cut, decimal, has_text, head_text, joined, lemma_has_part, lemma_has_tail,
    lemma_has_text_within, number, pieces,
};
use crate::upstream::{ReleaseEntry, ReleaseEntryView};
use crate::version_state::{
    ComponentVersionState, ComponentVersionStateView, IsoVersionState, IsoVersionStateView,
};
use crate::xoa_agent::checked;
use crate::{OWNER, XCPNG_TARGET_VERSION};
use vstd::prelude::*;

verus! {

/// Where the pipeline keeps what it built.
pub const VERSION_STATE_FILE: &'static str = "/var/lib/xcp-hl-orchestrator/version_state.json";

/// The workflow of xoa-proxy.
pub const XOA_PROXY_WORKFLOW: &'static str = "xoa-proxy.yml";

/// How long to wait between two looks at the components, in seconds.
pub const COMPONENT_POLL_SECS: u64 = 20;

/// How long to wait between two looks at the ISO, in seconds.
pub const ISO_POLL_SECS: u64 = 30;

/// How long a dispatched run is searched for, in seconds.
pub const DISPATCH_SEARCH_LIMIT_SECS: u64 = 45;

/// How long to wait before each look at the dispatched runs, in seconds.
pub const DISPATCH_SEARCH_DELAY_SECS: u64 = 4;

/// What a run that has not ended is said to be.
pub const IN_PROGRESS: &'static str = "In Progress";

// ── Replies ────────────────────────────────────────────────────────────────

/// The body of a reply to a request, or what is said of it.
pub open spec fn reply_body(status: u16, body: Seq<char>, context: Seq<char>) -> Result<
    Seq<char>,
    Seq<char>,
> {
    if is_success(status) {
        Ok(body)
    } else {
        Err("GitHub API error ("@ + status_text(status) + ") during "@ + context + ": "@ + body)
    }
}

/// The body of a reply, to be read as JSON; every status but a successful one is
/// an error.
pub fn parse_github_response(status: u16, body: String, context: &str) -> (r: Result<
    String,
    String,
>)
    requires
        is_status(status),
    ensures
        crate::error::text_outcome(r) == reply_body(status, body@, context@),
{
    if status >= 200 && status < 300 {
        Ok(body)
    } else {
        Err(
            "GitHub API error (".to_string()
                .concat(&github::show_status(status))
                .concat(") during ")
                .concat(context)
                .concat(": ")
                .concat(&body),
        )
    }
}

/// How much of a body that is not JSON is quoted, in bytes.
pub const QUOTED_BODY_LEN: usize = 500;

/// What is said of a body that is not JSON.
pub open spec fn json_error_text(
    context: Seq<char>,
    status: u16,
    error: Seq<char>,
    body: Seq<char>,
) -> Seq<char> {
    "Failed to parse JSON during "@ + context + " (status "@ + status_text(status) + "): "@ + error
        + "\nBody (first 500 chars): "@ + head_text(body, QUOTED_BODY_LEN)
}

/// What is said of a body that is not JSON.
pub fn json_error(context: &str, status: u16, error: &str, body: &str) -> (message: String)
    requires
        is_status(status),
        can_cut(body@, QUOTED_BODY_LEN),
    ensures
        message@ == json_error_text(context@, status, error@, body@),
{
    "Failed to parse JSON during ".to_string()
        .concat(context)
        .concat(" (status ")
        .concat(&github::show_status(status))
        .concat("): ")
        .concat(error)
        .concat("\nBody (first 500 chars): ")
        .concat(&text::head(body, QUOTED_BODY_LEN))
}

/// What the reply to the push of a tag means.
pub open spec fn tag_push_outcome(
    repo: Seq<char>,
    tag: Seq<char>,
    status: u16,
    body: Seq<char>,
) -> Result<(), Seq<char>> {
    if is_success(status) {
        Ok(())
    } else {
        Err("Failed to create tag "@ + tag + " on "@ + repo + ": "@ + body)
    }
}

/// What the reply to the push of a tag means.
pub fn tag_push_result(repo: &str, tag: &str, status: u16, body: &str) -> (r: Result<(), String>)
    ensures
        checked(r) == tag_push_outcome(repo@, tag@, status, body@),
{
    if status >= 200 && status < 300 {
        Ok(())
    } else {
        Err("Failed to create tag ".to_string()
            .concat(tag)
            .concat(" on ")
            .concat(repo)
            .concat(": ")
            .concat(body))
    }
}

/// What the reply to a dispatch means.
pub open spec fn dispatch_outcome(repo: Seq<char>, status: u16) -> Result<(), Seq<char>> {
    if status == 204 {
        Ok(())
    } else {
        Err("Dispatch rejection for repo: "@ + repo + ". Code: "@ + status_text(status))
    }
}

/// What the reply to a dispatch means.
pub fn dispatch_result(repo: &str, status: u16) -> (r: Result<(), String>)
    requires
        is_status(status),
    ensures
        checked(r) == dispatch_outcome(repo@, status),
{
    if status == 204 {
        Ok(())
    } else {
        Err("Dispatch rejection for repo: ".to_string()
            .concat(repo)
            .concat(". Code: ")
            .concat(&github::show_status(status)))
    }
}

/// The dispatched runs of a repository.
pub open spec fn dispatched_runs_url_text(repo: Seq<char>) -> Seq<char> {
    "https://api.github.com/repos/"@ + OWNER@ + "/"@ + repo
        + "/actions/runs?event=workflow_dispatch&per_page=5"@
}

/// The dispatched runs of a repository.
pub fn dispatched_runs_url(repo: &str) -> (text: String)
    ensures
        text@ == dispatched_runs_url_text(repo@),
{
    "https://api.github.com/repos/".to_string()
        .concat(OWNER)
        .concat("/")
        .concat(repo)
        .concat("/actions/runs?event=workflow_dispatch&per_page=5")
}

/// How many seconds to wait before the next look at the dispatched runs, after
/// so many whole seconds; an error once the search took too long.
pub open spec fn search_step(repo: Seq<char>, elapsed_secs: u64) -> Result<u64, Seq<char>> {
    if elapsed_secs < DISPATCH_SEARCH_LIMIT_SECS {
        Ok(DISPATCH_SEARCH_DELAY_SECS)
    } else {
        Err("Timeout waiting for run matching dispatch trigger in repo "@ + repo)
    }
}

/// How many seconds to wait before the next look at the dispatched runs, after
/// so many whole seconds; an error once the search took too long.
pub fn dispatch_search_step(repo: &str, elapsed_secs: u64) -> (r: Result<u64, String>)
    ensures
        match r {
            Ok(secs) => search_step(repo@, elapsed_secs) == Ok::<u64, Seq<char>>(secs),
            Err(m) => search_step(repo@, elapsed_secs) == Err::<u64, Seq<char>>(m@),
        },
{
    if elapsed_secs < DISPATCH_SEARCH_LIMIT_SECS {
        Ok(DISPATCH_SEARCH_DELAY_SECS)
    } else {
        Err(
            "Timeout waiting for run matching dispatch trigger in repo ".to_string().concat(repo),
        )
    }
}

/// The latest tag of a repository.
pub open spec fn latest_tag_url_text(repo: Seq<char>) -> Seq<char> {
    "https://api.github.com/repos/"@ + OWNER@ + "/"@ + repo + "/tags?per_page=1"@
}

/// The latest tag of a repository.
pub fn latest_tag_url(repo: &str) -> (text: String)
    ensures
        text@ == latest_tag_url_text(repo@),
{
    "https://api.github.com/repos/".to_string()
        .concat(OWNER)
        .concat("/")
        .concat(repo)
        .concat("/tags?per_page=1")
}

/// The latest tag of a repository, from the list of its tags.
pub open spec fn latest_tag_of(repo: Seq<char>, names: Seq<Seq<char>>) -> Result<
    Seq<char>,
    Seq<char>,
> {
    if names.len() > 0 {
        Ok(names[0])
    } else {
        Err("No tags found on "@ + repo)
    }
}

/// The latest tag of a repository, from the list of its tags.
pub fn latest_repo_tag(repo: &str, names: &Vec<String>) -> (r: Result<String, String>)
    ensures
        crate::error::text_outcome(r) == latest_tag_of(repo@, names.deep_view()),
{
    if names.len() > 0 {
        assert(names.deep_view()[0] == names@[0]@);
        Ok(names[0].clone())
    } else {
        Err("No tags found on ".to_string().concat(repo))
    }
}

// ── Upstream versions ──────────────────────────────────────────────────────

/// All tags of the upstream project.
pub const UPSTREAM_REFS_URL: &'static str =
    "https://api.github.com/repos/vatesfr/xen-orchestra/git/refs/tags";

/// How the reference of an XO Lite tag starts.
pub const XOLITE_REF_PREFIX: &'static str = "refs/tags/xo-lite-v";

/// The numbers among some texts, in order.
pub open spec fn numbers_of(parts: Seq<Seq<char>>) -> Seq<u32>
    decreases parts.len(),
{
    if parts.len() == 0 {
        Seq::empty()
    } else {
        let before = numbers_of(parts.drop_last());
        match number(parts.last(), u32::MAX as nat) {
            Some(n) => before.push(n as u32),
            None => before,
        }
    }
}

/// The numbers of a version, by which it is ordered.
pub open spec fn version_key(version: Seq<char>) -> Seq<u32> {
    numbers_of(pieces(version, '.'))
}

/// A key comes before another or equals it: number by number, and a key comes
/// before those that it starts.
pub open spec fn key_le(a: Seq<u32>, b: Seq<u32>) -> bool
    decreases a.len(),
{
    if a.len() == 0 {
        true
    } else if b.len() == 0 {
        false
    } else if a[0] != b[0] {
        a[0] < b[0]
    } else {
        key_le(a.drop_first(), b.drop_first())
    }
}

/// The version at a position is the greatest, and the last of those.
pub open spec fn is_last_greatest(versions: Seq<Seq<char>>, at: int) -> bool {
    &&& 0 <= at < versions.len()
    &&& forall|i: int|
        0 <= i < versions.len() ==> key_le(version_key(#[trigger] versions[i]), version_key(versions[at]))
    &&& forall|i: int|
        at < i < versions.len() ==> !key_le(
            version_key(versions[at]),
            version_key(#[trigger] versions[i]),
        )
}

/// The versions of XO Lite among some references, in order.
pub open spec fn xolite_versions(refs: Seq<Seq<char>>) -> Seq<Seq<char>>
    decreases refs.len(),
{
    if refs.len() == 0 {
        Seq::empty()
    } else {
        let before = xolite_versions(refs.drop_last());
        if XOLITE_REF_PREFIX@.is_prefix_of(refs.last()) {
            before.push(refs.last().skip(XOLITE_REF_PREFIX@.len() as int))
        } else {
            before
        }
    }
}

fn read_key(version: &str) -> (key: Vec<u32>)
    ensures
        key@ == version_key(version@),
{
    let parts = text::split(version, '.');
    let ghost all = parts.deep_view();
    let mut key: Vec<u32> = Vec::new();
    assert(all.take(0) =~= Seq::<Seq<char>>::empty());
    for i in 0..parts.len()
        invariant
            all == parts.deep_view(),
            key@ == numbers_of(all.take(i as int)),
    {
        proof {
            assert(all[i as int] == parts@[i as int]@);
            assert(all.take(i + 1).drop_last() =~= all.take(i as int));
            assert(all.take(i + 1).last() == all[i as int]);
        }
        if let Some(n) = text::parse_u32(&parts[i]) {
            key.push(n);
        }
    }
    assert(all.take(all.len() as int) =~= all);
    key
}

fn compare_keys(a: &Vec<u32>, b: &Vec<u32>) -> (yes: bool)
    ensures
        yes == key_le(a@, b@),
{
    let mut i: usize = 0;
    assert(a@.skip(0) =~= a@);
    assert(b@.skip(0) =~= b@);
    while i < a.len() && i < b.len()
        invariant
            i <= a@.len(),
            i <= b@.len(),
            key_le(a@, b@) == key_le(a@.skip(i as int), b@.skip(i as int)),
        decreases a@.len() - i,
    {
        proof {
            assert(a@.skip(i as int).drop_first() =~= a@.skip(i + 1));
            assert(b@.skip(i as int).drop_first() =~= b@.skip(i + 1));
        }
        if a[i] != b[i] {
            return a[i] < b[i];
        }
        i += 1;
    }
    i == a.len()
}

/// Of two keys one comes before the other.
proof fn lemma_key_total(a: Seq<u32>, b: Seq<u32>)
    ensures
        key_le(a, b) || key_le(b, a),
    decreases a.len(),
{
    if a.len() > 0 && b.len() > 0 && a[0] == b[0] {
        lemma_key_total(a.drop_first(), b.drop_first());
    }
}

proof fn lemma_key_transitive(a: Seq<u32>, b: Seq<u32>, c: Seq<u32>)
    requires
        key_le(a, b),
        key_le(b, c),
    ensures
        key_le(a, c),
    decreases a.len(),
{
    if a.len() > 0 && b.len() > 0 && c.len() > 0 && a[0] == b[0] && b[0] == c[0] {
        lemma_key_transitive(a.drop_first(), b.drop_first(), c.drop_first());
    }
}

/// The position of the greatest version, and the last of those.
fn greatest(versions: &Vec<String>) -> (at: usize)
    requires
        versions@.len() > 0,
    ensures
        is_last_greatest(versions.deep_view(), at as int),
{
    let ghost all = versions.deep_view();
    let mut at: usize = 0;
    let mut best = read_key(&versions[0]);
    proof {
        lemma_key_total(best@, best@);
        assert(all.take(1)[0] == versions@[0]@);
    }
    for i in 1..versions.len()
        invariant
            1 <= i <= versions@.len(),
            all == versions.deep_view(),
            at < i,
            best@ == version_key(all[at as int]),
            is_last_greatest(all.take(i as int), at as int),
    {
        let key = read_key(&versions[i]);
        let ghost seen = all.take(i as int);
        let ghost next = all.take(i + 1);
        assert(all[i as int] == versions@[i as int]@);
        assert(forall|j: int| 0 <= j < i ==> #[trigger] next[j] == seen[j]);
        if compare_keys(&best, &key) {
            proof {
                assert forall|j: int| 0 <= j < next.len() implies key_le(
                    version_key(#[trigger] next[j]),
                    version_key(next[i as int]),
                ) by {
                    if j < i {
                        assert(key_le(version_key(seen[j]), best@));
                        lemma_key_transitive(version_key(next[j]), best@, key@);
                    } else {
                        lemma_key_total(key@, key@);
                    }
                }
            }
            best = key;
            at = i;
        } else {
            proof {
                lemma_key_total(best@, key@);
                assert forall|j: int| 0 <= j < next.len() implies key_le(
                    version_key(#[trigger] next[j]),
                    version_key(next[at as int]),
                ) by {
                    if j < i {
                        assert(key_le(version_key(seen[j]), best@));
                    }
                }
                assert forall|j: int| at < j < next.len() implies !key_le(
                    version_key(next[at as int]),
                    version_key(#[trigger] next[j]),
                ) by {
                    if j < i {
                        assert(!key_le(best@, version_key(seen[j])));
                    }
                }
            }
        }
    }
    assert(all.take(all.len() as int) =~= all);
    at
}

/// The newest version of XO Lite, from all references of the upstream project:
/// the one whose numbers are greatest, and the last of those.
pub fn latest_upstream_xolite_tag(refs: &Vec<String>) -> (r: Result<String, String>)
    ensures
        match r {
            Ok(version) => exists|at: int|
                #[trigger] is_last_greatest(xolite_versions(refs.deep_view()), at) && version@
                    == xolite_versions(refs.deep_view())[at],
            Err(m) => xolite_versions(refs.deep_view()).len() == 0 && m@
                == "No xo-lite-v* tags found upstream"@,
        },
{
    let ghost all = refs.deep_view();
    let mut versions: Vec<String> = Vec::new();
    assert(all.take(0) =~= Seq::<Seq<char>>::empty());
    assert(versions.deep_view() =~= Seq::<Seq<char>>::empty());
    for i in 0..refs.len()
        invariant
            all == refs.deep_view(),
            versions.deep_view() == xolite_versions(all.take(i as int)),
    {
        let ghost before = versions.deep_view();
        proof {
            assert(all[i as int] == refs@[i as int]@);
            assert(all.take(i + 1).drop_last() =~= all.take(i as int));
            assert(all.take(i + 1).last() == all[i as int]);
        }
        if let Some(version) = text::strip_prefix(&refs[i], XOLITE_REF_PREFIX) {
            versions.push(version);
            assert(versions.deep_view() =~= before.push(version@));
        }
    }
    assert(all.take(all.len() as int) =~= all);
    if versions.len() == 0 {
        return Err("No xo-lite-v* tags found upstream".to_string());
    }
    let at = greatest(&versions);
    assert(versions.deep_view()[at as int] == versions@[at as int]@);
    Ok(versions[at].clone())
}

// ── State ──────────────────────────────────────────────────────────────────

/// What the pipeline built last.
#[derive(Debug)]
pub struct VersionState {
    pub xolite_ce: ComponentVersionState,
    pub iso: IsoVersionState,
}

/// What a [`VersionState`] holds.
pub struct VersionStateView {
    pub xolite_ce: ComponentVersionStateView,
    pub iso: IsoVersionStateView,
}

impl View for VersionState {
    type V = VersionStateView;

    open spec fn view(&self) -> VersionStateView {
        VersionStateView {
            xolite_ce: self.xolite_ce@,
            iso: self.iso@,
        }
    }
}

impl DeepView for VersionState {
    type V = VersionStateView;

    open spec fn deep_view(&self) -> VersionStateView {
        self@
    }
}

impl Default for VersionState {
    fn default() -> (state: Self)
        ensures
            state@ == (VersionStateView {
                xolite_ce: ComponentVersionStateView::empty(),
                iso: IsoVersionStateView::empty(),
            }),
    {
        VersionState {
            xolite_ce: ComponentVersionState::default(),
            iso: IsoVersionState::default(),
        }
    }
}

/// How the builds of a run stand.
#[derive(Debug)]
pub struct PipelineState {
    pub xolite_id: Option<u64>,
    pub xolite_status: String,
    pub xolite_url: String,
    pub xoa_id: Option<u64>,
    pub xoa_status: String,
    pub xoa_url: String,
    pub iso_id: Option<u64>,
    pub iso_status: String,
    pub iso_url: String,
    pub llm_hint: Option<String>,
}

/// What a [`PipelineState`] holds.
pub struct PipelineStateView {
    pub xolite_id: Option<u64>,
    pub xolite_status: Seq<char>,
    pub xolite_url: Seq<char>,
    pub xoa_id: Option<u64>,
    pub xoa_status: Seq<char>,
    pub xoa_url: Seq<char>,
    pub iso_id: Option<u64>,
    pub iso_status: Seq<char>,
    pub iso_url: Seq<char>,
    pub llm_hint: Option<Seq<char>>,
}

impl View for PipelineState {
    type V = PipelineStateView;

    open spec fn view(&self) -> PipelineStateView {
        PipelineStateView {
            xolite_id: self.xolite_id,
            xolite_status: self.xolite_status@,
            xolite_url: self.xolite_url@,
            xoa_id: self.xoa_id,
            xoa_status: self.xoa_status@,
            xoa_url: self.xoa_url@,
            iso_id: self.iso_id,
            iso_status: self.iso_status@,
            iso_url: self.iso_url@,
            llm_hint: self.llm_hint.deep_view(),
        }
    }
}

impl DeepView for PipelineState {
    type V = PipelineStateView;

    open spec fn deep_view(&self) -> PipelineStateView {
        self@
    }
}

impl PipelineStateView {
    /// What has no run was skipped.
    pub open spec fn well_formed(self) -> bool {
        &&& self.xolite_id is None ==> self.xolite_status == "Skipped"@
        &&& self.xoa_id is None ==> self.xoa_status == "Skipped"@
    }

    /// A component is still being built.
    pub open spec fn in_progress(self) -> bool {
        self.xolite_status == IN_PROGRESS@ || self.xoa_status == IN_PROGRESS@
    }

    /// The status of a component.
    pub open spec fn status_of(self, component: Component) -> Seq<char> {
        match component {
            Component::XoLite => self.xolite_status,
            Component::XoaProxy => self.xoa_status,
        }
    }

    /// The run of a component.
    pub open spec fn id_of(self, component: Component) -> Option<u64> {
        match component {
            Component::XoLite => self.xolite_id,
            Component::XoaProxy => self.xoa_id,
        }
    }

    /// The state once a component is being built.
    pub open spec fn started(self, component: Component, id: u64, url: Seq<char>) -> PipelineStateView {
        match component {
            Component::XoLite => PipelineStateView {
                xolite_id: Some(id),
                xolite_url: url,
                xolite_status: IN_PROGRESS@,
                ..self
            },
            Component::XoaProxy => PipelineStateView {
                xoa_id: Some(id),
                xoa_url: url,
                xoa_status: IN_PROGRESS@,
                ..self
            },
        }
    }

    /// The state after a look at a component.
    pub open spec fn polled(self, component: Component, conclusion: Seq<char>) -> PipelineStateView {
        match component {
            Component::XoLite => PipelineStateView { xolite_status: conclusion, ..self },
            Component::XoaProxy => PipelineStateView { xoa_status: conclusion, ..self },
        }
    }

    /// The run of a component to look at, while it is being built.
    pub open spec fn due(self, component: Component) -> Option<u64> {
        if self.status_of(component) == IN_PROGRESS@ {
            self.id_of(component)
        } else {
            None
        }
    }

    /// The state once a component failed: no ISO is built, and this is advised.
    pub open spec fn aborted(self, advice: Seq<char>) -> PipelineStateView {
        PipelineStateView { llm_hint: Some(advice), iso_status: "Aborted"@, ..self }
    }

    /// The state with an ISO that would hold nothing new.
    pub open spec fn iso_skipped(self) -> PipelineStateView {
        PipelineStateView { iso_status: "Skipped"@, ..self }
    }

    /// The state once the ISO is being built.
    pub open spec fn iso_started(self, id: u64, url: Seq<char>) -> PipelineStateView {
        PipelineStateView { iso_id: Some(id), iso_url: url, iso_status: IN_PROGRESS@, ..self }
    }

    /// The state after a look at the ISO.
    pub open spec fn iso_polled(self, conclusion: Seq<char>) -> PipelineStateView {
        PipelineStateView { iso_status: conclusion, ..self }
    }

    /// The ISO was built.
    pub open spec fn iso_succeeded(self) -> bool {
        self.iso_status == "success"@
    }

    /// The component whose failure is looked into: XO Lite before xoa-proxy.
    pub open spec fn failed_component(self) -> Option<Component> {
        if self.xolite_status == "failure"@ {
            Some(Component::XoLite)
        } else if self.xoa_status == "failure"@ {
            Some(Component::XoaProxy)
        } else {
            None
        }
    }
}

impl PipelineState {
    /// The state before anything was done.
    pub fn new() -> (state: Self)
        ensures
            state@ == (PipelineStateView {
                xolite_id: None,
                xolite_status: "Skipped"@,
                xolite_url: "#"@,
                xoa_id: None,
                xoa_status: "Skipped"@,
                xoa_url: "#"@,
                iso_id: None,
                iso_status: "Skipped"@,
                iso_url: "#"@,
                llm_hint: None,
            }),
            state@.well_formed(),
    {
        PipelineState {
            xolite_id: None,
            xolite_status: "Skipped".to_string(),
            xolite_url: "#".to_string(),
            xoa_id: None,
            xoa_status: "Skipped".to_string(),
            xoa_url: "#".to_string(),
            iso_id: None,
            iso_status: "Skipped".to_string(),
            iso_url: "#".to_string(),
            llm_hint: None,
        }
    }

    /// A component is being built.
    pub fn start(&mut self, component: Component, id: u64, url: &str)
        ensures
            final(self)@ == old(self)@.started(component, id, url@),
            old(self)@.well_formed() ==> final(self)@.well_formed(),
    {
        match component {
            Component::XoLite => {
                self.xolite_id = Some(id);
                self.xolite_url = url.to_string();
                self.xolite_status = IN_PROGRESS.to_string();
            },
            Component::XoaProxy => {
                self.xoa_id = Some(id);
                self.xoa_url = url.to_string();
                self.xoa_status = IN_PROGRESS.to_string();
            },
        }
    }

    /// The run of a component to look at, while it is being built.
    pub fn due(&self, component: Component) -> (id: Option<u64>)
        requires
            self@.well_formed(),
        ensures
            id == self@.due(component),
            self@.status_of(component) == IN_PROGRESS@ ==> id is Some,
    {
        proof {
            reveal_strlit("In Progress");
            reveal_strlit("Skipped");
            assert("In Progress"@.len() != "Skipped"@.len());
        }
        match component {
            Component::XoLite => if text::same(&self.xolite_status, IN_PROGRESS) {
                self.xolite_id
            } else {
                None
            },
            Component::XoaProxy => if text::same(&self.xoa_status, IN_PROGRESS) {
                self.xoa_id
            } else {
                None
            },
        }
    }

    /// Takes in how the run of a component stands.
    pub fn polled(&mut self, component: Component, conclusion: String)
        requires
            old(self)@.id_of(component) is Some,
        ensures
            final(self)@ == old(self)@.polled(component, conclusion@),
            old(self)@.well_formed() ==> final(self)@.well_formed(),
    {
        match component {
            Component::XoLite => {
                self.xolite_status = conclusion;
            },
            Component::XoaProxy => {
                self.xoa_status = conclusion;
            },
        }
    }

    /// Whether a component is still being built.
    pub fn in_progress(&self) -> (yes: bool)
        ensures
            yes == self@.in_progress(),
    {
        text::same(&self.xolite_status, IN_PROGRESS) || text::same(&self.xoa_status, IN_PROGRESS)
    }

    /// The component whose failure is looked into, with its run.
    pub fn failed_component(&self) -> (failed: Option<(Component, u64)>)
        requires
            self@.well_formed(),
        ensures
            match failed {
                Some((component, id)) => self@.failed_component() == Some(component)
                    && self@.id_of(component) == Some(id),
                None => self@.failed_component() is None,
            },
    {
        proof {
            reveal_strlit("failure");
            reveal_strlit("Skipped");
            assert("failure"@[0] != "Skipped"@[0]);
        }
        if text::same(&self.xolite_status, "failure") {
            match self.xolite_id {
                Some(id) => Some((Component::XoLite, id)),
                None => None,
            }
        } else if text::same(&self.xoa_status, "failure") {
            match self.xoa_id {
                Some(id) => Some((Component::XoaProxy, id)),
                None => None,
            }
        } else {
            None
        }
    }

    /// A component failed: no ISO is built, and this is advised.
    pub fn abort(&mut self, advice: String)
        ensures
            final(self)@ == old(self)@.aborted(advice@),
    {
        self.llm_hint = Some(advice);
        self.iso_status = "Aborted".to_string();
    }

    /// The ISO would hold nothing new.
    pub fn skip_iso(&mut self)
        ensures
            final(self)@ == old(self)@.iso_skipped(),
    {
        self.iso_status = "Skipped".to_string();
    }

    /// The ISO is being built.
    pub fn start_iso(&mut self, id: u64, url: &str)
        ensures
            final(self)@ == old(self)@.iso_started(id, url@),
    {
        self.iso_id = Some(id);
        self.iso_url = url.to_string();
        self.iso_status = IN_PROGRESS.to_string();
    }

    /// Takes in how the run of the ISO stands. Whether it goes on.
    pub fn iso_polled(&mut self, conclusion: String) -> (goes_on: bool)
        ensures
            final(self)@ == old(self)@.iso_polled(conclusion@),
            goes_on == (conclusion@ == IN_PROGRESS@),
    {
        let goes_on = text::same(&conclusion, IN_PROGRESS);
        self.iso_status = conclusion;
        goes_on
    }

    /// Whether the ISO was built: only then it is recorded.
    pub fn iso_succeeded(&self) -> (yes: bool)
        ensures
            yes == self@.iso_succeeded(),
    {
        text::same(&self.iso_status, "success")
    }
}

impl VersionStateView {
    /// The state after XO Lite was built: only a build that succeeded under a
    /// tag is remembered.
    pub open spec fn with_xolite(
        self,
        status: Seq<char>,
        tag: Option<Seq<char>>,
        head_sha: Seq<char>,
    ) -> VersionStateView {
        if status == "success"@ && tag is Some {
            VersionStateView {
                xolite_ce: ComponentVersionStateView {
                    last_tag: tag->0,
                    last_built_sha: head_sha,
                    ..self.xolite_ce
                },
                ..self
            }
        } else {
            self
        }
    }

    /// An ISO would hold something that the last one does not, given the latest
    /// tags of the components.
    pub open spec fn needs_iso(self, xolite_tag: Seq<char>, xoa_proxy_tag: Seq<char>) -> bool {
        self.iso.xcpng_version != XCPNG_TARGET_VERSION@ || self.iso.last_xolite_tag != xolite_tag
            || self.iso.last_xoa_proxy_tag != xoa_proxy_tag
    }

    /// The counter of the next ISO.
    pub open spec fn next_iso_counter(self) -> u32 {
        if self.iso.xcpng_version == XCPNG_TARGET_VERSION@ {
            (self.iso.ce_counter + 1) as u32
        } else {
            1
        }
    }

    /// The counter of the last ISO is not at the top of its range.
    pub open spec fn can_count_iso(self) -> bool {
        self.iso.xcpng_version == XCPNG_TARGET_VERSION@ ==> self.iso.ce_counter < u32::MAX
    }

    /// The state after an ISO was built from the components under some tags.
    pub open spec fn with_iso(
        self,
        tag: Seq<char>,
        counter: u32,
        xolite_tag: Seq<char>,
        xoa_proxy_tag: Seq<char>,
    ) -> VersionStateView {
        VersionStateView {
            iso: IsoVersionStateView {
                xcpng_version: XCPNG_TARGET_VERSION@,
                ce_counter: counter,
                last_tag: tag,
                last_xolite_tag: xolite_tag,
                last_xoa_proxy_tag: xoa_proxy_tag,
            },
            ..self
        }
    }
}

impl VersionState {
    /// Remembers a build of XO Lite that succeeded under a tag. Whether there was
    /// one.
    pub fn record_xolite(&mut self, status: &str, tag: &Option<String>, head_sha: &str) -> (recorded:
        bool)
        ensures
            recorded == (status@ == "success"@ && tag is Some),
            final(self)@ == old(self)@.with_xolite(status@, tag.deep_view(), head_sha@),
    {
        if text::same(status, "success") {
            if let Some(tag) = tag {
                self.xolite_ce.last_tag = tag.clone();
                self.xolite_ce.last_built_sha = head_sha.to_string();
                return true;
            }
        }
        false
    }

    /// Whether an ISO has to be built, given the latest tags of the components.
    pub fn needs_iso_build(&self, xolite_tag: &str, xoa_proxy_tag: &str) -> (yes: bool)
        ensures
            yes == self@.needs_iso(xolite_tag@, xoa_proxy_tag@),
    {
        !text::same(&self.iso.xcpng_version, XCPNG_TARGET_VERSION) || !text::same(
            &self.iso.last_xolite_tag,
            xolite_tag,
        ) || !text::same(&self.iso.last_xoa_proxy_tag, xoa_proxy_tag)
    }

    /// Whether the ISO has a next counter.
    pub fn can_count_iso(&self) -> (yes: bool)
        ensures
            yes == self@.can_count_iso(),
    {
        !text::same(&self.iso.xcpng_version, XCPNG_TARGET_VERSION) || self.iso.ce_counter < u32::MAX
    }

    /// The counter and the tag of the next ISO.
    pub fn next_iso(&self) -> (next: (u32, String))
        requires
            self@.can_count_iso(),
        ensures
            next.0 == self@.next_iso_counter(),
            next.1@ == ce_tag_text(XCPNG_TARGET_VERSION@, self@.next_iso_counter()),
    {
        let counter: u32 = if text::same(&self.iso.xcpng_version, XCPNG_TARGET_VERSION) {
            self.iso.ce_counter + 1
        } else {
            1
        };
        (counter, tags::ce_tag(XCPNG_TARGET_VERSION, counter))
    }

    /// Remembers an ISO, and gives what the release matrix says of it.
    pub fn record_iso(
        &mut self,
        tag: &str,
        counter: u32,
        xolite_tag: &str,
        xoa_proxy_tag: &str,
    ) -> (entry: ReleaseEntry)
        ensures
            final(self)@ == old(self)@.with_iso(tag@, counter, xolite_tag@, xoa_proxy_tag@),
            entry@ == (ReleaseEntryView {
                iso_tag: tag@,
                xolite_version: xolite_tag@,
                xolite_upstream: old(self)@.xolite_ce.upstream_version,
                xoa_proxy_version: xoa_proxy_tag@,
            }),
    {
        self.iso = IsoVersionState {
            xcpng_version: XCPNG_TARGET_VERSION.to_string(),
            ce_counter: counter,
            last_tag: tag.to_string(),
            last_xolite_tag: xolite_tag.to_string(),
            last_xoa_proxy_tag: xoa_proxy_tag.to_string(),
        };
        ReleaseEntry {
            iso_tag: tag.to_string(),
            xolite_version: xolite_tag.to_string(),
            xolite_upstream: self.xolite_ce.upstream_version.clone(),
            xoa_proxy_version: xoa_proxy_tag.to_string(),
        }
    }
}

// ── Dashboard ──────────────────────────────────────────────────────────────

/// What the history says of a run.
#[derive(Debug)]
pub struct RunHistoryItem {
    pub timestamp: Timestamp,
    pub xolite_status: String,
    pub xoa_proxy_status: String,
    pub iso_status: String,
    pub xolite_url: String,
    pub xoa_proxy_url: String,
    pub iso_url: String,
    pub llm_hint: Option<String>,
}

/// What a [`RunHistoryItem`] holds.
pub struct RunHistoryItemView {
    pub timestamp: Timestamp,
    pub xolite_status: Seq<char>,
    pub xoa_proxy_status: Seq<char>,
    pub iso_status: Seq<char>,
    pub xolite_url: Seq<char>,
    pub xoa_proxy_url: Seq<char>,
    pub iso_url: Seq<char>,
    pub llm_hint: Option<Seq<char>>,
}

impl View for RunHistoryItem {
    type V = RunHistoryItemView;

    open spec fn view(&self) -> RunHistoryItemView {
        RunHistoryItemView {
            timestamp: self.timestamp,
            xolite_status: self.xolite_status@,
            xoa_proxy_status: self.xoa_proxy_status@,
            iso_status: self.iso_status@,
            xolite_url: self.xolite_url@,
            xoa_proxy_url: self.xoa_proxy_url@,
            iso_url: self.iso_url@,
            llm_hint: self.llm_hint.deep_view(),
        }
    }
}

impl DeepView for RunHistoryItem {
    type V = RunHistoryItemView;

    open spec fn deep_view(&self) -> RunHistoryItemView {
        self@
    }
}

/// What the history says of a run at a moment.
pub open spec fn history_item_of(state: PipelineStateView, now: Timestamp) -> RunHistoryItemView {
    RunHistoryItemView {
        timestamp: now,
        xolite_status: state.xolite_status,
        xoa_proxy_status: state.xoa_status,
        iso_status: state.iso_status,
        xolite_url: state.xolite_url,
        xoa_proxy_url: state.xoa_url,
        iso_url: state.iso_url,
        llm_hint: state.llm_hint,
    }
}

/// What the history says of a run, as of now.
pub fn history_item(state: PipelineState) -> (item: RunHistoryItem)
    ensures
        item@ == history_item_of(state@, item@.timestamp),
        item@.timestamp.in_calendar(),
{
    RunHistoryItem {
        timestamp: clock::utc_now(),
        xolite_status: state.xolite_status,
        xoa_proxy_status: state.xoa_status,
        iso_status: state.iso_status,
        xolite_url: state.xolite_url,
        xoa_proxy_url: state.xoa_url,
        iso_url: state.iso_url,
        llm_hint: state.llm_hint,
    }
}

/// The badge class of a status, as GitHub words it.
pub open spec fn badge_class_of(status: Seq<char>) -> Seq<char> {
    if status == "success"@ {
        "success"@
    } else if status == "failure"@ {
        "failure"@
    } else {
        "progress"@
    }
}

/// The badge class of a status, as GitHub words it.
pub fn get_badge_class(status: &str) -> (class: &'static str)
    ensures
        class@ == badge_class_of(status@),
{
    if text::same(status, "success") {
        "success"
    } else if text::same(status, "failure") {
        "failure"
    } else {
        "progress"
    }
}

/// What stands before each row.
pub const ROW_INDENT: &'static str = "\n        ";

/// The card of a run, with its moment as it is shown.
pub open spec fn card_html(newest: bool, time: Seq<char>, item: RunHistoryItemView) -> Seq<char> {
    heading_html(newest, time) + ROW_INDENT@ + row_html(
        "Xolite-ce"@,
        badge_class_of(item.xolite_status),
        item.xolite_status,
        item.xolite_url,
    ) + ROW_INDENT@ + row_html(
        "XOA-Proxy"@,
        badge_class_of(item.xoa_proxy_status),
        item.xoa_proxy_status,
        item.xoa_proxy_url,
    ) + ROW_INDENT@ + row_html(
        "ISO Matrix"@,
        badge_class_of(item.iso_status),
        item.iso_status,
        item.iso_url,
    ) + hint_html(item.llm_hint) + "</div>"@
}

/// The cards of all runs, given how the moment of each is shown.
pub open spec fn cards_of(history: Seq<RunHistoryItemView>, times: Seq<Seq<char>>) -> Seq<
    Seq<char>,
> {
    Seq::new(history.len(), |i: int| card_html(i == 0, times[i], history[i]))
}

/// The page with all runs, given how the moment of each is shown. Where there
/// are no agents, there is nothing to start.
pub open spec fn dashboard_html(
    history: Seq<RunHistoryItemView>,
    times: Seq<Seq<char>>,
) -> Seq<char> {
    page_html(Seq::empty(), cards_of(history, times))
}

fn write_card(newest: bool, time: &str, item: &RunHistoryItem) -> (html: String)
    ensures
        html@ == card_html(newest, time@, item@),
{
    dashboard::write_heading(newest, time).concat(ROW_INDENT).concat(
        &dashboard::write_row(
            "Xolite-ce",
            get_badge_class(&item.xolite_status),
            &item.xolite_status,
            &item.xolite_url,
        ),
    ).concat(ROW_INDENT).concat(
        &dashboard::write_row(
            "XOA-Proxy",
            get_badge_class(&item.xoa_proxy_status),
            &item.xoa_proxy_status,
            &item.xoa_proxy_url,
        ),
    ).concat(ROW_INDENT).concat(
        &dashboard::write_row(
            "ISO Matrix",
            get_badge_class(&item.iso_status),
            &item.iso_status,
            &item.iso_url,
        ),
    ).concat(&dashboard::write_hint(&item.llm_hint)).concat("</div>")
}

/// The page with all runs, given how the moment of each is shown.
pub fn render_dashboard_with_times(history: &[RunHistoryItem], times: &Vec<String>) -> (html:
    String)
    requires
        times@.len() == history@.len(),
    ensures
        html@ == dashboard_html(history.deep_view(), times.deep_view()),
{
    let ghost items = history.deep_view();
    let ghost shown = times.deep_view();
    let mut cards: Vec<String> = Vec::new();
    for i in 0..history.len()
        invariant
            times@.len() == history@.len(),
            items == history.deep_view(),
            shown == times.deep_view(),
            cards.deep_view() =~= cards_of(items, shown).take(i as int),
    {
        let item = &history[i];
        let ghost before = cards.deep_view();
        proof {
            assert(items[i as int] == item@);
            assert(shown[i as int] == times@[i as int]@);
        }
        cards.push(write_card(i == 0, &times[i], item));
        assert(cards.deep_view() =~= before.push(cards_of(items, shown)[i as int]));
    }
    assert(cards.deep_view() =~= cards_of(items, shown));
    proof {
        reveal_strlit("");
    }
    assert(""@ =~= Seq::<char>::empty());
    dashboard::write_page("", &cards)
}

/// When each run of a history was.
pub open spec fn moments_of(history: Seq<RunHistoryItemView>) -> Seq<Timestamp> {
    history.map_values(|item: RunHistoryItemView| item.timestamp)
}

/// The page with all runs, the moments in the time zone of this machine. Which
/// zone that is depends on the machine and is not stated.
pub fn render_dashboard(history: &[RunHistoryItem]) -> (html: String)
    requires
        all_in_calendar(moments_of(history.deep_view())),
    ensures
        exists|times: Seq<Seq<char>>|
            are_local_times(times, moments_of(history.deep_view())) && html@
                == #[trigger] dashboard_html(history.deep_view(), times),
{
    let ghost items = history.deep_view();
    let mut moments: Vec<Timestamp> = Vec::new();
    for i in 0..history.len()
        invariant
            items == history.deep_view(),
            moments@ =~= moments_of(items).take(i as int),
    {
        assert(items[i as int] == history@[i as int]@);
        moments.push(history[i].timestamp);
    }
    assert(moments@ =~= moments_of(items));
    let times = dashboard::local_times(&moments);
    render_dashboard_with_times(history, &times)
}

// ── Laws ───────────────────────────────────────────────────────────────────

/// The newest version is settled by the references: the only one that is both
/// greatest and last.
pub proof fn newest_version_is_unique(versions: Seq<Seq<char>>, a: int, b: int)
    requires
        is_last_greatest(versions, a),
        is_last_greatest(versions, b),
    ensures
        a == b,
{
    if a < b {
        assert(key_le(version_key(versions[b]), version_key(versions[a])));
        assert(!key_le(version_key(versions[a]), version_key(versions[b])));
        assert(key_le(version_key(versions[a]), version_key(versions[b])));
    } else if b < a {
        assert(!key_le(version_key(versions[b]), version_key(versions[a])));
        assert(key_le(version_key(versions[b]), version_key(versions[a])));
    }
}

/// A row of a run: XO Lite, xoa-proxy and the ISO.
pub open spec fn shown_row(item: RunHistoryItemView, row: int) -> Seq<char> {
    if row == 0 {
        row_html(
            "Xolite-ce"@,
            badge_class_of(item.xolite_status),
            item.xolite_status,
            item.xolite_url,
        )
    } else if row == 1 {
        row_html(
            "XOA-Proxy"@,
            badge_class_of(item.xoa_proxy_status),
            item.xoa_proxy_status,
            item.xoa_proxy_url,
        )
    } else {
        row_html("ISO Matrix"@, badge_class_of(item.iso_status), item.iso_status, item.iso_url)
    }
}

/// The rows of a run all stand in its card.
proof fn lemma_card_has_rows(newest: bool, time: Seq<char>, item: RunHistoryItemView, row: int)
    requires
        0 <= row < 3,
    ensures
        has_text(card_html(newest, time, item), shown_row(item, row)),
{
    let a = shown_row(item, 0);
    let b = shown_row(item, 1);
    let c = shown_row(item, 2);
    let end = hint_html(item.llm_hint) + "</div>"@;
    let start = heading_html(newest, time) + ROW_INDENT@;
    let whole = card_html(newest, time, item);
    assert(whole =~= start + a + (ROW_INDENT@ + b + ROW_INDENT@ + c + end));
    lemma_has_part(start, a, ROW_INDENT@ + b + ROW_INDENT@ + c + end);
    assert(whole =~= (start + a + ROW_INDENT@) + b + (ROW_INDENT@ + c + end));
    lemma_has_part(start + a + ROW_INDENT@, b, ROW_INDENT@ + c + end);
    assert(whole =~= (start + a + ROW_INDENT@ + b + ROW_INDENT@) + c + end);
    lemma_has_part(start + a + ROW_INDENT@ + b + ROW_INDENT@, c, end);
}

/// The dashboard shows every component of every run: its name, its status with
/// the badge of that status, and its link.
pub proof fn dashboard_shows_every_row(
    history: Seq<RunHistoryItemView>,
    times: Seq<Seq<char>>,
    run: int,
    row: int,
)
    requires
        0 <= run < history.len(),
        0 <= row < 3,
    ensures
        has_text(dashboard_html(history, times), shown_row(history[run], row)),
{
    let p = shown_row(history[run], row);
    let cards = cards_of(history, times);
    lemma_card_has_rows(run == 0, times[run], history[run], row);
    page_shows_cards(Seq::empty(), cards, run, p);
}

/// After an ISO was recorded, none is built until a component has a new tag.
pub proof fn recorded_iso_is_not_repeated(
    state: VersionStateView,
    tag: Seq<char>,
    counter: u32,
    xolite_tag: Seq<char>,
    xoa_proxy_tag: Seq<char>,
)
    ensures
        !state.with_iso(tag, counter, xolite_tag, xoa_proxy_tag).needs_iso(
            xolite_tag,
            xoa_proxy_tag,
        ),
{
}

/// A reply counts exactly if its status is successful; what is said of another one
/// names the request, and holds its status and its body.
pub proof fn only_successful_replies_are_read(
    status: u16,
    body: Seq<char>,
    context: Seq<char>,
    repo: Seq<char>,
    tag: Seq<char>,
)
    ensures
        200 <= status <= 299 ==> reply_body(status, body, context) == Ok::<Seq<char>, Seq<char>>(
            body,
        ),
        !(200 <= status <= 299) ==> (reply_body(status, body, context) matches Err(m) && has_text(
            m,
            context,
        ) && has_text(m, body) && has_text(m, decimal(status as nat))),
        tag_push_outcome(repo, tag, status, body) is Ok <==> 200 <= status <= 299,
        tag_push_outcome(repo, tag, status, body) matches Err(m) ==> has_text(m, tag) && has_text(
            m,
            repo,
        ) && has_text(m, body),
        dispatch_outcome(repo, status) is Ok <==> status == 204,
        dispatch_outcome(repo, status) matches Err(m) ==> has_text(m, repo) && has_text(
            m,
            decimal(status as nat),
        ),
{
    let reason = github::status_reason(status);
    let digits = decimal(status as nat);
    let start = "GitHub API error ("@;
    let m = start + status_text(status) + ") during "@ + context + ": "@ + body;
    lemma_has_tail(start + status_text(status) + ") during "@ + context + ": "@, body);
    assert(m =~= (start + status_text(status) + ") during "@) + context + (": "@ + body));
    lemma_has_part(start + status_text(status) + ") during "@, context, ": "@ + body);
    let rest = " "@ + reason + ") during "@ + context + ": "@ + body;
    assert(m =~= start + digits + rest);
    lemma_has_part(start, digits, rest);
    let push = "Failed to create tag "@ + tag + " on "@ + repo + ": "@ + body;
    lemma_has_tail("Failed to create tag "@ + tag + " on "@ + repo + ": "@, body);
    assert(push =~= "Failed to create tag "@ + tag + (" on "@ + repo + ": "@ + body));
    lemma_has_part("Failed to create tag "@, tag, " on "@ + repo + ": "@ + body);
    assert(push =~= ("Failed to create tag "@ + tag + " on "@) + repo + (": "@ + body));
    lemma_has_part("Failed to create tag "@ + tag + " on "@, repo, ": "@ + body);
    let dispatch = "Dispatch rejection for repo: "@ + repo + ". Code: "@ + status_text(status);
    let code = ". Code: "@ + status_text(status);
    assert(dispatch =~= "Dispatch rejection for repo: "@ + repo + code);
    lemma_has_part("Dispatch rejection for repo: "@, repo, code);
    let before = "Dispatch rejection for repo: "@ + repo + ". Code: "@;
    assert(dispatch =~= before + digits + (" "@ + reason));
    lemma_has_part(before, digits, " "@ + reason);
}

/// What is said of a body that is not JSON holds the request, what was wrong, and the
/// start of the body.
pub proof fn unreadable_bodies_are_quoted(
    context: Seq<char>,
    status: u16,
    error: Seq<char>,
    body: Seq<char>,
)
    ensures
        has_text(json_error_text(context, status, error, body), context),
        has_text(json_error_text(context, status, error, body), error),
        has_text(json_error_text(context, status, error, body), head_text(body, 500)),
        has_text(json_error_text(context, status, error, body), decimal(status as nat)),
{
    let m = json_error_text(context, status, error, body);
    let start = "Failed to parse JSON during "@;
    let quoted = "\nBody (first 500 chars): "@ + head_text(body, QUOTED_BODY_LEN);
    let after_context = " (status "@ + status_text(status) + "): "@ + error + quoted;
    assert(m =~= start + context + after_context);
    lemma_has_part(start, context, after_context);
    let before_error = start + context + " (status "@ + status_text(status) + "): "@;
    assert(m =~= before_error + error + quoted);
    lemma_has_part(before_error, error, quoted);
    lemma_has_tail(
        before_error + error + "\nBody (first 500 chars): "@,
        head_text(body, QUOTED_BODY_LEN),
    );
    let digits = decimal(status as nat);
    let rest = " "@ + github::status_reason(status) + "): "@ + error + quoted;
    assert(m =~= (start + context + " (status "@) + digits + rest);
    lemma_has_part(start + context + " (status "@, digits, rest);
}

/// A dispatched run is searched for every four seconds, up to and not beyond 45
/// seconds; a search that is given up names the repository.
pub proof fn search_ends_in_time(repo: Seq<char>, elapsed_secs: u64)
    ensures
        elapsed_secs < 45 ==> search_step(repo, elapsed_secs) == Ok::<u64, Seq<char>>(4),
        elapsed_secs >= 45 ==> (search_step(repo, elapsed_secs) matches Err(m) && has_text(
            m,
            repo,
        )),
{
    lemma_has_tail("Timeout waiting for run matching dispatch trigger in repo "@, repo);
}

/// The first name of a list of tags is the latest one; an empty list is an error
/// that names the repository.
pub proof fn first_tag_is_the_latest(repo: Seq<char>, names: Seq<Seq<char>>, first: Seq<char>)
    ensures
        latest_tag_of(repo, seq![first] + names) == Ok::<Seq<char>, Seq<char>>(first),
        latest_tag_of(repo, Seq::empty()) matches Err(m) && has_text(m, repo),
{
    lemma_has_tail("No tags found on "@, repo);
}

/// Repositories have addresses of their own.
pub proof fn repositories_have_their_addresses(a: Seq<char>, b: Seq<char>)
    ensures
        latest_tag_url_text(a) == latest_tag_url_text(b) ==> a == b,
        dispatched_runs_url_text(a) == dispatched_runs_url_text(b) ==> a == b,
        has_text(latest_tag_url_text(a), "/"@ + a + "/tags?"@),
        has_text(dispatched_runs_url_text(a), "/"@ + a + "/actions/runs?event=workflow_dispatch"@),
{
    let start = "https://api.github.com/repos/"@ + OWNER@;
    text::lemma_middle_is_determined(start + "/"@, a, b, "/tags?per_page=1"@);
    text::lemma_middle_is_determined(
        start + "/"@,
        a,
        b,
        "/actions/runs?event=workflow_dispatch&per_page=5"@,
    );
    reveal_strlit("/tags?per_page=1");
    reveal_strlit("/tags?");
    reveal_strlit("per_page=1");
    reveal_strlit("/actions/runs?event=workflow_dispatch&per_page=5");
    reveal_strlit("/actions/runs?event=workflow_dispatch");
    reveal_strlit("&per_page=5");
    assert("/tags?per_page=1"@ =~= "/tags?"@ + "per_page=1"@);
    assert("/actions/runs?event=workflow_dispatch&per_page=5"@
        =~= "/actions/runs?event=workflow_dispatch"@ + "&per_page=5"@);
    let tags = "/"@ + a + "/tags?"@;
    assert(latest_tag_url_text(a) =~= start + tags + "per_page=1"@);
    lemma_has_part(start, tags, "per_page=1"@);
    let runs = "/"@ + a + "/actions/runs?event=workflow_dispatch"@;
    assert(dispatched_runs_url_text(a) =~= start + runs + "&per_page=5"@);
    lemma_has_part(start, runs, "&per_page=5"@);
}

/// Versions are ordered number by number: one is not after another exactly if it is
/// the start of it, or has the smaller number where they first differ.
pub proof fn versions_are_ordered_by_number(a: Seq<u32>, b: Seq<u32>)
    ensures
        key_le(a, b) <==> a.is_prefix_of(b) || exists|i: int|
            0 <= i < a.len() && i < b.len() && #[trigger] a[i] < b[i] && a.take(i) == b.take(i),
    decreases a.len(),
{
    if a.len() > 0 && b.len() > 0 {
        let x = a.drop_first();
        let y = b.drop_first();
        versions_are_ordered_by_number(x, y);
        if a[0] == b[0] {
            if x.is_prefix_of(y) {
                assert(a =~= b.subrange(0, a.len() as int)) by {
                    assert forall|i: int| 0 <= i < a.len() implies a[i] == b[i] by {
                        if i > 0 {
                            assert(a[i] == x[i - 1]);
                            assert(x[i - 1] == y.subrange(0, x.len() as int)[i - 1]);
                        }
                    }
                }
            }
            if a.is_prefix_of(b) {
                assert forall|i: int| 0 <= i < a.len() implies a[i] == b[i] by {
                    assert(a[i] == b.subrange(0, a.len() as int)[i]);
                }
                assert(x =~= y.subrange(0, x.len() as int));
            }
            if exists|i: int|
                0 <= i < x.len() && i < y.len() && #[trigger] x[i] < y[i] && x.take(i) == y.take(
                    i,
                ) {
                let i = choose|i: int|
                    0 <= i < x.len() && i < y.len() && #[trigger] x[i] < y[i] && x.take(i)
                        == y.take(i);
                assert(a[i + 1] == x[i] && b[i + 1] == y[i]);
                assert(a.take(i + 1) =~= seq![a[0]] + x.take(i));
                assert(b.take(i + 1) =~= seq![b[0]] + y.take(i));
            }
            if exists|i: int|
                0 <= i < a.len() && i < b.len() && #[trigger] a[i] < b[i] && a.take(i) == b.take(
                    i,
                ) {
                let i = choose|i: int|
                    0 <= i < a.len() && i < b.len() && #[trigger] a[i] < b[i] && a.take(i)
                        == b.take(i);
                assert(i > 0);
                assert(x[i - 1] == a[i] && y[i - 1] == b[i]);
                assert(x.take(i - 1) =~= a.take(i).drop_first());
                assert(y.take(i - 1) =~= b.take(i).drop_first());
            }
        } else {
            if a.is_prefix_of(b) {
                assert(a[0] == b.subrange(0, a.len() as int)[0]);
            }
            assert(a.take(0) =~= b.take(0));
            if exists|i: int|
                0 <= i < a.len() && i < b.len() && #[trigger] a[i] < b[i] && a.take(i) == b.take(
                    i,
                ) {
                let i = choose|i: int|
                    0 <= i < a.len() && i < b.len() && #[trigger] a[i] < b[i] && a.take(i)
                        == b.take(i);
                if i > 0 {
                    assert(a.take(i)[0] == b.take(i)[0]);
                }
            }
        }
    } else if a.len() == 0 {
        assert(a =~= b.subrange(0, 0));
    }
}

/// A version: its numbers in decimal digits, with dots between them.
pub open spec fn version_text(numbers: Seq<u32>) -> Seq<char> {
    joined(numbers.map_values(|n: u32| decimal(n as nat)), "."@)
}

/// A version is ordered by all its numbers, from the first to the last.
pub proof fn version_is_read_by_its_numbers(numbers: Seq<u32>)
    requires
        numbers.len() > 0,
    ensures
        version_key(version_text(numbers)) == numbers,
    decreases numbers.len(),
{
    reveal_strlit(".");
    let shown = numbers.map_values(|n: u32| decimal(n as nat));
    let last = numbers.last();
    let digits = decimal(last as nat);
    text::decimal_is_digits(last as nat);
    text::number_reads_decimal(last as nat, u32::MAX as nat);
    assert forall|i: int| 0 <= i < digits.len() implies digits[i] != '.' by {
        assert(text::is_digit(digits[i]));
    }
    if numbers.len() == 1 {
        tags::lemma_pieces_none(digits, '.');
        assert(shown[0] == digits);
        assert(seq![digits].drop_last() =~= Seq::<Seq<char>>::empty());
        assert(numbers_of(Seq::<Seq<char>>::empty()) =~= Seq::<u32>::empty());
        assert(numbers_of(seq![digits]) =~= seq![last]);
        assert(numbers =~= seq![last]);
    } else {
        let before = numbers.drop_last();
        version_is_read_by_its_numbers(before);
        assert(shown.drop_last() =~= before.map_values(|n: u32| decimal(n as nat)));
        tags::lemma_pieces_push(version_text(before), '.', digits);
        assert("."@ =~= seq!['.']);
        assert(version_text(numbers) =~= version_text(before) + seq!['.'] + digits);
        let parts = pieces(version_text(before), '.');
        assert(parts.push(digits).drop_last() =~= parts);
        assert(parts.push(digits).last() == digits);
        assert(numbers =~= before.push(last));
    }
}

/// The versions that count are those of the tags that start with `xo-lite-v`: a
/// version is among them exactly if its tag is among the references.
pub proof fn versions_are_those_of_the_tags(refs: Seq<Seq<char>>, version: Seq<char>)
    ensures
        xolite_versions(refs).contains(version) <==> refs.contains(
            "refs/tags/xo-lite-v"@ + version,
        ),
    decreases refs.len(),
{
    let tag = "refs/tags/xo-lite-v"@ + version;
    if refs.len() > 0 {
        let before = refs.drop_last();
        let last = refs.last();
        versions_are_those_of_the_tags(before, version);
        let found = xolite_versions(before);
        let cut = last.skip("refs/tags/xo-lite-v"@.len() as int);
        assert(refs =~= before.push(last));
        if refs.contains(tag) {
            let i = choose|i: int| 0 <= i < refs.len() && refs[i] == tag;
            if i < before.len() {
                assert(before[i] == tag);
            } else {
                assert(tag.subrange(0, "refs/tags/xo-lite-v"@.len() as int)
                    =~= "refs/tags/xo-lite-v"@);
                assert(cut =~= version);
                assert(found.push(cut).last() == version);
            }
        }
        if before.contains(tag) {
            let i = choose|i: int| 0 <= i < before.len() && before[i] == tag;
            assert(refs[i] == tag);
        }
        if found.contains(version) {
            let i = choose|i: int| 0 <= i < found.len() && found[i] == version;
            assert(found.push(cut)[i] == version);
        }
        if xolite_versions(refs).contains(version) && !found.contains(version) {
            let all = xolite_versions(refs);
            let i = choose|i: int| 0 <= i < all.len() && all[i] == version;
            if i < found.len() {
                assert(found[i] == version);
            } else {
                assert(cut == version);
                assert(last =~= tag) by {
                    assert("refs/tags/xo-lite-v"@ =~= last.subrange(
                        0,
                        "refs/tags/xo-lite-v"@.len() as int,
                    ));
                    assert(last =~= last.subrange(0, "refs/tags/xo-lite-v"@.len() as int) + cut);
                }
                assert(refs[refs.len() - 1] == tag);
            }
        }
    }
}

/// A build that was started is the one that is looked at until it has ended, under
/// its own run and link. The other component and the ISO do not change by it.
pub proof fn begun_component_is_watched(
    state: PipelineStateView,
    component: Component,
    other: Component,
    id: u64,
    url: Seq<char>,
    conclusion: Seq<char>,
)
    requires
        component != other,
    ensures
        ({
            let after = state.started(component, id, url);
            let seen = after.polled(component, conclusion);
            &&& after.in_progress()
            &&& after.due(component) == Some(id)
            &&& after.due(other) == state.due(other)
            &&& after.status_of(other) == state.status_of(other)
            &&& component is XoLite ==> after.xolite_url == url && after.xoa_url == state.xoa_url
            &&& component is XoaProxy ==> after.xoa_url == url && after.xolite_url
                == state.xolite_url
            &&& after.iso_status == state.iso_status && after.iso_url == state.iso_url
                && after.iso_id == state.iso_id && after.llm_hint == state.llm_hint
            &&& seen.status_of(component) == conclusion
            &&& seen.status_of(other) == state.status_of(other)
            &&& seen.xolite_url == after.xolite_url && seen.xoa_url == after.xoa_url
            &&& seen.iso_status == state.iso_status && seen.iso_url == state.iso_url && seen.iso_id
                == state.iso_id && seen.llm_hint == state.llm_hint
            &&& seen.id_of(component) == Some(id) && seen.id_of(other) == state.id_of(other)
            &&& conclusion == "In Progress"@ ==> seen.due(component) == Some(id)
            &&& conclusion != "In Progress"@ ==> seen.due(component) is None
        }),
{
}

/// A build is under way exactly if one of the components is; a failure is looked into
/// exactly if one of them failed, XO Lite first.
pub proof fn failures_are_looked_into(state: PipelineStateView)
    ensures
        state.in_progress() <==> state.xolite_status == "In Progress"@ || state.xoa_status
            == "In Progress"@,
        state.failed_component() is Some <==> state.xolite_status == "failure"@
            || state.xoa_status == "failure"@,
        state.failed_component() == Some(Component::XoLite) <==> state.xolite_status == "failure"@,
        state.failed_component() == Some(Component::XoaProxy) <==> state.xolite_status
            != "failure"@ && state.xoa_status == "failure"@,
{
}

/// What is done about the ISO changes what is said of the ISO, and leaves the
/// components as they are; only a success counts as one.
pub proof fn iso_steps_leave_the_components(
    state: PipelineStateView,
    id: u64,
    url: Seq<char>,
    advice: Seq<char>,
    conclusion: Seq<char>,
)
    ensures
        ({
            let aborted = state.aborted(advice);
            let skipped = state.iso_skipped();
            let begun = state.iso_started(id, url);
            let seen = state.iso_polled(conclusion);
            &&& aborted.iso_status == "Aborted"@ && aborted.llm_hint == Some(advice)
            &&& aborted.iso_id == state.iso_id && aborted.iso_url == state.iso_url
            &&& skipped.iso_status == "Skipped"@ && skipped.llm_hint == state.llm_hint
            &&& skipped.iso_id == state.iso_id && skipped.iso_url == state.iso_url
            &&& begun.iso_status == "In Progress"@ && begun.iso_id == Some(id) && begun.iso_url
                == url && begun.llm_hint == state.llm_hint
            &&& seen.iso_status == conclusion && seen.iso_id == state.iso_id && seen.iso_url
                == state.iso_url && seen.llm_hint == state.llm_hint
            &&& seen.iso_succeeded() <==> conclusion == "success"@
            &&& !aborted.iso_succeeded() && !skipped.iso_succeeded() && !begun.iso_succeeded()
            &&& same_components(state, aborted) && same_components(state, skipped)
            &&& same_components(state, begun) && same_components(state, seen)
        }),
{
    reveal_strlit("success");
    reveal_strlit("Aborted");
    reveal_strlit("Skipped");
    reveal_strlit("In Progress");
    assert("success"@[0] == 's' && "Aborted"@[0] == 'A' && "Skipped"@[0] == 'S' && "In Progress"@[0]
        == 'I');
}

/// Two states say the same of the components.
pub open spec fn same_components(a: PipelineStateView, b: PipelineStateView) -> bool {
    &&& a.xolite_id == b.xolite_id
    &&& a.xolite_status == b.xolite_status
    &&& a.xolite_url == b.xolite_url
    &&& a.xoa_id == b.xoa_id
    &&& a.xoa_status == b.xoa_status
    &&& a.xoa_url == b.xoa_url
}

/// Only a build of XO Lite that succeeded under a tag is remembered, with its tag and
/// its commit; the version it was built from and the ISO stay as they were.
pub proof fn only_a_tagged_success_is_remembered(
    state: VersionStateView,
    status: Seq<char>,
    tag: Seq<char>,
    head_sha: Seq<char>,
)
    ensures
        state.with_xolite(status, None, head_sha) == state,
        status != "success"@ ==> state.with_xolite(status, Some(tag), head_sha) == state,
        ({
            let after = state.with_xolite("success"@, Some(tag), head_sha);
            &&& after.xolite_ce.last_tag == tag
            &&& after.xolite_ce.last_built_sha == head_sha
            &&& after.xolite_ce.upstream_version == state.xolite_ce.upstream_version
            &&& after.xolite_ce.ce_counter == state.xolite_ce.ce_counter
            &&& after.iso == state.iso
        }),
{
}

/// An ISO is built exactly if the last one is for another release of XCP-ng, or holds
/// another XO Lite or another xoa-proxy.
pub proof fn iso_is_built_exactly_when_something_is_new(
    state: VersionStateView,
    xolite_tag: Seq<char>,
    xoa_proxy_tag: Seq<char>,
)
    ensures
        !state.needs_iso(xolite_tag, xoa_proxy_tag) <==> state.iso.xcpng_version
            == XCPNG_TARGET_VERSION@ && state.iso.last_xolite_tag == xolite_tag
            && state.iso.last_xoa_proxy_tag == xoa_proxy_tag,
{
}

/// The tag of the next ISO reads back as the release of XCP-ng with the counter after
/// that of the last ISO; for another release the counters start again. Once it is
/// recorded, the counter goes on from there, and what was recorded is what was given.
pub proof fn iso_counts_up(
    state: VersionStateView,
    tag: Seq<char>,
    counter: u32,
    xolite_tag: Seq<char>,
    xoa_proxy_tag: Seq<char>,
)
    ensures
        state.can_count_iso() <==> state.iso.xcpng_version != XCPNG_TARGET_VERSION@
            || state.iso.ce_counter < u32::MAX,
        state.iso.xcpng_version == XCPNG_TARGET_VERSION@ && state.iso.ce_counter < u32::MAX
            ==> state.next_iso_counter() == state.iso.ce_counter + 1,
        state.iso.xcpng_version != XCPNG_TARGET_VERSION@ ==> state.next_iso_counter() == 1,
        tags::ce_tag_parts(ce_tag_text(XCPNG_TARGET_VERSION@, state.next_iso_counter())) == Some(
            (XCPNG_TARGET_VERSION@, state.next_iso_counter()),
        ),
        ({
            let after = state.with_iso(tag, counter, xolite_tag, xoa_proxy_tag);
            &&& after.iso.ce_counter == counter
            &&& after.iso.last_tag == tag
            &&& after.iso.last_xolite_tag == xolite_tag
            &&& after.iso.last_xoa_proxy_tag == xoa_proxy_tag
            &&& after.iso.xcpng_version == XCPNG_TARGET_VERSION@
            &&& after.xolite_ce == state.xolite_ce
            &&& counter < u32::MAX ==> after.next_iso_counter() == counter + 1
        }),
{
    reveal_strlit("8.3");
    tags::ce_tag_reads_back(XCPNG_TARGET_VERSION@, state.next_iso_counter());
}

/// The history holds of a run what its state says, each component for itself.
pub proof fn history_holds_the_run(state: PipelineStateView, now: Timestamp)
    ensures
        ({
            let item = history_item_of(state, now);
            &&& item.timestamp == now
            &&& item.xolite_status == state.status_of(Component::XoLite)
            &&& item.xoa_proxy_status == state.status_of(Component::XoaProxy)
            &&& item.iso_status == state.iso_status
            &&& item.xolite_url == state.xolite_url
            &&& item.xoa_proxy_url == state.xoa_url
            &&& item.iso_url == state.iso_url
            &&& item.llm_hint == state.llm_hint
        }),
{
}

/// The badge of a status as GitHub words it tells how a build ended.
pub proof fn badges_tell_how_a_build_ended(status: Seq<char>)
    ensures
        badge_class_of(status) == "success"@ <==> status == "success"@,
        badge_class_of(status) == "failure"@ <==> status == "failure"@,
        status != "success"@ && status != "failure"@ ==> badge_class_of(status) == "progress"@,
{
    reveal_strlit("success");
    reveal_strlit("failure");
    reveal_strlit("progress");
    assert("success"@.len() == 7 && "failure"@.len() == 7 && "progress"@.len() == 8);
    assert("success"@[0] == 's' && "failure"@[0] == 'f');
}

/// Each run has a card of its own that shows its moment, tells the newest from the
/// others, and holds the advice on it and the status and link of each component.
pub proof fn cards_show_their_run(
    history: Seq<RunHistoryItemView>,
    times: Seq<Seq<char>>,
    run: int,
    advice: Seq<char>,
)
    requires
        0 <= run < history.len(),
    ensures
        has_text(dashboard_html(history, times), "("@ + times[run] + ")"@),
        history[run].llm_hint == Some(advice) ==> has_text(
            dashboard_html(history, times),
            "<pre>"@ + advice + "</pre>"@,
        ),
        cards_of(history, times).len() == history.len(),
        run == 0 ==> has_text(cards_of(history, times)[run], "Latest Execution Run"@),
        run > 0 ==> has_text(cards_of(history, times)[run], "Historical Archive"@),
        has_text(
            dashboard_html(history, times),
            row_html(
                "Xolite-ce"@,
                badge_class_of(history[run].xolite_status),
                history[run].xolite_status,
                history[run].xolite_url,
            ),
        ),
        has_text(
            dashboard_html(history, times),
            row_html(
                "XOA-Proxy"@,
                badge_class_of(history[run].xoa_proxy_status),
                history[run].xoa_proxy_status,
                history[run].xoa_proxy_url,
            ),
        ),
        has_text(
            dashboard_html(history, times),
            row_html(
                "ISO Matrix"@,
                badge_class_of(history[run].iso_status),
                history[run].iso_status,
                history[run].iso_url,
            ),
        ),
{
    let item = history[run];
    let newest = run == 0;
    let cards = cards_of(history, times);
    let card = card_html(newest, times[run], item);
    let heading = heading_html(newest, times[run]);
    let none = Seq::<char>::empty();
    let rows = ROW_INDENT@ + shown_row(item, 0) + ROW_INDENT@ + shown_row(item, 1) + ROW_INDENT@
        + shown_row(item, 2);
    let rest = rows + hint_html(item.llm_hint) + "</div>"@;
    assert(cards[run] == card);
    assert(card =~= none + heading + rest);
    dashboard::headings_show_the_moment(newest, times[run], none);
    lemma_has_text_within(none, heading, rest, "("@ + times[run] + ")"@);
    page_shows_cards(Seq::empty(), cards, run, "("@ + times[run] + ")"@);
    if newest {
        lemma_has_text_within(none, heading, rest, "Latest Execution Run"@);
    } else {
        lemma_has_text_within(none, heading, rest, "Historical Archive"@);
    }
    if item.llm_hint == Some(advice) {
        let shown = "<pre>"@ + advice + "</pre>"@;
        dashboard::advice_is_shown(advice);
        assert(card =~= (heading + rows) + hint_html(item.llm_hint) + "</div>"@);
        lemma_has_text_within(heading + rows, hint_html(item.llm_hint), "</div>"@, shown);
        page_shows_cards(Seq::empty(), cards, run, shown);
    }
    dashboard_shows_every_row(history, times, run, 0);
    dashboard_shows_every_row(history, times, run, 1);
    dashboard_shows_every_row(history, times, run, 2);
}

} // verus!
