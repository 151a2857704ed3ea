//! The ISO agent: XO Lite CE, xoa-proxy, and the XCP-ng ISO that carries them.
//!
//! A run has three parts. First each component is held against its upstream and
//! its latest release, and a build is started where something moved. Then the
//! builds are watched. Last, an ISO is built if it would hold anything new.

use crate::clock;
use crate::error::{error_text, outcome, OrchestratorError, OrchestratorErrorView};
use crate::status::{AgentStatus, AgentStatusView, WorkflowStatus, WorkflowStatusView};
use crate::status::{component_named, status_text, with_component, ComponentStatusView};
use crate::status::{
    names_distinct, set_component_is_found, set_component_keeps_names_distinct,
    set_component_leaves_others,
};
use crate::tags;
use crate::tags::{
    ce_tag_parts, ce_tag_text, counted_tag_text, plain_tag_parts, plain_tag_text,
};
use crate::text;
use crate::text::{decimal, has_text, lemma_has_tail};
use crate::upstream::{ReleaseEntry, ReleaseEntryView};
use crate::version_state::{
    ComponentVersionState, ComponentVersionStateView, IsoVersionState, IsoVersionStateView,
};
use crate::XCPNG_TARGET_VERSION;
use vstd::prelude::*;

verus! {

/// Where the agent reports its status.
pub const STATUS_FILE: &'static str = "/var/lib/xcp-hl-orchestrator/xcp-iso-agent.status.json";

/// Where the agent keeps what it built.
pub const VERSION_STATE_FILE: &'static str =
    "/var/lib/xcp-hl-orchestrator/iso_agent_version_state.json";

/// The repository of the ISO.
pub const ISO_REPO: &'static str = "xcp-ng-ce-iso";

/// Hard cap on the watch over the components, in nanoseconds (2 hours).
pub const COMPONENT_MONITOR_TIMEOUT_NANOS: u128 = 7_200_000_000_000;

/// Hard cap on the watch over the ISO, in nanoseconds (2 hours).
pub const ISO_MONITOR_TIMEOUT_NANOS: u128 = 7_200_000_000_000;

/// How long to wait between two looks at the components, in seconds.
pub const COMPONENT_POLL_SECS: u64 = 20;

/// How long to wait between two looks at the ISO, in seconds.
pub const ISO_POLL_SECS: u64 = 30;

/// Status polls that may fail in a row before a watch is given up. A passing
/// disturbance is routine over hours; only a sustained outage ends the run.
pub const MAX_CONSECUTIVE_POLL_FAILURES: u32 = 5;

// ── Components ─────────────────────────────────────────────────────────────

/// A component of the ISO.
#[derive(Clone, Copy, Debug, PartialEq, Eq, Structural)]
pub enum Component {
    XoLite,
    XoaProxy,
}

impl Component {
    /// The repository of the component, by which it is also reported.
    pub open spec fn name_text(self) -> Seq<char> {
        match self {
            Component::XoLite => "xolite-ce"@,
            Component::XoaProxy => "xoa-proxy"@,
        }
    }

    /// The version and the counter that a tag of the component carries.
    pub open spec fn tag_parts(self, tag: Seq<char>) -> Option<(Seq<char>, u32)> {
        match self {
            Component::XoLite => ce_tag_parts(tag),
            Component::XoaProxy => plain_tag_parts(tag),
        }
    }

    /// The tag of the first build against an upstream version.
    pub open spec fn first_tag(self, version: Seq<char>) -> Seq<char> {
        match self {
            Component::XoLite => ce_tag_text(version, 1),
            Component::XoaProxy => plain_tag_text(version),
        }
    }

    /// The tag of a later build against an upstream version.
    pub open spec fn patch_tag(self, version: Seq<char>, counter: u32) -> Seq<char> {
        match self {
            Component::XoLite => ce_tag_text(version, counter),
            Component::XoaProxy => counted_tag_text(version, counter),
        }
    }

    /// The repository of the component, by which it is also reported.
    pub fn name(self) -> (name: &'static str)
        ensures
            name@ == self.name_text(),
    {
        match self {
            Component::XoLite => "xolite-ce",
            Component::XoaProxy => "xoa-proxy",
        }
    }

    /// The version and the counter that a tag of the component carries.
    pub fn parse_tag(self, tag: &str) -> (parts: Option<(String, u32)>)
        ensures
            parts.deep_view() == self.tag_parts(tag@),
    {
        match self {
            Component::XoLite => tags::parse_ce_tag(tag),
            Component::XoaProxy => tags::parse_plain_version_tag(tag),
        }
    }
}

// ── Version state ──────────────────────────────────────────────────────────

/// What the agent built last.
#[derive(Debug)]
pub struct IsoAgentVersionState {
    pub xolite_ce: ComponentVersionState,
    pub xoa_proxy: ComponentVersionState,
    pub iso: IsoVersionState,
}

/// What a [`IsoAgentVersionState`] holds.
pub struct IsoAgentVersionStateView {
    pub xolite_ce: ComponentVersionStateView,
    pub xoa_proxy: ComponentVersionStateView,
    pub iso: IsoVersionStateView,
}

impl View for IsoAgentVersionState {
    type V = IsoAgentVersionStateView;

    open spec fn view(&self) -> IsoAgentVersionStateView {
        IsoAgentVersionStateView {
            xolite_ce: self.xolite_ce@,
            xoa_proxy: self.xoa_proxy@,
            iso: self.iso@,
        }
    }
}

impl DeepView for IsoAgentVersionState {
    type V = IsoAgentVersionStateView;

    open spec fn deep_view(&self) -> IsoAgentVersionStateView {
        self@
    }
}

impl Default for IsoAgentVersionState {
    fn default() -> (state: Self)
        ensures
            state@ == (IsoAgentVersionStateView {
                xolite_ce: ComponentVersionStateView::empty(),
                xoa_proxy: ComponentVersionStateView::empty(),
                iso: IsoVersionStateView::empty(),
            }),
    {
        IsoAgentVersionState {
            xolite_ce: ComponentVersionState::default(),
            xoa_proxy: ComponentVersionState::default(),
            iso: IsoVersionState::default(),
        }
    }
}

// ── Flags ──────────────────────────────────────────────────────────────────

/// Rebuilds that are asked for even where nothing changed. Forcing a component
/// pushes a fresh tag, which is a real release.
#[derive(Clone, Copy, Debug, PartialEq, Eq, Structural)]
pub struct ForceFlags {
    pub xolite: bool,
    pub xoa_proxy: bool,
    pub iso: bool,
}

impl Default for ForceFlags {
    fn default() -> (force: Self)
        ensures
            force == (ForceFlags { xolite: false, xoa_proxy: false, iso: false }),
    {
        ForceFlags { xolite: false, xoa_proxy: false, iso: false }
    }
}

/// The flags after one more argument; `None` if it is not one of them.
pub open spec fn with_flag(force: ForceFlags, arg: Seq<char>) -> Option<ForceFlags> {
    if arg == "--force"@ {
        Some(ForceFlags { xolite: true, xoa_proxy: true, iso: true })
    } else if arg == "--force-xolite"@ {
        Some(ForceFlags { xolite: true, ..force })
    } else if arg == "--force-xoa-proxy"@ {
        Some(ForceFlags { xoa_proxy: true, ..force })
    } else if arg == "--force-iso"@ {
        Some(ForceFlags { iso: true, ..force })
    } else {
        None
    }
}

/// The flags that some arguments ask for on top of others; the first argument
/// that is not a flag is an error.
pub open spec fn flags_of(force: ForceFlags, args: Seq<Seq<char>>) -> Result<
    ForceFlags,
    OrchestratorErrorView,
>
    decreases args.len(),
{
    if args.len() == 0 {
        Ok(force)
    } else {
        match with_flag(force, args[0]) {
            Some(next) => flags_of(next, args.drop_first()),
            None => Err(
                OrchestratorErrorView::InvalidArgument(
                    args[0]
                        + " (usage: iso-agent [--force] [--force-xolite] [--force-xoa-proxy] [--force-iso])"@,
                ),
            ),
        }
    }
}

/// The flags that the arguments of the program (without its name) ask for.
pub fn parse_force_flags(args: &Vec<String>) -> (r: Result<ForceFlags, OrchestratorError>)
    ensures
        match r {
            Ok(force) => flags_of(
                ForceFlags { xolite: false, xoa_proxy: false, iso: false },
                args.deep_view(),
            ) == Ok::<ForceFlags, OrchestratorErrorView>(force),
            Err(e) => flags_of(
                ForceFlags { xolite: false, xoa_proxy: false, iso: false },
                args.deep_view(),
            ) == Err::<ForceFlags, OrchestratorErrorView>(e@),
        },
{
    let ghost all = args.deep_view();
    assert(all.skip(0) =~= all);
    let mut force = ForceFlags::default();
    let ghost none = force;
    let mut i: usize = 0;
    while i < args.len()
        invariant
            i <= args@.len(),
            all == args.deep_view(),
            flags_of(none, all) == flags_of(force, all.skip(i as int)),
            none == (ForceFlags { xolite: false, xoa_proxy: false, iso: false }),
        decreases args@.len() - i,
    {
        proof {
            assert(all.skip(i as int)[0] == args@[i as int]@);
            assert(all.skip(i as int).drop_first() =~= all.skip(i + 1));
        }
        let arg = args[i].as_str();
        if text::same(arg, "--force") {
            force = ForceFlags { xolite: true, xoa_proxy: true, iso: true };
        } else if text::same(arg, "--force-xolite") {
            force.xolite = true;
        } else if text::same(arg, "--force-xoa-proxy") {
            force.xoa_proxy = true;
        } else if text::same(arg, "--force-iso") {
            force.iso = true;
        } else {
            return Err(
                OrchestratorError::InvalidArgument(
                    arg.to_string()
                        .concat(" (usage: iso-agent [--force] [--force-xolite] [--force-xoa-proxy] [--force-iso])"),
                ),
            );
        }
        i += 1;
    }
    Ok(force)
}

// ── Bump decision ──────────────────────────────────────────────────────────

/// Whether a component has to be built, and as what.
#[derive(Debug)]
pub enum BumpDecision {
    NoChange,
    UpstreamBump { upstream_version: String },
    PatchBump { upstream_version: String, next_counter: u32 },
}

/// What a [`BumpDecision`] says.
pub enum BumpDecisionView {
    NoChange,
    UpstreamBump { upstream_version: Seq<char> },
    PatchBump { upstream_version: Seq<char>, next_counter: u32 },
}

impl View for BumpDecision {
    type V = BumpDecisionView;

    open spec fn view(&self) -> BumpDecisionView {
        match self {
            BumpDecision::NoChange => BumpDecisionView::NoChange,
            BumpDecision::UpstreamBump { upstream_version } => BumpDecisionView::UpstreamBump {
                upstream_version: upstream_version@,
            },
            BumpDecision::PatchBump { upstream_version, next_counter } =>
                BumpDecisionView::PatchBump {
                upstream_version: upstream_version@,
                next_counter: *next_counter,
            },
        }
    }
}

/// What is known of the outside when a component is decided on.
#[derive(Debug)]
pub struct Upstream {
    /// The version that is to be built.
    pub version: String,
    /// The newest commit of our own repository.
    pub head_sha: String,
}

/// What an [`Upstream`] holds.
pub struct UpstreamView {
    pub version: Seq<char>,
    pub head_sha: Seq<char>,
}

impl View for Upstream {
    type V = UpstreamView;

    open spec fn view(&self) -> UpstreamView {
        UpstreamView { version: self.version@, head_sha: self.head_sha@ }
    }
}

/// What was built last is what there is to build.
pub open spec fn is_current(state: ComponentVersionStateView, upstream: UpstreamView) -> bool {
    upstream.version == state.upstream_version && upstream.head_sha == state.last_built_sha
}

/// The latest release (its tag and its commit) already covers the newest commit
/// and the version: then these are the version and the counter of its tag.
pub open spec fn covering_release(
    component: Component,
    upstream: UpstreamView,
    latest: Option<(Seq<char>, Seq<char>)>,
) -> Option<(Seq<char>, u32)> {
    match latest {
        Some((tag, release_sha)) => match component.tag_parts(tag) {
            Some((version, counter)) => if release_sha == upstream.head_sha && version
                == upstream.version {
                Some((version, counter))
            } else {
                None
            },
            None => None,
        },
        None => None,
    }
}

/// The state as the latest release tells it.
pub open spec fn backfilled(
    component: Component,
    state: ComponentVersionStateView,
    upstream: UpstreamView,
    latest: Option<(Seq<char>, Seq<char>)>,
) -> ComponentVersionStateView {
    match covering_release(component, upstream, latest) {
        Some((version, counter)) => ComponentVersionStateView {
            upstream_version: version,
            ce_counter: counter,
            last_tag: (latest->0).0,
            last_built_sha: upstream.head_sha,
        },
        None => state,
    }
}

/// The release that counts in a decision: none where the build is forced, or
/// where the state alone settles that nothing changed.
pub open spec fn counted_release(
    state: ComponentVersionStateView,
    upstream: UpstreamView,
    force: bool,
    latest: Option<(Seq<char>, Seq<char>)>,
) -> Option<(Seq<char>, Seq<char>)> {
    if force || is_current(state, upstream) {
        None
    } else {
        latest
    }
}

/// Whether a component has to be built, from what was built last and from its
/// latest release.
pub open spec fn bump_of(
    component: Component,
    state: ComponentVersionStateView,
    upstream: UpstreamView,
    force: bool,
    latest: Option<(Seq<char>, Seq<char>)>,
) -> BumpDecisionView {
    if !force && (is_current(state, upstream) || covering_release(
        component,
        upstream,
        latest,
    ) is Some) {
        BumpDecisionView::NoChange
    } else if upstream.version != state.upstream_version {
        BumpDecisionView::UpstreamBump { upstream_version: upstream.version }
    } else {
        BumpDecisionView::PatchBump {
            upstream_version: upstream.version,
            next_counter: (state.ce_counter + 1) as u32,
        }
    }
}

/// The decision can be taken: where it raises the counter, there is room.
pub open spec fn can_decide(
    component: Component,
    state: ComponentVersionStateView,
    upstream: UpstreamView,
    force: bool,
    latest: Option<(Seq<char>, Seq<char>)>,
) -> bool {
    bump_of(component, state, upstream, force, latest) is PatchBump ==> state.ce_counter
        < u32::MAX
}

/// Whether the latest release has to be looked up before a decision.
pub fn needs_release_check(
    state: &ComponentVersionState,
    upstream: &Upstream,
    force: bool,
) -> (yes: bool)
    ensures
        yes == (!force && !is_current(state@, upstream@)),
{
    !force && !(text::same(&upstream.version, &state.upstream_version) && text::same(
        &upstream.head_sha,
        &state.last_built_sha,
    ))
}

/// The version and the counter of the latest release, if it covers the newest
/// commit and the expected version.
fn read_covering(
    component: Component,
    upstream: &Upstream,
    latest: &Option<(String, String)>,
) -> (found: Option<(String, u32)>)
    ensures
        found.deep_view() == covering_release(component, upstream@, latest.deep_view()),
{
    if let Some((tag, release_sha)) = latest {
        if text::same(release_sha, &upstream.head_sha) {
            if let Some((version, counter)) = component.parse_tag(tag) {
                if text::same(&version, &upstream.version) {
                    return Some((version, counter));
                }
            }
        }
    }
    None
}

/// Whether [`decide_bump`] can take its decision: where that raises the counter,
/// there has to be room.
pub fn can_decide_bump(
    component: Component,
    state: &ComponentVersionState,
    upstream: &Upstream,
    force: bool,
    latest: &Option<(String, String)>,
) -> (yes: bool)
    ensures
        yes == can_decide(component, state@, upstream@, force, latest.deep_view()),
{
    let settled = !force && (!needs_release_check(state, upstream, force) || read_covering(
        component,
        upstream,
        latest,
    ).is_some());
    settled || !text::same(&upstream.version, &state.upstream_version) || state.ce_counter
        < u32::MAX
}

/// Whether the latest release already covers the newest commit and the expected
/// version. If so, the state is filled in from it, so that a lost state heals.
/// A release that could not be looked up counts as none.
pub fn latest_release_matches(
    component: Component,
    upstream: &Upstream,
    state: &mut ComponentVersionState,
    latest: Option<(String, String)>,
) -> (matches: bool)
    ensures
        matches == (covering_release(component, upstream@, latest.deep_view()) is Some),
        final(state)@ == backfilled(component, old(state)@, upstream@, latest.deep_view()),
{
    if let Some((version, counter)) = read_covering(component, upstream, &latest) {
        if let Some((tag, _)) = latest {
            state.upstream_version = version;
            state.ce_counter = counter;
            state.last_tag = tag;
            state.last_built_sha = upstream.head_sha.clone();
            return true;
        }
    }
    false
}

/// Whether a component has to be built. The latest release counts only where
/// [`needs_release_check`] asks for it.
pub fn decide_bump(
    component: Component,
    state: &mut ComponentVersionState,
    upstream: &Upstream,
    force: bool,
    latest: Option<(String, String)>,
) -> (decision: BumpDecision)
    requires
        can_decide(component, old(state)@, upstream@, force, latest.deep_view()),
    ensures
        decision@ == bump_of(component, old(state)@, upstream@, force, latest.deep_view()),
        final(state)@ == backfilled(
            component,
            old(state)@,
            upstream@,
            counted_release(old(state)@, upstream@, force, latest.deep_view()),
        ),
{
    if !force {
        if !needs_release_check(state, upstream, force) {
            return BumpDecision::NoChange;
        }
        if latest_release_matches(component, upstream, state, latest) {
            return BumpDecision::NoChange;
        }
    }
    if !text::same(&upstream.version, &state.upstream_version) {
        return BumpDecision::UpstreamBump { upstream_version: upstream.version.clone() };
    }
    BumpDecision::PatchBump {
        upstream_version: upstream.version.clone(),
        next_counter: state.ce_counter + 1,
    }
}

/// Whether xolite-ce has to be built.
pub fn decide_xolite_bump(
    state: &mut ComponentVersionState,
    upstream: &Upstream,
    force: bool,
    latest: Option<(String, String)>,
) -> (decision: BumpDecision)
    requires
        can_decide(Component::XoLite, old(state)@, upstream@, force, latest.deep_view()),
    ensures
        decision@ == bump_of(Component::XoLite, old(state)@, upstream@, force, latest.deep_view()),
        final(state)@ == backfilled(
            Component::XoLite,
            old(state)@,
            upstream@,
            counted_release(old(state)@, upstream@, force, latest.deep_view()),
        ),
{
    decide_bump(Component::XoLite, state, upstream, force, latest)
}

/// Whether xoa-proxy has to be built.
pub fn decide_xoa_proxy_bump(
    state: &mut ComponentVersionState,
    upstream: &Upstream,
    force: bool,
    latest: Option<(String, String)>,
) -> (decision: BumpDecision)
    requires
        can_decide(Component::XoaProxy, old(state)@, upstream@, force, latest.deep_view()),
    ensures
        decision@ == bump_of(
            Component::XoaProxy,
            old(state)@,
            upstream@,
            force,
            latest.deep_view(),
        ),
        final(state)@ == backfilled(
            Component::XoaProxy,
            old(state)@,
            upstream@,
            counted_release(old(state)@, upstream@, force, latest.deep_view()),
        ),
{
    decide_bump(Component::XoaProxy, state, upstream, force, latest)
}

// ── Starting a build ───────────────────────────────────────────────────────

/// The tag that a decision asks for.
pub open spec fn tag_to_push(component: Component, decision: BumpDecisionView) -> Option<Seq<char>> {
    match decision {
        BumpDecisionView::NoChange => None,
        BumpDecisionView::UpstreamBump { upstream_version } => Some(
            component.first_tag(upstream_version),
        ),
        BumpDecisionView::PatchBump { upstream_version, next_counter } => Some(
            component.patch_tag(upstream_version, next_counter),
        ),
    }
}

/// The state once a decision is carried out.
pub open spec fn begun(
    state: ComponentVersionStateView,
    decision: BumpDecisionView,
) -> ComponentVersionStateView {
    match decision {
        BumpDecisionView::NoChange => state,
        BumpDecisionView::UpstreamBump { upstream_version } => ComponentVersionStateView {
            upstream_version,
            ce_counter: 1,
            ..state
        },
        BumpDecisionView::PatchBump { upstream_version, next_counter } =>
            ComponentVersionStateView { ce_counter: next_counter, ..state },
    }
}

/// Carries a decision over into the state, and gives the tag to push.
pub fn begin_build(
    component: Component,
    state: &mut ComponentVersionState,
    decision: BumpDecision,
) -> (tag: Option<String>)
    ensures
        tag.deep_view() == tag_to_push(component, decision@),
        final(state)@ == begun(old(state)@, decision@),
{
    match decision {
        BumpDecision::NoChange => None,
        BumpDecision::UpstreamBump { upstream_version } => {
            let tag = match component {
                Component::XoLite => tags::ce_tag(&upstream_version, 1),
                Component::XoaProxy => tags::plain_tag(&upstream_version),
            };
            state.upstream_version = upstream_version;
            state.ce_counter = 1;
            Some(tag)
        },
        BumpDecision::PatchBump { upstream_version, next_counter } => {
            state.ce_counter = next_counter;
            Some(
                match component {
                    Component::XoLite => tags::ce_tag(&upstream_version, next_counter),
                    Component::XoaProxy => tags::counted_tag(&upstream_version, next_counter),
                },
            )
        },
    }
}

// ── Component builds ───────────────────────────────────────────────────────

/// The build of a component in this run.
#[derive(Debug)]
pub struct ComponentRun {
    /// The commit that is built.
    pub head_sha: String,
    /// The tag it is built under, if it is built.
    pub tag: Option<String>,
    pub status: WorkflowStatus,
    /// The page of its run.
    pub url: String,
    /// The number of its run.
    pub id: Option<u64>,
}

/// What a [`ComponentRun`] holds.
pub struct ComponentRunView {
    pub head_sha: Seq<char>,
    pub tag: Option<Seq<char>>,
    pub status: WorkflowStatusView,
    pub url: Seq<char>,
    pub id: Option<u64>,
}

impl View for ComponentRun {
    type V = ComponentRunView;

    open spec fn view(&self) -> ComponentRunView {
        ComponentRunView {
            head_sha: self.head_sha@,
            tag: self.tag.deep_view(),
            status: self.status@,
            url: self.url@,
            id: self.id,
        }
    }
}

impl DeepView for ComponentRun {
    type V = ComponentRunView;

    open spec fn deep_view(&self) -> ComponentRunView {
        self@
    }
}

impl ComponentRunView {
    /// A component that is not built: nothing changed, or its changes could not
    /// be told.
    pub open spec fn idle(head_sha: Seq<char>) -> ComponentRunView {
        ComponentRunView {
            head_sha,
            tag: None,
            status: WorkflowStatusView::Skipped,
            url: Seq::empty(),
            id: None,
        }
    }

    /// A component whose build runs.
    pub open spec fn running(
        head_sha: Seq<char>,
        tag: Seq<char>,
        id: u64,
        url: Seq<char>,
    ) -> ComponentRunView {
        ComponentRunView {
            head_sha,
            tag: Some(tag),
            status: WorkflowStatusView::InProgress,
            url,
            id: Some(id),
        }
    }

    /// The build failed or took too long.
    pub open spec fn went_wrong(self) -> bool {
        self.status is Failure || self.status is Timeout
    }

    /// The run to ask about, while the build is under way.
    pub open spec fn due(self) -> Option<u64> {
        if self.status is InProgress {
            self.id
        } else {
            None
        }
    }
}

impl ComponentRun {
    /// A component that is not built. Where its changes could not be told, the
    /// commit is the last one that was built.
    pub fn idle(head_sha: &str) -> (run: Self)
        ensures
            run@ == ComponentRunView::idle(head_sha@),
    {
        ComponentRun {
            head_sha: head_sha.to_string(),
            tag: None,
            status: WorkflowStatus::Skipped,
            url: String::new(),
            id: None,
        }
    }

    /// A component whose build runs under a tag.
    pub fn running(head_sha: &str, tag: &str, id: u64, url: &str) -> (run: Self)
        ensures
            run@ == ComponentRunView::running(head_sha@, tag@, id, url@),
    {
        ComponentRun {
            head_sha: head_sha.to_string(),
            tag: Some(tag.to_string()),
            status: WorkflowStatus::InProgress,
            url: url.to_string(),
            id: Some(id),
        }
    }

    fn in_progress(&self) -> (yes: bool)
        ensures
            yes == (self@.status is InProgress),
    {
        match self.status {
            WorkflowStatus::InProgress => true,
            _ => false,
        }
    }

    fn failed(&self) -> (yes: bool)
        ensures
            yes == (self@.status is Failure),
    {
        match self.status {
            WorkflowStatus::Failure => true,
            _ => false,
        }
    }

    fn succeeded(&self) -> (yes: bool)
        ensures
            yes == (self@.status is Success),
    {
        match self.status {
            WorkflowStatus::Success => true,
            _ => false,
        }
    }

    fn skipped(&self) -> (yes: bool)
        ensures
            yes == (self@.status is Skipped),
    {
        match self.status {
            WorkflowStatus::Skipped => true,
            _ => false,
        }
    }

    fn went_wrong(&self) -> (yes: bool)
        ensures
            yes == self@.went_wrong(),
    {
        match self.status {
            WorkflowStatus::Failure | WorkflowStatus::Timeout => true,
            _ => false,
        }
    }
}

/// What the conclusion of a run says of the build.
pub open spec fn build_status_of(conclusion: Seq<char>) -> WorkflowStatusView {
    if conclusion == "success"@ {
        WorkflowStatusView::Success
    } else if conclusion == "failure"@ {
        WorkflowStatusView::Failure
    } else if conclusion == "timed_out"@ {
        WorkflowStatusView::Timeout
    } else if conclusion == "cancelled"@ {
        WorkflowStatusView::Aborted
    } else {
        WorkflowStatusView::InProgress
    }
}

/// What the conclusion of a run says of the build.
pub fn build_status(conclusion: &str) -> (status: WorkflowStatus)
    ensures
        status@ == build_status_of(conclusion@),
{
    if text::same(conclusion, "success") {
        WorkflowStatus::Success
    } else if text::same(conclusion, "failure") {
        WorkflowStatus::Failure
    } else if text::same(conclusion, "timed_out") {
        WorkflowStatus::Timeout
    } else if text::same(conclusion, "cancelled") {
        WorkflowStatus::Aborted
    } else {
        WorkflowStatus::InProgress
    }
}

/// The watch over the builds of the components.
#[derive(Debug)]
pub struct ComponentBuilds {
    pub xolite: ComponentRun,
    pub xoa_proxy: ComponentRun,
    /// Polls that failed in a row.
    pub poll_failures: u32,
}

/// What a [`ComponentBuilds`] holds.
pub struct ComponentBuildsView {
    pub xolite: ComponentRunView,
    pub xoa_proxy: ComponentRunView,
    pub poll_failures: u32,
}

impl View for ComponentBuilds {
    type V = ComponentBuildsView;

    open spec fn view(&self) -> ComponentBuildsView {
        ComponentBuildsView {
            xolite: self.xolite@,
            xoa_proxy: self.xoa_proxy@,
            poll_failures: self.poll_failures,
        }
    }
}

impl DeepView for ComponentBuilds {
    type V = ComponentBuildsView;

    open spec fn deep_view(&self) -> ComponentBuildsView {
        self@
    }
}

/// The failures in a row after one more poll.
pub open spec fn failures_after(failures: u32, succeeded: bool) -> u32 {
    if succeeded {
        0
    } else {
        (failures + 1) as u32
    }
}

/// What a watch does after a poll: it goes on, or ends with the error of the
/// last poll.
pub open spec fn poll_outcome(
    failures: u32,
    reply: Result<Seq<char>, OrchestratorErrorView>,
) -> Result<(), OrchestratorErrorView> {
    match reply {
        Ok(_) => Ok(()),
        Err(e) => if failures_after(failures, false) >= MAX_CONSECUTIVE_POLL_FAILURES {
            Err(e)
        } else {
            Ok(())
        },
    }
}

impl ComponentBuildsView {
    /// The watch is not given up yet.
    pub open spec fn well_formed(self) -> bool {
        self.poll_failures < MAX_CONSECUTIVE_POLL_FAILURES
    }

    /// The build of a component.
    pub open spec fn of(self, component: Component) -> ComponentRunView {
        match component {
            Component::XoLite => self.xolite,
            Component::XoaProxy => self.xoa_proxy,
        }
    }

    /// The builds after a poll of one of them.
    pub open spec fn polled(
        self,
        component: Component,
        reply: Result<Seq<char>, OrchestratorErrorView>,
    ) -> ComponentBuildsView {
        let counted = ComponentBuildsView {
            poll_failures: failures_after(self.poll_failures, reply is Ok),
            ..self
        };
        match reply {
            Ok(conclusion) => {
                let run = ComponentRunView {
                    status: build_status_of(conclusion),
                    ..self.of(component)
                };
                match component {
                    Component::XoLite => ComponentBuildsView { xolite: run, ..counted },
                    Component::XoaProxy => ComponentBuildsView { xoa_proxy: run, ..counted },
                }
            },
            Err(_) => counted,
        }
    }

    /// A build is still under way.
    pub open spec fn in_progress(self) -> bool {
        self.xolite.status is InProgress || self.xoa_proxy.status is InProgress
    }

    /// A build failed or took too long.
    pub open spec fn went_wrong(self) -> bool {
        self.xolite.went_wrong() || self.xoa_proxy.went_wrong()
    }

    /// The status of the agent while the builds are watched.
    pub open spec fn overall(self) -> WorkflowStatusView {
        if self.in_progress() {
            WorkflowStatusView::InProgress
        } else if self.went_wrong() {
            WorkflowStatusView::Failure
        } else {
            WorkflowStatusView::Success
        }
    }

    /// The builds once the watch over them took too long: whatever is under way
    /// timed out.
    pub open spec fn timed_out(self) -> ComponentBuildsView {
        ComponentBuildsView {
            xolite: ComponentRunView {
                status: if self.xolite.status is InProgress {
                    WorkflowStatusView::Timeout
                } else {
                    self.xolite.status
                },
                ..self.xolite
            },
            xoa_proxy: ComponentRunView {
                status: if self.xoa_proxy.status is InProgress {
                    WorkflowStatusView::Timeout
                } else {
                    self.xoa_proxy.status
                },
                ..self.xoa_proxy
            },
            ..self
        }
    }

    /// The report with both components in it. An empty URL keeps the one that
    /// is reported.
    pub open spec fn shown_in(
        self,
        status: AgentStatusView,
        xolite_url: Seq<char>,
        xoa_proxy_url: Seq<char>,
    ) -> AgentStatusView {
        status.with_component("xolite-ce"@, self.xolite.status, xolite_url).with_component(
            "xoa-proxy"@,
            self.xoa_proxy.status,
            xoa_proxy_url,
        )
    }

    /// The report of the builds as they start.
    pub open spec fn report_of_start(self, status: AgentStatusView) -> AgentStatusView {
        self.shown_in(
            AgentStatusView {
                phase: "monitoring"@,
                status: if self.in_progress() {
                    WorkflowStatusView::InProgress
                } else {
                    WorkflowStatusView::Skipped
                },
                ..status
            },
            self.xolite.url,
            self.xoa_proxy.url,
        )
    }

    /// The report of the builds while they are watched, at a moment.
    pub open spec fn report_of_poll(
        self,
        status: AgentStatusView,
        now: clock::Timestamp,
    ) -> AgentStatusView {
        self.shown_in(
            AgentStatusView { timestamp: now, status: self.overall(), ..status },
            Seq::empty(),
            Seq::empty(),
        )
    }

    /// The report once the watch took too long.
    pub open spec fn report_of_timeout(self, status: AgentStatusView) -> AgentStatusView {
        self.timed_out().shown_in(
            AgentStatusView {
                status: WorkflowStatusView::Timeout,
                detail: "Component monitoring timed out"@,
                ..status
            },
            Seq::empty(),
            Seq::empty(),
        )
    }

    /// The report once a build went wrong: it points at a failed build, if one
    /// can be pointed at.
    pub open spec fn report_of_failure(self, status: AgentStatusView) -> AgentStatusView {
        AgentStatusView {
            phase: "failed"@,
            status: WorkflowStatusView::Failure,
            detail: "Component build failed or timed out; ISO build aborted"@,
            url: if self.xolite.status is Failure && self.xolite.id is Some {
                self.xolite.url
            } else if self.xoa_proxy.status is Failure && self.xoa_proxy.id is Some {
                self.xoa_proxy.url
            } else {
                status.url
            },
            ..status
        }
    }

    /// The state of a component after its build: only a build that succeeded
    /// under a tag is remembered.
    pub open spec fn recorded_component(
        state: ComponentVersionStateView,
        run: ComponentRunView,
    ) -> ComponentVersionStateView {
        if run.status is Success && run.tag is Some {
            ComponentVersionStateView {
                last_tag: run.tag->0,
                last_built_sha: run.head_sha,
                ..state
            }
        } else {
            state
        }
    }

    /// The state after the builds.
    pub open spec fn recorded(self, state: IsoAgentVersionStateView) -> IsoAgentVersionStateView {
        IsoAgentVersionStateView {
            xolite_ce: Self::recorded_component(state.xolite_ce, self.xolite),
            xoa_proxy: Self::recorded_component(state.xoa_proxy, self.xoa_proxy),
            ..state
        }
    }
}

/// What to do before the next look at a build.
#[derive(Clone, Copy, Debug, PartialEq, Eq, Structural)]
pub enum WatchStep {
    /// Wait this many seconds, then look.
    LookAfter(u64),
    /// The watch took too long.
    TimedOut,
}

/// What to do before the next look at the components, after so many
/// nanoseconds.
pub fn component_watch_step(elapsed_nanos: u128) -> (step: WatchStep)
    ensures
        step == (if elapsed_nanos > COMPONENT_MONITOR_TIMEOUT_NANOS {
            WatchStep::TimedOut
        } else {
            WatchStep::LookAfter(COMPONENT_POLL_SECS)
        }),
{
    if elapsed_nanos > COMPONENT_MONITOR_TIMEOUT_NANOS {
        WatchStep::TimedOut
    } else {
        WatchStep::LookAfter(COMPONENT_POLL_SECS)
    }
}

impl ComponentBuilds {
    /// The watch over the builds of the components.
    pub fn new(xolite: ComponentRun, xoa_proxy: ComponentRun) -> (builds: Self)
        ensures
            builds@ == (ComponentBuildsView {
                xolite: xolite@,
                xoa_proxy: xoa_proxy@,
                poll_failures: 0,
            }),
            builds@.well_formed(),
    {
        ComponentBuilds { xolite, xoa_proxy, poll_failures: 0 }
    }

    /// The run of a component to ask about, if it is under way.
    pub fn due(&self, component: Component) -> (id: Option<u64>)
        ensures
            id == self@.of(component).due(),
    {
        let run = match component {
            Component::XoLite => &self.xolite,
            Component::XoaProxy => &self.xoa_proxy,
        };
        if run.in_progress() {
            run.id
        } else {
            None
        }
    }

    /// Takes in what a poll of a component brought. Ends the watch once too many
    /// polls failed in a row.
    pub fn polled(&mut self, component: Component, reply: Result<String, OrchestratorError>) -> (r:
        Result<(), OrchestratorError>)
        requires
            old(self)@.well_formed(),
        ensures
            outcome(r) == poll_outcome(old(self)@.poll_failures, outcome(reply)),
            final(self)@ == old(self)@.polled(component, outcome(reply)),
            r is Ok ==> final(self)@.well_formed(),
    {
        match reply {
            Ok(conclusion) => {
                self.poll_failures = 0;
                let status = build_status(&conclusion);
                match component {
                    Component::XoLite => {
                        self.xolite.status = status;
                    },
                    Component::XoaProxy => {
                        self.xoa_proxy.status = status;
                    },
                }
                Ok(())
            },
            Err(e) => {
                self.poll_failures = self.poll_failures + 1;
                if self.poll_failures >= MAX_CONSECUTIVE_POLL_FAILURES {
                    Err(e)
                } else {
                    Ok(())
                }
            },
        }
    }

    /// Whether a build is still under way.
    pub fn in_progress(&self) -> (yes: bool)
        ensures
            yes == self@.in_progress(),
    {
        self.xolite.in_progress() || self.xoa_proxy.in_progress()
    }

    /// Whether a build failed or took too long: then no ISO is built.
    pub fn went_wrong(&self) -> (yes: bool)
        ensures
            yes == self@.went_wrong(),
    {
        self.xolite.went_wrong() || self.xoa_proxy.went_wrong()
    }

    fn show_in(&self, status: &mut AgentStatus, xolite_url: &str, xoa_proxy_url: &str)
        ensures
            final(status)@ == self@.shown_in(old(status)@, xolite_url@, xoa_proxy_url@),
    {
        status.set_component("xolite-ce", self.xolite.status.clone(), xolite_url);
        status.set_component("xoa-proxy", self.xoa_proxy.status.clone(), xoa_proxy_url);
    }

    /// Reports the builds as they start.
    pub fn report_start(&self, status: &mut AgentStatus)
        ensures
            final(status)@ == self@.report_of_start(old(status)@),
    {
        status.phase = "monitoring".to_string();
        status.status = if self.in_progress() {
            WorkflowStatus::InProgress
        } else {
            WorkflowStatus::Skipped
        };
        self.show_in(status, &self.xolite.url, &self.xoa_proxy.url);
    }

    /// Reports the builds while they are watched, as of now.
    pub fn report_poll(&self, status: &mut AgentStatus)
        ensures
            exists|now: clock::Timestamp|
                #[trigger] now.in_calendar() && final(status)@ == self@.report_of_poll(
                    old(status)@,
                    now,
                ),
    {
        let now = clock::utc_now();
        status.timestamp = now;
        status.status = if self.in_progress() {
            WorkflowStatus::InProgress
        } else if self.went_wrong() {
            WorkflowStatus::Failure
        } else {
            WorkflowStatus::Success
        };
        proof {
            reveal_strlit("");
        }
        assert(""@ =~= Seq::<char>::empty());
        self.show_in(status, "", "");
        assert(status@ == self@.report_of_poll(old(status)@, now));
    }

    /// Ends the watch for lack of time, and reports that.
    pub fn time_out(&mut self, status: &mut AgentStatus)
        ensures
            final(self)@ == old(self)@.timed_out(),
            final(status)@ == old(self)@.report_of_timeout(old(status)@),
    {
        if self.xolite.in_progress() {
            self.xolite.status = WorkflowStatus::Timeout;
        }
        if self.xoa_proxy.in_progress() {
            self.xoa_proxy.status = WorkflowStatus::Timeout;
        }
        status.status = WorkflowStatus::Timeout;
        status.detail = "Component monitoring timed out".to_string();
        proof {
            reveal_strlit("");
        }
        assert(""@ =~= Seq::<char>::empty());
        self.show_in(status, "", "");
    }

    /// Reports that a build went wrong.
    pub fn report_failure(&self, status: &mut AgentStatus)
        ensures
            final(status)@ == self@.report_of_failure(old(status)@),
    {
        status.phase = "failed".to_string();
        status.status = WorkflowStatus::Failure;
        status.detail = "Component build failed or timed out; ISO build aborted".to_string();
        if self.xolite.failed() && self.xolite.id.is_some() {
            status.url = self.xolite.url.clone();
        } else if self.xoa_proxy.failed() && self.xoa_proxy.id.is_some() {
            status.url = self.xoa_proxy.url.clone();
        }
    }

    /// Remembers the builds that succeeded.
    pub fn record(&self, state: &mut IsoAgentVersionState)
        ensures
            final(state)@ == self@.recorded(old(state)@),
    {
        Self::record_component(&mut state.xolite_ce, &self.xolite);
        Self::record_component(&mut state.xoa_proxy, &self.xoa_proxy);
    }

    fn record_component(state: &mut ComponentVersionState, run: &ComponentRun)
        ensures
            final(state)@ == ComponentBuildsView::recorded_component(old(state)@, run@),
    {
        if run.succeeded() {
            if let Some(tag) = &run.tag {
                state.last_tag = tag.clone();
                state.last_built_sha = run.head_sha.clone();
            }
        }
    }

    /// Whether neither component was built in this run.
    pub fn nothing_built(&self) -> (yes: bool)
        ensures
            yes == (self@.xolite.status is Skipped && self@.xoa_proxy.status is Skipped),
    {
        self.xolite.skipped() && self.xoa_proxy.skipped()
    }
}

// ── ISO ────────────────────────────────────────────────────────────────────

impl IsoAgentVersionStateView {
    /// Nothing is known of an ISO, and no component was built: the latest
    /// release of the ISO may tell more.
    pub open spec fn wants_iso_seed(self, builds: ComponentBuildsView) -> bool {
        self.iso.last_tag.len() == 0 && builds.xolite.status is Skipped
            && builds.xoa_proxy.status is Skipped
    }

    /// The state with what the latest release of the ISO tells, if its tag tells
    /// anything.
    pub open spec fn seeded(self, tag: Seq<char>) -> IsoAgentVersionStateView {
        match ce_tag_parts(tag) {
            Some((xcpng_version, ce_counter)) => IsoAgentVersionStateView {
                iso: IsoVersionStateView {
                    xcpng_version,
                    ce_counter,
                    last_tag: tag,
                    last_xolite_tag: self.xolite_ce.last_tag,
                    last_xoa_proxy_tag: self.xoa_proxy.last_tag,
                },
                ..self
            },
            None => self,
        }
    }

    /// An ISO would hold something that the last one does not, or is asked for.
    pub open spec fn needs_iso(self, force: bool) -> bool {
        force || self.iso.xcpng_version != XCPNG_TARGET_VERSION@ || self.iso.last_xolite_tag
            != self.xolite_ce.last_tag || self.iso.last_xoa_proxy_tag != self.xoa_proxy.last_tag
    }

    /// The counter of the next ISO.
    pub open spec fn next_iso_counter(self) -> u32 {
        if self.iso.xcpng_version == XCPNG_TARGET_VERSION@ {
            (self.iso.ce_counter + 1) as u32
        } else {
            1
        }
    }

    /// The counter of the last ISO is not at the top of its range.
    pub open spec fn can_count_iso(self) -> bool {
        self.iso.xcpng_version == XCPNG_TARGET_VERSION@ ==> self.iso.ce_counter < u32::MAX
    }

    /// What the release matrix says of an ISO that was built now.
    pub open spec fn entry_of(self, tag: Seq<char>) -> ReleaseEntryView {
        ReleaseEntryView {
            iso_tag: tag,
            xolite_version: self.xolite_ce.last_tag,
            xolite_upstream: self.xolite_ce.upstream_version,
            xoa_proxy_version: self.xoa_proxy.last_tag,
        }
    }

    /// The state after an ISO was built.
    pub open spec fn with_iso(self, tag: Seq<char>, counter: u32) -> IsoAgentVersionStateView {
        IsoAgentVersionStateView {
            iso: IsoVersionStateView {
                xcpng_version: XCPNG_TARGET_VERSION@,
                ce_counter: counter,
                last_tag: tag,
                last_xolite_tag: self.xolite_ce.last_tag,
                last_xoa_proxy_tag: self.xoa_proxy.last_tag,
            },
            ..self
        }
    }
}

impl IsoAgentVersionState {
    /// Whether the latest release of the ISO should be looked up to fill in a
    /// lost state.
    pub fn wants_iso_seed(&self, builds: &ComponentBuilds) -> (yes: bool)
        ensures
            yes == self@.wants_iso_seed(builds@),
    {
        self.iso.last_tag.as_str().is_empty() && builds.nothing_built()
    }

    /// Fills the state in from the tag of the latest release of the ISO. Whether
    /// there was anything to fill in.
    pub fn seed_iso(&mut self, tag: &str) -> (seeded: bool)
        ensures
            seeded == (ce_tag_parts(tag@) is Some),
            final(self)@ == old(self)@.seeded(tag@),
    {
        match tags::parse_ce_tag(tag) {
            Some((xcpng_version, ce_counter)) => {
                self.iso = IsoVersionState {
                    xcpng_version,
                    ce_counter,
                    last_tag: tag.to_string(),
                    last_xolite_tag: self.xolite_ce.last_tag.clone(),
                    last_xoa_proxy_tag: self.xoa_proxy.last_tag.clone(),
                };
                true
            },
            None => false,
        }
    }

    /// Whether an ISO has to be built.
    pub fn needs_iso_build(&self, force: bool) -> (yes: bool)
        ensures
            yes == self@.needs_iso(force),
    {
        force || !text::same(&self.iso.xcpng_version, XCPNG_TARGET_VERSION) || !text::same(
            &self.iso.last_xolite_tag,
            &self.xolite_ce.last_tag,
        ) || !text::same(&self.iso.last_xoa_proxy_tag, &self.xoa_proxy.last_tag)
    }

    /// Whether the ISO has a next counter.
    pub fn can_count_iso(&self) -> (yes: bool)
        ensures
            yes == self@.can_count_iso(),
    {
        !text::same(&self.iso.xcpng_version, XCPNG_TARGET_VERSION) || self.iso.ce_counter < u32::MAX
    }

    /// The counter of the next ISO: it starts anew with each XCP-ng version.
    pub fn next_iso_counter(&self) -> (counter: u32)
        requires
            self@.can_count_iso(),
        ensures
            counter == self@.next_iso_counter(),
    {
        if text::same(&self.iso.xcpng_version, XCPNG_TARGET_VERSION) {
            self.iso.ce_counter + 1
        } else {
            1
        }
    }

    /// The tag of the next ISO.
    pub fn next_iso_tag(&self) -> (tag: String)
        requires
            self@.can_count_iso(),
        ensures
            tag@ == ce_tag_text(XCPNG_TARGET_VERSION@, self@.next_iso_counter()),
    {
        tags::ce_tag(XCPNG_TARGET_VERSION, self.next_iso_counter())
    }

    /// Remembers an ISO that was built under a tag, as the one with a counter.
    pub fn record_iso(&mut self, tag: &str, counter: u32)
        ensures
            final(self)@ == old(self)@.with_iso(tag@, counter),
    {
        self.iso = IsoVersionState {
            xcpng_version: XCPNG_TARGET_VERSION.to_string(),
            ce_counter: counter,
            last_tag: tag.to_string(),
            last_xolite_tag: self.xolite_ce.last_tag.clone(),
            last_xoa_proxy_tag: self.xoa_proxy.last_tag.clone(),
        };
    }

    /// What the release matrix says of an ISO that was built now.
    pub fn release_entry(&self, tag: &str) -> (entry: ReleaseEntry)
        ensures
            entry@ == self@.entry_of(tag@),
    {
        ReleaseEntry {
            iso_tag: tag.to_string(),
            xolite_version: self.xolite_ce.last_tag.clone(),
            xolite_upstream: self.xolite_ce.upstream_version.clone(),
            xoa_proxy_version: self.xoa_proxy.last_tag.clone(),
        }
    }
}

/// What happens to the ISO, as it is reported.
#[derive(Debug)]
pub enum IsoEvent {
    /// It would hold nothing new.
    Skipped,
    /// It is to be built under a tag.
    Starting { tag: String },
    NotStarted { error: OrchestratorError },
    /// The build runs under a tag, and has a page.
    Running { tag: String, url: String },
    /// The build was looked at.
    Polled { status: WorkflowStatus },
    /// The watch over the build took too long.
    TimedOut,
    /// The build succeeded, and is recorded.
    Built { tag: String },
    /// The build ended otherwise.
    Ended { status: WorkflowStatus },
}

/// What an [`IsoEvent`] says.
pub enum IsoEventView {
    Skipped,
    Starting { tag: Seq<char> },
    NotStarted { error: OrchestratorErrorView },
    Running { tag: Seq<char>, url: Seq<char> },
    Polled { status: WorkflowStatusView },
    TimedOut,
    Built { tag: Seq<char> },
    Ended { status: WorkflowStatusView },
}

impl View for IsoEvent {
    type V = IsoEventView;

    open spec fn view(&self) -> IsoEventView {
        match self {
            IsoEvent::Skipped => IsoEventView::Skipped,
            IsoEvent::Starting { tag } => IsoEventView::Starting { tag: tag@ },
            IsoEvent::NotStarted { error } => IsoEventView::NotStarted { error: error@ },
            IsoEvent::Running { tag, url } => IsoEventView::Running { tag: tag@, url: url@ },
            IsoEvent::Polled { status } => IsoEventView::Polled { status: status@ },
            IsoEvent::TimedOut => IsoEventView::TimedOut,
            IsoEvent::Built { tag } => IsoEventView::Built { tag: tag@ },
            IsoEvent::Ended { status } => IsoEventView::Ended { status: status@ },
        }
    }
}

/// The report with the ISO in it, its page kept unless a new one is given.
pub open spec fn with_iso_status(
    report: AgentStatusView,
    status: WorkflowStatusView,
    url: Seq<char>,
) -> AgentStatusView {
    report.with_component("iso"@, status, url)
}

/// The report after something happened to the ISO.
pub open spec fn iso_report(report: AgentStatusView, event: IsoEventView) -> AgentStatusView {
    match event {
        IsoEventView::Skipped => with_iso_status(
            AgentStatusView {
                phase: "completed"@,
                status: WorkflowStatusView::Skipped,
                detail: "No component changes"@,
                ..report
            },
            WorkflowStatusView::Skipped,
            Seq::empty(),
        ),
        IsoEventView::Starting { tag } => AgentStatusView {
            phase: "iso_build"@,
            status: WorkflowStatusView::InProgress,
            detail: "Building ISO with tag "@ + tag,
            ..report
        },
        IsoEventView::NotStarted { error } => with_iso_status(
            AgentStatusView {
                phase: "iso_build"@,
                status: WorkflowStatusView::Failure,
                detail: "Failed to start ISO build: "@ + error_text(error),
                ..report
            },
            WorkflowStatusView::Failure,
            Seq::empty(),
        ),
        IsoEventView::Running { tag, url } => with_iso_status(
            AgentStatusView { url, detail: "ISO build running: "@ + tag, ..report },
            WorkflowStatusView::InProgress,
            url,
        ),
        IsoEventView::Polled { status } => with_iso_status(
            AgentStatusView { status, ..report },
            status,
            Seq::empty(),
        ),
        IsoEventView::TimedOut => with_iso_status(
            AgentStatusView {
                status: WorkflowStatusView::Timeout,
                detail: "ISO build monitoring timed out"@,
                ..report
            },
            WorkflowStatusView::Timeout,
            Seq::empty(),
        ),
        IsoEventView::Built { tag } => AgentStatusView {
            phase: "completed"@,
            detail: "ISO build successful: "@ + tag,
            ..report
        },
        IsoEventView::Ended { status } => AgentStatusView {
            phase: "failed"@,
            detail: "ISO build ended with: "@ + status_text(status),
            ..report
        },
    }
}

/// Reports what happened to the ISO.
pub fn report_iso(report: &mut AgentStatus, event: &IsoEvent)
    ensures
        final(report)@ == iso_report(old(report)@, event@),
{
    proof {
        reveal_strlit("");
    }
    assert(""@ =~= Seq::<char>::empty());
    match event {
        IsoEvent::Skipped => {
            report.phase = "completed".to_string();
            report.status = WorkflowStatus::Skipped;
            report.detail = "No component changes".to_string();
            report.set_component("iso", WorkflowStatus::Skipped, "");
        },
        IsoEvent::Starting { tag } => {
            report.phase = "iso_build".to_string();
            report.status = WorkflowStatus::InProgress;
            report.detail = "Building ISO with tag ".to_string().concat(tag);
        },
        IsoEvent::NotStarted { error } => {
            report.phase = "iso_build".to_string();
            report.status = WorkflowStatus::Failure;
            report.detail = "Failed to start ISO build: ".to_string().concat(&error.message());
            report.set_component("iso", WorkflowStatus::Failure, "");
        },
        IsoEvent::Running { tag, url } => {
            report.url = url.clone();
            report.detail = "ISO build running: ".to_string().concat(tag);
            report.set_component("iso", WorkflowStatus::InProgress, url);
        },
        IsoEvent::Polled { status } => {
            report.status = status.clone();
            report.set_component("iso", status.clone(), "");
        },
        IsoEvent::TimedOut => {
            report.status = WorkflowStatus::Timeout;
            report.detail = "ISO build monitoring timed out".to_string();
            report.set_component("iso", WorkflowStatus::Timeout, "");
        },
        IsoEvent::Built { tag } => {
            report.phase = "completed".to_string();
            report.detail = "ISO build successful: ".to_string().concat(tag);
        },
        IsoEvent::Ended { status } => {
            report.phase = "failed".to_string();
            report.detail = "ISO build ended with: ".to_string().concat(&status.label());
        },
    }
}

/// How the watch over the components ends.
#[derive(Clone, Copy, Debug, PartialEq, Eq, Structural)]
pub enum ComponentsVerdict {
    /// A build went wrong: the run ends without an ISO.
    Failed,
    /// What was built is remembered. Where nothing is known of an ISO, its latest
    /// release is worth a look.
    Recorded { wants_iso_seed: bool },
}

/// Draws the conclusion from the builds of the components: reports what went
/// wrong, or else remembers what was built.
pub fn conclude_components(
    builds: &ComponentBuilds,
    versions: &mut IsoAgentVersionState,
    report: &mut AgentStatus,
) -> (verdict: ComponentsVerdict)
    ensures
        if builds@.went_wrong() {
            &&& verdict == ComponentsVerdict::Failed
            &&& final(versions)@ == old(versions)@
            &&& final(report)@ == builds@.report_of_failure(old(report)@)
        } else {
            &&& verdict == ComponentsVerdict::Recorded {
                wants_iso_seed: builds@.recorded(old(versions)@).wants_iso_seed(builds@),
            }
            &&& final(versions)@ == builds@.recorded(old(versions)@)
            &&& final(report)@ == old(report)@
        },
{
    if builds.went_wrong() {
        builds.report_failure(report);
        ComponentsVerdict::Failed
    } else {
        builds.record(versions);
        ComponentsVerdict::Recorded { wants_iso_seed: versions.wants_iso_seed(builds) }
    }
}

/// Whether an ISO is built, and as what.
#[derive(Debug)]
pub enum IsoPlan {
    Skip,
    Build { tag: String, counter: u32 },
}

/// What an [`IsoPlan`] says.
pub enum IsoPlanView {
    Skip,
    Build { tag: Seq<char>, counter: u32 },
}

impl View for IsoPlan {
    type V = IsoPlanView;

    open spec fn view(&self) -> IsoPlanView {
        match self {
            IsoPlan::Skip => IsoPlanView::Skip,
            IsoPlan::Build { tag, counter } => IsoPlanView::Build { tag: tag@, counter: *counter },
        }
    }
}

/// Whether an ISO is built, and as what.
pub open spec fn iso_plan(versions: IsoAgentVersionStateView, force: bool) -> IsoPlanView {
    if versions.needs_iso(force) {
        IsoPlanView::Build {
            tag: ce_tag_text(XCPNG_TARGET_VERSION@, versions.next_iso_counter()),
            counter: versions.next_iso_counter(),
        }
    } else {
        IsoPlanView::Skip
    }
}

/// What is reported of a plan.
pub open spec fn plan_event(plan: IsoPlanView) -> IsoEventView {
    match plan {
        IsoPlanView::Skip => IsoEventView::Skipped,
        IsoPlanView::Build { tag, counter } => IsoEventView::Starting { tag },
    }
}

/// Decides whether an ISO is built, and reports that.
pub fn plan_iso(
    versions: &IsoAgentVersionState,
    force: bool,
    report: &mut AgentStatus,
) -> (plan: IsoPlan)
    requires
        versions@.needs_iso(force) ==> versions@.can_count_iso(),
    ensures
        plan@ == iso_plan(versions@, force),
        final(report)@ == iso_report(old(report)@, plan_event(plan@)),
{
    if versions.needs_iso_build(force) {
        let tag = versions.next_iso_tag();
        report_iso(report, &IsoEvent::Starting { tag: tag.clone() });
        IsoPlan::Build { tag, counter: versions.next_iso_counter() }
    } else {
        report_iso(report, &IsoEvent::Skipped);
        IsoPlan::Skip
    }
}

/// What to do before the next look at the ISO, after so many nanoseconds.
pub fn iso_watch_step(elapsed_nanos: u128) -> (step: WatchStep)
    ensures
        step == (if elapsed_nanos > ISO_MONITOR_TIMEOUT_NANOS {
            WatchStep::TimedOut
        } else {
            WatchStep::LookAfter(ISO_POLL_SECS)
        }),
{
    if elapsed_nanos > ISO_MONITOR_TIMEOUT_NANOS {
        WatchStep::TimedOut
    } else {
        WatchStep::LookAfter(ISO_POLL_SECS)
    }
}

/// The watch over the build of the ISO.
#[derive(Debug)]
pub struct IsoWatch {
    pub poll_failures: u32,
}

/// What a poll of the ISO brought.
pub open spec fn iso_poll_outcome(
    failures: u32,
    reply: Result<Seq<char>, OrchestratorErrorView>,
) -> Result<Option<WorkflowStatusView>, OrchestratorErrorView> {
    match reply {
        Ok(conclusion) => Ok(Some(build_status_of(conclusion))),
        Err(e) => match poll_outcome(failures, reply) {
            Ok(()) => Ok(None),
            Err(e) => Err(e),
        },
    }
}

impl IsoWatch {
    /// The watch is not given up yet.
    pub open spec fn well_formed(self) -> bool {
        self.poll_failures < MAX_CONSECUTIVE_POLL_FAILURES
    }

    /// The watch over a build that just started.
    pub fn new() -> (watch: Self)
        ensures
            watch.poll_failures == 0,
            watch.well_formed(),
    {
        IsoWatch { poll_failures: 0 }
    }

    /// Takes in what a poll brought: the status of the build, nothing if the
    /// poll failed, or the error that ends the watch once too many polls failed
    /// in a row.
    pub fn polled(&mut self, reply: Result<String, OrchestratorError>) -> (r: Result<
        Option<WorkflowStatus>,
        OrchestratorError,
    >)
        requires
            old(self).well_formed(),
        ensures
            outcome(r) == iso_poll_outcome(old(self).poll_failures, outcome(reply)),
            final(self).poll_failures == failures_after(old(self).poll_failures, reply is Ok),
            r is Ok ==> final(self).well_formed(),
    {
        match reply {
            Ok(conclusion) => {
                self.poll_failures = 0;
                Ok(Some(build_status(&conclusion)))
            },
            Err(e) => {
                self.poll_failures = self.poll_failures + 1;
                if self.poll_failures >= MAX_CONSECUTIVE_POLL_FAILURES {
                    Err(e)
                } else {
                    Ok(None)
                }
            },
        }
    }
}

// ── Laws ───────────────────────────────────────────────────────────────────

/// How many polls at the end of a series failed, as the watches count them.
pub open spec fn failures_in_a_row(polls: Seq<bool>) -> nat
    decreases polls.len(),
{
    if polls.len() == 0 || polls.last() {
        0
    } else {
        failures_in_a_row(polls.drop_last()) + 1
    }
}

/// A watch that has been through a series of polls without ending counts the
/// failures at the end of the series, and the next failure ends it exactly when
/// the four polls before it failed too.
pub proof fn watch_ends_on_fifth_failure_in_a_row(polls: Seq<bool>, failures: u32)
    requires
        failures == failures_in_a_row(polls),
        failures < MAX_CONSECUTIVE_POLL_FAILURES,
    ensures
        failures_after(failures, true) == failures_in_a_row(polls.push(true)),
        failures_after(failures, false) == failures_in_a_row(polls.push(false)),
        failures_after(failures, false) >= MAX_CONSECUTIVE_POLL_FAILURES <==> (polls.len() >= 4
            && forall|i: int| polls.len() - 4 <= i < polls.len() ==> !(#[trigger] polls[i])),
{
    assert(polls.push(true).last());
    assert(polls.push(false).drop_last() =~= polls);
    lemma_failures_in_a_row(polls);
    let n = failures_in_a_row(polls);
    if failures_after(failures, false) >= MAX_CONSECUTIVE_POLL_FAILURES {
        assert forall|i: int| polls.len() - 4 <= i < polls.len() implies !(#[trigger] polls[i]) by {
        }
    } else if polls.len() >= 4 && (forall|i: int|
        polls.len() - 4 <= i < polls.len() ==> !(#[trigger] polls[i])) {
        if n < polls.len() {
            assert(polls[polls.len() - 1 - n]);
        }
    }
}

/// The polls that count failed, and the one before them did not.
proof fn lemma_failures_in_a_row(polls: Seq<bool>)
    ensures
        failures_in_a_row(polls) <= polls.len(),
        forall|i: int|
            polls.len() - failures_in_a_row(polls) <= i < polls.len() ==> !(#[trigger] polls[i]),
        failures_in_a_row(polls) < polls.len() ==> polls[polls.len() - 1 - failures_in_a_row(
            polls,
        )],
    decreases polls.len(),
{
    if polls.len() > 0 && !polls.last() {
        let before = polls.drop_last();
        lemma_failures_in_a_row(before);
        assert forall|i: int|
            polls.len() - failures_in_a_row(polls) <= i < polls.len() implies !(
        #[trigger] polls[i]) by {
            if i < polls.len() - 1 {
                assert(polls[i] == before[i]);
            }
        }
    }
}

/// Once a component was built and recorded, the same version at the same commit
/// is not built again unless forced, whatever its latest release is.
pub proof fn recorded_build_is_not_repeated(
    component: Component,
    state: ComponentVersionStateView,
    upstream: UpstreamView,
    force: bool,
    latest: Option<(Seq<char>, Seq<char>)>,
    run: ComponentRunView,
    later: Option<(Seq<char>, Seq<char>)>,
)
    requires
        bump_of(component, state, upstream, force, latest) !is NoChange,
        run.head_sha == upstream.head_sha,
        run.status is Success,
        run.tag is Some,
    ensures
        ({
            let decision = bump_of(component, state, upstream, force, latest);
            let after = ComponentBuildsView::recorded_component(begun(state, decision), run);
            bump_of(component, after, upstream, false, later) is NoChange
        }),
{
}

/// A component is built only if its version or its commit moved since the last
/// build, or if that is forced.
pub proof fn rebuild_has_a_cause(
    component: Component,
    state: ComponentVersionStateView,
    upstream: UpstreamView,
    force: bool,
    latest: Option<(Seq<char>, Seq<char>)>,
)
    requires
        tag_to_push(component, bump_of(component, state, upstream, force, latest)) is Some,
    ensures
        force || upstream.version != state.upstream_version || upstream.head_sha
            != state.last_built_sha,
{
}

/// A forced component is built whatever was built before: a tag is pushed for the
/// version that there is.
pub proof fn forced_component_is_built(
    component: Component,
    state: ComponentVersionStateView,
    upstream: UpstreamView,
    latest: Option<(Seq<char>, Seq<char>)>,
)
    ensures
        ({
            let tag = tag_to_push(component, bump_of(component, state, upstream, true, latest));
            tag == Some(component.first_tag(upstream.version)) || tag == Some(
                component.patch_tag(upstream.version, (state.ce_counter + 1) as u32),
            )
        }),
{
}

/// A state that was filled in from the latest release is current: nothing is
/// built for the same version at the same commit, even if the release cannot be
/// looked up any more.
pub proof fn backfilled_state_is_current(
    component: Component,
    state: ComponentVersionStateView,
    upstream: UpstreamView,
    latest: Option<(Seq<char>, Seq<char>)>,
    later: Option<(Seq<char>, Seq<char>)>,
)
    requires
        covering_release(component, upstream, latest) is Some,
    ensures
        is_current(backfilled(component, state, upstream, latest), upstream),
        bump_of(
            component,
            backfilled(component, state, upstream, latest),
            upstream,
            false,
            later,
        ) is NoChange,
{
}

/// A build that did not succeed leaves what is remembered of the component's
/// last tag and commit as it was.
pub proof fn only_success_is_remembered(state: ComponentVersionStateView, run: ComponentRunView)
    requires
        !(run.status is Success),
    ensures
        ComponentBuildsView::recorded_component(state, run) == state,
{
}

/// After an ISO was recorded, none is built until a component is, unless forced.
pub proof fn recorded_iso_is_not_repeated(
    state: IsoAgentVersionStateView,
    tag: Seq<char>,
    counter: u32,
)
    ensures
        !state.with_iso(tag, counter).needs_iso(false),
        state.with_iso(tag, counter).needs_iso(true),
{
}

/// An ISO is built only if the XCP-ng version moved, or if a component was built
/// since the last one, or if that is forced.
pub proof fn iso_rebuild_has_a_cause(versions: IsoAgentVersionStateView, force: bool)
    requires
        iso_plan(versions, force) is Build,
    ensures
        force || versions.iso.xcpng_version != XCPNG_TARGET_VERSION@
            || versions.iso.last_xolite_tag != versions.xolite_ce.last_tag
            || versions.iso.last_xoa_proxy_tag != versions.xoa_proxy.last_tag,
{
}

/// A state that was lost and filled in from the latest ISO for the XCP-ng version
/// calls for no ISO, unless forced.
pub proof fn seeded_iso_is_not_repeated(state: IsoAgentVersionStateView, tag: Seq<char>)
    requires
        ce_tag_parts(tag) is Some,
        (ce_tag_parts(tag)->0).0 == XCPNG_TARGET_VERSION@,
    ensures
        !state.seeded(tag).needs_iso(false),
{
}

/// A component that was built under a new tag calls for a new ISO.
pub proof fn new_component_needs_iso(
    state: IsoAgentVersionStateView,
    builds: ComponentBuildsView,
    component: Component,
    tag: Seq<char>,
)
    requires
        builds.of(component).status is Success,
        builds.of(component).tag == Some(tag),
        tag != (match component {
            Component::XoLite => state.iso.last_xolite_tag,
            Component::XoaProxy => state.iso.last_xoa_proxy_tag,
        }),
    ensures
        builds.recorded(state).needs_iso(false),
{
}

/// A run in which nothing was built and nothing is forced builds no ISO if the
/// last one holds the components as they are, and its report says so.
pub proof fn idle_run_skips_iso(
    versions: IsoAgentVersionStateView,
    builds: ComponentBuildsView,
    report: AgentStatusView,
)
    requires
        builds.xolite.status is Skipped,
        builds.xoa_proxy.status is Skipped,
        !versions.needs_iso(false),
    ensures
        !builds.went_wrong(),
        builds.recorded(versions) == versions,
        iso_plan(builds.recorded(versions), false) is Skip,
        iso_report(report, plan_event(iso_plan(versions, false))).status is Skipped,
{
}

/// No report of the components names one twice.
pub proof fn shown_components_keep_names_distinct(
    builds: ComponentBuildsView,
    report: AgentStatusView,
    xolite_url: Seq<char>,
    xoa_proxy_url: Seq<char>,
)
    requires
        names_distinct(report.components),
    ensures
        names_distinct(builds.shown_in(report, xolite_url, xoa_proxy_url).components),
{
    let once = with_component(report.components, "xolite-ce"@, builds.xolite.status, xolite_url);
    set_component_keeps_names_distinct(
        report.components,
        "xolite-ce"@,
        builds.xolite.status,
        xolite_url,
    );
    set_component_keeps_names_distinct(
        once,
        "xoa-proxy"@,
        builds.xoa_proxy.status,
        xoa_proxy_url,
    );
}

/// No report of the ISO names a component twice.
pub proof fn iso_reports_keep_names_distinct(report: AgentStatusView, event: IsoEventView)
    requires
        names_distinct(report.components),
    ensures
        names_distinct(iso_report(report, event).components),
{
    let (status, url) = match event {
        IsoEventView::Skipped => (WorkflowStatusView::Skipped, Seq::empty()),
        IsoEventView::NotStarted { error } => (WorkflowStatusView::Failure, Seq::empty()),
        IsoEventView::Running { tag, url } => (WorkflowStatusView::InProgress, url),
        IsoEventView::Polled { status } => (status, Seq::empty()),
        _ => (WorkflowStatusView::Timeout, Seq::empty()),
    };
    set_component_keeps_names_distinct(report.components, "iso"@, status, url);
}

/// The tag of the next ISO for the same XCP-ng version reads back as that version
/// and one more than the counter of the last ISO.
pub proof fn next_iso_tag_counts_up(state: IsoAgentVersionStateView)
    requires
        state.can_count_iso(),
        state.iso.xcpng_version == XCPNG_TARGET_VERSION@,
    ensures
        ce_tag_parts(ce_tag_text(XCPNG_TARGET_VERSION@, state.next_iso_counter())) == Some(
            (XCPNG_TARGET_VERSION@, (state.iso.ce_counter + 1) as u32),
        ),
{
    reveal_strlit("8.3");
    tags::ce_tag_reads_back(XCPNG_TARGET_VERSION@, state.next_iso_counter());
}

/// The tag that a component is first tried under reads back as the version that
/// is built, so that the release can be recognised later: for XO Lite always,
/// for xoa-proxy where the version consists of three numbers.
pub proof fn pushed_tag_reads_back(component: Component, decision: BumpDecisionView)
    requires
        match decision {
            BumpDecisionView::NoChange => false,
            BumpDecisionView::UpstreamBump { upstream_version } => upstream_version.len() > 0 && (
            component is XoaProxy ==> tags::plain_segments(plain_tag_text(upstream_version)) is Some
                && tags::plain_segments(plain_tag_text(upstream_version))->0.len() == 3),
            BumpDecisionView::PatchBump { upstream_version, next_counter } => upstream_version.len()
                > 0 && (component is XoaProxy ==> tags::plain_segments(
                plain_tag_text(upstream_version),
            ) is Some && tags::plain_segments(plain_tag_text(upstream_version))->0.len() == 3),
        },
    ensures
        component.tag_parts(tag_to_push(component, decision)->0) is Some,
        (component.tag_parts(tag_to_push(component, decision)->0)->0).0 == (match decision {
            BumpDecisionView::NoChange => Seq::empty(),
            BumpDecisionView::UpstreamBump { upstream_version } => upstream_version,
            BumpDecisionView::PatchBump { upstream_version, next_counter } => upstream_version,
        }),
{
    match decision {
        BumpDecisionView::NoChange => {},
        BumpDecisionView::UpstreamBump { upstream_version } => {
            if component is XoLite {
                tags::ce_tag_reads_back(upstream_version, 1);
            } else {
                tags::plain_tags_read_back(upstream_version, 1);
            }
        },
        BumpDecisionView::PatchBump { upstream_version, next_counter } => {
            if component is XoLite {
                tags::ce_tag_reads_back(upstream_version, next_counter);
            } else {
                tags::plain_tags_read_back(upstream_version, next_counter);
            }
        },
    }
}

/// The latest release carries both the newest commit and the expected version.
pub open spec fn is_released(
    component: Component,
    upstream: UpstreamView,
    latest: Option<(Seq<char>, Seq<char>)>,
) -> bool {
    &&& latest is Some
    &&& (latest->0).1 == upstream.head_sha
    &&& component.tag_parts((latest->0).0) is Some
    &&& (component.tag_parts((latest->0).0)->0).0 == upstream.version
}

/// A component is built exactly if that is forced, or if its version or its
/// commit differs from what was built last and the latest release does not carry
/// both. A version that differs gets its first tag, and only a commit that differs
/// the next patch tag, with a counter that is one higher.
pub proof fn component_is_built_exactly_when_it_moved(
    component: Component,
    state: ComponentVersionStateView,
    upstream: UpstreamView,
    force: bool,
    latest: Option<(Seq<char>, Seq<char>)>,
)
    ensures
        ({
            let moved = upstream.version != state.upstream_version || upstream.head_sha
                != state.last_built_sha;
            let built = force || (moved && !is_released(component, upstream, latest));
            let decision = bump_of(component, state, upstream, force, latest);
            let tag = tag_to_push(component, decision);
            &&& tag is Some <==> built
            &&& decision is NoChange <==> !built
            &&& built && upstream.version != state.upstream_version ==> decision
                == BumpDecisionView::UpstreamBump { upstream_version: upstream.version } && tag
                == Some(component.first_tag(upstream.version))
            &&& built && upstream.version == state.upstream_version && state.ce_counter < u32::MAX
                ==> {
                &&& decision matches BumpDecisionView::PatchBump { upstream_version, next_counter }
                    && upstream_version == upstream.version && next_counter == state.ce_counter + 1
                &&& tag == Some(
                    component.patch_tag(upstream.version, (state.ce_counter + 1) as u32),
                )
            }
        }),
{
}

/// The tags of both components carry their version and their counter: those of
/// XO Lite read back as `v{version}-ce{N}`, starting at one; those of xoa-proxy,
/// whose versions are three runs of digits, as `v{version}`, which counts as
/// zero, and `v{version}.{N}`.
pub proof fn component_tags_carry_version_and_counter(version: Seq<char>, counter: u32)
    ensures
        version.len() > 0 ==> Component::XoLite.tag_parts(Component::XoLite.first_tag(version))
            == Some((version, 1u32)),
        version.len() > 0 ==> Component::XoLite.tag_parts(
            Component::XoLite.patch_tag(version, counter),
        ) == Some((version, counter)),
        tags::is_digit_version(version) ==> Component::XoaProxy.tag_parts(
            Component::XoaProxy.first_tag(version),
        ) == Some((version, 0u32)),
        tags::is_digit_version(version) ==> Component::XoaProxy.tag_parts(
            Component::XoaProxy.patch_tag(version, counter),
        ) == Some((version, counter)),
        Component::XoLite.name_text() == "xolite-ce"@,
        Component::XoaProxy.name_text() == "xoa-proxy"@,
{
    if version.len() > 0 {
        tags::ce_tag_reads_back(version, 1);
        tags::ce_tag_reads_back(version, counter);
    }
    if tags::is_digit_version(version) {
        tags::plain_tags_in_digits(plain_tag_text(version), version, 0);
        tags::lemma_plain_version_segments(version);
        tags::plain_tags_read_back(version, counter);
    }
}

/// Only a release that settles a decision changes the state: then the state holds
/// the version, the counter, the tag and the commit of the release. Every other
/// decision leaves it as it was.
pub proof fn only_a_covering_release_fills_the_state_in(
    component: Component,
    state: ComponentVersionStateView,
    upstream: UpstreamView,
    force: bool,
    tag: Seq<char>,
    sha: Seq<char>,
    counter: u32,
)
    ensures
        ({
            let after = |latest: Option<(Seq<char>, Seq<char>)>|
                backfilled(
                    component,
                    state,
                    upstream,
                    counted_release(state, upstream, force, latest),
                );
            let moved = upstream.version != state.upstream_version || upstream.head_sha
                != state.last_built_sha;
            &&& after(None) == state
            &&& force || !moved || sha != upstream.head_sha ==> after(Some((tag, sha))) == state
            &&& component.tag_parts(tag) is None || (component.tag_parts(tag)->0).0
                != upstream.version ==> after(Some((tag, sha))) == state
            &&& !force && moved && sha == upstream.head_sha && component.tag_parts(tag) == Some(
                (upstream.version, counter),
            ) ==> after(Some((tag, sha))) == (ComponentVersionStateView {
                upstream_version: upstream.version,
                ce_counter: counter,
                last_tag: tag,
                last_built_sha: upstream.head_sha,
            })
        }),
{
}

/// Once a build is begun, the state holds the version that is built and the
/// counter of its tag; what was built last stays until the build succeeds. Where
/// nothing is built, nothing changes.
pub proof fn begun_build_is_noted(
    component: Component,
    state: ComponentVersionStateView,
    upstream: UpstreamView,
    force: bool,
    latest: Option<(Seq<char>, Seq<char>)>,
)
    requires
        state.ce_counter < u32::MAX,
    ensures
        ({
            let decision = bump_of(component, state, upstream, force, latest);
            let after = begun(state, decision);
            &&& after.last_tag == state.last_tag
            &&& after.last_built_sha == state.last_built_sha
            &&& tag_to_push(component, decision) is None ==> after == state
            &&& tag_to_push(component, decision) is Some ==> {
                &&& after.upstream_version == upstream.version
                &&& after.ce_counter == (if upstream.version == state.upstream_version {
                    state.ce_counter + 1
                } else {
                    1
                })
            }
        }),
{
}

/// The flags are accepted exactly if every argument is one of the four, and a
/// rebuild is forced exactly if its own flag or the flag for all is among them.
/// The error names the first argument that is none.
pub proof fn flags_add_up(force: ForceFlags, args: Seq<Seq<char>>)
    ensures
        match flags_of(force, args) {
            Ok(flags) => {
                &&& forall|i: int| 0 <= i < args.len() ==> is_flag(#[trigger] args[i])
                &&& flags.xolite <==> force.xolite || args.contains("--force"@) || args.contains(
                    "--force-xolite"@,
                )
                &&& flags.xoa_proxy <==> force.xoa_proxy || args.contains("--force"@)
                    || args.contains("--force-xoa-proxy"@)
                &&& flags.iso <==> force.iso || args.contains("--force"@) || args.contains(
                    "--force-iso"@,
                )
            },
            Err(e) => exists|at: int|
                0 <= at < args.len() && !is_flag(#[trigger] args[at]) && (forall|i: int|
                    0 <= i < at ==> is_flag(#[trigger] args[i])) && e
                    == OrchestratorErrorView::InvalidArgument(
                    args[at]
                        + " (usage: iso-agent [--force] [--force-xolite] [--force-xoa-proxy] [--force-iso])"@,
                ),
        },
    decreases args.len(),
{
    lemma_flags_differ();
    if args.len() > 0 {
        let rest = args.drop_first();
        match with_flag(force, args[0]) {
            Some(next) => {
                flags_add_up(next, rest);
                assert(args =~= seq![args[0]] + rest);
                match flags_of(next, rest) {
                    Ok(flags) => {
                        assert forall|i: int| 0 <= i < args.len() implies is_flag(
                            #[trigger] args[i],
                        ) by {
                            if i > 0 {
                                assert(args[i] == rest[i - 1]);
                            }
                        }
                        lemma_contains_first(args, "--force"@);
                        lemma_contains_first(args, "--force-xolite"@);
                        lemma_contains_first(args, "--force-xoa-proxy"@);
                        lemma_contains_first(args, "--force-iso"@);
                    },
                    Err(e) => {
                        let k = choose|at: int|
                            0 <= at < rest.len() && !is_flag(#[trigger] rest[at]) && (forall|i: int|
                                0 <= i < at ==> is_flag(#[trigger] rest[i])) && e
                                == OrchestratorErrorView::InvalidArgument(
                                rest[at]
                                    + " (usage: iso-agent [--force] [--force-xolite] [--force-xoa-proxy] [--force-iso])"@,
                            );
                        assert(args[k + 1] == rest[k]);
                        assert forall|i: int| 0 <= i < k + 1 implies is_flag(#[trigger] args[i]) by {
                            if i > 0 {
                                assert(args[i] == rest[i - 1]);
                            }
                        }
                    },
                }
            },
            None => {
                assert(!is_flag(args[0]));
            },
        }
    }
}

/// One of the arguments that the agent knows.
pub open spec fn is_flag(arg: Seq<char>) -> bool {
    arg == "--force"@ || arg == "--force-xolite"@ || arg == "--force-xoa-proxy"@ || arg
        == "--force-iso"@
}

proof fn lemma_flags_differ()
    ensures
        "--force"@ != "--force-xolite"@,
        "--force"@ != "--force-xoa-proxy"@,
        "--force"@ != "--force-iso"@,
        "--force-xolite"@ != "--force-xoa-proxy"@,
        "--force-xolite"@ != "--force-iso"@,
        "--force-xoa-proxy"@ != "--force-iso"@,
{
    reveal_strlit("--force");
    reveal_strlit("--force-xolite");
    reveal_strlit("--force-xoa-proxy");
    reveal_strlit("--force-iso");
    assert("--force"@.len() == 7);
    assert("--force-xolite"@.len() == 14);
    assert("--force-xoa-proxy"@.len() == 17);
    assert("--force-iso"@.len() == 11);
}

proof fn lemma_contains_first(args: Seq<Seq<char>>, arg: Seq<char>)
    requires
        args.len() > 0,
    ensures
        args.contains(arg) <==> args[0] == arg || args.drop_first().contains(arg),
{
    let rest = args.drop_first();
    if args.contains(arg) {
        let i = choose|i: int| 0 <= i < args.len() && args[i] == arg;
        if i > 0 {
            assert(rest[i - 1] == arg);
        }
    }
    if rest.contains(arg) {
        let i = choose|i: int| 0 <= i < rest.len() && rest[i] == arg;
        assert(args[i + 1] == arg);
    }
}

/// A build has succeeded, failed, timed out or been cancelled exactly if its run
/// concluded so; whatever else a run says, the build is still under way.
pub proof fn conclusions_tell_builds_apart(conclusion: Seq<char>)
    ensures
        build_status_of(conclusion) is Success <==> conclusion == "success"@,
        build_status_of(conclusion) is Failure <==> conclusion == "failure"@,
        build_status_of(conclusion) is Timeout <==> conclusion == "timed_out"@,
        build_status_of(conclusion) is Aborted <==> conclusion == "cancelled"@,
        build_status_of(conclusion) is InProgress <==> !(conclusion == "success"@ || conclusion
            == "failure"@ || conclusion == "timed_out"@ || conclusion == "cancelled"@),
        build_status_of(crate::pipeline::IN_PROGRESS@) is InProgress,
{
    reveal_strlit("success");
    reveal_strlit("failure");
    reveal_strlit("timed_out");
    reveal_strlit("cancelled");
    reveal_strlit("In Progress");
    assert("success"@.len() == 7 && "failure"@.len() == 7);
    assert("success"@[0] == 's' && "failure"@[0] == 'f');
    assert("timed_out"@.len() == 9 && "cancelled"@.len() == 9);
    assert("timed_out"@[0] == 't' && "cancelled"@[0] == 'c');
    assert("In Progress"@.len() == 11);
}

/// A poll of one component says nothing of the other, and changes nothing but
/// the status of the build: a conclusion sets that, and clears the failures; a
/// poll that failed only counts.
pub proof fn poll_touches_only_its_component(
    builds: ComponentBuildsView,
    component: Component,
    other: Component,
    conclusion: Seq<char>,
    error: OrchestratorErrorView,
)
    requires
        builds.well_formed(),
        other != component,
    ensures
        ({
            let told = builds.polled(component, Ok(conclusion));
            let missed = builds.polled(component, Err(error));
            &&& told.of(other) == builds.of(other)
            &&& told.of(component).status == build_status_of(conclusion)
            &&& told.of(component).tag == builds.of(component).tag
            &&& told.of(component).id == builds.of(component).id
            &&& told.of(component).url == builds.of(component).url
            &&& told.of(component).head_sha == builds.of(component).head_sha
            &&& told.poll_failures == 0
            &&& missed.xolite == builds.xolite
            &&& missed.xoa_proxy == builds.xoa_proxy
            &&& missed.poll_failures == builds.poll_failures + 1
            &&& builds.of(Component::XoLite) == builds.xolite
            &&& builds.of(Component::XoaProxy) == builds.xoa_proxy
        }),
{
}

/// A run is asked about exactly while its build is under way, and by its own
/// number.
pub proof fn only_running_builds_are_due(run: ComponentRunView, id: u64)
    ensures
        run.due() == Some(id) <==> run.status is InProgress && run.id == Some(id),
        ComponentRunView::idle(run.head_sha).due() is None,
        ComponentRunView::running(run.head_sha, run.url, id, run.url).due() == Some(id),
{
}

/// The watch goes on as long as a build is under way. Then it reports a failure
/// exactly if one failed or took too long.
pub proof fn overall_follows_the_builds(builds: ComponentBuildsView)
    ensures
        builds.in_progress() <==> builds.xolite.status is InProgress
            || builds.xoa_proxy.status is InProgress,
        builds.went_wrong() <==> builds.xolite.status is Failure || builds.xolite.status is Timeout
            || builds.xoa_proxy.status is Failure || builds.xoa_proxy.status is Timeout,
        builds.overall() is InProgress <==> builds.xolite.status is InProgress
            || builds.xoa_proxy.status is InProgress,
        builds.overall() is Failure <==> !builds.in_progress() && builds.went_wrong(),
        builds.overall() is Success <==> !builds.in_progress() && !builds.went_wrong(),
{
}

/// Once the watch took too long, nothing is under way any more: what was timed
/// out, what had ended keeps its end, and no ISO follows if anything timed out.
pub proof fn timed_out_builds_have_ended(builds: ComponentBuildsView, component: Component)
    ensures
        ({
            let after = builds.timed_out();
            &&& !after.in_progress()
            &&& builds.in_progress() ==> after.went_wrong()
            &&& builds.of(component).status is InProgress ==> after.of(component).status is Timeout
            &&& !(builds.of(component).status is InProgress) ==> after.of(component)
                == builds.of(component)
            &&& after.of(component).tag == builds.of(component).tag
            &&& after.of(component).head_sha == builds.of(component).head_sha
            &&& after.of(component).url == builds.of(component).url
            &&& after.of(component).id == builds.of(component).id
        }),
{
}

/// Every report of the builds shows each component with its own status, and with
/// its page once that is known; what else was reported of components stays.
pub proof fn reports_show_both_components(
    builds: ComponentBuildsView,
    report: AgentStatusView,
    now: clock::Timestamp,
    other: Seq<char>,
)
    requires
        other != "xolite-ce"@,
        other != "xoa-proxy"@,
    ensures
        ({
            let start = builds.report_of_start(report);
            let poll = builds.report_of_poll(report, now);
            let end = builds.report_of_timeout(report);
            &&& component_named(start.components, "xolite-ce"@) matches Some(c) && c.status
                == builds.xolite.status && (builds.xolite.url.len() > 0 ==> c.url
                == builds.xolite.url)
            &&& component_named(start.components, "xoa-proxy"@) matches Some(c) && c.status
                == builds.xoa_proxy.status && (builds.xoa_proxy.url.len() > 0 ==> c.url
                == builds.xoa_proxy.url)
            &&& component_named(poll.components, "xolite-ce"@) matches Some(c) && c.status
                == builds.xolite.status
            &&& component_named(poll.components, "xoa-proxy"@) matches Some(c) && c.status
                == builds.xoa_proxy.status
            &&& component_named(end.components, "xolite-ce"@) matches Some(c) && c.status
                == builds.timed_out().xolite.status
            &&& component_named(end.components, "xoa-proxy"@) matches Some(c) && c.status
                == builds.timed_out().xoa_proxy.status
            &&& component_named(start.components, other) == component_named(
                report.components,
                other,
            )
            &&& component_named(poll.components, other) == component_named(report.components, other)
            &&& component_named(end.components, other) == component_named(report.components, other)
            &&& start.status is InProgress <==> builds.in_progress()
            &&& start.status is Skipped <==> !builds.in_progress()
            &&& poll.status == builds.overall()
            &&& poll.timestamp == now
            &&& end.status is Timeout
            &&& start.url == report.url && poll.url == report.url && end.url == report.url
            &&& poll.phase == report.phase && poll.detail == report.detail
        }),
{
    lemma_component_names_differ();
    lemma_shown(builds, report.components, builds.xolite.url, builds.xoa_proxy.url, other);
    lemma_shown(builds, report.components, Seq::empty(), Seq::empty(), other);
    lemma_shown(builds.timed_out(), report.components, Seq::empty(), Seq::empty(), other);
}

proof fn lemma_component_names_differ()
    ensures
        "xolite-ce"@ != "xoa-proxy"@,
        "xolite-ce"@ != "iso"@,
        "xoa-proxy"@ != "iso"@,
{
    reveal_strlit("xolite-ce");
    reveal_strlit("xoa-proxy");
    reveal_strlit("iso");
    assert("xolite-ce"@[2] == 'l' && "xoa-proxy"@[2] == 'a');
    assert("xolite-ce"@.len() == 9 && "xoa-proxy"@.len() == 9 && "iso"@.len() == 3);
}

proof fn lemma_shown(
    builds: ComponentBuildsView,
    components: Seq<ComponentStatusView>,
    xolite_url: Seq<char>,
    xoa_proxy_url: Seq<char>,
    other: Seq<char>,
)
    requires
        other != "xolite-ce"@,
        other != "xoa-proxy"@,
    ensures
        ({
            let once = with_component(
                components,
                "xolite-ce"@,
                builds.xolite.status,
                xolite_url,
            );
            let both = with_component(
                once,
                "xoa-proxy"@,
                builds.xoa_proxy.status,
                xoa_proxy_url,
            );
            &&& component_named(both, "xolite-ce"@) matches Some(c) && c.status
                == builds.xolite.status && (xolite_url.len() > 0 ==> c.url == xolite_url)
            &&& component_named(both, "xoa-proxy"@) matches Some(c) && c.status
                == builds.xoa_proxy.status && (xoa_proxy_url.len() > 0 ==> c.url == xoa_proxy_url)
            &&& component_named(both, other) == component_named(components, other)
        }),
{
    lemma_component_names_differ();
    let once = with_component(components, "xolite-ce"@, builds.xolite.status, xolite_url);
    set_component_is_found(components, "xolite-ce"@, builds.xolite.status, xolite_url);
    set_component_leaves_others(
        once,
        "xoa-proxy"@,
        builds.xoa_proxy.status,
        xoa_proxy_url,
        "xolite-ce"@,
    );
    set_component_is_found(once, "xoa-proxy"@, builds.xoa_proxy.status, xoa_proxy_url);
    set_component_leaves_others(
        components,
        "xolite-ce"@,
        builds.xolite.status,
        xolite_url,
        other,
    );
    set_component_leaves_others(once, "xoa-proxy"@, builds.xoa_proxy.status, xoa_proxy_url, other);
}

/// A report of failure says so, and points at a build that failed and has a run:
/// at XO Lite before xoa-proxy. Where there is none it points where it did.
pub proof fn failure_report_points_at_a_failed_build(
    builds: ComponentBuildsView,
    report: AgentStatusView,
)
    ensures
        ({
            let after = builds.report_of_failure(report);
            let xolite = builds.xolite.status is Failure && builds.xolite.id is Some;
            let proxy = builds.xoa_proxy.status is Failure && builds.xoa_proxy.id is Some;
            &&& after.status is Failure
            &&& after.phase == "failed"@
            &&& after.components == report.components
            &&& after.timestamp == report.timestamp
            &&& xolite ==> after.url == builds.xolite.url
            &&& proxy && !xolite ==> after.url == builds.xoa_proxy.url
            &&& !proxy && !xolite ==> after.url == report.url
        }),
{
}

/// What is remembered of a component after its build: the tag and the commit of a
/// build that succeeded, and nothing of any other. Neither component's build says
/// anything of the other or of the ISO, and the version and the counter stay.
pub proof fn builds_are_recorded_each_for_itself(
    builds: ComponentBuildsView,
    state: IsoAgentVersionStateView,
    tag: Seq<char>,
)
    ensures
        ({
            let after = builds.recorded(state);
            &&& builds.xolite.status is Success && builds.xolite.tag == Some(tag) ==> after.xolite_ce
                == (ComponentVersionStateView {
                last_tag: tag,
                last_built_sha: builds.xolite.head_sha,
                ..state.xolite_ce
            })
            &&& !(builds.xolite.status is Success) || builds.xolite.tag is None ==> after.xolite_ce
                == state.xolite_ce
            &&& builds.xoa_proxy.status is Success && builds.xoa_proxy.tag == Some(tag)
                ==> after.xoa_proxy == (ComponentVersionStateView {
                last_tag: tag,
                last_built_sha: builds.xoa_proxy.head_sha,
                ..state.xoa_proxy
            })
            &&& !(builds.xoa_proxy.status is Success) || builds.xoa_proxy.tag is None
                ==> after.xoa_proxy == state.xoa_proxy
            &&& after.iso == state.iso
        }),
{
}

/// The latest ISO is looked up exactly where nothing is known of one and neither
/// component was built.
pub proof fn lost_iso_state_is_looked_up(
    state: IsoAgentVersionStateView,
    builds: ComponentBuildsView,
)
    ensures
        state.wants_iso_seed(builds) <==> state.iso.last_tag == Seq::<char>::empty()
            && builds.xolite.status is Skipped && builds.xoa_proxy.status is Skipped,
{
    if state.iso.last_tag.len() == 0 {
        assert(state.iso.last_tag =~= Seq::<char>::empty());
    }
}

/// A lost state is filled in from the tag of an ISO: its version and its counter,
/// and the components as they are. The components keep their state, and a tag that
/// cannot be read changes nothing.
pub proof fn seeded_state_tells_the_iso(
    state: IsoAgentVersionStateView,
    tag: Seq<char>,
    version: Seq<char>,
    counter: u32,
)
    ensures
        state.seeded(tag).xolite_ce == state.xolite_ce,
        state.seeded(tag).xoa_proxy == state.xoa_proxy,
        ce_tag_parts(tag) is None ==> state.seeded(tag) == state,
        version.len() > 0 ==> state.seeded(ce_tag_text(version, counter)).iso
            == (IsoVersionStateView {
            xcpng_version: version,
            ce_counter: counter,
            last_tag: ce_tag_text(version, counter),
            last_xolite_tag: state.xolite_ce.last_tag,
            last_xoa_proxy_tag: state.xoa_proxy.last_tag,
        }),
{
    if version.len() > 0 {
        tags::ce_tag_reads_back(version, counter);
    }
}

/// An ISO is planned exactly if that is forced, if the XCP-ng version moved, or
/// if a component has another tag than the one that the last ISO holds.
pub proof fn iso_is_planned_exactly_when_due(versions: IsoAgentVersionStateView, force: bool)
    ensures
        iso_plan(versions, force) is Build <==> force || versions.iso.xcpng_version
            != XCPNG_TARGET_VERSION@ || versions.iso.last_xolite_tag
            != versions.xolite_ce.last_tag || versions.iso.last_xoa_proxy_tag
            != versions.xoa_proxy.last_tag,
        iso_plan(versions, force) is Skip <==> !(iso_plan(versions, force) is Build),
{
}

/// Whenever an ISO is planned, forced or not, its tag reads back as the XCP-ng
/// version and the planned counter. The counter is one more than that of the last
/// ISO for the same version, and one for a new version. The report names the tag.
pub proof fn planned_iso_counts_up(
    versions: IsoAgentVersionStateView,
    force: bool,
    report: AgentStatusView,
)
    requires
        iso_plan(versions, force) is Build,
        versions.iso.xcpng_version == XCPNG_TARGET_VERSION@ ==> versions.iso.ce_counter < u32::MAX,
    ensures
        ({
            let tag = iso_plan(versions, force)->tag;
            let counter = iso_plan(versions, force)->counter;
            &&& ce_tag_parts(tag) == Some((XCPNG_TARGET_VERSION@, counter))
            &&& tag == "v"@ + XCPNG_TARGET_VERSION@ + "-ce"@ + decimal(counter as nat)
            &&& versions.iso.xcpng_version == XCPNG_TARGET_VERSION@ ==> counter
                == versions.iso.ce_counter + 1
            &&& versions.iso.xcpng_version != XCPNG_TARGET_VERSION@ ==> counter == 1
            &&& versions.next_iso_counter() == counter
            &&& ce_tag_parts(versions.iso.last_tag) == Some(
                (versions.iso.xcpng_version, versions.iso.ce_counter),
            ) ==> tag != versions.iso.last_tag
            &&& iso_report(report, plan_event(iso_plan(versions, force))).detail
                == "Building ISO with tag "@ + tag
        }),
{
    reveal_strlit("8.3");
    let counter = iso_plan(versions, force)->counter;
    tags::ce_tag_reads_back(XCPNG_TARGET_VERSION@, counter);
}

/// An ISO that was built as planned and recorded is remembered with its tag, its
/// counter and the components as they are, so that the next one counts on from it;
/// the components keep their state.
pub proof fn recorded_iso_is_remembered(
    versions: IsoAgentVersionStateView,
    tag: Seq<char>,
    counter: u32,
)
    requires
        counter < u32::MAX,
    ensures
        ({
            let after = versions.with_iso(tag, counter);
            &&& after.iso.last_tag == tag
            &&& after.iso.ce_counter == counter
            &&& after.iso.xcpng_version == XCPNG_TARGET_VERSION@
            &&& after.iso.last_xolite_tag == versions.xolite_ce.last_tag
            &&& after.iso.last_xoa_proxy_tag == versions.xoa_proxy.last_tag
            &&& after.xolite_ce == versions.xolite_ce
            &&& after.xoa_proxy == versions.xoa_proxy
            &&& iso_plan(after, true) matches IsoPlanView::Build { tag: next, counter: n } && n
                == counter + 1 && ce_tag_parts(next) == Some(
                (XCPNG_TARGET_VERSION@, (counter + 1) as u32),
            )
            &&& after.entry_of(tag).iso_tag == after.iso.last_tag
            &&& after.entry_of(tag).xolite_version == after.iso.last_xolite_tag
            &&& after.entry_of(tag).xoa_proxy_version == after.iso.last_xoa_proxy_tag
            &&& after.entry_of(tag).xolite_upstream == versions.xolite_ce.upstream_version
        }),
{
    reveal_strlit("8.3");
    tags::ce_tag_reads_back(XCPNG_TARGET_VERSION@, (counter + 1) as u32);
}

/// What a report says of the ISO after something happened to it: its status under
/// its name, and its page once it runs. The other components stay as they were
/// reported.
pub proof fn iso_reports_say_what_happened(
    report: AgentStatusView,
    event: IsoEventView,
    other: Seq<char>,
)
    requires
        other != "iso"@,
    ensures
        ({
            let after = iso_report(report, event);
            let iso = component_named(after.components, "iso"@);
            &&& component_named(after.components, other) == component_named(
                report.components,
                other,
            )
            &&& after.timestamp == report.timestamp
            &&& match event {
                IsoEventView::Skipped => after.status is Skipped && iso is Some && iso->0.status
                    is Skipped && after.url == report.url,
                IsoEventView::Starting { tag } => after.status is InProgress && has_text(
                    after.detail,
                    tag,
                ) && after.components == report.components && after.url == report.url,
                IsoEventView::NotStarted { error } => after.status is Failure && iso is Some
                    && iso->0.status is Failure && has_text(after.detail, error_text(error))
                    && after.url == report.url,
                IsoEventView::Running { tag, url } => after.url == url && iso is Some
                    && iso->0.status is InProgress && (url.len() > 0 ==> iso->0.url == url)
                    && has_text(after.detail, tag) && after.status == report.status
                    && after.phase == report.phase,
                IsoEventView::Polled { status } => after.status == status && iso is Some
                    && iso->0.status == status && after.url == report.url && after.detail
                    == report.detail && after.phase == report.phase,
                IsoEventView::TimedOut => after.status is Timeout && iso is Some && iso->0.status
                    is Timeout && after.url == report.url && after.phase == report.phase,
                IsoEventView::Built { tag } => after.status == report.status && after.components
                    == report.components && after.url == report.url && after.phase
                    == "completed"@ && has_text(after.detail, tag),
                IsoEventView::Ended { status } => after.status == report.status
                    && after.components == report.components && after.url == report.url
                    && after.phase == "failed"@ && has_text(after.detail, status_text(status)),
            }
        }),
{
    let (status, url) = match event {
        IsoEventView::Skipped => (WorkflowStatusView::Skipped, Seq::<char>::empty()),
        IsoEventView::NotStarted { error } => (WorkflowStatusView::Failure, Seq::<char>::empty()),
        IsoEventView::Running { tag, url } => (WorkflowStatusView::InProgress, url),
        IsoEventView::Polled { status } => (status, Seq::<char>::empty()),
        _ => (WorkflowStatusView::Timeout, Seq::<char>::empty()),
    };
    set_component_is_found(report.components, "iso"@, status, url);
    set_component_leaves_others(report.components, "iso"@, status, url, other);
    match event {
        IsoEventView::Starting { tag } => {
            lemma_has_tail("Building ISO with tag "@, tag);
        },
        IsoEventView::NotStarted { error } => {
            lemma_has_tail("Failed to start ISO build: "@, error_text(error));
        },
        IsoEventView::Running { tag, url } => {
            lemma_has_tail("ISO build running: "@, tag);
        },
        IsoEventView::Built { tag } => {
            lemma_has_tail("ISO build successful: "@, tag);
        },
        IsoEventView::Ended { status } => {
            lemma_has_tail("ISO build ended with: "@, status_text(status));
        },
        _ => {},
    }
}

/// The watch over the ISO reads a conclusion as the build's status, passes over
/// the failures that it tolerates, and ends with the error of the last one.
pub proof fn iso_watch_tells_the_build(
    failures: u32,
    conclusion: Seq<char>,
    error: OrchestratorErrorView,
)
    requires
        failures < MAX_CONSECUTIVE_POLL_FAILURES,
    ensures
        iso_poll_outcome(failures, Ok(conclusion)) == Ok::<
            Option<WorkflowStatusView>,
            OrchestratorErrorView,
        >(Some(build_status_of(conclusion))),
        failures < 4 ==> iso_poll_outcome(failures, Err(error)) == Ok::<
            Option<WorkflowStatusView>,
            OrchestratorErrorView,
        >(None),
        failures == 4 ==> iso_poll_outcome(failures, Err(error)) == Err::<
            Option<WorkflowStatusView>,
            OrchestratorErrorView,
        >(error),
        poll_outcome(failures, Ok(conclusion)) is Ok,
        poll_outcome(failures, Err(error)) is Ok <==> failures < 4,
        failures == 4 ==> poll_outcome(failures, Err(error)) == Err::<(), OrchestratorErrorView>(
            error,
        ),
{
}

/// Counters are all that can run out: a decision can always be taken and an ISO always
/// be counted unless the counter that would go up is at the top of its range.
pub proof fn only_a_full_counter_stands_in_the_way(
    versions: IsoAgentVersionStateView,
    component: Component,
    state: ComponentVersionStateView,
    upstream: UpstreamView,
    force: bool,
    latest: Option<(Seq<char>, Seq<char>)>,
)
    ensures
        state.ce_counter < u32::MAX ==> can_decide(component, state, upstream, force, latest),
        upstream.version != state.upstream_version ==> can_decide(
            component,
            state,
            upstream,
            force,
            latest,
        ),
        force && upstream.version == state.upstream_version && state.ce_counter == u32::MAX
            ==> !can_decide(component, state, upstream, force, latest),
        !versions.can_count_iso() <==> versions.iso.xcpng_version == XCPNG_TARGET_VERSION@
            && versions.iso.ce_counter == u32::MAX,
{
}

} // verus!
