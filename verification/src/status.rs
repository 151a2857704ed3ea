//! The status of the agents, their components and the pipeline as a whole.

use crate::clock;
use crate::clock::Timestamp;
use crate::text;
use vstd::prelude::*;

verus! {

/// Status of a workflow or phase.
#[derive(Debug)]
pub enum WorkflowStatus {
    /// Workflow was skipped (no changes detected).
    Skipped,
    /// Workflow is currently in progress.
    InProgress,
    /// Workflow completed successfully.
    Success,
    /// Workflow failed.
    Failure,
    /// Workflow timed out.
    Timeout,
    /// Workflow was aborted.
    Aborted,
    /// Unknown status, with a message.
    Unknown(String),
}

/// What a [`WorkflowStatus`] says.
pub enum WorkflowStatusView {
    Skipped,
    InProgress,
    Success,
    Failure,
    Timeout,
    Aborted,
    Unknown(Seq<char>),
}

impl View for WorkflowStatus {
    type V = WorkflowStatusView;

    open spec fn view(&self) -> WorkflowStatusView {
        match self {
            WorkflowStatus::Skipped => WorkflowStatusView::Skipped,
            WorkflowStatus::InProgress => WorkflowStatusView::InProgress,
            WorkflowStatus::Success => WorkflowStatusView::Success,
            WorkflowStatus::Failure => WorkflowStatusView::Failure,
            WorkflowStatus::Timeout => WorkflowStatusView::Timeout,
            WorkflowStatus::Aborted => WorkflowStatusView::Aborted,
            WorkflowStatus::Unknown(message) => WorkflowStatusView::Unknown(message@),
        }
    }
}

impl DeepView for WorkflowStatus {
    type V = WorkflowStatusView;

    open spec fn deep_view(&self) -> WorkflowStatusView {
        self@
    }
}

impl Clone for WorkflowStatus {
    fn clone(&self) -> (copy: Self)
        ensures
            copy@ == self@,
    {
        match self {
            WorkflowStatus::Skipped => WorkflowStatus::Skipped,
            WorkflowStatus::InProgress => WorkflowStatus::InProgress,
            WorkflowStatus::Success => WorkflowStatus::Success,
            WorkflowStatus::Failure => WorkflowStatus::Failure,
            WorkflowStatus::Timeout => WorkflowStatus::Timeout,
            WorkflowStatus::Aborted => WorkflowStatus::Aborted,
            WorkflowStatus::Unknown(message) => WorkflowStatus::Unknown(message.clone()),
        }
    }
}

impl PartialEq for WorkflowStatus {
    fn eq(&self, other: &Self) -> (yes: bool) {
        match (self, other) {
            (WorkflowStatus::Skipped, WorkflowStatus::Skipped) => true,
            (WorkflowStatus::InProgress, WorkflowStatus::InProgress) => true,
            (WorkflowStatus::Success, WorkflowStatus::Success) => true,
            (WorkflowStatus::Failure, WorkflowStatus::Failure) => true,
            (WorkflowStatus::Timeout, WorkflowStatus::Timeout) => true,
            (WorkflowStatus::Aborted, WorkflowStatus::Aborted) => true,
            (WorkflowStatus::Unknown(a), WorkflowStatus::Unknown(b)) => text::same(a, b),
            _ => false,
        }
    }
}

impl vstd::std_specs::cmp::PartialEqSpecImpl for WorkflowStatus {
    open spec fn obeys_eq_spec() -> bool {
        true
    }

    open spec fn eq_spec(&self, other: &Self) -> bool {
        self@ == other@
    }
}

impl Default for WorkflowStatus {
    fn default() -> (status: Self)
        ensures
            status@ == WorkflowStatusView::Skipped,
    {
        WorkflowStatus::Skipped
    }
}

/// The text that a status shows to people.
pub open spec fn status_text(status: WorkflowStatusView) -> Seq<char> {
    match status {
        WorkflowStatusView::Skipped => "Skipped"@,
        WorkflowStatusView::InProgress => "In Progress"@,
        WorkflowStatusView::Success => "Success"@,
        WorkflowStatusView::Failure => "Failure"@,
        WorkflowStatusView::Timeout => "Timeout"@,
        WorkflowStatusView::Aborted => "Aborted"@,
        WorkflowStatusView::Unknown(message) => message,
    }
}

impl WorkflowStatus {
    /// The text that the status shows to people.
    pub fn label(&self) -> (label: String)
        ensures
            label@ == status_text(self@),
    {
        match self {
            WorkflowStatus::Skipped => "Skipped".to_string(),
            WorkflowStatus::InProgress => "In Progress".to_string(),
            WorkflowStatus::Success => "Success".to_string(),
            WorkflowStatus::Failure => "Failure".to_string(),
            WorkflowStatus::Timeout => "Timeout".to_string(),
            WorkflowStatus::Aborted => "Aborted".to_string(),
            WorkflowStatus::Unknown(message) => message.clone(),
        }
    }
}

/// Status of one component handled by an agent (e.g. "xolite-ce", "xoa-image"),
/// with a link to its GitHub Actions run or release page.
#[derive(Debug)]
pub struct ComponentStatus {
    pub name: String,
    pub status: WorkflowStatus,
    pub url: String,
}

/// What a [`ComponentStatus`] holds.
pub struct ComponentStatusView {
    pub name: Seq<char>,
    pub status: WorkflowStatusView,
    pub url: Seq<char>,
}

impl View for ComponentStatus {
    type V = ComponentStatusView;

    open spec fn view(&self) -> ComponentStatusView {
        ComponentStatusView {
            name: self.name@,
            status: self.status@,
            url: self.url@,
        }
    }
}

impl DeepView for ComponentStatus {
    type V = ComponentStatusView;

    open spec fn deep_view(&self) -> ComponentStatusView {
        self@
    }
}

impl Clone for ComponentStatus {
    fn clone(&self) -> (copy: Self)
        ensures
            copy@ == self@,
    {
        ComponentStatus {
            name: self.name.clone(),
            status: self.status.clone(),
            url: self.url.clone(),
        }
    }
}

/// Status information for a single agent.
#[derive(Debug)]
pub struct AgentStatus {
    /// Current phase of the workflow.
    pub phase: String,
    /// Current status of the workflow.
    pub status: WorkflowStatus,
    /// URL of the relevant logs or workflow run.
    pub url: String,
    /// Additional details about the status.
    pub detail: String,
    /// Moment of the last status update.
    pub timestamp: Timestamp,
    /// Per-component statuses; the dashboard links the URL of each as "Logs".
    pub components: Vec<ComponentStatus>,
}

/// What a [`AgentStatus`] holds.
pub struct AgentStatusView {
    pub phase: Seq<char>,
    pub status: WorkflowStatusView,
    pub url: Seq<char>,
    pub detail: Seq<char>,
    pub timestamp: Timestamp,
    pub components: Seq<ComponentStatusView>,
}

impl View for AgentStatus {
    type V = AgentStatusView;

    open spec fn view(&self) -> AgentStatusView {
        AgentStatusView {
            phase: self.phase@,
            status: self.status@,
            url: self.url@,
            detail: self.detail@,
            timestamp: self.timestamp,
            components: self.components.deep_view(),
        }
    }
}

impl DeepView for AgentStatus {
    type V = AgentStatusView;

    open spec fn deep_view(&self) -> AgentStatusView {
        self@
    }
}

impl Default for ComponentStatus {
    fn default() -> (component: Self)
        ensures
            component@ == (ComponentStatusView {
                name: Seq::empty(),
                status: WorkflowStatusView::Skipped,
                url: Seq::empty(),
            }),
    {
        ComponentStatus {
            name: String::new(),
            status: WorkflowStatus::Skipped,
            url: String::new(),
        }
    }
}

impl Default for AgentStatus {
    /// Nothing was reported: skipped, at the start of 1970.
    fn default() -> (agent: Self)
        ensures
            agent@ == (AgentStatusView {
                phase: Seq::empty(),
                status: WorkflowStatusView::Skipped,
                url: Seq::empty(),
                detail: Seq::empty(),
                timestamp: Timestamp { secs: 0, nanos: 0 },
                components: Seq::empty(),
            }),
    {
        let agent = AgentStatus {
            phase: String::new(),
            status: WorkflowStatus::Skipped,
            url: String::new(),
            detail: String::new(),
            timestamp: Timestamp { secs: 0, nanos: 0 },
            components: Vec::new(),
        };
        assert(agent.components.deep_view() =~= Seq::<ComponentStatusView>::empty());
        agent
    }
}

impl Clone for AgentStatus {
    fn clone(&self) -> (copy: Self)
        ensures
            copy@ == self@,
    {
        let ghost all = self.components.deep_view();
        let mut components: Vec<ComponentStatus> = Vec::new();
        for i in 0..self.components.len()
            invariant
                all == self.components.deep_view(),
                components.deep_view() =~= all.take(i as int),
        {
            let ghost before = components.deep_view();
            components.push(self.components[i].clone());
            proof {
                assert(all[i as int] == self.components@[i as int]@);
                assert(components.deep_view() =~= before.push(all[i as int]));
            }
        }
        assert(all.take(all.len() as int) =~= all);
        AgentStatus {
            phase: self.phase.clone(),
            status: self.status.clone(),
            url: self.url.clone(),
            detail: self.detail.clone(),
            timestamp: self.timestamp,
            components,
        }
    }
}

/// The position of the first component with a name; the number of components
/// if none has it.
pub open spec fn component_position(components: Seq<ComponentStatusView>, name: Seq<char>) -> int
    decreases components.len(),
{
    if components.len() == 0 || components[0].name == name {
        0
    } else {
        1 + component_position(components.drop_first(), name)
    }
}

/// The first component with a name.
pub open spec fn component_named(
    components: Seq<ComponentStatusView>,
    name: Seq<char>,
) -> Option<ComponentStatusView> {
    let at = component_position(components, name);
    if at < components.len() {
        Some(components[at])
    } else {
        None
    }
}

/// The components after one was set: the first with the name takes the status,
/// and the URL unless that is empty; a name that is new goes to the end.
pub open spec fn with_component(
    components: Seq<ComponentStatusView>,
    name: Seq<char>,
    status: WorkflowStatusView,
    url: Seq<char>,
) -> Seq<ComponentStatusView> {
    let at = component_position(components, name);
    if at < components.len() {
        components.update(
            at,
            ComponentStatusView {
                name,
                status,
                url: if url.len() == 0 {
                    components[at].url
                } else {
                    url
                },
            },
        )
    } else {
        components.push(ComponentStatusView { name, status, url })
    }
}

impl AgentStatusView {
    /// The status after a component was set.
    pub open spec fn with_component(
        self,
        name: Seq<char>,
        status: WorkflowStatusView,
        url: Seq<char>,
    ) -> AgentStatusView {
        AgentStatusView {
            components: with_component(self.components, name, status, url),
            ..self
        }
    }
}

proof fn lemma_component_position(components: Seq<ComponentStatusView>, name: Seq<char>)
    ensures
        0 <= component_position(components, name) <= components.len(),
        component_position(components, name) < components.len() ==> components[component_position(
            components,
            name,
        )].name == name,
        forall|i: int|
            0 <= i < component_position(components, name) ==> components[i].name != name,
    decreases components.len(),
{
    if components.len() > 0 && components[0].name != name {
        let rest = components.drop_first();
        lemma_component_position(rest, name);
        assert forall|i: int| 0 <= i < component_position(components, name) implies components[i].name
            != name by {
            if i > 0 {
                assert(components[i] == rest[i - 1]);
            }
        }
    }
}

proof fn lemma_component_position_is(
    components: Seq<ComponentStatusView>,
    name: Seq<char>,
    at: int,
)
    requires
        0 <= at <= components.len(),
        at < components.len() ==> components[at].name == name,
        forall|i: int| 0 <= i < at ==> components[i].name != name,
    ensures
        component_position(components, name) == at,
{
    lemma_component_position(components, name);
    let found = component_position(components, name);
    if found < at {
        assert(components[found].name == name);
    } else if at < found {
        assert(components[at].name != name);
    }
}

impl AgentStatus {
    /// A new agent status, as of now.
    pub fn new(phase: &str, status: WorkflowStatus) -> (agent: Self)
        ensures
            agent@.phase == phase@,
            agent@.status == status@,
            agent@.url == Seq::<char>::empty(),
            agent@.detail == Seq::<char>::empty(),
            agent@.timestamp.in_calendar(),
            agent@.components == Seq::<ComponentStatusView>::empty(),
    {
        let agent = AgentStatus {
            phase: phase.to_string(),
            status,
            url: String::new(),
            detail: String::new(),
            timestamp: clock::utc_now(),
            components: Vec::new(),
        };
        assert(agent.components.deep_view() =~= Seq::<ComponentStatusView>::empty());
        agent
    }

    /// The position of the first component with a name, or how many there are.
    fn position(&self, name: &str) -> (at: usize)
        ensures
            at == component_position(self@.components, name@),
            at <= self.components@.len(),
    {
        let ghost all = self.components.deep_view();
        let mut i: usize = 0;
        while i < self.components.len() && !text::same(&self.components[i].name, name)
            invariant
                all == self.components.deep_view(),
                i <= self.components@.len(),
                forall|j: int| 0 <= j < i ==> (#[trigger] all[j]).name != name@,
            decreases self.components@.len() - i,
        {
            i += 1;
        }
        proof {
            lemma_component_position_is(all, name@, i as int);
        }
        i
    }

    /// Inserts or updates a component entry by name. An empty URL keeps the URL
    /// that is recorded.
    pub fn set_component(&mut self, name: &str, status: WorkflowStatus, url: &str)
        ensures
            final(self)@ == old(self)@.with_component(name@, status@, url@),
    {
        let ghost before = self.components.deep_view();
        let at = self.position(name);
        if at < self.components.len() {
            let kept = if url.is_empty() {
                self.components[at].url.clone()
            } else {
                url.to_string()
            };
            self.components.set(
                at,
                ComponentStatus { name: name.to_string(), status, url: kept },
            );
        } else {
            self.components.push(
                ComponentStatus { name: name.to_string(), status, url: url.to_string() },
            );
        }
        assert(self.components.deep_view() =~= with_component(before, name@, status@, url@));
    }

    /// Looks up a component, if recorded.
    pub fn component(&self, name: &str) -> (found: Option<&ComponentStatus>)
        ensures
            found.deep_view() == component_named(self@.components, name@),
    {
        let at = self.position(name);
        if at < self.components.len() {
            Some(&self.components[at])
        } else {
            None
        }
    }
}

/// Combined status of both agents.
#[derive(Debug)]
pub struct PipelineStatus {
    /// Status of the ISO agent (XO Lite, xoa-proxy, ISO).
    pub iso_agent: Option<AgentStatus>,
    /// Status of the XOA VM agent (XOA-HL).
    pub xoa_vm_agent: Option<AgentStatus>,
    /// Overall pipeline status.
    pub overall: WorkflowStatus,
}

/// What a [`PipelineStatus`] holds.
pub struct PipelineStatusView {
    pub iso_agent: Option<AgentStatusView>,
    pub xoa_vm_agent: Option<AgentStatusView>,
    pub overall: WorkflowStatusView,
}

impl View for PipelineStatus {
    type V = PipelineStatusView;

    open spec fn view(&self) -> PipelineStatusView {
        PipelineStatusView {
            iso_agent: self.iso_agent.deep_view(),
            xoa_vm_agent: self.xoa_vm_agent.deep_view(),
            overall: self.overall@,
        }
    }
}

impl DeepView for PipelineStatus {
    type V = PipelineStatusView;

    open spec fn deep_view(&self) -> PipelineStatusView {
        self@
    }
}

/// The status of an agent that may not have reported: skipped, if it has not.
pub open spec fn reported(agent: Option<AgentStatusView>) -> WorkflowStatusView {
    match agent {
        Some(a) => a.status,
        None => WorkflowStatusView::Skipped,
    }
}

/// The overall status of two agents: the first of failure, in progress, timeout
/// and aborted that either of them has; success if both have it; else skipped.
pub open spec fn overall_status(
    a: WorkflowStatusView,
    b: WorkflowStatusView,
) -> WorkflowStatusView {
    if a is Failure || b is Failure {
        WorkflowStatusView::Failure
    } else if a is InProgress || b is InProgress {
        WorkflowStatusView::InProgress
    } else if a is Timeout || b is Timeout {
        WorkflowStatusView::Timeout
    } else if a is Aborted || b is Aborted {
        WorkflowStatusView::Aborted
    } else if a is Success && b is Success {
        WorkflowStatusView::Success
    } else {
        WorkflowStatusView::Skipped
    }
}

impl PipelineStatus {
    /// A pipeline of which nothing is reported yet.
    pub fn new() -> (pipeline: Self)
        ensures
            pipeline@ == (PipelineStatusView {
                iso_agent: None,
                xoa_vm_agent: None,
                overall: WorkflowStatusView::Skipped,
            }),
    {
        PipelineStatus { iso_agent: None, xoa_vm_agent: None, overall: WorkflowStatus::Skipped }
    }

    /// Updates the overall status from the statuses of the agents.
    pub fn update_overall(&mut self)
        ensures
            final(self)@ == (PipelineStatusView {
                overall: overall_status(
                    reported(old(self)@.iso_agent),
                    reported(old(self)@.xoa_vm_agent),
                ),
                ..old(self)@
            }),
    {
        let iso = match &self.iso_agent {
            Some(agent) => agent.status.clone(),
            None => WorkflowStatus::Skipped,
        };
        let xoa = match &self.xoa_vm_agent {
            Some(agent) => agent.status.clone(),
            None => WorkflowStatus::Skipped,
        };
        self.overall = match (iso, xoa) {
            (WorkflowStatus::Failure, _) | (_, WorkflowStatus::Failure) => WorkflowStatus::Failure,
            (WorkflowStatus::InProgress, _) | (_, WorkflowStatus::InProgress) =>
                WorkflowStatus::InProgress,
            (WorkflowStatus::Timeout, _) | (_, WorkflowStatus::Timeout) => WorkflowStatus::Timeout,
            (WorkflowStatus::Aborted, _) | (_, WorkflowStatus::Aborted) => WorkflowStatus::Aborted,
            (WorkflowStatus::Success, WorkflowStatus::Success) => WorkflowStatus::Success,
            _ => WorkflowStatus::Skipped,
        };
    }
}

/// The CSS badge class of a status.
pub open spec fn status_badge(status: WorkflowStatusView) -> Seq<char> {
    match status {
        WorkflowStatusView::Success => "success"@,
        WorkflowStatusView::Failure | WorkflowStatusView::Timeout | WorkflowStatusView::Aborted =>
            "failure"@,
        _ => "progress"@,
    }
}

/// The CSS badge class of a status.
pub fn get_badge_class(status: &WorkflowStatus) -> (class: &'static str)
    ensures
        class@ == status_badge(status@),
{
    match status {
        WorkflowStatus::Success => "success",
        WorkflowStatus::Failure => "failure",
        WorkflowStatus::InProgress => "progress",
        WorkflowStatus::Timeout | WorkflowStatus::Aborted => "failure",
        WorkflowStatus::Skipped | WorkflowStatus::Unknown(_) => "progress",
    }
}

// ── Laws ───────────────────────────────────────────────────────────────────

/// No two components have the same name.
pub open spec fn names_distinct(components: Seq<ComponentStatusView>) -> bool {
    forall|i: int, j: int|
        0 <= i < j < components.len() ==> #[trigger] components[i].name
            != #[trigger] components[j].name
}

/// A component that was set is found with its status, and with its URL unless
/// that was empty and one was recorded before.
pub proof fn set_component_is_found(
    components: Seq<ComponentStatusView>,
    name: Seq<char>,
    status: WorkflowStatusView,
    url: Seq<char>,
)
    ensures
        ({
            let before = component_named(components, name);
            component_named(with_component(components, name, status, url), name) == Some(
                ComponentStatusView {
                    name,
                    status,
                    url: if url.len() == 0 && before is Some {
                        before->0.url
                    } else {
                        url
                    },
                },
            )
        }),
{
    lemma_component_position(components, name);
    let at = component_position(components, name);
    let after = with_component(components, name, status, url);
    lemma_component_position_is(after, name, at);
}

/// Setting a component leaves every other component as it is.
pub proof fn set_component_leaves_others(
    components: Seq<ComponentStatusView>,
    name: Seq<char>,
    status: WorkflowStatusView,
    url: Seq<char>,
    other: Seq<char>,
)
    requires
        other != name,
    ensures
        component_named(with_component(components, name, status, url), other) == component_named(
            components,
            other,
        ),
{
    lemma_component_position(components, name);
    lemma_component_position(components, other);
    let after = with_component(components, name, status, url);
    let at = component_position(components, other);
    if at < components.len() {
        lemma_component_position_is(after, other, at);
    } else {
        lemma_component_position_is(after, other, after.len() as int);
    }
}

/// Setting a component keeps the names distinct.
pub proof fn set_component_keeps_names_distinct(
    components: Seq<ComponentStatusView>,
    name: Seq<char>,
    status: WorkflowStatusView,
    url: Seq<char>,
)
    requires
        names_distinct(components),
    ensures
        names_distinct(with_component(components, name, status, url)),
{
    lemma_component_position(components, name);
}

/// The overall status does not depend on which agent is which.
pub proof fn overall_is_symmetric(a: WorkflowStatusView, b: WorkflowStatusView)
    ensures
        overall_status(a, b) == overall_status(b, a),
{
}

/// The pipeline succeeds exactly when both agents do, and fails exactly when
/// one of them does.
pub proof fn overall_success_and_failure(a: WorkflowStatusView, b: WorkflowStatusView)
    ensures
        overall_status(a, b) is Success <==> a is Success && b is Success,
        overall_status(a, b) is Failure <==> a is Failure || b is Failure,
{
}

/// The overall status in full: each outcome comes exactly with the agents it is
/// due to. A failure goes before a build that runs, that before a timeout, and
/// that before an abort; a success takes both agents.
pub proof fn overall_follows_the_agents(a: WorkflowStatusView, b: WorkflowStatusView)
    ensures
        ({
            let overall = overall_status(a, b);
            let failed = a is Failure || b is Failure;
            let running = a is InProgress || b is InProgress;
            let late = a is Timeout || b is Timeout;
            let aborted = a is Aborted || b is Aborted;
            &&& overall is Failure <==> failed
            &&& overall is InProgress <==> running && !failed
            &&& overall is Timeout <==> late && !running && !failed
            &&& overall is Aborted <==> aborted && !late && !running && !failed
            &&& overall is Success <==> a is Success && b is Success
            &&& overall is Skipped <==> !failed && !running && !late && !aborted && !(a is Success
                && b is Success)
        }),
{
}

/// An agent that reported counts with its status, and one that did not as skipped:
/// alone, an agent that succeeded is no success of the pipeline.
pub proof fn silent_agent_counts_as_skipped(agent: AgentStatusView)
    ensures
        reported(Some(agent)) == agent.status,
        reported(None) is Skipped,
        overall_status(reported(Some(agent)), reported(None)) is Failure <==> agent.status is Failure,
        !(overall_status(reported(Some(agent)), reported(None)) is Success),
{
}

/// A badge tells how something ended: green for a success, red for what went
/// wrong, and yellow for everything else.
pub proof fn badges_tell_how_it_ended(status: WorkflowStatusView)
    ensures
        status_badge(status) == "success"@ <==> status is Success,
        status_badge(status) == "failure"@ <==> status is Failure || status is Timeout || status
            is Aborted,
        status_badge(status) == "progress"@ <==> status is Skipped || status is InProgress || status
            is Unknown,
{
    reveal_strlit("success");
    reveal_strlit("failure");
    reveal_strlit("progress");
    assert("success"@.len() == 7 && "failure"@.len() == 7 && "progress"@.len() == 8);
    assert("success"@[0] == 's' && "failure"@[0] == 'f');
}

/// The words for the statuses tell them apart.
pub proof fn status_words_differ(a: WorkflowStatusView, b: WorkflowStatusView)
    requires
        !(a is Unknown),
        !(b is Unknown),
        status_text(a) == status_text(b),
    ensures
        a == b,
{
    reveal_strlit("Skipped");
    reveal_strlit("In Progress");
    reveal_strlit("Success");
    reveal_strlit("Failure");
    reveal_strlit("Timeout");
    reveal_strlit("Aborted");
    assert("In Progress"@.len() == 11);
    assert("Skipped"@.len() == 7 && "Success"@.len() == 7 && "Failure"@.len() == 7
        && "Timeout"@.len() == 7 && "Aborted"@.len() == 7);
    assert("Skipped"@[0] == 'S' && "Skipped"@[1] == 'k');
    assert("Success"@[0] == 'S' && "Success"@[1] == 'u');
    assert("Failure"@[0] == 'F');
    assert("Timeout"@[0] == 'T');
    assert("Aborted"@[0] == 'A');
}

/// A component is found exactly if one has the name, and then it is the first.
pub proof fn first_component_is_found(components: Seq<ComponentStatusView>, name: Seq<char>)
    ensures
        match component_named(components, name) {
            Some(c) => c.name == name && exists|i: int|
                0 <= i < components.len() && components[i] == c && forall|j: int|
                    0 <= j < i ==> (#[trigger] components[j]).name != name,
            None => forall|j: int| 0 <= j < components.len() ==> (#[trigger] components[j]).name
                != name,
        },
{
    lemma_component_position(components, name);
    let at = component_position(components, name);
    if at < components.len() {
        assert(components[at] == component_named(components, name)->0);
    }
}

/// Setting a component changes nothing else of a report.
pub proof fn set_component_keeps_the_report(
    report: AgentStatusView,
    name: Seq<char>,
    status: WorkflowStatusView,
    url: Seq<char>,
)
    ensures
        ({
            let after = report.with_component(name, status, url);
            &&& after.phase == report.phase
            &&& after.status == report.status
            &&& after.url == report.url
            &&& after.detail == report.detail
            &&& after.timestamp == report.timestamp
            &&& component_named(after.components, name) matches Some(c) && c.status == status && c.url
                == (if url.len() == 0 && component_named(report.components, name) is Some {
                component_named(report.components, name)->0.url
            } else {
                url
            })
        }),
{
    set_component_is_found(report.components, name, status, url);
}

} // verus!
