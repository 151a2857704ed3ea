//! The orchestrator: gathers what the agents report, keeps the history of the
//! runs, and renders the dashboard.

use crate::clock;
use crate::clock::Timestamp;
use crate::dashboard;
use crate::dashboard::{
    all_in_calendar, are_local_times, buttons_html, heading_html, hint_html, page_html,
    page_shows_cards, row_html, write_heading, write_hint, write_row,
};
use crate::status::{component_named, status_text};
use crate::status::{
    AgentStatus, AgentStatusView, ComponentStatusView, PipelineStatus, WorkflowStatus,
    WorkflowStatusView,
};
use crate::text;
use crate::text::{has_text, lemma_has_part, lemma_has_text_within};
use vstd::prelude::*;

verus! {

/// Where the ISO agent reports its status.
pub const ISO_STATUS_FILE: &'static str = "/var/lib/xcp-hl-orchestrator/xcp-iso-agent.status.json";

/// Where the XOA VM agent reports its status.
pub const XOA_STATUS_FILE: &'static str = "/var/lib/xcp-hl-orchestrator/xoa-vm-agent.status.json";

/// How many runs the history keeps.
pub const HISTORY_LEN: usize = 15;

/// What is advised where the pipeline failed.
pub const FAILURE_HINT: &'static str =
    "Verify network interfaces and upstream tag validity fields.";

// ── History ────────────────────────────────────────────────────────────────

/// What the history says of a run.
#[derive(Debug)]
pub struct RunHistoryItem {
    pub timestamp: Timestamp,
    pub xolite_status: String,
    pub xoa_proxy_status: String,
    pub iso_status: String,
    pub xolite_url: String,
    pub xoa_proxy_url: String,
    pub iso_url: String,
    pub xoa_hl_status: String,
    pub xoa_image_status: String,
    pub xoa_hl_url: String,
    pub xoa_image_url: String,
    /// Advice on a failure.
    pub llm_hint: Option<String>,
}

/// What a [`RunHistoryItem`] holds.
pub struct RunHistoryItemView {
    pub timestamp: Timestamp,
    pub xolite_status: Seq<char>,
    pub xoa_proxy_status: Seq<char>,
    pub iso_status: Seq<char>,
    pub xolite_url: Seq<char>,
    pub xoa_proxy_url: Seq<char>,
    pub iso_url: Seq<char>,
    pub xoa_hl_status: Seq<char>,
    pub xoa_image_status: Seq<char>,
    pub xoa_hl_url: Seq<char>,
    pub xoa_image_url: Seq<char>,
    pub llm_hint: Option<Seq<char>>,
}

impl View for RunHistoryItem {
    type V = RunHistoryItemView;

    open spec fn view(&self) -> RunHistoryItemView {
        RunHistoryItemView {
            timestamp: self.timestamp,
            xolite_status: self.xolite_status@,
            xoa_proxy_status: self.xoa_proxy_status@,
            iso_status: self.iso_status@,
            xolite_url: self.xolite_url@,
            xoa_proxy_url: self.xoa_proxy_url@,
            iso_url: self.iso_url@,
            xoa_hl_status: self.xoa_hl_status@,
            xoa_image_status: self.xoa_image_status@,
            xoa_hl_url: self.xoa_hl_url@,
            xoa_image_url: self.xoa_image_url@,
            llm_hint: self.llm_hint.deep_view(),
        }
    }
}

impl DeepView for RunHistoryItem {
    type V = RunHistoryItemView;

    open spec fn deep_view(&self) -> RunHistoryItemView {
        self@
    }
}

impl RunHistoryItemView {
    /// A run of which nothing is known but when it was.
    pub open spec fn blank(now: Timestamp) -> RunHistoryItemView {
        RunHistoryItemView {
            timestamp: now,
            xolite_status: "Skipped"@,
            xoa_proxy_status: "Skipped"@,
            iso_status: "Skipped"@,
            xolite_url: "#"@,
            xoa_proxy_url: "#"@,
            iso_url: "#"@,
            xoa_hl_status: "Skipped"@,
            xoa_image_status: "Skipped"@,
            xoa_hl_url: "#"@,
            xoa_image_url: "#"@,
            llm_hint: None,
        }
    }
}

impl Default for RunHistoryItem {
    /// A run of which nothing is known but that it is now.
    fn default() -> (item: Self)
        ensures
            item@ == RunHistoryItemView::blank(item@.timestamp),
            item@.timestamp.in_calendar(),
    {
        RunHistoryItem {
            timestamp: clock::utc_now(),
            xolite_status: "Skipped".to_string(),
            xoa_proxy_status: "Skipped".to_string(),
            iso_status: "Skipped".to_string(),
            xolite_url: "#".to_string(),
            xoa_proxy_url: "#".to_string(),
            iso_url: "#".to_string(),
            xoa_hl_status: "Skipped".to_string(),
            xoa_image_status: "Skipped".to_string(),
            xoa_hl_url: "#".to_string(),
            xoa_image_url: "#".to_string(),
            llm_hint: None,
        }
    }
}

/// An address to link to: one that leads nowhere, if there is none.
pub open spec fn link_or_none(url: Seq<char>) -> Seq<char> {
    if url.len() == 0 {
        "#"@
    } else {
        url
    }
}

/// The status and the link of a component; those of the agent, if it does not
/// report the component.
pub open spec fn component_or_agent_of(status: AgentStatusView, name: Seq<char>) -> (
    Seq<char>,
    Seq<char>,
) {
    match component_named(status.components, name) {
        Some(c) => (status_text(c.status), link_or_none(c.url)),
        None => (status_text(status.status), link_or_none(status.url)),
    }
}

fn link(url: &str) -> (shown: String)
    ensures
        shown@ == link_or_none(url@),
{
    if url.is_empty() {
        "#".to_string()
    } else {
        url.to_string()
    }
}

/// The status and the link of a component; those of the agent, if it does not
/// report the component.
pub fn component_or_agent(status: &AgentStatus, name: &str) -> (shown: (String, String))
    ensures
        (shown.0@, shown.1@) == component_or_agent_of(status@, name@),
{
    match status.component(name) {
        Some(c) => (c.status.label(), link(&c.url)),
        None => (status.status.label(), link(&status.url)),
    }
}

/// What the history says of a run at a moment, from what the agents report.
pub open spec fn history_item_of(
    iso: Option<AgentStatusView>,
    xoa: Option<AgentStatusView>,
    hint: Option<Seq<char>>,
    now: Timestamp,
) -> RunHistoryItemView {
    let blank = RunHistoryItemView { llm_hint: hint, ..RunHistoryItemView::blank(now) };
    let with_iso = match iso {
        Some(status) => RunHistoryItemView {
            xolite_status: component_or_agent_of(status, "xolite-ce"@).0,
            xolite_url: component_or_agent_of(status, "xolite-ce"@).1,
            xoa_proxy_status: component_or_agent_of(status, "xoa-proxy"@).0,
            xoa_proxy_url: component_or_agent_of(status, "xoa-proxy"@).1,
            iso_status: component_or_agent_of(status, "iso"@).0,
            iso_url: component_or_agent_of(status, "iso"@).1,
            ..blank
        },
        None => blank,
    };
    match xoa {
        Some(status) => RunHistoryItemView {
            xoa_hl_status: component_or_agent_of(status, "xoa-hl"@).0,
            xoa_hl_url: component_or_agent_of(status, "xoa-hl"@).1,
            xoa_image_status: component_or_agent_of(status, "xoa-image"@).0,
            xoa_image_url: component_or_agent_of(status, "xoa-image"@).1,
            ..with_iso
        },
        None => with_iso,
    }
}

/// The advice for a pipeline in a state.
pub open spec fn hint_of(overall: WorkflowStatusView) -> Option<Seq<char>> {
    if overall is Failure {
        Some(FAILURE_HINT@)
    } else {
        None
    }
}

/// The advice for a pipeline in a state.
pub fn hint(overall: &WorkflowStatus) -> (advice: Option<String>)
    ensures
        advice.deep_view() == hint_of(overall@),
{
    match overall {
        WorkflowStatus::Failure => Some(FAILURE_HINT.to_string()),
        _ => None,
    }
}

/// What the history says of a run, as of now, from what the agents report.
pub fn history_item(pipeline: &PipelineStatus) -> (item: RunHistoryItem)
    ensures
        item@ == history_item_of(
            pipeline@.iso_agent,
            pipeline@.xoa_vm_agent,
            hint_of(pipeline@.overall),
            item@.timestamp,
        ),
        item@.timestamp.in_calendar(),
{
    let mut item = RunHistoryItem::default();
    item.llm_hint = hint(&pipeline.overall);
    if let Some(status) = &pipeline.iso_agent {
        let (shown, url) = component_or_agent(status, "xolite-ce");
        item.xolite_status = shown;
        item.xolite_url = url;
        let (shown, url) = component_or_agent(status, "xoa-proxy");
        item.xoa_proxy_status = shown;
        item.xoa_proxy_url = url;
        let (shown, url) = component_or_agent(status, "iso");
        item.iso_status = shown;
        item.iso_url = url;
    }
    if let Some(status) = &pipeline.xoa_vm_agent {
        let (shown, url) = component_or_agent(status, "xoa-hl");
        item.xoa_hl_status = shown;
        item.xoa_hl_url = url;
        let (shown, url) = component_or_agent(status, "xoa-image");
        item.xoa_image_status = shown;
        item.xoa_image_url = url;
    }
    item
}

/// The history with one more run: newest first, and no longer than it may be.
pub open spec fn with_run<T>(history: Seq<T>, item: T) -> Seq<T> {
    let all = seq![item] + history;
    if all.len() > HISTORY_LEN {
        all.take(HISTORY_LEN as int)
    } else {
        all
    }
}

/// Puts a run in front of the history, and drops what is too old to be kept.
pub fn update_history<T>(history: &mut Vec<T>, item: T)
    requires
        old(history)@.len() < usize::MAX,
    ensures
        final(history)@ == with_run(old(history)@, item),
{
    history.insert(0, item);
    assert(history@ =~= seq![item] + old(history)@);
    if history.len() > HISTORY_LEN {
        history.truncate(HISTORY_LEN);
    }
}

// ── Failures ───────────────────────────────────────────────────────────────

/// A status that stands for something gone wrong.
pub open spec fn is_bad(status: WorkflowStatusView) -> bool {
    status is Failure || status is Timeout || status is Aborted
}

fn bad(status: &WorkflowStatus) -> (yes: bool)
    ensures
        yes == is_bad(status@),
{
    match status {
        WorkflowStatus::Failure | WorkflowStatus::Timeout | WorkflowStatus::Aborted => true,
        _ => false,
    }
}

/// Where the logs are.
pub open spec fn logs_text(url: Seq<char>) -> Seq<char> {
    if url.len() == 0 {
        "n/a"@
    } else {
        url
    }
}

fn logs(url: &str) -> (shown: String)
    ensures
        shown@ == logs_text(url@),
{
    if url.is_empty() {
        "n/a".to_string()
    } else {
        url.to_string()
    }
}

/// The line on a component that went wrong.
pub open spec fn component_failure_text(c: ComponentStatusView) -> Seq<char> {
    "  component "@ + c.name + ": "@ + status_text(c.status) + " — logs: "@ + logs_text(c.url)
}

/// The lines on the components that went wrong.
pub open spec fn component_failures(components: Seq<ComponentStatusView>) -> Seq<Seq<char>>
    decreases components.len(),
{
    if components.len() == 0 {
        Seq::empty()
    } else {
        let before = component_failures(components.drop_last());
        if is_bad(components.last().status) {
            before.push(component_failure_text(components.last()))
        } else {
            before
        }
    }
}

/// The lines on an agent: none, if nothing went wrong with it.
pub open spec fn failure_lines_of(agent: Seq<char>, status: AgentStatusView) -> Seq<Seq<char>> {
    if is_bad(status.status) {
        seq![
            agent + " "@ + status_text(status.status) + " in phase '"@ + status.phase + "': "@
                + status.detail + " — logs: "@ + logs_text(status.url),
        ] + component_failures(status.components)
    } else {
        Seq::empty()
    }
}

/// The lines that the log gets on an agent: none, if nothing went wrong with it.
pub fn failure_lines(agent: &str, status: &AgentStatus) -> (lines: Vec<String>)
    ensures
        lines.deep_view() == failure_lines_of(agent@, status@),
{
    let mut lines: Vec<String> = Vec::new();
    if !bad(&status.status) {
        assert(lines.deep_view() =~= Seq::<Seq<char>>::empty());
        return lines;
    }
    lines.push(
        agent.to_string()
            .concat(" ")
            .concat(&status.status.label())
            .concat(" in phase '")
            .concat(&status.phase)
            .concat("': ")
            .concat(&status.detail)
            .concat(" — logs: ")
            .concat(&logs(&status.url)),
    );
    let ghost head = lines.deep_view();
    let ghost all = status.components.deep_view();
    assert(all.take(0) =~= Seq::<ComponentStatusView>::empty());
    assert(head + component_failures(all.take(0)) =~= head);
    for i in 0..status.components.len()
        invariant
            all == status.components.deep_view(),
            lines.deep_view() == head + component_failures(all.take(i as int)),
    {
        let c = &status.components[i];
        let ghost before = lines.deep_view();
        proof {
            assert(all[i as int] == status.components@[i as int]@);
            assert(all.take(i + 1).drop_last() =~= all.take(i as int));
            assert(all.take(i + 1).last() == c@);
        }
        if bad(&c.status) {
            lines.push(
                "  component ".to_string()
                    .concat(&c.name)
                    .concat(": ")
                    .concat(&c.status.label())
                    .concat(" — logs: ")
                    .concat(&logs(&c.url)),
            );
            assert(lines.deep_view() =~= before.push(component_failure_text(c@)));
            assert(lines.deep_view() =~= head + component_failures(all.take(i + 1)));
        }
    }
    assert(all.take(all.len() as int) =~= all);
    assert(lines.deep_view() =~= failure_lines_of(agent@, status@));
    lines
}

// ── Dashboard ──────────────────────────────────────────────────────────────

/// The badge class of a status, as the history words it.
pub open spec fn badge_class_of(status: Seq<char>) -> Seq<char> {
    if status == "Success"@ {
        "success"@
    } else if status == "Failure"@ || status == "Timeout"@ || status == "Aborted"@ {
        "failure"@
    } else {
        "progress"@
    }
}

/// The badge class of a status, as the history words it.
pub fn badge_class(status: &str) -> (class: &'static str)
    ensures
        class@ == badge_class_of(status@),
{
    if text::same(status, "Success") {
        "success"
    } else if text::same(status, "Failure") || text::same(status, "Timeout") || text::same(
        status,
        "Aborted",
    ) {
        "failure"
    } else {
        "progress"
    }
}

/// The rows of a run.
pub open spec fn rows_html(item: RunHistoryItemView) -> Seq<char> {
    row_html("Xolite-ce"@, badge_class_of(item.xolite_status), item.xolite_status, item.xolite_url)
        + row_html(
        "XOA-Proxy"@,
        badge_class_of(item.xoa_proxy_status),
        item.xoa_proxy_status,
        item.xoa_proxy_url,
    ) + row_html("ISO Matrix"@, badge_class_of(item.iso_status), item.iso_status, item.iso_url)
        + row_html("XOA-HL"@, badge_class_of(item.xoa_hl_status), item.xoa_hl_status, item.xoa_hl_url)
        + row_html(
        "XOA Image"@,
        badge_class_of(item.xoa_image_status),
        item.xoa_image_status,
        item.xoa_image_url,
    )
}

/// The card of a run, with its moment as it is shown.
pub open spec fn card_html(newest: bool, time: Seq<char>, item: RunHistoryItemView) -> Seq<char> {
    heading_html(newest, time) + rows_html(item) + hint_html(item.llm_hint) + "</div>"@
}

/// The cards of all runs, given how the moment of each is shown.
pub open spec fn cards_of(history: Seq<RunHistoryItemView>, times: Seq<Seq<char>>) -> Seq<
    Seq<char>,
> {
    Seq::new(history.len(), |i: int| card_html(i == 0, times[i], history[i]))
}

/// The page with all runs, given how the moment of each is shown: the "Run now"
/// buttons, then a card for each run.
pub open spec fn dashboard_html(
    history: Seq<RunHistoryItemView>,
    times: Seq<Seq<char>>,
) -> Seq<char> {
    page_html(buttons_html(), cards_of(history, times))
}

fn write_rows(item: &RunHistoryItem) -> (html: String)
    ensures
        html@ == rows_html(item@),
{
    write_row(
        "Xolite-ce",
        badge_class(&item.xolite_status),
        &item.xolite_status,
        &item.xolite_url,
    ).concat(
        &write_row(
            "XOA-Proxy",
            badge_class(&item.xoa_proxy_status),
            &item.xoa_proxy_status,
            &item.xoa_proxy_url,
        ),
    ).concat(
        &write_row("ISO Matrix", badge_class(&item.iso_status), &item.iso_status, &item.iso_url),
    ).concat(
        &write_row(
            "XOA-HL",
            badge_class(&item.xoa_hl_status),
            &item.xoa_hl_status,
            &item.xoa_hl_url,
        ),
    ).concat(
        &write_row(
            "XOA Image",
            badge_class(&item.xoa_image_status),
            &item.xoa_image_status,
            &item.xoa_image_url,
        ),
    )
}

/// The page with all runs, given how the moment of each is shown.
pub fn render_dashboard_with_times(history: &[RunHistoryItem], times: &Vec<String>) -> (html:
    String)
    requires
        times@.len() == history@.len(),
    ensures
        html@ == dashboard_html(history.deep_view(), times.deep_view()),
{
    let ghost items = history.deep_view();
    let ghost shown = times.deep_view();
    let mut cards: Vec<String> = Vec::new();
    for i in 0..history.len()
        invariant
            times@.len() == history@.len(),
            items == history.deep_view(),
            shown == times.deep_view(),
            cards.deep_view() =~= cards_of(items, shown).take(i as int),
    {
        let item = &history[i];
        let ghost before = cards.deep_view();
        proof {
            assert(items[i as int] == item@);
            assert(shown[i as int] == times@[i as int]@);
        }
        cards.push(
            write_heading(i == 0, &times[i]).concat(&write_rows(item)).concat(
                &write_hint(&item.llm_hint),
            ).concat("</div>"),
        );
        assert(cards.deep_view() =~= before.push(cards_of(items, shown)[i as int]));
    }
    assert(cards.deep_view() =~= cards_of(items, shown));
    dashboard::write_page(&dashboard::write_buttons(), &cards)
}

/// When each run of a history was.
pub open spec fn moments_of(history: Seq<RunHistoryItemView>) -> Seq<Timestamp> {
    history.map_values(|item: RunHistoryItemView| item.timestamp)
}

/// The page with all runs, the moments in the time zone of this machine. Which
/// zone that is depends on the machine and is not stated.
pub fn render_dashboard_html(history: &[RunHistoryItem]) -> (html: String)
    requires
        all_in_calendar(moments_of(history.deep_view())),
    ensures
        exists|times: Seq<Seq<char>>|
            are_local_times(times, moments_of(history.deep_view())) && html@
                == #[trigger] dashboard_html(history.deep_view(), times),
{
    let ghost items = history.deep_view();
    let mut moments: Vec<Timestamp> = Vec::new();
    for i in 0..history.len()
        invariant
            items == history.deep_view(),
            moments@ =~= moments_of(items).take(i as int),
    {
        assert(items[i as int] == history@[i as int]@);
        moments.push(history[i].timestamp);
    }
    assert(moments@ =~= moments_of(items));
    let times = dashboard::local_times(&moments);
    render_dashboard_with_times(history, &times)
}

// ── Laws ───────────────────────────────────────────────────────────────────

/// The history never grows beyond its limit, a new run comes first, and the runs
/// before it keep their order, the oldest ones leaving.
pub proof fn history_is_bounded_and_newest_first<T>(history: Seq<T>, item: T)
    ensures
        with_run(history, item).len() <= HISTORY_LEN,
        with_run(history, item).len() > 0,
        with_run(history, item)[0] == item,
        forall|i: int|
            1 <= i < with_run(history, item).len() ==> #[trigger] with_run(history, item)[i]
                == history[i - 1],
        history.len() < HISTORY_LEN ==> with_run(history, item).len() == history.len() + 1,
        history.len() >= 15 ==> with_run(history, item).len() == 15,
{
}

/// Five texts between a head and an end can each be found there.
proof fn lemma_five_parts(
    head: Seq<char>,
    a: Seq<char>,
    b: Seq<char>,
    c: Seq<char>,
    d: Seq<char>,
    e: Seq<char>,
    x: Seq<char>,
    y: Seq<char>,
)
    ensures
        has_text(head + (a + b + c + d + e) + x + y, a),
        has_text(head + (a + b + c + d + e) + x + y, b),
        has_text(head + (a + b + c + d + e) + x + y, c),
        has_text(head + (a + b + c + d + e) + x + y, d),
        has_text(head + (a + b + c + d + e) + x + y, e),
{
    let whole = head + (a + b + c + d + e) + x + y;
    let end = x + y;
    assert(whole =~= head + a + (b + c + d + e + end));
    lemma_has_part(head, a, b + c + d + e + end);
    assert(whole =~= (head + a) + b + (c + d + e + end));
    lemma_has_part(head + a, b, c + d + e + end);
    assert(whole =~= (head + a + b) + c + (d + e + end));
    lemma_has_part(head + a + b, c, d + e + end);
    assert(whole =~= (head + a + b + c) + d + (e + end));
    lemma_has_part(head + a + b + c, d, e + end);
    assert(whole =~= (head + a + b + c + d) + e + end);
    lemma_has_part(head + a + b + c + d, e, end);
}

/// The rows of a run all stand in its card.
proof fn lemma_card_has_rows(newest: bool, time: Seq<char>, item: RunHistoryItemView, row: int)
    requires
        0 <= row < 5,
    ensures
        has_text(card_html(newest, time, item), shown_row(item, row)),
{
    lemma_five_parts(
        heading_html(newest, time),
        shown_row(item, 0),
        shown_row(item, 1),
        shown_row(item, 2),
        shown_row(item, 3),
        shown_row(item, 4),
        hint_html(item.llm_hint),
        "</div>"@,
    );
}

/// A row of a run: XO Lite, xoa-proxy, the ISO, the package and the image.
pub open spec fn shown_row(item: RunHistoryItemView, row: int) -> Seq<char> {
    if row == 0 {
        row_html(
            "Xolite-ce"@,
            badge_class_of(item.xolite_status),
            item.xolite_status,
            item.xolite_url,
        )
    } else if row == 1 {
        row_html(
            "XOA-Proxy"@,
            badge_class_of(item.xoa_proxy_status),
            item.xoa_proxy_status,
            item.xoa_proxy_url,
        )
    } else if row == 2 {
        row_html("ISO Matrix"@, badge_class_of(item.iso_status), item.iso_status, item.iso_url)
    } else if row == 3 {
        row_html("XOA-HL"@, badge_class_of(item.xoa_hl_status), item.xoa_hl_status, item.xoa_hl_url)
    } else {
        row_html(
            "XOA Image"@,
            badge_class_of(item.xoa_image_status),
            item.xoa_image_status,
            item.xoa_image_url,
        )
    }
}

/// The dashboard shows every component of every run: its name, its status with
/// the badge of that status, and its link.
pub proof fn dashboard_shows_every_row(
    history: Seq<RunHistoryItemView>,
    times: Seq<Seq<char>>,
    run: int,
    row: int,
)
    requires
        0 <= run < history.len(),
        0 <= row < 5,
    ensures
        has_text(dashboard_html(history, times), shown_row(history[run], row)),
{
    let p = shown_row(history[run], row);
    let cards = cards_of(history, times);
    lemma_card_has_rows(run == 0, times[run], history[run], row);
    page_shows_cards(buttons_html(), cards, run, p);
}

/// The badge that the dashboard gives to a status is the one of the status
/// itself: wording a status and classing the words comes to the same.
pub proof fn badges_agree(status: WorkflowStatusView)
    requires
        !(status is Unknown),
    ensures
        badge_class_of(status_text(status)) == crate::status::status_badge(status),
{
    reveal_strlit("Success");
    reveal_strlit("Failure");
    reveal_strlit("Timeout");
    reveal_strlit("Aborted");
    reveal_strlit("Skipped");
    reveal_strlit("In Progress");
    let shown = status_text(status);
    assert("Success"@.len() == 7 && "Failure"@.len() == 7 && "Timeout"@.len() == 7);
    assert("Success"@[0] == 'S' && "Failure"@[0] == 'F' && "Timeout"@[0] == 'T');
    assert("Success"@[1] == 'u' && "Skipped"@[1] == 'k' && "Skipped"@[0] == 'S');
    assert("Aborted"@[0] == 'A' && "In Progress"@.len() == 11);
}

/// A component is shown with its own status and link; one that the agent does not
/// report with those of the agent. An address that is empty leads nowhere.
pub proof fn component_is_shown_or_its_agent(
    status: AgentStatusView,
    name: Seq<char>,
    c: ComponentStatusView,
)
    ensures
        component_named(status.components, name) == Some(c) ==> {
            &&& component_or_agent_of(status, name).0 == status_text(c.status)
            &&& c.url.len() > 0 ==> component_or_agent_of(status, name).1 == c.url
            &&& c.url.len() == 0 ==> component_or_agent_of(status, name).1 == "#"@
        },
        component_named(status.components, name) is None ==> {
            &&& component_or_agent_of(status, name).0 == status_text(status.status)
            &&& status.url.len() > 0 ==> component_or_agent_of(status, name).1 == status.url
            &&& status.url.len() == 0 ==> component_or_agent_of(status, name).1 == "#"@
        },
{
}

/// The rows of an agent depend on its report alone: they hold the status and the
/// link of each of its components, whatever the other agent reports or does not
/// report, and nothing where it did not report itself.
pub proof fn rows_of_an_agent_are_its_own(
    iso: Option<AgentStatusView>,
    xoa: Option<AgentStatusView>,
    other: Option<AgentStatusView>,
    hint: Option<Seq<char>>,
    now: Timestamp,
)
    ensures
        ({
            let item = history_item_of(iso, xoa, hint, now);
            let without_xoa = history_item_of(iso, other, hint, now);
            let without_iso = history_item_of(other, xoa, hint, now);
            &&& iso matches Some(report) ==> {
                &&& (item.xolite_status, item.xolite_url) == component_or_agent_of(
                    report,
                    "xolite-ce"@,
                )
                &&& (item.xoa_proxy_status, item.xoa_proxy_url) == component_or_agent_of(
                    report,
                    "xoa-proxy"@,
                )
                &&& (item.iso_status, item.iso_url) == component_or_agent_of(report, "iso"@)
            }
            &&& iso is None ==> {
                &&& (item.xolite_status, item.xolite_url) == ("Skipped"@, "#"@)
                &&& (item.xoa_proxy_status, item.xoa_proxy_url) == ("Skipped"@, "#"@)
                &&& (item.iso_status, item.iso_url) == ("Skipped"@, "#"@)
            }
            &&& xoa matches Some(report) ==> {
                &&& (item.xoa_hl_status, item.xoa_hl_url) == component_or_agent_of(
                    report,
                    "xoa-hl"@,
                )
                &&& (item.xoa_image_status, item.xoa_image_url) == component_or_agent_of(
                    report,
                    "xoa-image"@,
                )
            }
            &&& xoa is None ==> {
                &&& (item.xoa_hl_status, item.xoa_hl_url) == ("Skipped"@, "#"@)
                &&& (item.xoa_image_status, item.xoa_image_url) == ("Skipped"@, "#"@)
            }
            &&& item.xolite_status == without_xoa.xolite_status && item.xolite_url
                == without_xoa.xolite_url
            &&& item.xoa_proxy_status == without_xoa.xoa_proxy_status && item.xoa_proxy_url
                == without_xoa.xoa_proxy_url
            &&& item.iso_status == without_xoa.iso_status && item.iso_url == without_xoa.iso_url
            &&& item.xoa_hl_status == without_iso.xoa_hl_status && item.xoa_hl_url
                == without_iso.xoa_hl_url
            &&& item.xoa_image_status == without_iso.xoa_image_status && item.xoa_image_url
                == without_iso.xoa_image_url
            &&& item.llm_hint == hint
            &&& item.timestamp == now
        }),
{
}

/// There is advice exactly where the pipeline failed, and that is where an agent
/// did.
pub proof fn advice_comes_with_a_failure(a: WorkflowStatusView, b: WorkflowStatusView)
    ensures
        hint_of(a) is Some <==> a is Failure,
        hint_of(a) matches Some(advice) ==> advice == FAILURE_HINT@,
        hint_of(crate::status::overall_status(a, b)) is Some <==> a is Failure || b is Failure,
{
    crate::status::overall_success_and_failure(a, b);
}

/// The log gets lines on an agent exactly if something went wrong with it: one on
/// the agent, which names its phase and says what happened, and one on each of its
/// components that went wrong, in order.
pub proof fn failures_are_logged(agent: Seq<char>, status: AgentStatusView, at: int)
    ensures
        failure_lines_of(agent, status).len() > 0 <==> status.status is Failure || status.status
            is Timeout || status.status is Aborted,
        failure_lines_of(agent, status).len() > 0 ==> {
            &&& has_text(failure_lines_of(agent, status)[0], agent)
            &&& has_text(failure_lines_of(agent, status)[0], status.phase)
            &&& has_text(failure_lines_of(agent, status)[0], status.detail)
        },
        failure_lines_of(agent, status).len() > 0 && 0 <= at < status.components.len() && (
        status.components[at].status is Failure || status.components[at].status is Timeout
            || status.components[at].status is Aborted) ==> exists|i: int|
            0 < i < failure_lines_of(agent, status).len() && has_text(
                #[trigger] failure_lines_of(agent, status)[i],
                status.components[at].name,
            ),
        failure_lines_of(agent, status).len() <= status.components.len() + 1,
{
    if is_bad(status.status) {
        let none = Seq::<char>::empty();
        let first = failure_lines_of(agent, status)[0];
        let shown = status_text(status.status);
        let end = " — logs: "@ + logs_text(status.url);
        let rest = " "@ + shown + " in phase '"@ + status.phase + "': "@ + status.detail + end;
        assert(first =~= none + agent + rest);
        lemma_has_part(none, agent, rest);
        let before = agent + " "@ + shown + " in phase '"@;
        let after = "': "@ + status.detail + end;
        assert(first =~= before + status.phase + after);
        lemma_has_part(before, status.phase, after);
        let head = before + status.phase + "': "@;
        assert(first =~= head + status.detail + end);
        lemma_has_part(head, status.detail, end);
        let lines = component_failures(status.components);
        lemma_component_failures(status.components, at);
        if 0 <= at < status.components.len() && is_bad(status.components[at].status) {
            let k = choose|k: int|
                0 <= k < lines.len() && has_text(#[trigger] lines[k], status.components[at].name);
            assert(failure_lines_of(agent, status)[k + 1] == lines[k]);
        }
    }
}

proof fn lemma_component_failures(components: Seq<ComponentStatusView>, at: int)
    ensures
        component_failures(components).len() <= components.len(),
        0 <= at < components.len() && is_bad(components[at].status) ==> exists|k: int|
            0 <= k < component_failures(components).len() && has_text(
                #[trigger] component_failures(components)[k],
                components[at].name,
            ),
    decreases components.len(),
{
    if components.len() > 0 {
        let before = components.drop_last();
        lemma_component_failures(before, at);
        let lines = component_failures(components);
        if 0 <= at < components.len() && is_bad(components[at].status) {
            if at == components.len() - 1 {
                let c = components.last();
                lemma_has_part(
                    "  component "@,
                    c.name,
                    ": "@ + status_text(c.status) + " — logs: "@ + logs_text(c.url),
                );
                assert(component_failure_text(c) =~= "  component "@ + c.name + (": "@ + status_text(
                    c.status,
                ) + " — logs: "@ + logs_text(c.url)));
                assert(lines[lines.len() - 1] == component_failure_text(c));
            } else {
                let earlier = component_failures(before);
                let k = choose|k: int|
                    0 <= k < earlier.len() && has_text(#[trigger] earlier[k], before[at].name);
                assert(lines[k] == earlier[k]);
            }
        }
    }
}

/// Each run has a card of its own that shows its moment, tells the newest from the
/// others, and holds the advice on it; the rows stand for its components in a fixed
/// order.
pub proof fn cards_show_their_run(
    history: Seq<RunHistoryItemView>,
    times: Seq<Seq<char>>,
    run: int,
    advice: Seq<char>,
)
    requires
        0 <= run < history.len(),
    ensures
        has_text(dashboard_html(history, times), "("@ + times[run] + ")"@),
        history[run].llm_hint == Some(advice) ==> has_text(
            dashboard_html(history, times),
            "<pre>"@ + advice + "</pre>"@,
        ),
        cards_of(history, times).len() == history.len(),
        has_text(cards_of(history, times)[run], "Latest Execution Run"@) || run > 0,
        has_text(cards_of(history, times)[run], "Historical Archive"@) || run == 0,
        shown_row(history[run], 0) == row_html(
            "Xolite-ce"@,
            badge_class_of(history[run].xolite_status),
            history[run].xolite_status,
            history[run].xolite_url,
        ),
        shown_row(history[run], 1) == row_html(
            "XOA-Proxy"@,
            badge_class_of(history[run].xoa_proxy_status),
            history[run].xoa_proxy_status,
            history[run].xoa_proxy_url,
        ),
        shown_row(history[run], 2) == row_html(
            "ISO Matrix"@,
            badge_class_of(history[run].iso_status),
            history[run].iso_status,
            history[run].iso_url,
        ),
        shown_row(history[run], 3) == row_html(
            "XOA-HL"@,
            badge_class_of(history[run].xoa_hl_status),
            history[run].xoa_hl_status,
            history[run].xoa_hl_url,
        ),
        shown_row(history[run], 4) == row_html(
            "XOA Image"@,
            badge_class_of(history[run].xoa_image_status),
            history[run].xoa_image_status,
            history[run].xoa_image_url,
        ),
{
    let item = history[run];
    let newest = run == 0;
    let cards = cards_of(history, times);
    let card = card_html(newest, times[run], item);
    let heading = heading_html(newest, times[run]);
    let none = Seq::<char>::empty();
    let rest = rows_html(item) + hint_html(item.llm_hint) + "</div>"@;
    assert(cards[run] == card);
    assert(card =~= none + heading + rest);
    crate::dashboard::headings_show_the_moment(newest, times[run], none);
    lemma_has_text_within(none, heading, rest, "("@ + times[run] + ")"@);
    page_shows_cards(buttons_html(), cards, run, "("@ + times[run] + ")"@);
    if newest {
        lemma_has_text_within(none, heading, rest, "Latest Execution Run"@);
    } else {
        lemma_has_text_within(none, heading, rest, "Historical Archive"@);
    }
    if item.llm_hint == Some(advice) {
        let shown = "<pre>"@ + advice + "</pre>"@;
        crate::dashboard::advice_is_shown(advice);
        lemma_has_text_within(heading + rows_html(item), hint_html(item.llm_hint), "</div>"@, shown);
        page_shows_cards(buttons_html(), cards, run, shown);
    }
}

/// The badge of a status as the history words it tells how something ended.
pub proof fn worded_badges_tell_how_it_ended(status: Seq<char>)
    ensures
        badge_class_of(status) == "success"@ <==> status == "Success"@,
        badge_class_of(status) == "failure"@ <==> status == "Failure"@ || status == "Timeout"@
            || status == "Aborted"@,
        badge_class_of(status) == "success"@ || badge_class_of(status) == "failure"@
            || badge_class_of(status) == "progress"@,
{
    reveal_strlit("success");
    reveal_strlit("failure");
    reveal_strlit("progress");
    reveal_strlit("Success");
    reveal_strlit("Failure");
    reveal_strlit("Timeout");
    reveal_strlit("Aborted");
    assert("success"@.len() == 7 && "failure"@.len() == 7 && "progress"@.len() == 8);
    assert("success"@[0] == 's' && "failure"@[0] == 'f');
    assert("Success"@[0] == 'S' && "Failure"@[0] == 'F' && "Timeout"@[0] == 'T' && "Aborted"@[0]
        == 'A');
}

/// A failure is logged with its link, if there is one.
pub proof fn links_are_logged(url: Seq<char>)
    ensures
        url.len() > 0 ==> logs_text(url) == url,
        logs_text(Seq::empty()) == "n/a"@,
{
}

} // verus!
