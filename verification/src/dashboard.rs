//! What the dashboards are made of: the page with its cards, and the "Run now"
//! buttons.

use crate::api;
use crate::api::{listed_agents, trigger_path_text, unit_of};
use crate::clock;
use crate::clock::{is_local_text, Timestamp};
use crate::text;
use crate::text::{
    concatenated, has_text, lemma_concatenated_has, lemma_has_part, lemma_has_text_within,
};
use vstd::prelude::*;

verus! {

/// The page up to what is shown on it.
pub const DASHBOARD_HEAD: &'static str = r#"<!DOCTYPE html><html><head><meta charset="utf-8"><title>XCP-ng Engine Pipeline</title>
    <style>body{font-family:sans-serif;background:#121214;color:#e1e1e6;margin:40px;} h1{color:#4f46e5;}
    .card{background:#1c1c1f;padding:20px;border-radius:8px;margin-bottom:20px;border:1px solid #2d2d34;}
    .badge{padding:4px 8px;border-radius:4px;font-size:12px;font-weight:bold;}
    .success{background:#166534;color:#bbf7d0;} .failure{background:#991b1b;color:#fca5a5;} .progress{background:#854d0e;color:#fef08a;}
    a{color:#6366f1;text-decoration:none;} a:hover{text-decoration:underline;} pre{background:#09090b;padding:15px;border-radius:6px;overflow-x:auto;color:#fda4af;border-left:4px solid #f43f5e;}</style></head><body>
    <h1>XCP-ng Agentic Build Dashboard</h1>"#;

/// The end of the page.
pub const DASHBOARD_END: &'static str = "</body></html>";

/// How a moment is shown.
pub const TIME_PATTERN: &'static str = "%Y-%m-%d %H:%M:%S";

// ── Cards ──────────────────────────────────────────────────────────────────

/// The row of a component: its status with a badge of some class, and a link.
pub open spec fn row_html(
    label: Seq<char>,
    class: Seq<char>,
    status: Seq<char>,
    url: Seq<char>,
) -> Seq<char> {
    "<p><b>"@ + label + ":</b> <span class=\"badge "@ + class + "\">"@ + status
        + "</span> | <a href=\""@ + url + "\" target=\"_blank\">Logs</a></p>"@
}

/// The row of a component.
pub fn write_row(label: &str, class: &str, status: &str, url: &str) -> (html: String)
    ensures
        html@ == row_html(label@, class@, status@, url@),
{
    "<p><b>".to_string()
        .concat(label)
        .concat(":</b> <span class=\"badge ")
        .concat(class)
        .concat("\">")
        .concat(status)
        .concat("</span> | <a href=\"")
        .concat(url)
        .concat("\" target=\"_blank\">Logs</a></p>")
}

/// The heading of a run: the newest one is told from the others.
pub open spec fn heading_html(newest: bool, time: Seq<char>) -> Seq<char> {
    "<div class=\"card\"><h3>"@ + (if newest {
        "Latest Execution Run"@
    } else {
        "Historical Archive"@
    }) + " ("@ + time + ")</h3>"@
}

/// The heading of a run.
pub fn write_heading(newest: bool, time: &str) -> (html: String)
    ensures
        html@ == heading_html(newest, time@),
{
    let title = if newest {
        "Latest Execution Run"
    } else {
        "Historical Archive"
    };
    "<div class=\"card\"><h3>".to_string().concat(title).concat(" (").concat(time).concat(")</h3>")
}

/// The advice on a run, if there is any.
pub open spec fn hint_html(hint: Option<Seq<char>>) -> Seq<char> {
    match hint {
        Some(h) => "<h4>🤖 Qwen-Coder Diagnostic Remediation Analysis:</h4><pre>"@ + h + "</pre>"@,
        None => Seq::empty(),
    }
}

/// The advice on a run, if there is any.
pub fn write_hint(hint: &Option<String>) -> (html: String)
    ensures
        html@ == hint_html(hint.deep_view()),
{
    match hint {
        Some(h) =>
            "<h4>🤖 Qwen-Coder Diagnostic Remediation Analysis:</h4><pre>".to_string().concat(
            h,
        ).concat("</pre>"),
        None => String::new(),
    }
}

// ── Moments ────────────────────────────────────────────────────────────────

/// All moments lie in the calendar.
pub open spec fn all_in_calendar(moments: Seq<Timestamp>) -> bool {
    forall|i: int| 0 <= i < moments.len() ==> (#[trigger] moments[i]).in_calendar()
}

/// The texts show the moments, each in some time zone.
pub open spec fn are_local_times(times: Seq<Seq<char>>, moments: Seq<Timestamp>) -> bool {
    &&& times.len() == moments.len()
    &&& forall|i: int|
        0 <= i < moments.len() ==> is_local_text(#[trigger] times[i], moments[i], TIME_PATTERN@)
}

/// The moments as clocks show them in the time zone of this machine. Which zone
/// that is depends on the machine and is not stated.
pub fn local_times(moments: &Vec<Timestamp>) -> (times: Vec<String>)
    requires
        all_in_calendar(moments@),
    ensures
        are_local_times(times.deep_view(), moments@),
{
    let mut times: Vec<String> = Vec::new();
    for i in 0..moments.len()
        invariant
            all_in_calendar(moments@),
            times@.len() == i,
            forall|j: int|
                0 <= j < i ==> is_local_text((#[trigger] times@[j])@, moments@[j], TIME_PATTERN@),
    {
        times.push(clock::format_local(&moments[i], TIME_PATTERN));
    }
    proof {
        let shown = times.deep_view();
        assert forall|j: int| 0 <= j < moments@.len() implies is_local_text(
            #[trigger] shown[j],
            moments@[j],
            TIME_PATTERN@,
        ) by {
            assert(shown[j] == times@[j]@);
        }
    }
    times
}

// ── Buttons ────────────────────────────────────────────────────────────────

/// What the buttons do: they ask for the trigger token on first use, keep it in
/// the browser, and send it along. A token that is refused is forgotten.
pub const BUTTON_SCRIPT: &'static str = r#"<script>
    async function runNow(path) {
        let token = localStorage.getItem("trigger_token");
        if (!token) {
            token = prompt("Trigger token");
            if (!token) { return; }
            localStorage.setItem("trigger_token", token);
        }
        try {
            const reply = await fetch(path, { method: "POST", headers: { "Authorization": "Bearer " + token } });
            if (reply.status === 401) { localStorage.removeItem("trigger_token"); }
            alert((await reply.json()).detail);
        } catch (e) {
            alert(e);
        }
    }
    </script>"#;

/// The button that starts an agent.
pub open spec fn button_html(agent: Seq<char>) -> Seq<char> {
    "<button onclick=\"runNow('"@ + trigger_path_text(agent) + "')\">Run now: "@ + agent
        + "</button>"@
}

fn write_button(agent: &str) -> (html: String)
    ensures
        html@ == button_html(agent@),
{
    "<button onclick=\"runNow('".to_string()
        .concat(&api::trigger_path(agent))
        .concat("')\">Run now: ")
        .concat(agent)
        .concat("</button>")
}

/// A button for each agent, and what the buttons do.
pub open spec fn buttons_html() -> Seq<char> {
    BUTTON_SCRIPT@ + "<p>"@ + concatenated(
        listed_agents().map_values(|agent: Seq<char>| button_html(agent)),
    ) + "</p>"@
}

/// A button for each agent, and what the buttons do.
pub fn write_buttons() -> (html: String)
    ensures
        html@ == buttons_html(),
{
    let agents = api::agents();
    let mut buttons: Vec<String> = Vec::new();
    for i in 0..agents.len()
        invariant
            agents.deep_view() == listed_agents(),
            buttons.deep_view() =~= listed_agents().take(i as int).map_values(
                |agent: Seq<char>| button_html(agent),
            ),
    {
        let ghost before = buttons.deep_view();
        assert(listed_agents()[i as int] == agents@[i as int]@);
        buttons.push(write_button(&agents[i]));
        assert(buttons.deep_view() =~= before.push(button_html(listed_agents()[i as int])));
    }
    assert(listed_agents().take(agents@.len() as int) =~= listed_agents());
    BUTTON_SCRIPT.to_string().concat("<p>").concat(&text::concat_all(&buttons)).concat("</p>")
}

// ── The page ───────────────────────────────────────────────────────────────

/// The page: what stands on top, then the cards.
pub open spec fn page_html(top: Seq<char>, cards: Seq<Seq<char>>) -> Seq<char> {
    DASHBOARD_HEAD@ + top + concatenated(cards) + DASHBOARD_END@
}

/// The page: what stands on top, then the cards.
pub fn write_page(top: &str, cards: &Vec<String>) -> (html: String)
    ensures
        html@ == page_html(top@, cards.deep_view()),
{
    DASHBOARD_HEAD.to_string().concat(top).concat(&text::concat_all(cards)).concat(DASHBOARD_END)
}

// ── Laws ───────────────────────────────────────────────────────────────────

/// What stands in a card stands on the page.
pub proof fn page_shows_cards(top: Seq<char>, cards: Seq<Seq<char>>, at: int, p: Seq<char>)
    requires
        0 <= at < cards.len(),
        has_text(cards[at], p),
    ensures
        has_text(page_html(top, cards), p),
{
    lemma_concatenated_has(cards, at, p);
    lemma_has_text_within(DASHBOARD_HEAD@ + top, concatenated(cards), DASHBOARD_END@, p);
}

/// There is a "Run now" button for exactly the agents that can be started, and
/// each asks for the agent that it names.
pub proof fn every_agent_has_a_button(cards: Seq<Seq<char>>, agent: Seq<char>)
    ensures
        unit_of(agent) is Some <==> listed_agents().contains(agent),
        unit_of(agent) is Some ==> has_text(page_html(buttons_html(), cards), button_html(agent)),
{
    let agents = listed_agents();
    assert(agents[0] == "orchestrator"@ && agents[1] == "iso-agent"@ && agents[2]
        == "xoa-vm-agent"@);
    if agents.contains(agent) {
        let at = choose|i: int| 0 <= i < agents.len() && agents[i] == agent;
        let buttons = agents.map_values(|a: Seq<char>| button_html(a));
        let p = button_html(agent);
        let none = Seq::<char>::empty();
        assert(none + p + none =~= buttons[at]);
        lemma_has_part(none, p, none);
        lemma_concatenated_has(buttons, at, p);
        lemma_has_text_within(BUTTON_SCRIPT@ + "<p>"@, concatenated(buttons), "</p>"@, p);
        lemma_has_text_within(
            DASHBOARD_HEAD@,
            buttons_html(),
            concatenated(cards) + DASHBOARD_END@,
            p,
        );
        assert(page_html(buttons_html(), cards) =~= DASHBOARD_HEAD@ + buttons_html() + (
        concatenated(cards) + DASHBOARD_END@));
    }
}

/// A row shows the name, the status and the link of a component, and the class of
/// its badge: rows that differ in one of these differ.
pub proof fn rows_show_what_they_are_given(
    label: Seq<char>,
    class: Seq<char>,
    status: Seq<char>,
    url: Seq<char>,
    other: Seq<char>,
)
    ensures
        has_text(row_html(label, class, status, url), label),
        has_text(row_html(label, class, status, url), "badge "@ + class + "\">"@ + status + "<"@),
        has_text(row_html(label, class, status, url), "href=\""@ + url + "\""@),
        row_html(label, class, status, url) == row_html(other, class, status, url) ==> label
            == other,
        row_html(label, class, status, url) == row_html(label, other, status, url) ==> class
            == other,
        row_html(label, class, status, url) == row_html(label, class, other, url) ==> status
            == other,
        row_html(label, class, status, url) == row_html(label, class, status, other) ==> url
            == other,
{
    reveal_strlit("<p><b>");
    reveal_strlit(":</b> <span class=\"badge ");
    reveal_strlit(":</b> <span class=\"");
    reveal_strlit("badge ");
    reveal_strlit("\">");
    reveal_strlit("</span> | <a href=\"");
    reveal_strlit("</span> | <a ");
    reveal_strlit("href=\"");
    reveal_strlit("<");
    reveal_strlit("/span> | <a href=\"");
    reveal_strlit("\" target=\"_blank\">Logs</a></p>");
    reveal_strlit("\"");
    reveal_strlit(" target=\"_blank\">Logs</a></p>");
    let row = row_html(label, class, status, url);
    let a = "<p><b>"@;
    let b = ":</b> <span class=\"badge "@;
    let c = "\">"@;
    let d = "</span> | <a href=\""@;
    let e = "\" target=\"_blank\">Logs</a></p>"@;
    assert(b =~= ":</b> <span class=\""@ + "badge "@);
    assert(d =~= "<"@ + "/span> | <a href=\""@);
    assert(d =~= "</span> | <a "@ + "href=\""@);
    assert(e =~= "\""@ + " target=\"_blank\">Logs</a></p>"@);
    let after_label = b + class + c + status + d + url + e;
    assert(row =~= a + label + after_label);
    lemma_has_part(a, label, after_label);
    text::lemma_middle_is_determined(a, label, other, after_label);
    assert(row_html(other, class, status, url) =~= a + other + after_label);
    let badge = "badge "@ + class + c + status + "<"@;
    let before_badge = a + label + ":</b> <span class=\""@;
    let after_badge = "/span> | <a href=\""@ + url + e;
    assert(row =~= before_badge + badge + after_badge);
    lemma_has_part(before_badge, badge, after_badge);
    let link = "href=\""@ + url + "\""@;
    let before_link = a + label + b + class + c + status + "</span> | <a "@;
    assert(row =~= before_link + link + " target=\"_blank\">Logs</a></p>"@);
    lemma_has_part(before_link, link, " target=\"_blank\">Logs</a></p>"@);
    let after_class = c + status + d + url + e;
    text::lemma_middle_is_determined(a + label + b, class, other, after_class);
    assert(row =~= a + label + b + class + after_class);
    assert(row_html(label, other, status, url) =~= a + label + b + other + after_class);
    let after_status = d + url + e;
    text::lemma_middle_is_determined(a + label + b + class + c, status, other, after_status);
    assert(row =~= a + label + b + class + c + status + after_status);
    assert(row_html(label, class, other, url) =~= a + label + b + class + c + other + after_status);
    text::lemma_middle_is_determined(a + label + b + class + c + status + d, url, other, e);
}

/// A heading shows the moment of a run, and tells the newest run from the others.
pub proof fn headings_show_the_moment(newest: bool, time: Seq<char>, other: Seq<char>)
    ensures
        has_text(heading_html(newest, time), "("@ + time + ")"@),
        has_text(heading_html(true, time), "Latest Execution Run"@),
        has_text(heading_html(false, time), "Historical Archive"@),
        heading_html(newest, time) == heading_html(newest, other) ==> time == other,
        heading_html(true, time) != heading_html(false, other),
{
    reveal_strlit("<div class=\"card\"><h3>");
    reveal_strlit(" (");
    reveal_strlit(" ");
    reveal_strlit("(");
    reveal_strlit(")</h3>");
    reveal_strlit(")");
    reveal_strlit("</h3>");
    reveal_strlit("Latest Execution Run");
    reveal_strlit("Historical Archive");
    let start = "<div class=\"card\"><h3>"@;
    let title = if newest {
        "Latest Execution Run"@
    } else {
        "Historical Archive"@
    };
    assert(" ("@ =~= " "@ + "("@);
    assert(")</h3>"@ =~= ")"@ + "</h3>"@);
    let shown = "("@ + time + ")"@;
    assert(heading_html(newest, time) =~= (start + title + " "@) + shown + "</h3>"@);
    lemma_has_part(start + title + " "@, shown, "</h3>"@);
    let rest = " ("@ + time + ")</h3>"@;
    assert(heading_html(true, time) =~= start + "Latest Execution Run"@ + rest);
    lemma_has_part(start, "Latest Execution Run"@, rest);
    assert(heading_html(false, time) =~= start + "Historical Archive"@ + rest);
    lemma_has_part(start, "Historical Archive"@, rest);
    text::lemma_middle_is_determined(start + title + " ("@, time, other, ")</h3>"@);
    let n = start.len() as int;
    assert(heading_html(true, time)[n] == 'L');
    assert(heading_html(false, other)[n] == 'H');
}

/// Advice is shown word for word, and nothing where there is none.
pub proof fn advice_is_shown(advice: Seq<char>)
    ensures
        has_text(hint_html(Some(advice)), "<pre>"@ + advice + "</pre>"@),
        hint_html(None) == Seq::<char>::empty(),
{
    reveal_strlit("<h4>🤖 Qwen-Coder Diagnostic Remediation Analysis:</h4><pre>");
    reveal_strlit("<h4>🤖 Qwen-Coder Diagnostic Remediation Analysis:</h4>");
    reveal_strlit("<pre>");
    let head = "<h4>🤖 Qwen-Coder Diagnostic Remediation Analysis:</h4>"@;
    assert("<h4>🤖 Qwen-Coder Diagnostic Remediation Analysis:</h4><pre>"@ =~= head + "<pre>"@);
    let shown = "<pre>"@ + advice + "</pre>"@;
    assert(hint_html(Some(advice)) =~= head + shown);
    text::lemma_has_tail(head, shown);
}

/// A button asks for the agent that it names.
pub proof fn buttons_ask_for_their_agent(agent: Seq<char>)
    ensures
        has_text(button_html(agent), "runNow('/api/trigger/"@ + agent + "')"@),
        has_text(button_html(agent), "Run now: "@ + agent + "<"@),
{
    reveal_strlit("<button onclick=\"runNow('");
    reveal_strlit("<button onclick=\"");
    reveal_strlit("runNow('");
    reveal_strlit("/api/trigger/");
    reveal_strlit("runNow('/api/trigger/");
    reveal_strlit("')\">Run now: ");
    reveal_strlit("')");
    reveal_strlit("\">Run now: ");
    reveal_strlit("')\">");
    reveal_strlit("Run now: ");
    reveal_strlit("</button>");
    reveal_strlit("<");
    reveal_strlit("/button>");
    assert("<button onclick=\"runNow('"@ + "/api/trigger/"@ =~= "<button onclick=\""@
        + "runNow('/api/trigger/"@);
    assert("')\">Run now: "@ =~= "')"@ + "\">Run now: "@);
    assert("')\">Run now: "@ =~= "')\">"@ + "Run now: "@);
    assert("</button>"@ =~= "<"@ + "/button>"@);
    let call = "runNow('/api/trigger/"@ + agent + "')"@;
    let rest = "\">Run now: "@ + agent + "</button>"@;
    assert(button_html(agent) =~= "<button onclick=\""@ + call + rest);
    lemma_has_part("<button onclick=\""@, call, rest);
    let label = "Run now: "@ + agent + "<"@;
    let start = "<button onclick=\"runNow('"@ + trigger_path_text(agent) + "')\">"@;
    assert(button_html(agent) =~= start + label + "/button>"@);
    lemma_has_part(start, label, "/button>"@);
}

} // verus!
