//! The endpoint behind the "Run now" buttons of the dashboard: starts the unit of
//! an agent on request.

use crate::encoding;
use crate::encoding::lossy_text;
use crate::text;
use crate::text::trimmed;
use axum::http::{HeaderMap, HeaderValue};
use vstd::prelude::*;
use vstd::utf8::{
    decode_utf8_encode_utf8, encode_utf8, encode_utf8_decode_utf8, encode_utf8_valid_utf8, valid_utf8,
};

verus! {

/// Where the endpoint listens: on this machine only.
pub const BIND_ADDR: &'static str = "127.0.0.1:8787";

/// The path of a trigger, with the agent in its place.
pub const TRIGGER_ROUTE: &'static str = "/api/trigger/:agent";

// ── Headers ────────────────────────────────────────────────────────────────

/// The headers of a request.
#[verifier::external_type_specification]
#[verifier::external_body]
#[verifier::reject_recursive_types(T)]
pub struct ExHeaderMap<T>(HeaderMap<T>);

/// The value of a header.
#[verifier::external_type_specification]
#[verifier::external_body]
pub struct ExHeaderValue(HeaderValue);

/// The first value under each name of some headers, in bytes.
pub uninterp spec fn header_values(headers: HeaderMap<HeaderValue>) -> Map<Seq<char>, Seq<u8>>;

/// `HeaderMap::get` for the `Authorization` header: the bytes of the first value
/// under that name, if there is one.
#[verifier::external_body]
fn authorization(headers: &HeaderMap<HeaderValue>) -> (value: Option<Vec<u8>>)
    ensures
        value.deep_view() == header_values(*headers).get("authorization"@),
{
    headers.get(axum::http::header::AUTHORIZATION).map(|value| value.as_bytes().to_vec())
}

/// Some bytes are visible ASCII characters, spaces and tabs.
pub open spec fn is_visible_ascii(bytes: Seq<u8>) -> bool {
    forall|i: int| 0 <= i < bytes.len() ==> (32 <= #[trigger] bytes[i] < 127) || bytes[i] == 9
}

/// The text of a header value, if all of it is visible ASCII.
fn visible_text(bytes: Vec<u8>) -> (shown: Option<String>)
    ensures
        match shown {
            Some(t) => is_visible_ascii(bytes@) && encode_utf8(t@) == bytes@,
            None => !is_visible_ascii(bytes@) || !valid_utf8(bytes@),
        },
{
    #[verifier::loop_isolation(false)]
    for i in 0..bytes.len()
        invariant
            forall|j: int| 0 <= j < i ==> (32 <= #[trigger] bytes@[j] < 127) || bytes@[j] == 9,
    {
        let b: u8 = bytes[i];
        if !((b >= 32 && b < 127) || b == 9) {
            assert(!((32 <= bytes@[i as int] < 127) || bytes@[i as int] == 9));
            return None;
        }
    }
    let ghost all = bytes@;
    match encoding::utf8_text(bytes) {
        Ok(t) => {
            proof {
                decode_utf8_encode_utf8(all);
            }
            Some(t)
        },
        Err(_) => None,
    }
}

/// The headers carry a token: as a bearer token, in visible characters.
pub open spec fn carries_token(values: Map<Seq<char>, Seq<u8>>, token: Seq<char>) -> bool {
    values.get("authorization"@) == Some(encode_utf8("Bearer "@ + token)) && is_visible_ascii(
        encode_utf8("Bearer "@ + token),
    )
}

/// The text of an `Authorization` header carries a token.
pub open spec fn text_carries_token(value: Option<Seq<char>>, token: Seq<char>) -> bool {
    value == Some("Bearer "@ + token)
}

/// Whether the text of an `Authorization` header carries a token.
pub fn bearer_matches(value: &Option<String>, expected_token: &str) -> (yes: bool)
    ensures
        yes == text_carries_token(value.deep_view(), expected_token@),
{
    match value {
        Some(value) => match text::strip_prefix(value, "Bearer ") {
            Some(token) => {
                let yes = text::same(&token, expected_token);
                proof {
                    let n = "Bearer "@.len() as int;
                    assert(value@ =~= value@.take(n) + value@.skip(n));
                    assert(("Bearer "@ + expected_token@).skip(n) =~= expected_token@);
                }
                yes
            },
            None => {
                assert("Bearer "@.is_prefix_of("Bearer "@ + expected_token@)) by {
                    assert(("Bearer "@ + expected_token@).take("Bearer "@.len() as int)
                        =~= "Bearer "@);
                }
                false
            },
        },
        None => false,
    }
}

/// Whether a request carries the token that is expected.
pub fn is_authorized(headers: &HeaderMap<HeaderValue>, expected_token: &str) -> (yes: bool)
    ensures
        yes == carries_token(header_values(*headers), expected_token@),
{
    let value = match authorization(headers) {
        Some(value) => value,
        None => {
            return false;
        },
    };
    let ghost bytes = value@;
    let shown = visible_text(value);
    proof {
        let expected = "Bearer "@ + expected_token@;
        encode_utf8_valid_utf8(expected);
        encode_utf8_decode_utf8(expected);
        if shown is Some {
            encode_utf8_decode_utf8((shown->0)@);
        }
        assert(header_values(*headers).get("authorization"@) == Some(bytes));
    }
    bearer_matches(&shown, expected_token)
}

// ── Triggers ───────────────────────────────────────────────────────────────

/// The unit of an agent, by the name that the buttons use.
pub open spec fn unit_of(agent: Seq<char>) -> Option<Seq<char>> {
    if agent == "orchestrator"@ {
        Some("xcp-orchestrator.service"@)
    } else if agent == "iso-agent"@ {
        Some("iso-agent.service"@)
    } else if agent == "xoa-vm-agent"@ {
        Some("xoa-vm-agent.service"@)
    } else {
        None
    }
}

/// The agents that can be started, by the names that the buttons use.
pub open spec fn listed_agents() -> Seq<Seq<char>> {
    seq!["orchestrator"@, "iso-agent"@, "xoa-vm-agent"@]
}

/// The agents that can be started, by the names that the buttons use.
pub fn agents() -> (names: Vec<String>)
    ensures
        names.deep_view() == listed_agents(),
{
    let names = vec![
        "orchestrator".to_string(),
        "iso-agent".to_string(),
        "xoa-vm-agent".to_string(),
    ];
    assert(names.deep_view() =~= listed_agents());
    names
}

/// Where a request for an agent goes.
pub open spec fn trigger_path_text(agent: Seq<char>) -> Seq<char> {
    "/api/trigger/"@ + agent
}

/// Where a request for an agent goes.
pub fn trigger_path(agent: &str) -> (path: String)
    ensures
        path@ == trigger_path_text(agent@),
{
    "/api/trigger/".to_string().concat(agent)
}

/// The unit of an agent, by the name that the buttons use. Only the agents
/// listed here can be started.
pub fn unit_for_agent(agent: &str) -> (unit: Option<&'static str>)
    ensures
        match unit {
            Some(u) => unit_of(agent@) == Some(u@),
            None => unit_of(agent@) is None,
        },
{
    if text::same(agent, "orchestrator") {
        Some("xcp-orchestrator.service")
    } else if text::same(agent, "iso-agent") {
        Some("iso-agent.service")
    } else if text::same(agent, "xoa-vm-agent") {
        Some("xoa-vm-agent.service")
    } else {
        None
    }
}

/// The answer to a request.
#[derive(Debug)]
pub struct TriggerResponse {
    pub agent: String,
    pub started: bool,
    pub detail: String,
}

/// What a [`TriggerResponse`] holds.
pub struct TriggerResponseView {
    pub agent: Seq<char>,
    pub started: bool,
    pub detail: Seq<char>,
}

impl View for TriggerResponse {
    type V = TriggerResponseView;

    open spec fn view(&self) -> TriggerResponseView {
        TriggerResponseView {
            agent: self.agent@,
            started: self.started,
            detail: self.detail@,
        }
    }
}

impl DeepView for TriggerResponse {
    type V = TriggerResponseView;

    open spec fn deep_view(&self) -> TriggerResponseView {
        self@
    }
}

/// What to do with a request.
#[derive(Debug)]
pub enum TriggerPlan {
    /// Start this unit.
    Start { unit: String },
    /// Answer with this status and nothing started.
    Refuse { status: u16, response: TriggerResponse },
}

/// What a [`TriggerPlan`] says.
pub enum TriggerPlanView {
    Start { unit: Seq<char> },
    Refuse { status: u16, response: TriggerResponseView },
}

impl View for TriggerPlan {
    type V = TriggerPlanView;

    open spec fn view(&self) -> TriggerPlanView {
        match self {
            TriggerPlan::Start { unit } => TriggerPlanView::Start { unit: unit@ },
            TriggerPlan::Refuse { status, response } => TriggerPlanView::Refuse {
                status: *status,
                response: response@,
            },
        }
    }
}

/// What to do with a request for an agent: refused without the token, and for an
/// agent that is not listed.
pub open spec fn plan_of(authorized: bool, agent: Seq<char>) -> TriggerPlanView {
    if !authorized {
        TriggerPlanView::Refuse {
            status: 401,
            response: TriggerResponseView {
                agent,
                started: false,
                detail: "missing or invalid bearer token"@,
            },
        }
    } else {
        match unit_of(agent) {
            Some(unit) => TriggerPlanView::Start { unit },
            None => TriggerPlanView::Refuse {
                status: 400,
                response: TriggerResponseView {
                    agent,
                    started: false,
                    detail: "unknown agent '"@ + agent + "'"@,
                },
            },
        }
    }
}

/// What to do with a request for an agent, once it is known whether it carries
/// the token.
pub fn plan_for(authorized: bool, agent: &str) -> (plan: TriggerPlan)
    ensures
        plan@ == plan_of(authorized, agent@),
{
    if !authorized {
        return TriggerPlan::Refuse {
            status: 401,
            response: TriggerResponse {
                agent: agent.to_string(),
                started: false,
                detail: "missing or invalid bearer token".to_string(),
            },
        };
    }
    match unit_for_agent(agent) {
        Some(unit) => TriggerPlan::Start { unit: unit.to_string() },
        None => TriggerPlan::Refuse {
            status: 400,
            response: TriggerResponse {
                agent: agent.to_string(),
                started: false,
                detail: "unknown agent '".to_string().concat(agent).concat("'"),
            },
        },
    }
}

/// What to do with a request for an agent.
pub fn plan_trigger(headers: &HeaderMap<HeaderValue>, token: &str, agent: &str) -> (plan:
    TriggerPlan)
    ensures
        plan@ == plan_of(carries_token(header_values(*headers), token@), agent@),
{
    plan_for(is_authorized(headers, token), agent)
}

/// How the start of a unit went.
#[derive(Debug)]
pub enum StartOutcome {
    /// `systemctl` ran, and said this on its error output.
    Ran { success: bool, stderr: Vec<u8> },
    /// `systemctl` could not be run.
    NotRun { message: String },
}

/// What a [`StartOutcome`] says.
pub enum StartOutcomeView {
    Ran { success: bool, stderr: Seq<u8> },
    NotRun { message: Seq<char> },
}

impl View for StartOutcome {
    type V = StartOutcomeView;

    open spec fn view(&self) -> StartOutcomeView {
        match self {
            StartOutcome::Ran { success, stderr } => StartOutcomeView::Ran {
                success: *success,
                stderr: stderr@,
            },
            StartOutcome::NotRun { message } => StartOutcomeView::NotRun { message: message@ },
        }
    }
}

/// The answer to a request, given the unit and how its start went.
pub open spec fn answer_of(agent: Seq<char>, unit: Seq<char>, outcome: StartOutcomeView) -> (
    u16,
    TriggerResponseView,
) {
    match outcome {
        StartOutcomeView::Ran { success, stderr } => if success {
            (200, TriggerResponseView { agent, started: true, detail: unit + " started"@ })
        } else {
            (
                500,
                TriggerResponseView { agent, started: false, detail: trimmed(lossy_text(stderr)) },
            )
        },
        StartOutcomeView::NotRun { message } => (
            500,
            TriggerResponseView { agent, started: false, detail: message },
        ),
    }
}

/// The answer to a request, given the unit and how its start went.
pub fn answer(agent: &str, unit: &str, start: StartOutcome) -> (reply: (u16, TriggerResponse))
    ensures
        (reply.0, reply.1@) == answer_of(agent@, unit@, start@),
{
    match start {
        StartOutcome::Ran { success, stderr } => {
            if success {
                (
                    200,
                    TriggerResponse {
                        agent: agent.to_string(),
                        started: true,
                        detail: unit.to_string().concat(" started"),
                    },
                )
            } else {
                (
                    500,
                    TriggerResponse {
                        agent: agent.to_string(),
                        started: false,
                        detail: text::trim(&encoding::utf8_lossy(&stderr)),
                    },
                )
            }
        },
        StartOutcome::NotRun { message } => (
            500,
            TriggerResponse { agent: agent.to_string(), started: false, detail: message },
        ),
    }
}

// ── Laws ───────────────────────────────────────────────────────────────────

/// Nothing is started without the token: such a request is answered as
/// unauthorized, whatever agent it names.
pub proof fn nothing_starts_without_token(agent: Seq<char>)
    ensures
        plan_of(false, agent) matches TriggerPlanView::Refuse { status, response } && status == 401
            && !response.started,
{
}

/// A unit is started exactly for a request that carries the token and names a
/// listed agent, and it is the unit of that agent.
pub proof fn only_listed_units_start(authorized: bool, agent: Seq<char>)
    ensures
        plan_of(authorized, agent) is Start <==> authorized && unit_of(agent) is Some,
        plan_of(authorized, agent) matches TriggerPlanView::Start { unit } ==> (unit
            == "xcp-orchestrator.service"@ || unit == "iso-agent.service"@ || unit
            == "xoa-vm-agent.service"@),
{
}

/// An answer says that a unit was started exactly when it was, and every answer
/// names the agent that was asked for.
pub proof fn answers_are_truthful(agent: Seq<char>, unit: Seq<char>, start: StartOutcomeView)
    ensures
        answer_of(agent, unit, start).1.agent == agent,
        answer_of(agent, unit, start).1.started <==> answer_of(agent, unit, start).0 == 200,
        answer_of(agent, unit, start).1.started <==> (start matches StartOutcomeView::Ran {
            success,
            stderr,
        } && success),
{
}

/// Each agent has a unit of its own, and there are no others.
pub proof fn units_belong_to_agents(a: Seq<char>, b: Seq<char>)
    ensures
        unit_of(a) == Some("xcp-orchestrator.service"@) <==> a == "orchestrator"@,
        unit_of(a) == Some("iso-agent.service"@) <==> a == "iso-agent"@,
        unit_of(a) == Some("xoa-vm-agent.service"@) <==> a == "xoa-vm-agent"@,
        unit_of(a) is Some <==> listed_agents().contains(a),
        unit_of(a) is Some && unit_of(a) == unit_of(b) ==> a == b,
        trigger_path_text(a) == trigger_path_text(b) ==> a == b,
        "/api/trigger/"@.is_prefix_of(trigger_path_text(a)),
{
    reveal_strlit("orchestrator");
    reveal_strlit("iso-agent");
    reveal_strlit("xoa-vm-agent");
    reveal_strlit("xcp-orchestrator.service");
    reveal_strlit("iso-agent.service");
    reveal_strlit("xoa-vm-agent.service");
    assert("xcp-orchestrator.service"@.len() == 24);
    assert("iso-agent.service"@.len() == 17);
    assert("xoa-vm-agent.service"@.len() == 20);
    assert("orchestrator"@.len() == 12 && "xoa-vm-agent"@.len() == 12);
    assert("orchestrator"@[0] == 'o' && "xoa-vm-agent"@[0] == 'x');
    assert("iso-agent"@.len() == 9);
    let names = listed_agents();
    assert(names[0] == "orchestrator"@ && names[1] == "iso-agent"@ && names[2]
        == "xoa-vm-agent"@);
    let none = Seq::<char>::empty();
    text::lemma_middle_is_determined("/api/trigger/"@, a, b, none);
    assert("/api/trigger/"@ + a + none =~= trigger_path_text(a));
    assert("/api/trigger/"@ + b + none =~= trigger_path_text(b));
    assert(trigger_path_text(a).subrange(0, "/api/trigger/"@.len() as int) =~= "/api/trigger/"@);
}

/// A header carries one token and no other, and only under its name and in its
/// scheme; without the header there is none.
pub proof fn only_the_token_itself_is_accepted(
    values: Map<Seq<char>, Seq<u8>>,
    token: Seq<char>,
    other: Seq<char>,
)
    ensures
        text_carries_token(Some("Bearer "@ + token), other) <==> token == other,
        !text_carries_token(None, token),
        !"Bearer "@.is_prefix_of(other) ==> !text_carries_token(Some(other), token),
        carries_token(values, token) && carries_token(values, other) ==> token == other,
        !values.dom().contains("authorization"@) ==> !carries_token(values, token),
        is_visible_ascii(encode_utf8("Bearer "@ + token)) ==> carries_token(
            values.insert("authorization"@, encode_utf8("Bearer "@ + token)),
            token,
        ),
{
    let none = Seq::<char>::empty();
    text::lemma_middle_is_determined("Bearer "@, token, other, none);
    assert("Bearer "@ + token + none =~= "Bearer "@ + token);
    assert("Bearer "@ + other + none =~= "Bearer "@ + other);
    assert(("Bearer "@ + token).subrange(0, "Bearer "@.len() as int) =~= "Bearer "@);
    encode_utf8_decode_utf8("Bearer "@ + token);
    encode_utf8_decode_utf8("Bearer "@ + other);
}

/// Every request is either started or refused under the name it gave, with the token
/// looked at first: one without it is refused as unauthorized, one for an agent that
/// is not listed as a bad request that names it.
pub proof fn refusals_say_why(authorized: bool, agent: Seq<char>)
    ensures
        match plan_of(authorized, agent) {
            TriggerPlanView::Start { unit } => authorized && unit_of(agent) == Some(unit),
            TriggerPlanView::Refuse { status, response } => {
                &&& response.agent == agent
                &&& !response.started
                &&& status == 401 <==> !authorized
                &&& status == 400 <==> authorized && !listed_agents().contains(agent)
                &&& status == 400 ==> text::has_text(response.detail, agent)
                &&& status == 401 ==> response.detail == "missing or invalid bearer token"@
            },
        },
{
    units_belong_to_agents(agent, agent);
    text::lemma_has_part("unknown agent '"@, agent, "'"@);
}

/// An answer says of a start what is known of it: which unit was started, what
/// `systemctl` complained about, or why it could not be run.
pub proof fn answers_tell_what_happened(
    agent: Seq<char>,
    unit: Seq<char>,
    stderr: Seq<u8>,
    message: Seq<char>,
)
    ensures
        text::has_text(
            answer_of(agent, unit, StartOutcomeView::Ran { success: true, stderr }).1.detail,
            unit,
        ),
        answer_of(agent, unit, StartOutcomeView::Ran { success: false, stderr }).1.detail
            == trimmed(lossy_text(stderr)),
        answer_of(agent, unit, StartOutcomeView::Ran { success: false, stderr }).0 == 500,
        answer_of(agent, unit, StartOutcomeView::NotRun { message }).1.detail == message,
        answer_of(agent, unit, StartOutcomeView::NotRun { message }).0 == 500,
{
    let none = Seq::<char>::empty();
    text::lemma_has_part(none, unit, " started"@);
    assert(none + unit + " started"@ =~= unit + " started"@);
}

} // verus!
