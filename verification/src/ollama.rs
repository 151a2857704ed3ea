//! Diagnosis of build logs by a language model that Ollama serves.

use crate::error::{OrchestratorError, OrchestratorErrorView};
use crate::text;
use crate::text::has_text;
use crate::MODEL_NAME;
use vstd::prelude::*;

verus! {

/// How long a diagnosis may take, in seconds.
pub const OLLAMA_TIMEOUT_SECS: u64 = 300;

/// A request to Ollama.
#[derive(Debug)]
pub struct OllamaRequest {
    pub model: String,
    pub prompt: String,
    pub stream: bool,
}

/// What a [`OllamaRequest`] holds.
pub struct OllamaRequestView {
    pub model: Seq<char>,
    pub prompt: Seq<char>,
    pub stream: bool,
}

impl View for OllamaRequest {
    type V = OllamaRequestView;

    open spec fn view(&self) -> OllamaRequestView {
        OllamaRequestView {
            model: self.model@,
            prompt: self.prompt@,
            stream: self.stream,
        }
    }
}

impl DeepView for OllamaRequest {
    type V = OllamaRequestView;

    open spec fn deep_view(&self) -> OllamaRequestView {
        self@
    }
}

/// The reply of Ollama.
#[derive(Debug)]
pub struct OllamaResponse {
    pub response: String,
}

/// What a [`OllamaResponse`] holds.
pub struct OllamaResponseView {
    pub response: Seq<char>,
}

impl View for OllamaResponse {
    type V = OllamaResponseView;

    open spec fn view(&self) -> OllamaResponseView {
        OllamaResponseView {
            response: self.response@,
        }
    }
}

impl DeepView for OllamaResponse {
    type V = OllamaResponseView;

    open spec fn deep_view(&self) -> OllamaResponseView {
        self@
    }
}

/// What the model is told before the log.
pub const PROMPT_HEAD: &'static str = "You are an expert XCP-ng software integration engineer. Analyze the following failed build logs.\nPinpoint the exact reason for failure (e.g., missing dependencies, network drops, compilation error).\nProvide highly concise, actionable hints to remediate the setup.\n\n### BUILD LOG EXCERPT:\n";

/// What the model is told after the log.
pub const PROMPT_END: &'static str = "\n\n### REMEDIATION HINT:";

/// The request for a diagnosis of a log.
pub open spec fn request_of(raw_logs: Seq<char>) -> OllamaRequestView {
    OllamaRequestView {
        model: MODEL_NAME@,
        prompt: PROMPT_HEAD@ + raw_logs + PROMPT_END@,
        stream: false,
    }
}

/// The request for a diagnosis of a log.
pub fn diagnosis_request(raw_logs: &str) -> (request: OllamaRequest)
    ensures
        request@ == request_of(raw_logs@),
{
    OllamaRequest {
        model: MODEL_NAME.to_string(),
        prompt: PROMPT_HEAD.to_string().concat(raw_logs).concat(PROMPT_END),
        stream: false,
    }
}

/// What the reply to a diagnosis means, given the reply, or why there is none.
pub fn diagnosis(reply: Result<OllamaResponse, String>) -> (r: Result<String, OrchestratorError>)
    ensures
        match r {
            Ok(hint) => reply is Ok && hint@ == reply->Ok_0@.response,
            Err(e) => reply is Err && e@ == OrchestratorErrorView::OllamaError(reply->Err_0@),
        },
{
    match reply {
        Ok(answer) => Ok(answer.response),
        Err(m) => Err(OrchestratorError::OllamaError(m)),
    }
}

// ── Laws ───────────────────────────────────────────────────────────────────

/// The model is asked for one answer in whole, with all of the log before it; logs
/// that differ are put to it in different words.
pub proof fn all_of_the_log_is_asked_about(raw_logs: Seq<char>, other: Seq<char>)
    ensures
        has_text(request_of(raw_logs).prompt, raw_logs),
        has_text(request_of(raw_logs).prompt, "### REMEDIATION HINT:"@),
        request_of(raw_logs).prompt == request_of(other).prompt ==> raw_logs == other,
        request_of(raw_logs).model == "qwen3-coder:30b"@,
        !request_of(raw_logs).stream,
{
    text::lemma_has_part(PROMPT_HEAD@, raw_logs, PROMPT_END@);
    text::lemma_middle_is_determined(PROMPT_HEAD@, raw_logs, other, PROMPT_END@);
    reveal_strlit("\n\n### REMEDIATION HINT:");
    reveal_strlit("\n\n");
    reveal_strlit("### REMEDIATION HINT:");
    assert(PROMPT_END@ =~= "\n\n"@ + "### REMEDIATION HINT:"@);
    let before = PROMPT_HEAD@ + raw_logs + "\n\n"@;
    assert(request_of(raw_logs).prompt =~= before + "### REMEDIATION HINT:"@);
    text::lemma_has_tail(before, "### REMEDIATION HINT:"@);
}

} // verus!
