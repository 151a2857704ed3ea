//! The errors that the orchestrator and its agents report.

use crate::text::{has_text, lemma_has_part, lemma_has_tail};
use vstd::prelude::*;

verus! {

/// What kind of failure an input or output error is.
#[derive(Debug)]
pub enum IoKind {
    NotFound,
    InvalidData,
    /// Any other kind, by the name that `std::io::ErrorKind` has for it.
    Other(String),
}

/// What an [`IoKind`] says.
pub enum IoKindView {
    NotFound,
    InvalidData,
    Other(Seq<char>),
}

impl View for IoKind {
    type V = IoKindView;

    open spec fn view(&self) -> IoKindView {
        match self {
            IoKind::NotFound => IoKindView::NotFound,
            IoKind::InvalidData => IoKindView::InvalidData,
            IoKind::Other(name) => IoKindView::Other(name@),
        }
    }
}

/// An input or output error: its kind, and what it says.
#[derive(Debug)]
pub struct IoError {
    pub kind: IoKind,
    pub message: String,
}

/// What an [`IoError`] holds.
pub struct IoErrorView {
    pub kind: IoKindView,
    pub message: Seq<char>,
}

impl View for IoError {
    type V = IoErrorView;

    open spec fn view(&self) -> IoErrorView {
        IoErrorView { kind: self.kind@, message: self.message@ }
    }
}

/// Why an operation of the orchestrator failed.
#[derive(Debug)]
pub enum OrchestratorError {
    /// A GitHub request failed: what was asked, and what came back.
    GitHubApi(String, String),
    Io(IoError),
    Json(String),
    Base64Decode(String),
    Utf8(String),
    FromUtf8(String),
    Timeout(String),
    TagCreation(String),
    WorkflowRunNotFound(String),
    OllamaError(String),
    VersionFormat(String),
    HeaderValueError(String),
    InvalidArgument(String),
}

/// What an [`OrchestratorError`] says.
pub enum OrchestratorErrorView {
    GitHubApi(Seq<char>, Seq<char>),
    Io(IoErrorView),
    Json(Seq<char>),
    Base64Decode(Seq<char>),
    Utf8(Seq<char>),
    FromUtf8(Seq<char>),
    Timeout(Seq<char>),
    TagCreation(Seq<char>),
    WorkflowRunNotFound(Seq<char>),
    OllamaError(Seq<char>),
    VersionFormat(Seq<char>),
    HeaderValueError(Seq<char>),
    InvalidArgument(Seq<char>),
}

impl View for OrchestratorError {
    type V = OrchestratorErrorView;

    open spec fn view(&self) -> OrchestratorErrorView {
        match self {
            OrchestratorError::GitHubApi(c, m) => OrchestratorErrorView::GitHubApi(c@, m@),
            OrchestratorError::Io(e) => OrchestratorErrorView::Io(e@),
            OrchestratorError::Json(m) => OrchestratorErrorView::Json(m@),
            OrchestratorError::Base64Decode(m) => OrchestratorErrorView::Base64Decode(m@),
            OrchestratorError::Utf8(m) => OrchestratorErrorView::Utf8(m@),
            OrchestratorError::FromUtf8(m) => OrchestratorErrorView::FromUtf8(m@),
            OrchestratorError::Timeout(m) => OrchestratorErrorView::Timeout(m@),
            OrchestratorError::TagCreation(m) => OrchestratorErrorView::TagCreation(m@),
            OrchestratorError::WorkflowRunNotFound(m) => OrchestratorErrorView::WorkflowRunNotFound(
                m@,
            ),
            OrchestratorError::OllamaError(m) => OrchestratorErrorView::OllamaError(m@),
            OrchestratorError::VersionFormat(m) => OrchestratorErrorView::VersionFormat(m@),
            OrchestratorError::HeaderValueError(m) => OrchestratorErrorView::HeaderValueError(m@),
            OrchestratorError::InvalidArgument(m) => OrchestratorErrorView::InvalidArgument(m@),
        }
    }
}

/// A result with its value and its error taken by what they hold.
pub open spec fn outcome<T: DeepView>(r: Result<T, OrchestratorError>) -> Result<
    T::V,
    OrchestratorErrorView,
> {
    match r {
        Ok(t) => Ok(t.deep_view()),
        Err(e) => Err(e@),
    }
}

/// A result of plain text, by what it holds.
pub open spec fn text_outcome(r: Result<String, String>) -> Result<Seq<char>, Seq<char>> {
    match r {
        Ok(t) => Ok(t@),
        Err(e) => Err(e@),
    }
}

/// The text that an error shows to people.
pub open spec fn error_text(e: OrchestratorErrorView) -> Seq<char> {
    match e {
        OrchestratorErrorView::GitHubApi(c, m) => "GitHub API error ("@ + c + "): "@ + m,
        OrchestratorErrorView::Io(e) => "IO error: "@ + e.message,
        OrchestratorErrorView::Json(m) => "JSON serialization error"@,
        OrchestratorErrorView::Base64Decode(m) => "Base64 decode error: "@ + m,
        OrchestratorErrorView::Utf8(m) => "UTF-8 error: "@ + m,
        OrchestratorErrorView::FromUtf8(m) => "FromUTF8 error: "@ + m,
        OrchestratorErrorView::Timeout(m) => "Timeout waiting for "@ + m,
        OrchestratorErrorView::TagCreation(m) => "Tag creation failed: "@ + m,
        OrchestratorErrorView::WorkflowRunNotFound(m) => "Workflow run not found: "@ + m,
        OrchestratorErrorView::OllamaError(m) => "Ollama error: "@ + m,
        OrchestratorErrorView::VersionFormat(m) => "Invalid version format: "@ + m,
        OrchestratorErrorView::HeaderValueError(m) => "Header value error: "@ + m,
        OrchestratorErrorView::InvalidArgument(m) => "Invalid argument: "@ + m,
    }
}

/// What went wrong, without the kind of error in front of it.
pub open spec fn error_detail(e: OrchestratorErrorView) -> Seq<char> {
    match e {
        OrchestratorErrorView::GitHubApi(_, m) => m,
        OrchestratorErrorView::Io(e) => e.message,
        OrchestratorErrorView::Json(m) => m,
        OrchestratorErrorView::Base64Decode(m) => m,
        OrchestratorErrorView::Utf8(m) => m,
        OrchestratorErrorView::FromUtf8(m) => m,
        OrchestratorErrorView::Timeout(m) => m,
        OrchestratorErrorView::TagCreation(m) => m,
        OrchestratorErrorView::WorkflowRunNotFound(m) => m,
        OrchestratorErrorView::OllamaError(m) => m,
        OrchestratorErrorView::VersionFormat(m) => m,
        OrchestratorErrorView::HeaderValueError(m) => m,
        OrchestratorErrorView::InvalidArgument(m) => m,
    }
}

impl OrchestratorError {
    /// What went wrong, without the kind of error in front of it: the single run
    /// reports its errors so.
    pub fn detail(self) -> (text: String)
        ensures
            text@ == error_detail(self@),
    {
        match self {
            OrchestratorError::GitHubApi(_, m) => m,
            OrchestratorError::Io(e) => e.message,
            OrchestratorError::Json(m) => m,
            OrchestratorError::Base64Decode(m) => m,
            OrchestratorError::Utf8(m) => m,
            OrchestratorError::FromUtf8(m) => m,
            OrchestratorError::Timeout(m) => m,
            OrchestratorError::TagCreation(m) => m,
            OrchestratorError::WorkflowRunNotFound(m) => m,
            OrchestratorError::OllamaError(m) => m,
            OrchestratorError::VersionFormat(m) => m,
            OrchestratorError::HeaderValueError(m) => m,
            OrchestratorError::InvalidArgument(m) => m,
        }
    }

    /// The text that the error shows to people.
    pub fn message(&self) -> (text: String)
        ensures
            text@ == error_text(self@),
    {
        match self {
            OrchestratorError::GitHubApi(c, m) => {
                let mut text = "GitHub API error (".to_string();
                text.append(c.as_str());
                text.append("): ");
                text.append(m.as_str());
                text
            },
            OrchestratorError::Io(e) => "IO error: ".to_string().concat(e.message.as_str()),
            OrchestratorError::Json(_) => "JSON serialization error".to_string(),
            OrchestratorError::Base64Decode(m) => "Base64 decode error: ".to_string().concat(
                m.as_str(),
            ),
            OrchestratorError::Utf8(m) => "UTF-8 error: ".to_string().concat(m.as_str()),
            OrchestratorError::FromUtf8(m) => "FromUTF8 error: ".to_string().concat(m.as_str()),
            OrchestratorError::Timeout(m) => "Timeout waiting for ".to_string().concat(m.as_str()),
            OrchestratorError::TagCreation(m) => "Tag creation failed: ".to_string().concat(
                m.as_str(),
            ),
            OrchestratorError::WorkflowRunNotFound(m) => "Workflow run not found: ".to_string().concat(
                m.as_str(),
            ),
            OrchestratorError::OllamaError(m) => "Ollama error: ".to_string().concat(m.as_str()),
            OrchestratorError::VersionFormat(m) => "Invalid version format: ".to_string().concat(
                m.as_str(),
            ),
            OrchestratorError::HeaderValueError(m) => "Header value error: ".to_string().concat(
                m.as_str(),
            ),
            OrchestratorError::InvalidArgument(m) => "Invalid argument: ".to_string().concat(
                m.as_str(),
            ),
        }
    }
}

// ── Laws ───────────────────────────────────────────────────────────────────

/// What an error shows holds what went wrong, except where the text of a JSON error is
/// left out; a failed request shows what was asked too.
pub proof fn errors_show_what_went_wrong(e: OrchestratorErrorView)
    ensures
        !(e is Json) ==> has_text(error_text(e), error_detail(e)),
        e matches OrchestratorErrorView::GitHubApi(context, message) ==> has_text(
            error_text(e),
            context,
        ) && error_detail(e) == message,
        e matches OrchestratorErrorView::Json(message) ==> error_detail(e) == message
            && error_text(e) == "JSON serialization error"@,
        e matches OrchestratorErrorView::Io(io) ==> error_detail(e) == io.message,
{
    match e {
        OrchestratorErrorView::GitHubApi(c, m) => {
            let text = "GitHub API error ("@ + c + "): "@ + m;
            assert(text =~= "GitHub API error ("@ + c + ("): "@ + m));
            lemma_has_part("GitHub API error ("@, c, "): "@ + m);
            lemma_has_tail("GitHub API error ("@ + c + "): "@, m);
        },
        OrchestratorErrorView::Io(io) => {
            lemma_has_tail("IO error: "@, io.message);
        },
        OrchestratorErrorView::Json(m) => {},
        OrchestratorErrorView::Base64Decode(m) => {
            lemma_has_tail("Base64 decode error: "@, m);
        },
        OrchestratorErrorView::Utf8(m) => {
            lemma_has_tail("UTF-8 error: "@, m);
        },
        OrchestratorErrorView::FromUtf8(m) => {
            lemma_has_tail("FromUTF8 error: "@, m);
        },
        OrchestratorErrorView::Timeout(m) => {
            lemma_has_tail("Timeout waiting for "@, m);
        },
        OrchestratorErrorView::TagCreation(m) => {
            lemma_has_tail("Tag creation failed: "@, m);
        },
        OrchestratorErrorView::WorkflowRunNotFound(m) => {
            lemma_has_tail("Workflow run not found: "@, m);
        },
        OrchestratorErrorView::OllamaError(m) => {
            lemma_has_tail("Ollama error: "@, m);
        },
        OrchestratorErrorView::VersionFormat(m) => {
            lemma_has_tail("Invalid version format: "@, m);
        },
        OrchestratorErrorView::HeaderValueError(m) => {
            lemma_has_tail("Header value error: "@, m);
        },
        OrchestratorErrorView::InvalidArgument(m) => {
            lemma_has_tail("Invalid argument: "@, m);
        },
    }
}

} // verus!
