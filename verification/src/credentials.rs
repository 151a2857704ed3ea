//! Credentials, as systemd hands them to a unit.

use crate::error::{
    outcome, IoError, IoErrorView, IoKind, IoKindView, OrchestratorError, OrchestratorErrorView,
};
use crate::text;
use crate::text::trimmed;
use vstd::prelude::*;

verus! {

/// What was found where a credential is expected
/// (`$CREDENTIALS_DIRECTORY/<name>`, as written by `LoadCredential=`).
#[derive(Debug)]
pub enum CredentialSource {
    /// There is no directory for credentials.
    NoDirectory,
    /// The file, shown by its path, could not be read.
    Unreadable { kind: IoKind, path: String, message: String },
    /// What the file holds.
    Content(String),
}

/// What a [`CredentialSource`] says.
pub enum CredentialSourceView {
    NoDirectory,
    Unreadable { kind: IoKindView, path: Seq<char>, message: Seq<char> },
    Content(Seq<char>),
}

impl View for CredentialSource {
    type V = CredentialSourceView;

    open spec fn view(&self) -> CredentialSourceView {
        match self {
            CredentialSource::NoDirectory => CredentialSourceView::NoDirectory,
            CredentialSource::Unreadable { kind, path, message } => {
                CredentialSourceView::Unreadable { kind: kind@, path: path@, message: message@ }
            },
            CredentialSource::Content(content) => CredentialSourceView::Content(content@),
        }
    }
}

/// The name of the GitHub token.
pub const GITHUB_TOKEN: &'static str = "GITHUB_TOKEN";

/// The name of the token that protects the triggers.
pub const TRIGGER_TOKEN: &'static str = "TRIGGER_TOKEN";

/// The credential with a name: what its file holds, without the white space
/// around it. It has to hold something. Without a directory nothing is found,
/// an empty file is invalid, and a file that cannot be read keeps its kind of
/// failure.
pub open spec fn credential_of(name: Seq<char>, source: CredentialSourceView) -> Result<
    Seq<char>,
    OrchestratorErrorView,
> {
    match source {
        CredentialSourceView::NoDirectory => Err(
            OrchestratorErrorView::Io(
                IoErrorView {
                    kind: IoKindView::NotFound,
                    message:
                        "CREDENTIALS_DIRECTORY is not set — configure systemd LoadCredential="@,
                },
            ),
        ),
        CredentialSourceView::Unreadable { kind, path, message } => Err(
            OrchestratorErrorView::Io(
                IoErrorView {
                    kind,
                    message: "Failed to read "@ + name + " from "@ + path + ": "@ + message,
                },
            ),
        ),
        CredentialSourceView::Content(content) => if trimmed(content).len() == 0 {
            Err(
                OrchestratorErrorView::Io(
                    IoErrorView {
                        kind: IoKindView::InvalidData,
                        message: name + " credential file is empty"@,
                    },
                ),
            )
        } else {
            Ok(trimmed(content))
        },
    }
}

/// The credential with a name, from what was found.
pub fn load_credential(name: &str, source: CredentialSource) -> (r: Result<
    String,
    OrchestratorError,
>)
    ensures
        outcome(r) == credential_of(name@, source@),
{
    match source {
        CredentialSource::NoDirectory => Err(
            OrchestratorError::Io(
                IoError {
                    kind: IoKind::NotFound,
                    message:
                        "CREDENTIALS_DIRECTORY is not set — configure systemd LoadCredential="
                        .to_string(),
                },
            ),
        ),
        CredentialSource::Unreadable { kind, path, message } => Err(
            OrchestratorError::Io(
                IoError {
                    kind,
                    message: "Failed to read ".to_string()
                        .concat(name)
                        .concat(" from ")
                        .concat(&path)
                        .concat(": ")
                        .concat(&message),
                },
            ),
        ),
        CredentialSource::Content(content) => {
            let value = text::trim(&content);
            if value.as_str().is_empty() {
                Err(
                    OrchestratorError::Io(
                        IoError {
                            kind: IoKind::InvalidData,
                            message: name.to_string().concat(" credential file is empty"),
                        },
                    ),
                )
            } else {
                Ok(value)
            }
        },
    }
}

/// The GitHub token, from what was found under its name.
pub fn load_github_token(source: CredentialSource) -> (r: Result<String, OrchestratorError>)
    ensures
        outcome(r) == credential_of(GITHUB_TOKEN@, source@),
{
    load_credential(GITHUB_TOKEN, source)
}

// ── Laws ───────────────────────────────────────────────────────────────────

/// A credential that is handed out holds something, and white space at neither
/// end.
pub proof fn credential_is_trimmed(name: Seq<char>, source: CredentialSourceView)
    ensures
        credential_of(name, source) matches Ok(value) ==> {
            &&& value.len() > 0
            &&& !text::is_white_space(value[0])
            &&& !text::is_white_space(value.last())
        },
{
    if let CredentialSourceView::Content(content) = source {
        text::lemma_trimmed_ends(content);
    }
}

/// A credential comes from a file that holds something: white space around it does
/// not matter, and white space alone is nothing. Each failure keeps its kind and says
/// which credential it is about, and of which file.
pub proof fn credentials_come_from_their_file(
    name: Seq<char>,
    before: Seq<char>,
    value: Seq<char>,
    after: Seq<char>,
    kind: IoKindView,
    path: Seq<char>,
    message: Seq<char>,
)
    requires
        text::all_white_space(before),
        text::all_white_space(after),
        value.len() > 0,
        !text::is_white_space(value[0]),
        !text::is_white_space(value.last()),
    ensures
        credential_of(name, CredentialSourceView::Content(before + value + after)) == Ok::<
            Seq<char>,
            OrchestratorErrorView,
        >(value),
        credential_of(name, CredentialSourceView::Content(before)) matches Err(
            OrchestratorErrorView::Io(e),
        ) && e.kind is InvalidData && text::has_text(e.message, name),
        credential_of(
            name,
            CredentialSourceView::Unreadable { kind, path, message },
        ) matches Err(OrchestratorErrorView::Io(e)) && e.kind == kind && text::has_text(
            e.message,
            name,
        ) && text::has_text(e.message, path) && text::has_text(e.message, message),
        credential_of(name, CredentialSourceView::NoDirectory) matches Err(
            OrchestratorErrorView::Io(e),
        ) && e.kind is NotFound,
{
    text::trimming_undoes_padding(before, value, after);
    text::trimmed_white_space(before);
    let none = Seq::<char>::empty();
    text::lemma_has_part(none, name, " credential file is empty"@);
    assert(none + name + " credential file is empty"@ =~= name + " credential file is empty"@);
    let text = "Failed to read "@ + name + " from "@ + path + ": "@ + message;
    let rest = " from "@ + path + ": "@ + message;
    assert(text =~= "Failed to read "@ + name + rest);
    text::lemma_has_part("Failed to read "@, name, rest);
    let start = "Failed to read "@ + name + " from "@;
    assert(text =~= start + path + (": "@ + message));
    text::lemma_has_part(start, path, ": "@ + message);
    text::lemma_has_tail(start + path + ": "@, message);
}

} // verus!
