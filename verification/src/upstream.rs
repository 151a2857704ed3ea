//! The versions that the components are built from, and the matrix that records
//! what went into each release.

use crate::clock;
use crate::clock::{utc_pattern_text, Timestamp};
use crate::encoding;
use crate::encoding::{
    base64_encoded, can_encode, content_bytes, content_text, debug_quoted, json_member,
    utf8_error_text,
};
use crate::error::{outcome, OrchestratorError, OrchestratorErrorView};
use crate::github::is_success;
use crate::tags;
use crate::tags::pinned_version;
use crate::text;
use crate::text::{
    all_white_space, has_text, is_white_space, lemma_concatenated_has_three,
    lemma_concatenated_push, lemma_first_position_is, lemma_has_part, lines_of_both, occurs_at,
    pieces, text_lines, trimmed, trimmed_end,
};
use crate::types::{GHFileContent, GHFileContentView, GHRelease, GHReleaseView};
use crate::{DEFAULT_BRANCH, DOCS_REPO, OWNER, RELEASES_DATA_PATH};
use vstd::prelude::*;
use vstd::utf8::{
    decode_utf8, encode_utf8, encode_utf8_decode_utf8, encode_utf8_valid_utf8, valid_utf8,
};

verus! {

// ── Addresses ──────────────────────────────────────────────────────────────

/// The latest releases of the upstream project.
pub const UPSTREAM_RELEASES_URL: &'static str =
    "https://api.github.com/repos/vatesfr/xen-orchestra/releases?per_page=10";

/// How an XO Lite release is tagged upstream.
pub const XOLITE_TAG_PREFIX: &'static str = "xo-lite-v";

/// The package description of an XO Lite release.
pub open spec fn package_url_text(upstream_tag: Seq<char>) -> Seq<char> {
    "https://api.github.com/repos/vatesfr/xen-orchestra/contents/@xen-orchestra/lite/package.json?ref=xo-lite-v"@
        + upstream_tag
}

/// The package description of an XO Lite release.
pub fn package_url(upstream_tag: &str) -> (text: String)
    ensures
        text@ == package_url_text(upstream_tag@),
{
    "https://api.github.com/repos/vatesfr/xen-orchestra/contents/@xen-orchestra/lite/package.json?ref=xo-lite-v".to_string()
        .concat(upstream_tag)
}

/// What is asked of the package description.
pub open spec fn package_context_text(upstream_tag: Seq<char>) -> Seq<char> {
    "fetch_upstream_xolite_version for tag xo-lite-v"@ + upstream_tag
}

/// What is asked of the package description.
pub fn package_context(upstream_tag: &str) -> (text: String)
    ensures
        text@ == package_context_text(upstream_tag@),
{
    "fetch_upstream_xolite_version for tag xo-lite-v".to_string().concat(upstream_tag)
}

/// The file that pins the upstream release.
pub open spec fn pin_url_text() -> Seq<char> {
    "https://api.github.com/repos/"@ + OWNER@ + "/xolite-ce/contents/UPSTREAM_TAG?ref="@
        + DEFAULT_BRANCH@
}

/// The file that pins the upstream release.
pub fn pin_url() -> (text: String)
    ensures
        text@ == pin_url_text(),
{
    "https://api.github.com/repos/".to_string()
        .concat(OWNER)
        .concat("/xolite-ce/contents/UPSTREAM_TAG?ref=")
        .concat(DEFAULT_BRANCH)
}

/// The manifest of xoa-proxy.
pub open spec fn cargo_url_text() -> Seq<char> {
    "https://api.github.com/repos/"@ + OWNER@ + "/xoa-proxy/contents/Cargo.toml?ref="@
        + DEFAULT_BRANCH@
}

/// The manifest of xoa-proxy.
pub fn cargo_url() -> (text: String)
    ensures
        text@ == cargo_url_text(),
{
    "https://api.github.com/repos/".to_string()
        .concat(OWNER)
        .concat("/xoa-proxy/contents/Cargo.toml?ref=")
        .concat(DEFAULT_BRANCH)
}

/// The release matrix.
pub open spec fn matrix_url_text() -> Seq<char> {
    "https://api.github.com/repos/"@ + OWNER@ + "/"@ + DOCS_REPO@ + "/contents/"@
        + RELEASES_DATA_PATH@
}

/// The release matrix.
pub fn matrix_url() -> (text: String)
    ensures
        text@ == matrix_url_text(),
{
    "https://api.github.com/repos/".to_string()
        .concat(OWNER)
        .concat("/")
        .concat(DOCS_REPO)
        .concat("/contents/")
        .concat(RELEASES_DATA_PATH)
}

// ── XO Lite ────────────────────────────────────────────────────────────────

/// A release is one of XO Lite, and its files are there.
pub open spec fn is_xolite_release(release: GHReleaseView) -> bool {
    XOLITE_TAG_PREFIX@.is_prefix_of(release.tag_name) && release.assets.len() > 0
}

/// The version of the first release of XO Lite.
pub open spec fn first_xolite_version(releases: Seq<GHReleaseView>) -> Option<Seq<char>>
    decreases releases.len(),
{
    if releases.len() == 0 {
        None
    } else if is_xolite_release(releases[0]) {
        Some(releases[0].tag_name.skip(XOLITE_TAG_PREFIX@.len() as int))
    } else {
        first_xolite_version(releases.drop_first())
    }
}

/// The version of the newest release of XO Lite that has files.
pub fn latest_upstream_xolite_tag(releases: &Vec<GHRelease>) -> (r: Result<
    String,
    OrchestratorError,
>)
    ensures
        outcome(r) == (match first_xolite_version(releases.deep_view()) {
            Some(version) => Ok::<Seq<char>, OrchestratorErrorView>(version),
            None => Err(
                OrchestratorErrorView::VersionFormat(
                    "No released xo-lite-v* tag with assets found upstream"@,
                ),
            ),
        }),
{
    let ghost all = releases.deep_view();
    assert(all.skip(0) =~= all);
    let mut i: usize = 0;
    while i < releases.len()
        invariant
            i <= releases@.len(),
            all == releases.deep_view(),
            first_xolite_version(all) == first_xolite_version(all.skip(i as int)),
        decreases releases@.len() - i,
    {
        proof {
            assert(all.skip(i as int)[0] == releases@[i as int]@);
            assert(all.skip(i as int).drop_first() =~= all.skip(i + 1));
        }
        if releases[i].assets.len() > 0 {
            if let Some(version) = text::strip_prefix(&releases[i].tag_name, XOLITE_TAG_PREFIX) {
                return Ok(version);
            }
        }
        i += 1;
    }
    Err(
        OrchestratorError::VersionFormat(
            "No released xo-lite-v* tag with assets found upstream".to_string(),
        ),
    )
}

/// The version that a package description states.
pub open spec fn package_version_of(member: Result<Option<Seq<char>>, Seq<char>>) -> Result<
    Seq<char>,
    OrchestratorErrorView,
> {
    match member {
        Ok(Some(version)) => Ok(version),
        Ok(None) => Err(
            OrchestratorErrorView::VersionFormat("package.json missing version field"@),
        ),
        Err(m) => Err(OrchestratorErrorView::Json(m)),
    }
}

/// The version that a package description states: the text under its `version`
/// key, once that was looked up.
pub fn package_version(member: Result<Option<String>, String>) -> (r: Result<
    String,
    OrchestratorError,
>)
    ensures
        outcome(r) == package_version_of(encoding::member_outcome(member)),
{
    match member {
        Ok(Some(version)) => Ok(version),
        Ok(None) => Err(
            OrchestratorError::VersionFormat("package.json missing version field".to_string()),
        ),
        Err(m) => Err(OrchestratorError::Json(m)),
    }
}

/// The version of XO Lite, from its package description as GitHub hands it over.
pub fn upstream_xolite_version(content: &str) -> (r: Result<String, OrchestratorError>)
    ensures
        outcome(r) == (match content_bytes(content@) {
            Ok(bytes) => package_version_of(json_member(bytes, "version"@)),
            Err(e) => Err(e),
        }),
{
    match encoding::decode_content(content) {
        Ok(bytes) => package_version(encoding::json_text_member(&bytes, "version")),
        Err(e) => Err(e),
    }
}

/// What the pin file says, once its bytes are there.
pub open spec fn pin_of(bytes: Seq<u8>) -> Result<Seq<char>, OrchestratorErrorView> {
    if !valid_utf8(bytes) {
        Err(
            OrchestratorErrorView::VersionFormat(
                "UPSTREAM_TAG is not UTF-8: "@ + utf8_error_text(bytes),
            ),
        )
    } else {
        let content = decode_utf8(bytes);
        match pinned_version(content) {
            Some(version) => Ok(version),
            None => Err(
                OrchestratorErrorView::VersionFormat(
                    "UPSTREAM_TAG does not contain an xo-lite-v* tag: "@
                        + debug_quoted(trimmed(content)),
                ),
            ),
        }
    }
}

/// What the pin file says: the upstream version to build.
pub fn read_pin(bytes: Vec<u8>) -> (r: Result<String, OrchestratorError>)
    ensures
        outcome(r) == pin_of(bytes@),
{
    let content = match encoding::utf8_text(bytes) {
        Ok(content) => content,
        Err(m) => {
            return Err(
                OrchestratorError::VersionFormat(
                    "UPSTREAM_TAG is not UTF-8: ".to_string().concat(&m),
                ),
            );
        },
    };
    match tags::parse_pinned_xolite_tag(&content) {
        Some(version) => Ok(version),
        None => Err(
            OrchestratorError::VersionFormat(
                "UPSTREAM_TAG does not contain an xo-lite-v* tag: ".to_string()
                    .concat(&encoding::debug_quote(&text::trim(&content))),
            ),
        ),
    }
}

/// The upstream version to build, from the pin file as GitHub hands it over.
pub fn pinned_xolite_tag(file: &GHFileContent) -> (r: Result<String, OrchestratorError>)
    ensures
        outcome(r) == (match content_bytes(file@.content) {
            Ok(bytes) => pin_of(bytes),
            Err(e) => Err(e),
        }),
{
    match encoding::decode_content(&file.content) {
        Ok(bytes) => read_pin(bytes),
        Err(e) => Err(e),
    }
}

/// Where the XO Lite release to build comes from.
#[derive(Debug)]
pub enum TagChoice {
    /// This one is pinned.
    Pinned(String),
    /// Nothing is pinned: the latest one has to be looked up.
    LookUpLatest,
}

/// What a [`TagChoice`] says.
pub enum TagChoiceView {
    Pinned(Seq<char>),
    LookUpLatest,
}

impl View for TagChoice {
    type V = TagChoiceView;

    open spec fn view(&self) -> TagChoiceView {
        match self {
            TagChoice::Pinned(tag) => TagChoiceView::Pinned(tag@),
            TagChoice::LookUpLatest => TagChoiceView::LookUpLatest,
        }
    }
}

/// Where the XO Lite release to build comes from: a pin goes before the latest
/// release.
pub fn choose_xolite_tag(pin: Option<String>) -> (choice: TagChoice)
    ensures
        choice@ == (match pin {
            Some(tag) => TagChoiceView::Pinned(tag@),
            None => TagChoiceView::LookUpLatest,
        }),
{
    match pin {
        Some(tag) => TagChoice::Pinned(tag),
        None => TagChoice::LookUpLatest,
    }
}

// ── xoa-proxy ──────────────────────────────────────────────────────────────

/// The first line that starts with a text.
pub open spec fn first_line_with(lines: Seq<Seq<char>>, start: Seq<char>) -> Option<Seq<char>>
    decreases lines.len(),
{
    if lines.len() == 0 {
        None
    } else if start.is_prefix_of(lines[0]) {
        Some(lines[0])
    } else {
        first_line_with(lines.drop_first(), start)
    }
}

/// The version that a manifest states: what stands in quotes on the first line
/// that starts with `version`.
pub open spec fn manifest_version_of(manifest: Seq<char>) -> Result<
    Seq<char>,
    OrchestratorErrorView,
> {
    match first_line_with(text_lines(manifest), "version"@) {
        Some(line) if pieces(line, '"').len() > 1 => Ok(pieces(line, '"')[1]),
        _ => Err(
            OrchestratorErrorView::VersionFormat("Could not parse version from Cargo.toml"@),
        ),
    }
}

fn line_with(lines: &Vec<String>, start: &str) -> (line: Option<String>)
    ensures
        line.deep_view() == first_line_with(lines.deep_view(), start@),
{
    let ghost all = lines.deep_view();
    assert(all.skip(0) =~= all);
    let mut i: usize = 0;
    while i < lines.len()
        invariant
            i <= lines@.len(),
            all == lines.deep_view(),
            first_line_with(all, start@) == first_line_with(all.skip(i as int), start@),
        decreases lines@.len() - i,
    {
        proof {
            assert(all.skip(i as int)[0] == lines@[i as int]@);
            assert(all.skip(i as int).drop_first() =~= all.skip(i + 1));
        }
        if text::starts_with(&lines[i], start) {
            return Some(lines[i].clone());
        }
        i += 1;
    }
    None
}

/// The version that a manifest states.
pub fn manifest_version(manifest: &str) -> (r: Result<String, OrchestratorError>)
    ensures
        outcome(r) == manifest_version_of(manifest@),
{
    let lines = text::lines(manifest);
    if let Some(line) = line_with(&lines, "version") {
        let parts = text::split(&line, '"');
        if parts.len() > 1 {
            assert(parts.deep_view()[1] == parts@[1]@);
            return Ok(parts[1].clone());
        }
    }
    Err(OrchestratorError::VersionFormat("Could not parse version from Cargo.toml".to_string()))
}

/// The version of xoa-proxy, from its manifest as GitHub hands it over.
pub fn xoa_proxy_version(file: &GHFileContent) -> (r: Result<String, OrchestratorError>)
    ensures
        outcome(r) == (match content_text(file@.content) {
            Ok(manifest) => manifest_version_of(manifest),
            Err(e) => Err(e),
        }),
{
    match encoding::decode_content_text(&file.content) {
        Ok(manifest) => manifest_version(&manifest),
        Err(e) => Err(e),
    }
}

// ── Release matrix ─────────────────────────────────────────────────────────

/// What went into a release.
#[derive(Debug)]
pub struct ReleaseEntry {
    pub iso_tag: String,
    pub xolite_version: String,
    pub xolite_upstream: String,
    pub xoa_proxy_version: String,
}

/// What a [`ReleaseEntry`] holds.
pub struct ReleaseEntryView {
    pub iso_tag: Seq<char>,
    pub xolite_version: Seq<char>,
    pub xolite_upstream: Seq<char>,
    pub xoa_proxy_version: Seq<char>,
}

impl View for ReleaseEntry {
    type V = ReleaseEntryView;

    open spec fn view(&self) -> ReleaseEntryView {
        ReleaseEntryView {
            iso_tag: self.iso_tag@,
            xolite_version: self.xolite_version@,
            xolite_upstream: self.xolite_upstream@,
            xoa_proxy_version: self.xoa_proxy_version@,
        }
    }
}

impl ReleaseEntryView {
    /// The lines of the matrix for a release that was built on a day.
    pub open spec fn lines(self, date: Seq<char>) -> Seq<char> {
        "- iso_version: \""@ + self.iso_tag + "\"\n  build_date: \""@ + date
            + "\"\n  components:\n    xolite_ce:\n      version: \""@ + self.xolite_version
            + "\"\n      upstream: \""@ + self.xolite_upstream
            + "\"\n      upstream_url: \"https://github.com/vatesfr/xen-orchestra/releases/tag/xo-lite-v"@
            + self.xolite_upstream + "\"\n    xoa_proxy:\n      version: \""@
            + self.xoa_proxy_version + "\"\n"@
    }

    /// The matrix with the release in front.
    pub open spec fn in_front_of(self, date: Seq<char>, matrix: Seq<char>) -> Seq<char> {
        trimmed_end(self.lines(date)) + "\n"@ + matrix
    }

    /// What the change of the matrix is called.
    pub open spec fn change_message(self) -> Seq<char> {
        "docs: record release "@ + self.iso_tag + " in matrix"@
    }
}

/// A change of the release matrix, as it is sent to GitHub.
#[derive(Debug)]
pub struct MatrixUpdate {
    pub message: String,
    pub content: String,
    pub sha: String,
    pub branch: String,
}

/// What a [`MatrixUpdate`] holds.
pub struct MatrixUpdateView {
    pub message: Seq<char>,
    pub content: Seq<char>,
    pub sha: Seq<char>,
    pub branch: Seq<char>,
}

impl View for MatrixUpdate {
    type V = MatrixUpdateView;

    open spec fn view(&self) -> MatrixUpdateView {
        MatrixUpdateView {
            message: self.message@,
            content: self.content@,
            sha: self.sha@,
            branch: self.branch@,
        }
    }
}

impl DeepView for MatrixUpdate {
    type V = MatrixUpdateView;

    open spec fn deep_view(&self) -> MatrixUpdateView {
        self@
    }
}

impl ReleaseEntryView {
    /// The change that puts the release in front of the matrix; `None` if the
    /// new matrix is too long to be sent.
    pub open spec fn update_of(self, file: GHFileContentView, date: Seq<char>) -> Result<
        Option<MatrixUpdateView>,
        OrchestratorErrorView,
    > {
        match content_text(file.content) {
            Ok(matrix) => {
                let bytes = encode_utf8(self.in_front_of(date, matrix));
                if !can_encode(bytes.len()) {
                    Ok(None)
                } else {
                    Ok(
                        Some(
                            MatrixUpdateView {
                                message: self.change_message(),
                                content: base64_encoded(bytes),
                                sha: file.sha,
                                branch: DEFAULT_BRANCH@,
                            },
                        ),
                    )
                }
            },
            Err(e) => Err(e),
        }
    }

    /// What is sent reads back as the release in front of the old matrix.
    pub open spec fn reads_back(
        self,
        update: MatrixUpdateView,
        file: GHFileContentView,
        date: Seq<char>,
    ) -> bool {
        &&& content_text(file.content) is Ok
        &&& content_text(update.content) == Ok::<Seq<char>, OrchestratorErrorView>(
            self.in_front_of(date, content_text(file.content)->Ok_0),
        )
    }
}

impl ReleaseEntry {
    /// The lines of the matrix for a release that was built on a day.
    pub fn lines(&self, date: &str) -> (lines: String)
        ensures
            lines@ == self@.lines(date@),
    {
        "- iso_version: \"".to_string()
            .concat(&self.iso_tag)
            .concat("\"\n  build_date: \"")
            .concat(date)
            .concat("\"\n  components:\n    xolite_ce:\n      version: \"")
            .concat(&self.xolite_version)
            .concat("\"\n      upstream: \"")
            .concat(&self.xolite_upstream)
            .concat("\"\n      upstream_url: \"https://github.com/vatesfr/xen-orchestra/releases/tag/xo-lite-v")
            .concat(&self.xolite_upstream)
            .concat("\"\n    xoa_proxy:\n      version: \"")
            .concat(&self.xoa_proxy_version)
            .concat("\"\n")
    }

    /// The matrix with the release, built on a day, in front.
    pub fn updated_matrix(&self, matrix: &str, date: &str) -> (updated: String)
        ensures
            updated@ == self@.in_front_of(date@, matrix@),
    {
        text::trim_end(&self.lines(date)).concat("\n").concat(matrix)
    }

    /// The change that puts the release, built on a day, in front of the matrix.
    pub fn update_on(&self, file: &GHFileContent, date: &str) -> (r: Result<
        Option<MatrixUpdate>,
        OrchestratorError,
    >)
        ensures
            outcome(r) == self@.update_of(file@, date@),
            r matches Ok(Some(update)) ==> self@.reads_back(update@, file@, date@),
    {
        let matrix = match encoding::decode_content_text(&file.content) {
            Ok(matrix) => matrix,
            Err(e) => {
                return Err(e);
            },
        };
        let updated = self.updated_matrix(&matrix, date);
        match encoding::encode_content(&updated) {
            Some(content) => Ok(
                Some(
                    MatrixUpdate {
                        message: "docs: record release ".to_string()
                            .concat(&self.iso_tag)
                            .concat(" in matrix"),
                        content,
                        sha: file.sha.clone(),
                        branch: DEFAULT_BRANCH.to_string(),
                    },
                ),
            ),
            None => Ok(None),
        }
    }

    /// The change that puts the release, built today (in UTC), in front of the
    /// matrix.
    pub fn update(&self, file: &GHFileContent) -> (r: Result<
        Option<MatrixUpdate>,
        OrchestratorError,
    >)
        ensures
            exists|now: Timestamp|
                now.in_calendar() && outcome(r) == self@.update_of(
                    file@,
                    #[trigger] utc_pattern_text(now.secs, now.nanos, "%Y-%m-%d"@),
                ) && (r matches Ok(Some(update)) ==> self@.reads_back(
                    update@,
                    file@,
                    utc_pattern_text(now.secs, now.nanos, "%Y-%m-%d"@),
                )),
    {
        let now = clock::utc_now();
        let date = clock::format_utc(&now, "%Y-%m-%d");
        let r = self.update_on(file, &date);
        assert(date@ == utc_pattern_text(now.secs, now.nanos, "%Y-%m-%d"@));
        r
    }

    /// What the reply to the change means.
    pub fn update_result(&self, status: u16, body: &str) -> (r: Result<(), OrchestratorError>)
        ensures
            outcome(r) == (if is_success(status) {
                Ok::<(), OrchestratorErrorView>(())
            } else {
                Err(
                    OrchestratorErrorView::GitHubApi(
                        self@.iso_tag,
                        "Failed to update release matrix: "@ + body@,
                    ),
                )
            }),
    {
        if status >= 200 && status < 300 {
            Ok(())
        } else {
            Err(
                OrchestratorError::GitHubApi(
                    self.iso_tag.clone(),
                    "Failed to update release matrix: ".to_string().concat(body),
                ),
            )
        }
    }
}

// ── Laws ───────────────────────────────────────────────────────────────────

/// The release of XO Lite that is taken is the first in the list whose tag starts
/// with `xo-lite-v` and that has files: the version is the rest of its tag. There is
/// none exactly if no release is such.
pub proof fn first_finished_release_is_taken(releases: Seq<GHReleaseView>)
    ensures
        match first_xolite_version(releases) {
            Some(version) => exists|i: int|
                0 <= i < releases.len() && (#[trigger] releases[i]).tag_name == "xo-lite-v"@
                    + version && releases[i].assets.len() > 0 && forall|j: int|
                    0 <= j < i ==> !("xo-lite-v"@.is_prefix_of((#[trigger] releases[j]).tag_name)
                        && releases[j].assets.len() > 0),
            None => forall|j: int|
                0 <= j < releases.len() ==> !("xo-lite-v"@.is_prefix_of(
                    (#[trigger] releases[j]).tag_name,
                ) && releases[j].assets.len() > 0),
        },
    decreases releases.len(),
{
    if releases.len() > 0 {
        let first = releases[0];
        if "xo-lite-v"@.is_prefix_of(first.tag_name) && first.assets.len() > 0 {
            let n = "xo-lite-v"@.len() as int;
            assert(first.tag_name =~= "xo-lite-v"@ + first.tag_name.skip(n));
        } else {
            let rest = releases.drop_first();
            first_finished_release_is_taken(rest);
            match first_xolite_version(rest) {
                Some(version) => {
                    let k = choose|i: int|
                        0 <= i < rest.len() && (#[trigger] rest[i]).tag_name == "xo-lite-v"@
                            + version && rest[i].assets.len() > 0 && forall|j: int|
                            0 <= j < i ==> !("xo-lite-v"@.is_prefix_of((#[trigger] rest[j]).tag_name)
                                && rest[j].assets.len() > 0);
                    assert(releases[k + 1] == rest[k]);
                    assert forall|j: int| 0 <= j < k + 1 implies !("xo-lite-v"@.is_prefix_of(
                        (#[trigger] releases[j]).tag_name,
                    ) && releases[j].assets.len() > 0) by {
                        if j > 0 {
                            assert(releases[j] == rest[j - 1]);
                        }
                    }
                },
                None => {
                    assert forall|j: int| 0 <= j < releases.len() implies !(
                    "xo-lite-v"@.is_prefix_of((#[trigger] releases[j]).tag_name)
                        && releases[j].assets.len() > 0) by {
                        if j > 0 {
                            assert(releases[j] == rest[j - 1]);
                        }
                    }
                },
            }
        }
    }
}

/// The version of a package description is the text under its key. Where there is
/// none, or no JSON, that is an error.
pub proof fn package_states_its_version(version: Seq<char>, message: Seq<char>)
    ensures
        package_version_of(Ok(Some(version))) == Ok::<Seq<char>, OrchestratorErrorView>(version),
        package_version_of(Ok(None)) matches Err(OrchestratorErrorView::VersionFormat(_)),
        package_version_of(Err(message)) == Err::<Seq<char>, OrchestratorErrorView>(
            OrchestratorErrorView::Json(message),
        ),
{
}

/// A pin file reads back as the version that it pins, whatever white space stands
/// around the tag; a file that pins none, or that is not UTF-8, is an error.
pub proof fn pin_file_reads_back(
    before: Seq<char>,
    version: Seq<char>,
    after: Seq<char>,
    bytes: Seq<u8>,
)
    requires
        all_white_space(before),
        all_white_space(after),
        version.len() > 0,
        !is_white_space(version.last()),
    ensures
        pin_of(encode_utf8(before + ("xo-lite-v"@ + version) + after)) == Ok::<
            Seq<char>,
            OrchestratorErrorView,
        >(version),
        !valid_utf8(bytes) ==> pin_of(bytes) is Err,
        valid_utf8(bytes) && !"xo-lite-v"@.is_prefix_of(trimmed(decode_utf8(bytes))) ==> pin_of(
            bytes,
        ) is Err,
{
    let content = before + ("xo-lite-v"@ + version) + after;
    encode_utf8_valid_utf8(content);
    encode_utf8_decode_utf8(content);
    tags::pinned_tag_reads_back(before, version, after);
}

proof fn lemma_first_line_with(lines: Seq<Seq<char>>, start: Seq<char>, at: int)
    requires
        0 <= at <= lines.len(),
        at < lines.len() ==> start.is_prefix_of(lines[at]),
        forall|i: int| 0 <= i < at ==> !start.is_prefix_of(#[trigger] lines[i]),
    ensures
        at < lines.len() ==> first_line_with(lines, start) == Some(lines[at]),
        at == lines.len() ==> first_line_with(lines, start) is None,
    decreases lines.len(),
{
    if at > 0 {
        let rest = lines.drop_first();
        assert(!start.is_prefix_of(lines[0]));
        assert forall|i: int| 0 <= i < at - 1 implies !start.is_prefix_of(#[trigger] rest[i]) by {
            assert(rest[i] == lines[i + 1]);
        }
        lemma_first_line_with(rest, start, at - 1);
    }
}

/// The version of a manifest stands in quotes on the first line that starts with
/// `version`. A manifest without such a line, or without quotes on it, states none.
pub proof fn manifest_states_its_version(
    manifest: Seq<char>,
    at: int,
    start: Seq<char>,
    version: Seq<char>,
    end: Seq<char>,
)
    requires
        0 <= at <= text_lines(manifest).len(),
        forall|i: int| 0 <= i < at ==> !"version"@.is_prefix_of(#[trigger] text_lines(manifest)[i]),
        "version"@.is_prefix_of(start),
        forall|i: int| 0 <= i < start.len() ==> start[i] != '"',
        forall|i: int| 0 <= i < version.len() ==> version[i] != '"',
    ensures
        at < text_lines(manifest).len() && text_lines(manifest)[at] == start + "\""@ + version
            + "\""@ + end ==> manifest_version_of(manifest) == Ok::<
            Seq<char>,
            OrchestratorErrorView,
        >(version),
        at < text_lines(manifest).len() && text_lines(manifest)[at] == start ==> manifest_version_of(
            manifest,
        ) is Err,
        at == text_lines(manifest).len() ==> manifest_version_of(manifest) is Err,
{
    reveal_strlit("\"");
    let lines = text_lines(manifest);
    let n = "version"@.len() as int;
    if at == lines.len() {
        lemma_first_line_with(lines, "version"@, at);
    } else if lines[at] == start {
        lemma_first_line_with(lines, "version"@, at);
        lemma_first_position_is(start, '"', start.len() as int);
    } else if lines[at] == start + "\""@ + version + "\""@ + end {
        let line = lines[at];
        assert(line.take(n) =~= start.take(n));
        assert("version"@.is_prefix_of(line)) by {
            assert(line.subrange(0, n) =~= start.subrange(0, n));
        }
        lemma_first_line_with(lines, "version"@, at);
        let s = start.len() as int;
        assert(line[s] == '"');
        assert forall|i: int| 0 <= i < s implies line[i] != '"' by {
            assert(line[i] == start[i]);
        }
        lemma_first_position_is(line, '"', s);
        let rest = line.skip(s + 1);
        assert(rest =~= version + "\""@ + end);
        let v = version.len() as int;
        assert(rest[v] == '"');
        assert forall|i: int| 0 <= i < v implies rest[i] != '"' by {
            assert(rest[i] == version[i]);
        }
        lemma_first_position_is(rest, '"', v);
        assert(rest.take(v) =~= version);
        assert(pieces(line, '"') == seq![line.take(s)] + pieces(rest, '"'));
        assert(pieces(rest, '"') == seq![rest.take(v)] + pieces(rest.skip(v + 1), '"'));
    }
}

/// The entry of a release in the matrix holds its tag, the day, and the version of
/// each component, each under its own key, with a link to the upstream release.
pub proof fn entry_holds_what_went_in(entry: ReleaseEntryView, date: Seq<char>)
    ensures
        has_text(entry.lines(date), "- iso_version: \""@ + entry.iso_tag + "\"\n  build_date: \""@),
        has_text(entry.lines(date), "build_date: \""@ + date + "\"\n"@),
        has_text(
            entry.lines(date),
            "    xolite_ce:\n      version: \""@ + entry.xolite_version + "\"\n"@,
        ),
        has_text(entry.lines(date), "      upstream: \""@ + entry.xolite_upstream + "\"\n"@),
        has_text(
            entry.lines(date),
            "https://github.com/vatesfr/xen-orchestra/releases/tag/xo-lite-v"@
                + entry.xolite_upstream + "\"\n"@,
        ),
        has_text(
            entry.lines(date),
            "    xoa_proxy:\n      version: \""@ + entry.xoa_proxy_version + "\"\n"@,
        ),
{
    reveal_strlit("- iso_version: \"");
    reveal_strlit("\"\n  build_date: \"");
    reveal_strlit("\"\n  ");
    reveal_strlit("build_date: \"");
    reveal_strlit("\"\n  components:\n    xolite_ce:\n      version: \"");
    reveal_strlit("\"\n");
    reveal_strlit("  components:\n    xolite_ce:\n      version: \"");
    reveal_strlit("\"\n  components:\n");
    reveal_strlit("    xolite_ce:\n      version: \"");
    reveal_strlit("\"\n      upstream: \"");
    reveal_strlit("      upstream: \"");
    reveal_strlit(
        "\"\n      upstream_url: \"https://github.com/vatesfr/xen-orchestra/releases/tag/xo-lite-v",
    );
    reveal_strlit(
        "      upstream_url: \"https://github.com/vatesfr/xen-orchestra/releases/tag/xo-lite-v",
    );
    reveal_strlit("\"\n      upstream_url: \"");
    reveal_strlit("https://github.com/vatesfr/xen-orchestra/releases/tag/xo-lite-v");
    reveal_strlit("\"\n    xoa_proxy:\n      version: \"");
    reveal_strlit("    xoa_proxy:\n      version: \"");
    let a = "- iso_version: \""@;
    let b = "\"\n  build_date: \""@;
    let c = "\"\n  components:\n    xolite_ce:\n      version: \""@;
    let d = "\"\n      upstream: \""@;
    let e = "\"\n      upstream_url: \"https://github.com/vatesfr/xen-orchestra/releases/tag/xo-lite-v"@;
    let f = "\"\n    xoa_proxy:\n      version: \""@;
    let g = "\"\n"@;
    let up = entry.xolite_upstream;
    assert(b =~= "\"\n  "@ + "build_date: \""@);
    assert(c =~= g + "  components:\n    xolite_ce:\n      version: \""@);
    assert(c =~= "\"\n  components:\n"@ + "    xolite_ce:\n      version: \""@);
    assert(d =~= g + "      upstream: \""@);
    assert(e =~= g
        + "      upstream_url: \"https://github.com/vatesfr/xen-orchestra/releases/tag/xo-lite-v"@);
    assert(e =~= "\"\n      upstream_url: \""@
        + "https://github.com/vatesfr/xen-orchestra/releases/tag/xo-lite-v"@);
    assert(f =~= g + "    xoa_proxy:\n      version: \""@);
    lemma_entry_parts(entry, date, a, b, c, d, e, f, g);
    let whole = entry.lines(date);
    lemma_inner(whole, Seq::empty(), a, entry.iso_tag, b, Seq::empty());
    lemma_inner(
        whole,
        "\"\n  "@,
        "build_date: \""@,
        date,
        g,
        "  components:\n    xolite_ce:\n      version: \""@,
    );
    lemma_inner(
        whole,
        "\"\n  components:\n"@,
        "    xolite_ce:\n      version: \""@,
        entry.xolite_version,
        g,
        "      upstream: \""@,
    );
    lemma_inner(
        whole,
        g,
        "      upstream: \""@,
        up,
        g,
        "      upstream_url: \"https://github.com/vatesfr/xen-orchestra/releases/tag/xo-lite-v"@,
    );
    lemma_inner(
        whole,
        "\"\n      upstream_url: \""@,
        "https://github.com/vatesfr/xen-orchestra/releases/tag/xo-lite-v"@,
        up,
        g,
        "    xoa_proxy:\n      version: \""@,
    );
    lemma_inner(
        whole,
        g,
        "    xoa_proxy:\n      version: \""@,
        entry.xoa_proxy_version,
        g,
        Seq::empty(),
    );
}

/// What stands around a value stands around it in a longer text as well.
proof fn lemma_inner(
    whole: Seq<char>,
    x: Seq<char>,
    start: Seq<char>,
    value: Seq<char>,
    end: Seq<char>,
    y: Seq<char>,
)
    requires
        has_text(whole, (x + start) + value + (end + y)),
    ensures
        has_text(whole, start + value + end),
{
    let part = (x + start) + value + (end + y);
    let p = start + value + end;
    let i = choose|i: int| occurs_at(whole, part, i);
    let n = x.len() as int;
    assert(part.subrange(n, n + p.len()) =~= p);
    assert(whole.subrange(i + n, i + n + p.len()) =~= whole.subrange(i, i + part.len()).subrange(
        n,
        n + p.len(),
    ));
    assert(occurs_at(whole, p, i + n));
}

/// The parts of an entry, each value with what stands around it.
proof fn lemma_entry_parts(
    entry: ReleaseEntryView,
    date: Seq<char>,
    a: Seq<char>,
    b: Seq<char>,
    c: Seq<char>,
    d: Seq<char>,
    e: Seq<char>,
    f: Seq<char>,
    g: Seq<char>,
)
    requires
        entry.lines(date) == a + entry.iso_tag + b + date + c + entry.xolite_version + d
            + entry.xolite_upstream + e + entry.xolite_upstream + f + entry.xoa_proxy_version + g,
    ensures
        has_text(entry.lines(date), (Seq::empty() + a) + entry.iso_tag + (b + Seq::empty())),
        has_text(entry.lines(date), b + date + c),
        has_text(entry.lines(date), c + entry.xolite_version + d),
        has_text(entry.lines(date), d + entry.xolite_upstream + e),
        has_text(entry.lines(date), e + entry.xolite_upstream + f),
        has_text(entry.lines(date), f + entry.xoa_proxy_version + (g + Seq::empty())),
{
    let none = Seq::<char>::empty();
    let up = entry.xolite_upstream;
    let p0 = Seq::<Seq<char>>::empty().push(a);
    lemma_concatenated_push(Seq::empty(), a);
    assert(none + a =~= a);
    let p1 = p0.push(entry.iso_tag);
    lemma_concatenated_push(p0, entry.iso_tag);
    let p2 = p1.push(b);
    lemma_concatenated_push(p1, b);
    let p3 = p2.push(date);
    lemma_concatenated_push(p2, date);
    let p4 = p3.push(c);
    lemma_concatenated_push(p3, c);
    let p5 = p4.push(entry.xolite_version);
    lemma_concatenated_push(p4, entry.xolite_version);
    let p6 = p5.push(d);
    lemma_concatenated_push(p5, d);
    let p7 = p6.push(up);
    lemma_concatenated_push(p6, up);
    let p8 = p7.push(e);
    lemma_concatenated_push(p7, e);
    let p9 = p8.push(up);
    lemma_concatenated_push(p8, up);
    let p10 = p9.push(f);
    lemma_concatenated_push(p9, f);
    let p11 = p10.push(entry.xoa_proxy_version);
    lemma_concatenated_push(p10, entry.xoa_proxy_version);
    let p12 = p11.push(g);
    lemma_concatenated_push(p11, g);
    lemma_concatenated_has_three(p12, 0);
    lemma_concatenated_has_three(p12, 2);
    lemma_concatenated_has_three(p12, 4);
    lemma_concatenated_has_three(p12, 6);
    lemma_concatenated_has_three(p12, 8);
    lemma_concatenated_has_three(p12, 10);
    assert(none + a =~= a);
    assert(b + none =~= b);
    assert(g + none =~= g);
}

/// The updated matrix is the entry, line for line, and then the old matrix as it
/// was: nothing of it is lost or changed. It ends the entry with a line break.
pub proof fn matrix_is_kept_behind_the_entry(
    entry: ReleaseEntryView,
    date: Seq<char>,
    matrix: Seq<char>,
)
    ensures
        entry.in_front_of(date, matrix) == entry.lines(date) + matrix,
        matrix.is_suffix_of(entry.in_front_of(date, matrix)),
        entry.lines(date).is_prefix_of(entry.in_front_of(date, matrix)),
        text_lines(entry.in_front_of(date, matrix)) == text_lines(entry.lines(date)) + text_lines(
            matrix,
        ),
{
    reveal_strlit("\"\n");
    reveal_strlit("\n");
    let lines = entry.lines(date);
    let n = lines.len() as int;
    assert(lines[n - 1] == '\n');
    assert(lines[n - 2] == '"');
    let cut = lines.drop_last();
    assert(cut.last() == '"');
    assert(!is_white_space('"'));
    assert(is_white_space('\n'));
    assert(trimmed_end(cut) == cut);
    assert(trimmed_end(lines) == cut);
    assert(cut + "\n"@ =~= lines);
    let whole = entry.in_front_of(date, matrix);
    assert(whole.subrange(whole.len() - matrix.len(), whole.len() as int) =~= matrix);
    assert(whole.subrange(0, n) =~= lines);
    lines_of_both(lines, matrix);
}

/// The change of the matrix replaces the file that was read, on the default branch,
/// and says which release it records. Where the file cannot be read there is none.
pub proof fn change_replaces_what_was_read(
    entry: ReleaseEntryView,
    file: GHFileContentView,
    date: Seq<char>,
)
    ensures
        match entry.update_of(file, date) {
            Ok(Some(update)) => {
                &&& update.sha == file.sha
                &&& update.branch == DEFAULT_BRANCH@
                &&& has_text(update.message, entry.iso_tag)
                &&& content_text(file.content) is Ok
                &&& update.content == base64_encoded(
                    encode_utf8(entry.lines(date) + content_text(file.content)->Ok_0),
                )
            },
            Ok(None) => content_text(file.content) is Ok && !can_encode(
                encode_utf8(entry.lines(date) + content_text(file.content)->Ok_0).len(),
            ),
            Err(e) => content_text(file.content) == Err::<Seq<char>, OrchestratorErrorView>(e),
        },
{
    lemma_has_part("docs: record release "@, entry.iso_tag, " in matrix"@);
    if let Ok(matrix) = content_text(file.content) {
        matrix_is_kept_behind_the_entry(entry, date, matrix);
    }
}

/// Where the versions are read: the package of a release of XO Lite under its tag, the
/// pin, the manifest and the release matrix on the main branches of their repositories.
pub proof fn files_are_read_where_they_are(upstream_tag: Seq<char>)
    ensures
        package_url_text(upstream_tag)
            == "https://api.github.com/repos/vatesfr/xen-orchestra/contents/@xen-orchestra/lite/package.json?ref="@
            + ("xo-lite-v"@ + upstream_tag),
        has_text(package_context_text(upstream_tag), upstream_tag),
        pin_url_text()
            == "https://api.github.com/repos/Vagrantin/xolite-ce/contents/UPSTREAM_TAG?ref=main"@,
        cargo_url_text()
            == "https://api.github.com/repos/Vagrantin/xoa-proxy/contents/Cargo.toml?ref=main"@,
        matrix_url_text()
            == "https://api.github.com/repos/Vagrantin/xcp-hl/contents/docs/_data/releases.yml"@,
{
    reveal_strlit(
        "https://api.github.com/repos/vatesfr/xen-orchestra/contents/@xen-orchestra/lite/package.json?ref=xo-lite-v",
    );
    reveal_strlit(
        "https://api.github.com/repos/vatesfr/xen-orchestra/contents/@xen-orchestra/lite/package.json?ref=",
    );
    reveal_strlit("xo-lite-v");
    assert("https://api.github.com/repos/vatesfr/xen-orchestra/contents/@xen-orchestra/lite/package.json?ref=xo-lite-v"@
        =~= "https://api.github.com/repos/vatesfr/xen-orchestra/contents/@xen-orchestra/lite/package.json?ref="@
        + "xo-lite-v"@);
    assert(package_url_text(upstream_tag)
        =~= "https://api.github.com/repos/vatesfr/xen-orchestra/contents/@xen-orchestra/lite/package.json?ref="@
        + ("xo-lite-v"@ + upstream_tag));
    text::lemma_has_tail("fetch_upstream_xolite_version for tag xo-lite-v"@, upstream_tag);
    reveal_strlit("https://api.github.com/repos/");
    reveal_strlit("Vagrantin");
    reveal_strlit("main");
    reveal_strlit("/xolite-ce/contents/UPSTREAM_TAG?ref=");
    reveal_strlit("https://api.github.com/repos/Vagrantin/xolite-ce/contents/UPSTREAM_TAG?ref=main");
    assert(pin_url_text()
        =~= "https://api.github.com/repos/Vagrantin/xolite-ce/contents/UPSTREAM_TAG?ref=main"@);
    reveal_strlit("/xoa-proxy/contents/Cargo.toml?ref=");
    reveal_strlit("https://api.github.com/repos/Vagrantin/xoa-proxy/contents/Cargo.toml?ref=main");
    assert(cargo_url_text()
        =~= "https://api.github.com/repos/Vagrantin/xoa-proxy/contents/Cargo.toml?ref=main"@);
    reveal_strlit("/");
    reveal_strlit("xcp-hl");
    reveal_strlit("/contents/");
    reveal_strlit("docs/_data/releases.yml");
    reveal_strlit("https://api.github.com/repos/Vagrantin/xcp-hl/contents/docs/_data/releases.yml");
    assert(matrix_url_text()
        =~= "https://api.github.com/repos/Vagrantin/xcp-hl/contents/docs/_data/releases.yml"@);
}

} // verus!
