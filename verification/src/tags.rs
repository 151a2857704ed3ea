//! Release tags: how they are read, written and counted up.
//!
//! Two schemes are in use. xolite-ce and xcp-ng-ce-iso carry a `-ceN` suffix
//! (`v0.21.0-ce6`). xoa-proxy carries plain versions (`v0.1.1`), to which a
//! fourth numeric segment is added as a counter (`v0.1.1.3`). The VM images of
//! xoa-hl have tags of their own (`xoa-image-20260713-cb65556`).

use crate::clock;
use crate::clock::{utc_pattern_text, Timestamp};
use crate::text;
use crate::text::{
    all_digits, all_white_space, can_cut, decimal, decimal_is_digits, digits_value,
    first_position, head_len, head_text, is_digit, is_white_space, joined, last_position,
    lemma_first_position, lemma_first_position_is, lemma_last_position, lemma_last_position_is,
    number, number_reads_decimal, occurs_at, pieces, trimmed, trimming_undoes_padding,
};
use crate::types::{ReleaseInfo, ReleaseInfoView};
use vstd::prelude::*;
use vstd::utf8::{
    encode_utf8, encode_utf8_decode_utf8, is_ascii_chars, is_ascii_chars_encode_utf8,
    is_char_boundary,
};

verus! {

// ── The `-ceN` scheme ──────────────────────────────────────────────────────

/// The version and the counter of a `v{version}-ce{N}` tag.
pub open spec fn ce_tag_parts(tag: Seq<char>) -> Option<(Seq<char>, u32)> {
    let body = tag.skip(1);
    let at = last_position(body, "-ce"@);
    if "v"@.is_prefix_of(tag) && at > 0 {
        match number(body.skip(at + "-ce"@.len()), u32::MAX as nat) {
            Some(n) => Some((body.take(at), n as u32)),
            None => None,
        }
    } else {
        None
    }
}

/// The tag `v{version}-ce{N}`.
pub open spec fn ce_tag_text(version: Seq<char>, counter: u32) -> Seq<char> {
    "v"@ + version + "-ce"@ + decimal(counter as nat)
}

/// Reads a `v{version}-ce{N}` tag, e.g. `v0.21.0-ce6` as `("0.21.0", 6)`.
pub fn parse_ce_tag(tag: &str) -> (parts: Option<(String, u32)>)
    ensures
        parts.deep_view() == ce_tag_parts(tag@),
{
    proof {
        reveal_strlit("v");
    }
    let body = match text::strip_prefix(tag, "v") {
        Some(body) => body,
        None => {
            return None;
        },
    };
    proof {
        lemma_last_position(body@, "-ce"@);
    }
    let (version, counter) = match text::split_at_last(&body, "-ce") {
        Some(found) => found,
        None => {
            return None;
        },
    };
    match text::parse_u32(&counter) {
        Some(n) => if version.as_str().is_empty() {
            None
        } else {
            Some((version, n))
        },
        None => None,
    }
}

/// Writes the tag `v{version}-ce{N}`.
pub fn ce_tag(version: &str, counter: u32) -> (tag: String)
    ensures
        tag@ == ce_tag_text(version@, counter),
{
    let mut tag = "v".to_string();
    tag.append(version);
    tag.append("-ce");
    tag.append(&text::decimal_of(counter as u64));
    tag
}

// ── The plain scheme ───────────────────────────────────────────────────────

/// The dotted segments of a `v...` tag, if each of them is a run of digits.
pub open spec fn plain_segments(tag: Seq<char>) -> Option<Seq<Seq<char>>> {
    let segments = pieces(tag.skip(1), '.');
    if "v"@.is_prefix_of(tag) && (forall|i: int|
        0 <= i < segments.len() ==> (#[trigger] segments[i]).len() > 0 && all_digits(segments[i])) {
        Some(segments)
    } else {
        None
    }
}

/// The version and the counter of a `v{X.Y.Z}` or `v{X.Y.Z.N}` tag.
pub open spec fn plain_tag_parts(tag: Seq<char>) -> Option<(Seq<char>, u32)> {
    match plain_segments(tag) {
        Some(segments) => if segments.len() == 3 {
            Some((joined(segments, "."@), 0u32))
        } else if segments.len() == 4 {
            match number(segments[3], u32::MAX as nat) {
                Some(n) => Some((joined(segments.take(3), "."@), n as u32)),
                None => None,
            }
        } else {
            None
        },
        None => None,
    }
}

/// The tag `v{version}`.
pub open spec fn plain_tag_text(version: Seq<char>) -> Seq<char> {
    "v"@ + version
}

/// The tag `v{version}.{N}`.
pub open spec fn counted_tag_text(version: Seq<char>, counter: u32) -> Seq<char> {
    "v"@ + version + "."@ + decimal(counter as nat)
}

/// The dotted segments of a `v...` tag, if each of them is a run of digits.
fn segments_of(tag: &str) -> (found: Option<Vec<String>>)
    ensures
        found.deep_view() == plain_segments(tag@),
{
    proof {
        reveal_strlit("v");
    }
    let body = match text::strip_prefix(tag, "v") {
        Some(body) => body,
        None => {
            return None;
        },
    };
    let segments = text::split(&body, '.');
    let ghost all = segments.deep_view();
    #[verifier::loop_isolation(false)]
    for i in 0..segments.len()
        invariant
            all == segments.deep_view(),
            forall|j: int|
                0 <= j < i ==> (#[trigger] all[j]).len() > 0 && all_digits(all[j]),
    {
        assert(all[i as int] == segments@[i as int]@);
        if segments[i].as_str().is_empty() || !text::only_digits(&segments[i]) {
            return None;
        }
    }
    Some(segments)
}

/// The first three segments with dots between them.
fn first_three(segments: &Vec<String>) -> (version: String)
    requires
        segments@.len() >= 3,
    ensures
        version@ == joined(segments.deep_view().take(3), "."@),
{
    let mut three: Vec<String> = Vec::new();
    three.push(segments[0].clone());
    three.push(segments[1].clone());
    three.push(segments[2].clone());
    assert(three.deep_view() =~= segments.deep_view().take(3));
    text::join(&three, ".")
}

/// Reads a plain tag, e.g. `v0.1.1` as `("0.1.1", 0)` and `v0.1.1.3` as
/// `("0.1.1", 3)`.
pub fn parse_plain_version_tag(tag: &str) -> (parts: Option<(String, u32)>)
    ensures
        parts.deep_view() == plain_tag_parts(tag@),
{
    let segments = match segments_of(tag) {
        Some(segments) => segments,
        None => {
            return None;
        },
    };
    let ghost all = segments.deep_view();
    if segments.len() == 3 {
        assert(all.take(3) =~= all);
        Some((first_three(&segments), 0))
    } else if segments.len() == 4 {
        assert(all[3] == segments@[3]@);
        match text::parse_u32(&segments[3]) {
            Some(n) => Some((first_three(&segments), n)),
            None => None,
        }
    } else {
        None
    }
}

/// Writes the tag `v{version}`.
pub fn plain_tag(version: &str) -> (tag: String)
    ensures
        tag@ == plain_tag_text(version@),
{
    "v".to_string().concat(version)
}

/// Writes the tag `v{version}.{N}`.
pub fn counted_tag(version: &str, counter: u32) -> (tag: String)
    ensures
        tag@ == counted_tag_text(version@, counter),
{
    let mut tag = "v".to_string();
    tag.append(version);
    tag.append(".");
    tag.append(&text::decimal_of(counter as u64));
    tag
}

// ── The next tag after a collision ─────────────────────────────────────────

/// The counter that a tag carries: after its last `-ce`, or else as a fourth
/// plain segment.
pub open spec fn tag_counter(tag: Seq<char>) -> Option<u32> {
    let at = last_position(tag, "-ce"@);
    if at >= 0 {
        match number(tag.skip(at + "-ce"@.len()), u32::MAX as nat) {
            Some(n) => Some(n as u32),
            None => None,
        }
    } else {
        match plain_segments(tag) {
            Some(segments) => if segments.len() == 4 {
                match number(segments[3], u32::MAX as nat) {
                    Some(n) => Some(n as u32),
                    None => None,
                }
            } else {
                None
            },
            None => None,
        }
    }
}

/// The tag to try when `tag` is taken: the next `-ceN`, or the next plain
/// counter; `None` when the tag follows neither scheme.
pub open spec fn next_tag(tag: Seq<char>) -> Option<Seq<char>> {
    let at = last_position(tag, "-ce"@);
    if at >= 0 {
        match tag_counter(tag) {
            Some(n) => Some(tag.take(at) + "-ce"@ + decimal((n + 1) as nat)),
            None => None,
        }
    } else {
        match plain_segments(tag) {
            Some(segments) => if segments.len() == 3 {
                Some(tag + ".1"@)
            } else if segments.len() == 4 {
                match tag_counter(tag) {
                    Some(n) => Some(
                        "v"@ + joined(segments.take(3), "."@) + "."@ + decimal((n + 1) as nat),
                    ),
                    None => None,
                }
            } else {
                None
            },
            None => None,
        }
    }
}

/// How many collisions a tag stands for: its counter, and none for a plain
/// version without one. `None` when the tag follows neither scheme.
pub open spec fn collision_count(tag: Seq<char>) -> Option<u32> {
    match plain_segments(tag) {
        Some(segments) => if last_position(tag, "-ce"@) < 0 && segments.len() == 3 {
            Some(0)
        } else {
            tag_counter(tag)
        },
        None => tag_counter(tag),
    }
}

/// The counter that a tag carries.
pub fn counter_of_tag(tag: &str) -> (counter: Option<u32>)
    ensures
        counter == tag_counter(tag@),
{
    proof {
        lemma_last_position(tag@, "-ce"@);
    }
    match text::split_at_last(tag, "-ce") {
        Some((_, counter)) => text::parse_u32(&counter),
        None => match segments_of(tag) {
            Some(segments) => if segments.len() == 4 {
                assert(segments.deep_view()[3] == segments@[3]@);
                text::parse_u32(&segments[3])
            } else {
                None
            },
            None => None,
        },
    }
}

/// The next tag to try when `tag` already exists on the remote.
///
/// - `-ceN` suffix: `v0.23.0-ce1` gives `v0.23.0-ce2`.
/// - Plain version: `v0.1.1` gives `v0.1.1.1`, and `v0.1.1.2` gives `v0.1.1.3`.
///
/// `None` when the tag follows neither scheme. A counter at the top of its
/// range has no successor.
pub fn next_tag_candidate(tag: &str) -> (next: Option<String>)
    requires
        tag_counter(tag@) != Some(u32::MAX),
    ensures
        next.deep_view() == next_tag(tag@),
{
    proof {
        lemma_last_position(tag@, "-ce"@);
    }
    if let Some((before, counter)) = text::split_at_last(tag, "-ce") {
        return match text::parse_u32(&counter) {
            Some(n) => {
                let mut next = before;
                next.append("-ce");
                next.append(&text::decimal_of((n + 1) as u64));
                Some(next)
            },
            None => None,
        };
    }
    let segments = match segments_of(tag) {
        Some(segments) => segments,
        None => {
            return None;
        },
    };
    if segments.len() == 3 {
        Some(tag.to_string().concat(".1"))
    } else if segments.len() == 4 {
        assert(segments.deep_view()[3] == segments@[3]@);
        match text::parse_u32(&segments[3]) {
            Some(n) => {
                let mut next = "v".to_string();
                next.append(&first_three(&segments));
                next.append(".");
                next.append(&text::decimal_of((n + 1) as u64));
                Some(next)
            },
            None => None,
        }
    } else {
        None
    }
}

// ── The pin of xolite-ce ───────────────────────────────────────────────────

/// The version that a pin file names: what follows `xo-lite-v` on its own.
pub open spec fn pinned_version(content: Seq<char>) -> Option<Seq<char>> {
    let pin = trimmed(content);
    if "xo-lite-v"@.is_prefix_of(pin) && pin.len() > "xo-lite-v"@.len() {
        Some(pin.skip("xo-lite-v"@.len() as int))
    } else {
        None
    }
}

/// Reads the UPSTREAM_TAG pin of xolite-ce: `xo-lite-v0.21.0` as `0.21.0`.
pub fn parse_pinned_xolite_tag(content: &str) -> (version: Option<String>)
    ensures
        version.deep_view() == pinned_version(content@),
{
    let pin = text::trim(content);
    match text::strip_prefix(&pin, "xo-lite-v") {
        Some(version) => if version.as_str().is_empty() {
            None
        } else {
            Some(version)
        },
        None => None,
    }
}

// ── VM images ──────────────────────────────────────────────────────────────

/// Tag prefix that tells the VM-image releases of xoa-hl from its RPM releases.
pub const IMAGE_TAG_PREFIX: &'static str = "xoa-image-";

/// How many bytes of a commit SHA name it in short.
pub const SHORT_SHA_LEN: usize = 7;

/// A SHA can be cut after its first bytes.
pub open spec fn can_shorten(sha: Seq<char>) -> bool {
    can_cut(sha, SHORT_SHA_LEN)
}

/// The first bytes of a SHA.
pub open spec fn short_sha_text(sha: Seq<char>) -> Seq<char> {
    head_text(sha, SHORT_SHA_LEN)
}

/// Whether a SHA can be cut after its first bytes. One that GitHub gives can.
pub fn has_short_form(sha: &str) -> (yes: bool)
    ensures
        yes == can_shorten(sha@),
{
    text::has_head(sha, SHORT_SHA_LEN)
}

/// The first seven bytes of a SHA, or all of it if it is shorter.
pub fn short_sha(sha: &str) -> (short: String)
    requires
        can_shorten(sha@),
    ensures
        short@ == short_sha_text(sha@),
{
    text::head(sha, SHORT_SHA_LEN)
}

/// The tag of the image built from a commit on a day.
pub open spec fn image_tag_text(date: Seq<char>, sha: Seq<char>) -> Seq<char> {
    IMAGE_TAG_PREFIX@ + date + "-"@ + short_sha_text(sha)
}

/// The tag of the image built from a commit on a day.
pub fn image_tag(date: &str, head_sha: &str) -> (tag: String)
    requires
        can_shorten(head_sha@),
    ensures
        tag@ == image_tag_text(date@, head_sha@),
{
    let mut tag = IMAGE_TAG_PREFIX.to_string();
    tag.append(date);
    tag.append("-");
    tag.append(&short_sha(head_sha));
    tag
}

/// The tag of an image that is built from a commit today (in UTC).
pub fn generate_image_tag(head_sha: &str) -> (tag: String)
    requires
        can_shorten(head_sha@),
    ensures
        exists|now: Timestamp|
            now.in_calendar() && tag@ == image_tag_text(
                #[trigger] utc_pattern_text(now.secs, now.nanos, "%Y%m%d"@),
                head_sha@,
            ),
{
    let now = clock::utc_now();
    let date = clock::format_utc(&now, "%Y%m%d");
    image_tag(&date, head_sha)
}

/// A file name is that of a VM image.
pub open spec fn is_xva_text(name: Seq<char>) -> bool {
    ".xva"@.is_suffix_of(name) || ".xva.gz"@.is_suffix_of(name)
}

/// The release carries the published VM image of a commit: its tag has the
/// image prefix and ends in the short SHA, and the image is among its assets.
pub open spec fn is_image_release(release: ReleaseInfoView, short: Seq<char>) -> bool {
    &&& IMAGE_TAG_PREFIX@.is_prefix_of(release.tag_name)
    &&& ("-"@ + short).is_suffix_of(release.tag_name)
    &&& exists|i: int|
        0 <= i < release.assets.len() && is_xva_text((#[trigger] release.assets[i]).name)
}

/// Whether a file name is that of a VM image.
pub fn is_xva_name(name: &str) -> (yes: bool)
    ensures
        yes == is_xva_text(name@),
{
    text::ends_with(name, ".xva") || text::ends_with(name, ".xva.gz")
}

/// Whether the release carries the published VM image of the given commit. A
/// release whose upload failed does not count.
pub fn is_image_release_for(release: &ReleaseInfo, short_sha: &str) -> (yes: bool)
    ensures
        yes == is_image_release(release@, short_sha@),
{
    if !text::starts_with(&release.tag_name, IMAGE_TAG_PREFIX) || !text::ends_with(
        &release.tag_name,
        &"-".to_string().concat(short_sha),
    ) {
        return false;
    }
    let ghost assets = release.assets.deep_view();
    #[verifier::loop_isolation(false)]
    for i in 0..release.assets.len()
        invariant
            assets == release.assets.deep_view(),
            forall|j: int| 0 <= j < i ==> !is_xva_text((#[trigger] assets[j]).name),
    {
        assert(assets[i as int] == release.assets@[i as int]@);
        if is_xva_name(&release.assets[i].name) {
            assert(is_xva_text(release@.assets[i as int].name));
            return true;
        }
    }
    false
}

// ── Laws ───────────────────────────────────────────────────────────────────

/// `-ce` followed by digits at the end of a text is its last `-ce`.
proof fn lemma_ce_before_digits(head: Seq<char>, digits: Seq<char>)
    requires
        all_digits(digits),
    ensures
        last_position(head + "-ce"@ + digits, "-ce"@) == head.len(),
        (head + "-ce"@ + digits).take(head.len() as int) == head,
        (head + "-ce"@ + digits).skip(head.len() as int + "-ce"@.len()) == digits,
{
    reveal_strlit("-ce");
    let s = head + "-ce"@ + digits;
    let h = head.len() as int;
    assert(s.subrange(h, h + 3) =~= "-ce"@);
    assert forall|j: int| h < j implies !occurs_at(s, "-ce"@, j) by {
        if occurs_at(s, "-ce"@, j) {
            assert(s.subrange(j, j + 3)[0] == '-');
            assert(s[j] == '-');
            if j >= h + 3 {
                assert(s[j] == digits[j - h - 3]);
                assert(is_digit(digits[j - h - 3]));
            } else if j == h + 1 {
                assert(s[j] == "-ce"@[1]);
            } else {
                assert(s[j] == "-ce"@[2]);
            }
        }
    }
    lemma_last_position_is(s, "-ce"@, h);
    assert(s.take(h) =~= head);
    assert(s.skip(h + 3) =~= digits);
}

/// A `v{version}-ce{N}` tag reads back as its version and its counter.
pub proof fn ce_tag_reads_back(version: Seq<char>, counter: u32)
    requires
        version.len() > 0,
    ensures
        ce_tag_parts(ce_tag_text(version, counter)) == Some((version, counter)),
{
    reveal_strlit("v");
    let digits = decimal(counter as nat);
    let tag = ce_tag_text(version, counter);
    decimal_is_digits(counter as nat);
    number_reads_decimal(counter as nat, u32::MAX as nat);
    lemma_ce_before_digits(version, digits);
    assert(tag.skip(1) =~= version + "-ce"@ + digits);
    assert(tag.subrange(0, 1) =~= "v"@);
}

/// What the `-ceN` reader takes apart carries the same counter for the search
/// of a free tag.
proof fn lemma_ce_parts_counter(tag: Seq<char>)
    requires
        ce_tag_parts(tag) is Some,
    ensures
        last_position(tag, "-ce"@) == last_position(tag.skip(1), "-ce"@) + 1,
        tag_counter(tag) == Some((ce_tag_parts(tag)->0).1),
        tag.take(last_position(tag, "-ce"@)) == "v"@ + (ce_tag_parts(tag)->0).0,
{
    reveal_strlit("v");
    reveal_strlit("-ce");
    let body = tag.skip(1);
    let at = last_position(body, "-ce"@);
    lemma_last_position(body, "-ce"@);
    assert(tag.subrange(0, 1)[0] == 'v');
    assert(body.subrange(at, at + 3) =~= tag.subrange(at + 1, at + 4));
    assert forall|j: int| at + 1 < j implies !occurs_at(tag, "-ce"@, j) by {
        if occurs_at(tag, "-ce"@, j) {
            assert(body.subrange(j - 1, j + 2) =~= tag.subrange(j, j + 3));
            assert(occurs_at(body, "-ce"@, j - 1));
        }
    }
    lemma_last_position_is(tag, "-ce"@, at + 1);
    assert(tag.skip(at + 1 + 3) =~= body.skip(at + 3));
    assert(tag.take(at + 1) =~= "v"@ + body.take(at));
}

/// After a collision, a `-ceN` tag keeps its version and counts up by one.
pub proof fn next_ce_tag_counts_up(tag: Seq<char>)
    requires
        ce_tag_parts(tag) is Some,
        (ce_tag_parts(tag)->0).1 < u32::MAX,
    ensures
        next_tag(tag) is Some,
        ce_tag_parts(next_tag(tag)->0) == Some(
            ((ce_tag_parts(tag)->0).0, ((ce_tag_parts(tag)->0).1 + 1) as u32),
        ),
{
    let (version, n) = ce_tag_parts(tag)->0;
    lemma_ce_parts_counter(tag);
    lemma_last_position(tag.skip(1), "-ce"@);
    assert(next_tag(tag)->0 =~= ce_tag_text(version, (n + 1) as u32));
    ce_tag_reads_back(version, (n + 1) as u32);
}

/// Cutting at a separator that a text does not hold gives the text back.
pub proof fn lemma_pieces_none(s: Seq<char>, c: char)
    requires
        forall|i: int| 0 <= i < s.len() ==> s[i] != c,
    ensures
        pieces(s, c) == seq![s],
{
    lemma_first_position_is(s, c, s.len() as int);
}

/// Cutting a text after which a separator and a last piece were put gives the
/// pieces of the text and that piece.
pub proof fn lemma_pieces_push(s: Seq<char>, c: char, last: Seq<char>)
    requires
        forall|i: int| 0 <= i < last.len() ==> last[i] != c,
    ensures
        pieces(s + seq![c] + last, c) == pieces(s, c).push(last),
    decreases s.len(),
{
    let whole = s + seq![c] + last;
    let i = first_position(s, c) as int;
    lemma_first_position(s, c);
    assert(whole[i] == c);
    assert forall|j: int| 0 <= j < i implies whole[j] != c by {
        assert(whole[j] == s[j]);
    }
    lemma_first_position_is(whole, c, i);
    assert(whole.take(i) =~= s.take(i));
    if i >= s.len() {
        assert(whole.skip(i + 1) =~= last);
        assert(s.take(i) =~= s);
        lemma_pieces_none(last, c);
        assert(seq![s] + seq![last] =~= seq![s].push(last));
    } else {
        assert(whole.skip(i + 1) =~= s.skip(i + 1) + seq![c] + last);
        lemma_pieces_push(s.skip(i + 1), c, last);
        assert(seq![s.take(i)] + pieces(s.skip(i + 1), c).push(last) =~= (seq![s.take(i)] + pieces(
            s.skip(i + 1),
            c,
        )).push(last));
    }
}

/// A first part stands before what joins the others.
proof fn lemma_joined_cons(first: Seq<char>, rest: Seq<Seq<char>>, sep: Seq<char>)
    requires
        rest.len() > 0,
    ensures
        joined(seq![first] + rest, sep) == first + sep + joined(rest, sep),
    decreases rest.len(),
{
    let all = seq![first] + rest;
    assert(all.last() == rest.last());
    assert(all.drop_last() =~= seq![first] + rest.drop_last());
    if rest.len() == 1 {
        assert(rest.drop_last() =~= Seq::<Seq<char>>::empty());
        assert(all.drop_last() =~= seq![first]);
        assert(joined(seq![first], sep) == first);
        assert(joined(all, sep) =~= first + sep + rest[0]);
    } else {
        lemma_joined_cons(first, rest.drop_last(), sep);
        assert(joined(all, sep) =~= first + sep + joined(rest, sep));
    }
}

/// Joining the pieces of a text with the separator gives the text back.
pub proof fn joined_pieces(s: Seq<char>, c: char)
    ensures
        joined(pieces(s, c), seq![c]) == s,
        pieces(s, c).len() > 0,
    decreases s.len(),
{
    let i = first_position(s, c) as int;
    lemma_first_position(s, c);
    if i < s.len() {
        joined_pieces(s.skip(i + 1), c);
        lemma_joined_cons(s.take(i), pieces(s.skip(i + 1), c), seq![c]);
        assert(s =~= s.take(i) + seq![c] + s.skip(i + 1));
    }
}

/// The tags of a version of three numbers, without a counter and with one, read
/// back as the version and the counter.
pub proof fn plain_tags_read_back(version: Seq<char>, counter: u32)
    requires
        plain_segments(plain_tag_text(version)) is Some,
        plain_segments(plain_tag_text(version))->0.len() == 3,
    ensures
        plain_tag_parts(plain_tag_text(version)) == Some((version, 0u32)),
        plain_tag_parts(counted_tag_text(version, counter)) == Some((version, counter)),
        plain_segments(counted_tag_text(version, counter)) == Some(
            plain_segments(plain_tag_text(version))->0.push(decimal(counter as nat)),
        ),
{
    reveal_strlit("v");
    reveal_strlit(".");
    let digits = decimal(counter as nat);
    let plain = plain_tag_text(version);
    let tag = counted_tag_text(version, counter);
    decimal_is_digits(counter as nat);
    number_reads_decimal(counter as nat, u32::MAX as nat);
    assert("."@ =~= seq!['.']);
    assert(plain.skip(1) =~= version);
    assert(tag.skip(1) =~= version + seq!['.'] + digits);
    joined_pieces(version, '.');
    assert(tag.subrange(0, 1) =~= "v"@);
    assert forall|i: int| 0 <= i < digits.len() implies digits[i] != '.' by {
        assert(is_digit(digits[i]));
    }
    lemma_pieces_push(version, '.', digits);
    let segments = pieces(version, '.');
    let all = pieces(tag.skip(1), '.');
    assert(all == segments.push(digits));
    assert(all.take(3) =~= segments);
    assert forall|i: int| 0 <= i < all.len() implies (#[trigger] all[i]).len() > 0 && all_digits(
        all[i],
    ) by {
        if i < 3 {
            assert(all[i] == segments[i]);
        }
    }
}

/// After a collision, a plain tag keeps its version and counts up by one; a tag
/// without a counter counts as zero.
pub proof fn next_plain_tag_counts_up(tag: Seq<char>)
    requires
        plain_tag_parts(tag) is Some,
        (plain_tag_parts(tag)->0).1 < u32::MAX,
    ensures
        next_tag(tag) is Some,
        plain_tag_parts(next_tag(tag)->0) == Some(
            ((plain_tag_parts(tag)->0).0, ((plain_tag_parts(tag)->0).1 + 1) as u32),
        ),
{
    reveal_strlit("v");
    reveal_strlit("-ce");
    reveal_strlit(".");
    reveal_strlit(".1");
    assert("."@ =~= seq!['.']);
    let (version, n) = plain_tag_parts(tag)->0;
    let segments = plain_segments(tag)->0;
    let body = tag.skip(1);
    assert(tag.subrange(0, 1)[0] == 'v');
    assert(tag =~= "v"@ + body);
    joined_pieces(body, '.');
    lemma_no_ce_in_plain(tag);
    let three = segments.take(3);
    let plain = plain_tag_text(version);
    assert(plain.skip(1) =~= version);
    assert(plain.subrange(0, 1) =~= "v"@);
    if segments.len() == 3 {
        assert(three =~= segments);
        assert(plain =~= tag);
        plain_tags_read_back(version, 1);
        assert(decimal(1) =~= seq!['1']);
        assert(next_tag(tag)->0 =~= counted_tag_text(version, 1));
    } else {
        lemma_pieces_of_joined(segments, 3, body);
        assert forall|i: int| 0 <= i < three.len() implies (#[trigger] three[i]).len() > 0
            && all_digits(three[i]) by {
            assert(three[i] == segments[i]);
        }
        plain_tags_read_back(version, (n + 1) as u32);
        assert(next_tag(tag)->0 =~= counted_tag_text(version, (n + 1) as u32));
    }
}

/// No piece holds the separator.
proof fn lemma_pieces_free(s: Seq<char>, c: char)
    ensures
        forall|i: int, j: int|
            0 <= i < pieces(s, c).len() && 0 <= j < pieces(s, c)[i].len()
                ==> #[trigger] pieces(s, c)[i][j] != c,
    decreases s.len(),
{
    lemma_first_position(s, c);
    let i = first_position(s, c) as int;
    if i < s.len() {
        lemma_pieces_free(s.skip(i + 1), c);
        let rest = pieces(s.skip(i + 1), c);
        let all = pieces(s, c);
        assert forall|k: int, j: int|
            0 <= k < all.len() && 0 <= j < all[k].len() implies #[trigger] all[k][j] != c by {
            if k == 0 {
                assert(all[k] == s.take(i));
            } else {
                assert(all[k] == rest[k - 1]);
                assert(rest[k - 1][j] != c);
            }
        }
    }
}

/// The first pieces of a text are the pieces of what joins them.
proof fn lemma_pieces_of_joined(segments: Seq<Seq<char>>, k: int, s: Seq<char>)
    requires
        segments == pieces(s, '.'),
        0 < k <= segments.len(),
    ensures
        pieces(joined(segments.take(k), "."@), '.') == segments.take(k),
    decreases k,
{
    reveal_strlit(".");
    assert("."@ =~= seq!['.']);
    lemma_pieces_free(s, '.');
    let last = segments[k - 1];
    assert forall|j: int| 0 <= j < last.len() implies last[j] != '.' by {
        assert(pieces(s, '.')[k - 1][j] != '.');
    }
    assert(segments.take(k).last() == last);
    assert(segments.take(k).drop_last() =~= segments.take(k - 1));
    if k == 1 {
        lemma_pieces_none(last, '.');
        assert(segments.take(1) =~= seq![last]);
    } else {
        lemma_pieces_of_joined(segments, k - 1, s);
        lemma_pieces_push(joined(segments.take(k - 1), "."@), '.', last);
        assert(segments.take(k) =~= segments.take(k - 1).push(last));
    }
}

/// After a collision, the next tag stands for one collision more, whatever its
/// scheme; a tag has a successor exactly when it follows one of the schemes.
pub proof fn next_tag_counts_up(tag: Seq<char>)
    requires
        collision_count(tag) != Some(u32::MAX),
    ensures
        next_tag(tag) is Some <==> collision_count(tag) is Some,
        next_tag(tag) is Some ==> collision_count(next_tag(tag)->0) == Some(
            (collision_count(tag)->0 + 1) as u32,
        ),
{
    if collision_count(tag) is Some {
        let n = collision_count(tag)->0;
        let at = last_position(tag, "-ce"@);
        if at >= 0 {
            let digits = decimal((n + 1) as nat);
            decimal_is_digits((n + 1) as nat);
            number_reads_decimal((n + 1) as nat, u32::MAX as nat);
            lemma_last_position(tag, "-ce"@);
            lemma_ce_before_digits(tag.take(at), digits);
        } else {
            assert(plain_tag_parts(tag) is Some);
            next_plain_tag_counts_up(tag);
            let next = next_tag(tag)->0;
            lemma_no_ce_in_plain(next);
        }
    }
}

/// A plain tag holds no `-ce`.
proof fn lemma_no_ce_in_plain(tag: Seq<char>)
    requires
        plain_segments(tag) is Some,
    ensures
        last_position(tag, "-ce"@) < 0,
{
    reveal_strlit("-ce");
    lemma_plain_has_no_dash(tag);
    lemma_last_position(tag, "-ce"@);
    let at = last_position(tag, "-ce"@);
    if at >= 0 {
        assert(tag.subrange(at, at + 3)[0] == tag[at]);
        assert(tag[at] == '-');
    }
}

/// A plain tag holds no dash.
proof fn lemma_plain_has_no_dash(tag: Seq<char>)
    requires
        plain_segments(tag) is Some,
    ensures
        forall|i: int| 0 <= i < tag.len() ==> tag[i] != '-',
{
    reveal_strlit("v");
    assert(tag.subrange(0, 1)[0] == 'v');
    lemma_digit_pieces(tag.skip(1));
    assert forall|i: int| 0 <= i < tag.len() implies tag[i] != '-' by {
        if i > 0 {
            assert(tag[i] == tag.skip(1)[i - 1]);
        }
    }
}

/// A text whose dotted pieces are digits holds digits and dots only.
proof fn lemma_digit_pieces(s: Seq<char>)
    requires
        forall|i: int| 0 <= i < pieces(s, '.').len() ==> all_digits(#[trigger] pieces(s, '.')[i]),
    ensures
        forall|i: int| 0 <= i < s.len() ==> is_digit(s[i]) || s[i] == '.',
    decreases s.len(),
{
    lemma_first_position(s, '.');
    let k = first_position(s, '.') as int;
    let all = pieces(s, '.');
    if k < s.len() {
        let rest = pieces(s.skip(k + 1), '.');
        assert forall|i: int| 0 <= i < rest.len() implies all_digits(#[trigger] rest[i]) by {
            assert(rest[i] == all[i + 1]);
        }
        lemma_digit_pieces(s.skip(k + 1));
        assert(all[0] == s.take(k));
        assert forall|i: int| 0 <= i < s.len() implies is_digit(s[i]) || s[i] == '.' by {
            if i < k {
                assert(is_digit(s.take(k)[i]));
            } else if i > k {
                assert(s[i] == s.skip(k + 1)[i - k - 1]);
            }
        }
    } else {
        assert(all[0] == s);
    }
}

/// No tag follows both schemes: one that reads as a plain version does not read
/// as a `-ceN` tag.
pub proof fn schemes_do_not_overlap(tag: Seq<char>)
    ensures
        plain_tag_parts(tag) is None || ce_tag_parts(tag) is None,
{
    if plain_tag_parts(tag) is Some && ce_tag_parts(tag) is Some {
        lemma_no_ce_in_plain(tag);
        lemma_ce_parts_counter(tag);
    }
}

/// A run of digits, at least one.
pub open spec fn is_digit_string(s: Seq<char>) -> bool {
    s.len() > 0 && all_digits(s)
}

/// Three texts with dots between them.
pub open spec fn dotted(a: Seq<char>, b: Seq<char>, c: Seq<char>) -> Seq<char> {
    a + "."@ + b + "."@ + c
}

/// A version of three runs of digits.
pub open spec fn is_digit_version(version: Seq<char>) -> bool {
    exists|a: Seq<char>, b: Seq<char>, c: Seq<char>|
        is_digit_string(a) && is_digit_string(b) && is_digit_string(c) && version
            == #[trigger] dotted(a, b, c)
}

/// A tag is that of a version with a run of digits for its counter.
pub open spec fn counts_with(
    tag: Seq<char>,
    version: Seq<char>,
    digits: Seq<char>,
    counter: u32,
) -> bool {
    is_digit_string(digits) && tag == "v"@ + version + "."@ + digits && digits_value(digits)
        == counter
}

/// The plain scheme in digits alone: a tag reads as a version and a counter
/// exactly if the version is three runs of digits and the tag is `v{version}`,
/// with a counter of zero, or `v{version}.{digits}`, with the number that the
/// digits write.
pub proof fn plain_tags_in_digits(tag: Seq<char>, version: Seq<char>, counter: u32)
    ensures
        plain_tag_parts(tag) == Some((version, counter)) <==> {
            &&& is_digit_version(version)
            &&& {
                ||| tag == "v"@ + version && counter == 0
                ||| exists|digits: Seq<char>| counts_with(tag, version, digits, counter)
            }
        },
{
    reveal_strlit("v");
    reveal_strlit(".");
    assert("."@ =~= seq!['.']);
    if plain_tag_parts(tag) == Some((version, counter)) {
        let segments = plain_segments(tag)->0;
        let body = tag.skip(1);
        assert(tag.subrange(0, 1)[0] == 'v');
        assert(tag =~= "v"@ + body);
        joined_pieces(body, '.');
        let three = segments.take(3);
        lemma_joined_three(three);
        assert(is_digit_string(segments[0]) && is_digit_string(segments[1]) && is_digit_string(
            segments[2],
        ));
        if segments.len() == 3 {
            assert(three =~= segments);
            assert(version == dotted(segments[0], segments[1], segments[2]));
        } else {
            assert(version == dotted(segments[0], segments[1], segments[2]));
            let digits = segments[3];
            assert(is_digit_string(digits));
            assert(is_digit(digits[0]));
            assert(segments.drop_last() =~= three);
            assert(body == version + "."@ + digits);
            assert(tag =~= "v"@ + version + "."@ + digits);
            assert(counts_with(tag, version, digits, counter));
        }
    }
    if is_digit_version(version) {
        let (a, b, c) = choose|a: Seq<char>, b: Seq<char>, c: Seq<char>|
            is_digit_string(a) && is_digit_string(b) && is_digit_string(c) && version
                == #[trigger] dotted(a, b, c);
        lemma_pieces_of_dotted(a, b, c);
        let three = seq![a, b, c];
        if tag == "v"@ + version && counter == 0 {
            assert(tag.skip(1) =~= version);
            assert(tag.subrange(0, 1) =~= "v"@);
            lemma_joined_three(three);
            assert(plain_segments(tag) == Some(three));
        } else if exists|digits: Seq<char>| counts_with(tag, version, digits, counter) {
            let digits = choose|digits: Seq<char>| counts_with(tag, version, digits, counter);
            assert(tag.skip(1) =~= version + seq!['.'] + digits);
            assert(tag.subrange(0, 1) =~= "v"@);
            assert forall|i: int| 0 <= i < digits.len() implies digits[i] != '.' by {
                assert(is_digit(digits[i]));
            }
            lemma_pieces_push(version, '.', digits);
            let four = three.push(digits);
            assert(pieces(tag.skip(1), '.') == four);
            assert(four.take(3) =~= three);
            lemma_joined_three(three);
            assert(is_digit(digits[0]));
            assert(plain_segments(tag) == Some(four));
        }
    }
}

/// Three parts joined by dots.
proof fn lemma_joined_three(parts: Seq<Seq<char>>)
    requires
        parts.len() == 3,
    ensures
        joined(parts, "."@) == dotted(parts[0], parts[1], parts[2]),
{
    let two = parts.drop_last();
    let one = two.drop_last();
    assert(joined(one, "."@) == parts[0]);
    assert(joined(two, "."@) == parts[0] + "."@ + parts[1]);
}

/// The pieces of three runs of digits with dots between them.
proof fn lemma_pieces_of_dotted(a: Seq<char>, b: Seq<char>, c: Seq<char>)
    requires
        all_digits(a),
        all_digits(b),
        all_digits(c),
    ensures
        pieces(dotted(a, b, c), '.') == seq![a, b, c],
{
    reveal_strlit(".");
    assert("."@ =~= seq!['.']);
    assert forall|i: int| 0 <= i < a.len() implies a[i] != '.' by {
        assert(is_digit(a[i]));
    }
    assert forall|i: int| 0 <= i < b.len() implies b[i] != '.' by {
        assert(is_digit(b[i]));
    }
    assert forall|i: int| 0 <= i < c.len() implies c[i] != '.' by {
        assert(is_digit(c[i]));
    }
    lemma_pieces_none(a, '.');
    lemma_pieces_push(a, '.', b);
    lemma_pieces_push(a + seq!['.'] + b, '.', c);
    assert(seq![a].push(b).push(c) =~= seq![a, b, c]);
}

/// A version of three runs of digits has these for its segments.
pub proof fn lemma_plain_version_segments(version: Seq<char>)
    requires
        is_digit_version(version),
    ensures
        plain_segments(plain_tag_text(version)) is Some,
        plain_segments(plain_tag_text(version))->0.len() == 3,
{
    reveal_strlit("v");
    let tag = plain_tag_text(version);
    let (a, b, c) = choose|a: Seq<char>, b: Seq<char>, c: Seq<char>|
        is_digit_string(a) && is_digit_string(b) && is_digit_string(c) && version
            == #[trigger] dotted(a, b, c);
    lemma_pieces_of_dotted(a, b, c);
    assert(tag.skip(1) =~= version);
    assert(tag.subrange(0, 1) =~= "v"@);
}

/// The `-ceN` scheme from its ends: a tag reads as a version and a counter exactly
/// if it is `v{version}-ce{N}` with a version that is not empty and a number.
pub proof fn ce_tags_from_their_ends(tag: Seq<char>, version: Seq<char>, counter: u32)
    ensures
        ce_tag_parts(tag) == Some((version, counter)) <==> version.len() > 0 && exists|digits:
            Seq<char>| #[trigger]
            number(digits, u32::MAX as nat) == Some(counter as nat) && tag == "v"@ + version
                + "-ce"@ + digits,
{
    reveal_strlit("v");
    reveal_strlit("-ce");
    let body = tag.skip(1);
    let at = last_position(body, "-ce"@);
    lemma_last_position(body, "-ce"@);
    if ce_tag_parts(tag) == Some((version, counter)) {
        let digits = body.skip(at + 3);
        assert(tag.subrange(0, 1)[0] == 'v');
        assert(body.subrange(at, at + 3) == "-ce"@);
        assert(tag =~= "v"@ + version + "-ce"@ + digits);
        assert(number(digits, u32::MAX as nat) == Some(counter as nat));
    }
    if version.len() > 0 && exists|digits: Seq<char>| #[trigger]
        number(digits, u32::MAX as nat) == Some(counter as nat) && tag == "v"@ + version + "-ce"@
            + digits {
        let digits = choose|digits: Seq<char>| #[trigger]
            number(digits, u32::MAX as nat) == Some(counter as nat) && tag == "v"@ + version
                + "-ce"@ + digits;
        assert(tag.subrange(0, 1) =~= "v"@);
        assert(body =~= version + "-ce"@ + digits);
        let v = version.len() as int;
        assert(body.subrange(v, v + 3) =~= "-ce"@);
        assert forall|j: int| v < j implies !occurs_at(body, "-ce"@, j) by {
            if occurs_at(body, "-ce"@, j) {
                assert(body.subrange(j, j + 3)[0] == '-');
                assert(body[j] == '-');
                if j >= v + 3 {
                    assert(body[j] == digits[j - v - 3]);
                    if digits[0] == '+' {
                        if j > v + 3 {
                            assert(is_digit(digits.drop_first()[j - v - 4]));
                        }
                    } else {
                        assert(is_digit(digits[j - v - 3]));
                    }
                } else if j == v + 1 {
                    assert(body[j] == "-ce"@[1]);
                } else {
                    assert(body[j] == "-ce"@[2]);
                }
            }
        }
        lemma_last_position_is(body, "-ce"@, v);
        assert(body.take(v) =~= version);
        assert(body.skip(v + 3) =~= digits);
    }
}

/// A pinned tag reads back as its version, whatever white space stands around
/// it. A version that ends in white space has no pin of its own.
pub proof fn pinned_tag_reads_back(before: Seq<char>, version: Seq<char>, after: Seq<char>)
    requires
        all_white_space(before),
        all_white_space(after),
        version.len() > 0,
        !is_white_space(version.last()),
    ensures
        pinned_version(before + ("xo-lite-v"@ + version) + after) == Some(version),
{
    reveal_strlit("xo-lite-v");
    let pin = "xo-lite-v"@ + version;
    assert(pin[0] == 'x');
    assert(!is_white_space('x'));
    assert(pin.last() == version.last());
    trimming_undoes_padding(before, pin, after);
    assert(pin.subrange(0, "xo-lite-v"@.len() as int) =~= "xo-lite-v"@);
    assert(pin.skip("xo-lite-v"@.len() as int) =~= version);
}

/// A SHA written in ASCII can always be cut, and its short form is its first
/// characters.
pub proof fn ascii_sha_shortens(sha: Seq<char>)
    requires
        is_ascii_chars(sha),
    ensures
        can_shorten(sha),
        short_sha_text(sha) == sha.take(
            if sha.len() < SHORT_SHA_LEN {
                sha.len() as int
            } else {
                SHORT_SHA_LEN as int
            },
        ),
{
    is_ascii_chars_encode_utf8(sha);
    let n = head_len(sha, SHORT_SHA_LEN);
    let head = sha.take(n);
    assert(is_ascii_chars(head)) by {
        assert forall|i: int| 0 <= i < head.len() implies '\0' <= #[trigger] head[i] <= '\u{7f}' by {
            assert(head[i] == sha[i]);
        }
    }
    is_ascii_chars_encode_utf8(head);
    assert(encode_utf8(sha).take(n) =~= encode_utf8(head));
    encode_utf8_decode_utf8(head);
    lemma_ascii_boundary(sha, n);
}

/// Every position of an ASCII text is a character boundary.
proof fn lemma_ascii_boundary(s: Seq<char>, n: int)
    requires
        is_ascii_chars(s),
        0 <= n <= s.len(),
    ensures
        is_char_boundary(encode_utf8(s), n),
{
    is_ascii_chars_encode_utf8(s);
    vstd::utf8::encode_utf8_valid_utf8(s);
    let bytes = encode_utf8(s);
    vstd::utf8::is_char_boundary_start_end_of_seq(bytes);
    if 0 < n < bytes.len() {
        vstd::utf8::is_char_boundary_iff_not_is_continuation_byte(bytes, n);
        assert(bytes[n] == s[n] as u8);
        vstd::utf8::utf8_byte_ranges_bitwise(bytes[n]);
    }
}

/// An image release under the tag generated for a commit, on whatever day, is
/// recognised as the image of that commit.
pub proof fn image_tag_is_recognised(date: Seq<char>, sha: Seq<char>, release: ReleaseInfoView)
    requires
        release.tag_name == image_tag_text(date, sha),
        exists|i: int|
            0 <= i < release.assets.len() && is_xva_text((#[trigger] release.assets[i]).name),
    ensures
        is_image_release(release, short_sha_text(sha)),
{
    let tag = release.tag_name;
    let tail = "-"@ + short_sha_text(sha);
    assert(tag =~= IMAGE_TAG_PREFIX@ + date + tail);
    assert(tag.subrange(0, IMAGE_TAG_PREFIX@.len() as int) =~= IMAGE_TAG_PREFIX@);
    assert(tag.subrange(tag.len() - tail.len(), tag.len() as int) =~= tail);
}

/// A commit is named in short by the first seven characters of its SHA, and a shorter
/// SHA by all of it.
pub proof fn seven_characters_name_a_commit(sha: Seq<char>)
    requires
        is_ascii_chars(sha),
    ensures
        sha.len() >= 7 ==> short_sha_text(sha) == sha.take(7),
        sha.len() < 7 ==> short_sha_text(sha) == sha,
{
    ascii_sha_shortens(sha);
    if sha.len() < 7 {
        assert(sha.take(sha.len() as int) =~= sha);
    }
}

/// The tag of an image starts as all of them do, and tells the day and the commit.
pub proof fn image_tags_tell_day_and_commit(date: Seq<char>, other: Seq<char>, a: Seq<char>, b: Seq<
    char,
>)
    ensures
        "xoa-image-"@.is_prefix_of(image_tag_text(date, a)),
        image_tag_text(date, a) == image_tag_text(date, b) ==> short_sha_text(a)
            == short_sha_text(b),
        image_tag_text(date, a) == image_tag_text(other, a) ==> date == other,
{
    let none = Seq::<char>::empty();
    let x = short_sha_text(a);
    let y = short_sha_text(b);
    text::lemma_middle_is_determined("xoa-image-"@ + date + "-"@, x, y, none);
    assert("xoa-image-"@ + date + "-"@ + x + none =~= image_tag_text(date, a));
    assert("xoa-image-"@ + date + "-"@ + y + none =~= image_tag_text(date, b));
    text::lemma_middle_is_determined("xoa-image-"@, date, other, "-"@ + x);
    assert("xoa-image-"@ + date + ("-"@ + x) =~= image_tag_text(date, a));
    assert("xoa-image-"@ + other + ("-"@ + x) =~= image_tag_text(other, a));
    assert(image_tag_text(date, a).subrange(0, "xoa-image-"@.len() as int) =~= "xoa-image-"@);
}

/// A release carries the image of a commit exactly if it is tagged as an image of that
/// commit and an image is among its files; of two short names of one length it can
/// only carry one.
pub proof fn images_belong_to_one_commit(release: ReleaseInfoView, a: Seq<char>, b: Seq<char>)
    ensures
        is_image_release(release, a) <==> "xoa-image-"@.is_prefix_of(release.tag_name) && ("-"@
            + a).is_suffix_of(release.tag_name) && exists|i: int|
            0 <= i < release.assets.len() && (".xva"@.is_suffix_of(
                (#[trigger] release.assets[i]).name,
            ) || ".xva.gz"@.is_suffix_of(release.assets[i].name)),
        is_image_release(release, a) && is_image_release(release, b) && a.len() == b.len() ==> a
            == b,
{
    if is_image_release(release, a) && is_image_release(release, b) && a.len() == b.len() {
        let tag = release.tag_name;
        let n = ("-"@ + a).len() as int;
        assert(tag.subrange(tag.len() - n, tag.len() as int) == "-"@ + a);
        assert(tag.subrange(tag.len() - n, tag.len() as int) == "-"@ + b);
        assert(("-"@ + a).skip("-"@.len() as int) =~= a);
        assert(("-"@ + b).skip("-"@.len() as int) =~= b);
    }
    if exists|i: int|
        0 <= i < release.assets.len() && (".xva"@.is_suffix_of((#[trigger] release.assets[i]).name)
            || ".xva.gz"@.is_suffix_of(release.assets[i].name)) {
        let i = choose|i: int|
            0 <= i < release.assets.len() && (".xva"@.is_suffix_of(
                (#[trigger] release.assets[i]).name,
            ) || ".xva.gz"@.is_suffix_of(release.assets[i].name));
        assert(is_xva_text(release.assets[i].name));
    }
}

/// A pin file names a version exactly if it holds, but for white space around it,
/// `xo-lite-v` and that version.
pub proof fn pins_name_their_version(content: Seq<char>, version: Seq<char>)
    ensures
        pinned_version(content) == Some(version) <==> version.len() > 0 && trimmed(content)
            == "xo-lite-v"@ + version,
{
    let pin = trimmed(content);
    let prefix = "xo-lite-v"@;
    if pinned_version(content) == Some(version) {
        assert(pin.subrange(0, prefix.len() as int) == prefix);
        assert(pin =~= prefix + version);
    }
    if version.len() > 0 && pin == prefix + version {
        assert(pin.subrange(0, prefix.len() as int) =~= prefix);
        assert(pin.skip(prefix.len() as int) =~= version);
    }
}

} // verus!
