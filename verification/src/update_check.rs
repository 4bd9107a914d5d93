//! Update checks: which Desktop preview and which upstream component
//! releases are acceptable, and the summary the settings view shows.
use crate::component_update::{digest_outcome, opt_str_view, validate_component_digest};
use crate::text::{
    chars_eq, chars_of, concat3, concat_str, ends_with, has_prefix, has_suffix, lead_char,
    leading_char_count, owned, slice_range, starts_with, str_eq, string_from_chars, is_hex, all_hex,
};
use crate::time::{at_or_after, UtcTime};
use crate::version::{parse_version, semver_gt, semver_parse, version_greater, SemVer, SemVerView};
use crate::web_url::{WebUrl, WebUrlView};
use vstd::prelude::*;

verus! {

pub const LATEST_PREVIEW_URL: &'static str = "https://martianc.github.io/CliRelay-Desktop/latest-preview.json";
pub const CLIRELAY_RELEASES_API: &'static str = "https://api.github.com/repos/kittors/CliRelay/releases";
pub const CODEPROXY_RELEASES_API: &'static str = "https://api.github.com/repos/kittors/codeProxy/releases";
pub const ALLOWED_RELEASE_HOST: &'static str = "github.com";
pub const ALLOWED_RELEASE_PATH_PREFIX: &'static str = "/MartianC/CliRelay-Desktop/releases/";
pub const ALLOWED_RELEASE_DOWNLOAD_PATH_PREFIX: &'static str = "/MartianC/CliRelay-Desktop/releases/download/";
pub const ALLOWED_PAGES_HOST: &'static str = "martianc.github.io";
pub const ALLOWED_PAGES_PATH: &'static str = "/CliRelay-Desktop/latest-preview.json";
pub const ALLOWED_CLIRELAY_ASSET_PREFIX: &'static str = "/kittors/CliRelay/releases/download/";
pub const ALLOWED_CODEPROXY_ASSET_PREFIX: &'static str = "/kittors/codeProxy/releases/download/";
pub const CLIRELAY_ASSET_PREFIX: &'static str = "CliRelay_";
pub const CLIRELAY_ASSET_SUFFIX: &'static str = "_darwin_arm64.tar.gz";
pub const CODEPROXY_ASSET_NAME: &'static str = "panel-dist.zip";

/// Why an update check failed, with a message for the user.
#[derive(Debug)]
pub enum UpdateCheckError {
    InvalidVersion(String),
    InvalidPreview(String),
    InvalidUrl(String),
    InvalidDigest(String),
    Network(String),
}

/// The kind and message of an update-check error.
pub enum UpdateErrorView {
    InvalidVersion(Seq<char>),
    InvalidPreview(Seq<char>),
    InvalidUrl(Seq<char>),
    InvalidDigest(Seq<char>),
    Network(Seq<char>),
}

impl View for UpdateCheckError {
    type V = UpdateErrorView;

    open spec fn view(&self) -> UpdateErrorView {
        match self {
            UpdateCheckError::InvalidVersion(m) => UpdateErrorView::InvalidVersion(m@),
            UpdateCheckError::InvalidPreview(m) => UpdateErrorView::InvalidPreview(m@),
            UpdateCheckError::InvalidUrl(m) => UpdateErrorView::InvalidUrl(m@),
            UpdateCheckError::InvalidDigest(m) => UpdateErrorView::InvalidDigest(m@),
            UpdateCheckError::Network(m) => UpdateErrorView::Network(m@),
        }
    }
}

/// The message of an update-check error.
pub open spec fn error_message(e: UpdateErrorView) -> Seq<char> {
    match e {
        UpdateErrorView::InvalidVersion(m) => m,
        UpdateErrorView::InvalidPreview(m) => m,
        UpdateErrorView::InvalidUrl(m) => m,
        UpdateErrorView::InvalidDigest(m) => m,
        UpdateErrorView::Network(m) => m,
    }
}

impl UpdateCheckError {
    /// The error's message.
    pub fn to_string(&self) -> (r: String)
        ensures
            r@ == error_message(self@),
    {
        match self {
            UpdateCheckError::InvalidVersion(m) => m.clone(),
            UpdateCheckError::InvalidPreview(m) => m.clone(),
            UpdateCheckError::InvalidUrl(m) => m.clone(),
            UpdateCheckError::InvalidDigest(m) => m.clone(),
            UpdateCheckError::Network(m) => m.clone(),
        }
    }
}

// ---------------------------------------------------------------------------
// Versions

/// `s` without its leading `v`s, as `str::trim_start_matches('v')`.
pub open spec fn trim_v(s: Seq<char>) -> Seq<char> {
    s.subrange(lead_char(s, 'v'), s.len() as int)
}

/// What a version text is worth: the parsed version, or an `InvalidVersion`
/// error naming the text and the parser's message.
pub open spec fn version_outcome(value: Seq<char>) -> Result<SemVerView, UpdateErrorView> {
    match semver_parse(trim_v(value)) {
        Ok(v) => Ok(v),
        Err(m) => Err(UpdateErrorView::InvalidVersion("版本号不是合法 SemVer: "@ + value + ": "@ + m)),
    }
}

/// Parses a version, accepting leading `v`s.
pub fn parse_semver(value: &str) -> (r: Result<SemVer, UpdateCheckError>)
    ensures
        match (r, version_outcome(value@)) {
            (Ok(v), Ok(w)) => v@ == w,
            (Err(e), Err(w)) => e@ == w,
            _ => false,
        },
{
    let v = chars_of(value);
    let lead = leading_char_count(v.as_slice(), 'v');
    let rest = slice_range(v.as_slice(), lead, v.len());
    let text = string_from_chars(rest.as_slice());
    match parse_version(text.as_str()) {
        Ok(version) => Ok(version),
        Err(message) => {
            let head = concat3("版本号不是合法 SemVer: ", value, ": ");
            Err(UpdateCheckError::InvalidVersion(concat_str(head.as_str(), message.as_str())))
        },
    }
}

/// Whether `latest` is a newer Desktop preview than `current`: both must be
/// versions and `latest` a pre-release.
pub open spec fn newer_preview_outcome(current: Seq<char>, latest: Seq<char>) -> Result<bool, UpdateErrorView> {
    match version_outcome(current) {
        Err(e) => Err(e),
        Ok(c) => match version_outcome(latest) {
            Err(e) => Err(e),
            Ok(l) => if l.pre.len() == 0 {
                Err(UpdateErrorView::InvalidPreview("Preview 通道要求 latest version 是 prerelease"@))
            } else {
                Ok(semver_gt(l, c))
            },
        },
    }
}

pub open spec fn bool_result_view(r: Result<bool, UpdateCheckError>) -> Result<bool, UpdateErrorView> {
    match r {
        Ok(b) => Ok(b),
        Err(e) => Err(e@),
    }
}

/// Whether `latest` is a newer preview than `current`.
pub fn is_newer_preview_version(current: &str, latest: &str) -> (r: Result<bool, UpdateCheckError>)
    ensures
        bool_result_view(r) == newer_preview_outcome(current@, latest@),
        r == Ok::<bool, UpdateCheckError>(true) && (version_outcome(current@) matches Ok(c) && c.pre.len()
            > 0) ==> newer_preview_outcome(latest@, current@) == Ok::<bool, UpdateErrorView>(false),
{
    let current = parse_semver(current)?;
    let latest = parse_semver(latest)?;
    if latest.pre().unicode_len() == 0 {
        return Err(UpdateCheckError::InvalidPreview(owned("Preview 通道要求 latest version 是 prerelease")));
    }
    Ok(version_greater(&latest, &current))
}

// ---------------------------------------------------------------------------
// URLs, digests and asset names

/// What a URL is worth against an allowed host and path: a path that ends
/// with `/` is a prefix, any other must match exactly.
pub open spec fn url_path_outcome(url: WebUrlView, host: Seq<char>, prefix: Seq<char>) -> Result<(), UpdateErrorView> {
    if url.scheme != "https"@ {
        Err(UpdateErrorView::InvalidUrl("URL 必须使用 https"@))
    } else if url.host != Some(host) {
        Err(UpdateErrorView::InvalidUrl("URL host 必须是 "@ + host))
    } else if prefix.len() > 0 && prefix.last() == '/' {
        if !starts_with(url.path, prefix) {
            Err(UpdateErrorView::InvalidUrl("URL path 必须以 "@ + prefix + " 开头"@))
        } else {
            Ok(())
        }
    } else if url.path != prefix {
        Err(UpdateErrorView::InvalidUrl("URL path 必须是 "@ + prefix))
    } else {
        Ok(())
    }
}

pub open spec fn unit_result_view(r: Result<(), UpdateCheckError>) -> Result<(), UpdateErrorView> {
    match r {
        Ok(()) => Ok(()),
        Err(e) => Err(e@),
    }
}

fn validate_url_path(url: &WebUrl, expected_host: &str, expected_path_prefix: &str) -> (r: Result<(), UpdateCheckError>)
    ensures
        unit_result_view(r) == url_path_outcome(url@, expected_host@, expected_path_prefix@),
{
    if !str_eq(url.scheme.as_str(), "https") {
        return Err(UpdateCheckError::InvalidUrl(owned("URL 必须使用 https")));
    }
    let host_ok = match &url.host {
        Some(h) => str_eq(h.as_str(), expected_host),
        None => false,
    };
    if !host_ok {
        return Err(UpdateCheckError::InvalidUrl(concat_str("URL host 必须是 ", expected_host)));
    }
    let prefix = chars_of(expected_path_prefix);
    let path = chars_of(url.path.as_str());
    if prefix.len() > 0 && prefix[prefix.len() - 1] == '/' {
        if !has_prefix(path.as_slice(), prefix.as_slice()) {
            return Err(UpdateCheckError::InvalidUrl(concat3("URL path 必须以 ", expected_path_prefix, " 开头")));
        }
    } else if !chars_eq(path.as_slice(), prefix.as_slice()) {
        return Err(UpdateCheckError::InvalidUrl(concat_str("URL path 必须是 ", expected_path_prefix)));
    }
    Ok(())
}

/// The preview manifest may only be fetched from the project's GitHub Pages
/// file.
pub fn validate_preview_source(url: &WebUrl) -> (r: Result<(), UpdateCheckError>)
    ensures
        unit_result_view(r) == url_path_outcome(url@, ALLOWED_PAGES_HOST@, ALLOWED_PAGES_PATH@),
{
    validate_url_path(url, ALLOWED_PAGES_HOST, ALLOWED_PAGES_PATH)
}

/// The Desktop release page must be on github.com under the project's releases.
pub fn validate_desktop_release_url(url: &WebUrl) -> (r: Result<(), UpdateCheckError>)
    ensures
        unit_result_view(r) == (if url_path_outcome(url@, ALLOWED_RELEASE_HOST@, ALLOWED_RELEASE_PATH_PREFIX@) is Ok {
            Ok(())
        } else {
            Err(UpdateErrorView::InvalidUrl("Desktop release_url 必须指向 github.com/MartianC/CliRelay-Desktop/releases"@))
        }),
{
    match validate_url_path(url, ALLOWED_RELEASE_HOST, ALLOWED_RELEASE_PATH_PREFIX) {
        Ok(()) => Ok(()),
        Err(_) => Err(UpdateCheckError::InvalidUrl(owned("Desktop release_url 必须指向 github.com/MartianC/CliRelay-Desktop/releases"))),
    }
}

/// The Desktop download must be on github.com under the project's release downloads.
pub fn validate_desktop_download_url(url: &WebUrl) -> (r: Result<(), UpdateCheckError>)
    ensures
        unit_result_view(r) == (if url_path_outcome(url@, ALLOWED_RELEASE_HOST@, ALLOWED_RELEASE_DOWNLOAD_PATH_PREFIX@) is Ok {
            Ok(())
        } else {
            Err(UpdateErrorView::InvalidUrl(
                "Desktop download_url 必须指向 github.com/MartianC/CliRelay-Desktop/releases/download"@,
            ))
        }),
{
    match validate_url_path(url, ALLOWED_RELEASE_HOST, ALLOWED_RELEASE_DOWNLOAD_PATH_PREFIX) {
        Ok(()) => Ok(()),
        Err(_) => Err(UpdateCheckError::InvalidUrl(owned("Desktop download_url 必须指向 github.com/MartianC/CliRelay-Desktop/releases/download"))),
    }
}

/// An upstream component.
#[derive(Clone, Copy, Debug, PartialEq, Eq, Structural)]
pub enum UpstreamComponent {
    CliRelay,
    CodeProxy,
}

/// The path prefix an upstream component's assets must be downloaded from.
pub open spec fn asset_prefix(component: UpstreamComponent) -> Seq<char> {
    match component {
        UpstreamComponent::CliRelay => ALLOWED_CLIRELAY_ASSET_PREFIX@,
        UpstreamComponent::CodeProxy => ALLOWED_CODEPROXY_ASSET_PREFIX@,
    }
}

/// The error for an asset URL outside the component's release downloads.
pub open spec fn asset_url_error(component: UpstreamComponent) -> UpdateErrorView {
    match component {
        UpstreamComponent::CliRelay => UpdateErrorView::InvalidUrl(
            "上游 asset URL 必须指向 github.com/kittors/CliRelay/releases/download"@,
        ),
        UpstreamComponent::CodeProxy => UpdateErrorView::InvalidUrl(
            "上游 asset URL 必须指向 github.com/kittors/codeProxy/releases/download"@,
        ),
    }
}

/// What an upstream asset URL is worth.
pub open spec fn asset_url_outcome(url: WebUrlView, component: UpstreamComponent) -> Result<(), UpdateErrorView> {
    if url_path_outcome(url, ALLOWED_RELEASE_HOST@, asset_prefix(component)) is Ok {
        Ok(())
    } else {
        Err(asset_url_error(component))
    }
}

/// An upstream asset must be downloaded from github.com under the
/// component's own releases.
pub fn validate_component_asset_url(url: &WebUrl, component: UpstreamComponent) -> (r: Result<(), UpdateCheckError>)
    ensures
        unit_result_view(r) == asset_url_outcome(url@, component),
{
    let expected = match component {
        UpstreamComponent::CliRelay => ALLOWED_CLIRELAY_ASSET_PREFIX,
        UpstreamComponent::CodeProxy => ALLOWED_CODEPROXY_ASSET_PREFIX,
    };
    match validate_url_path(url, ALLOWED_RELEASE_HOST, expected) {
        Ok(()) => Ok(()),
        Err(_) => match component {
            UpstreamComponent::CliRelay => Err(UpdateCheckError::InvalidUrl(owned("上游 asset URL 必须指向 github.com/kittors/CliRelay/releases/download"))),
            UpstreamComponent::CodeProxy => Err(UpdateCheckError::InvalidUrl(owned("上游 asset URL 必须指向 github.com/kittors/codeProxy/releases/download"))),
        },
    }
}

/// A SHA-256 written as 64 hexadecimal digits.
pub open spec fn is_hex_sha256(value: Seq<char>) -> bool {
    value.len() == 64 && forall|j: int| 0 <= j < value.len() ==> is_hex(#[trigger] value[j])
}

fn validate_hex_sha256(value: &str) -> (r: Result<(), UpdateCheckError>)
    ensures
        unit_result_view(r) == (if is_hex_sha256(value@) {
            Ok(())
        } else {
            Err(UpdateErrorView::InvalidDigest("SHA-256 必须是 64 位十六进制字符串"@))
        }),
{
    let v = chars_of(value);
    if v.len() != 64 || !all_hex(v.as_slice()) {
        return Err(UpdateCheckError::InvalidDigest(owned("SHA-256 必须是 64 位十六进制字符串")));
    }
    Ok(())
}

/// The asset names a component ships in: CliRelay's macOS arm64 tarballs,
/// codeProxy's `panel-dist.zip`.
pub open spec fn asset_name_allowed(name: Seq<char>, component: UpstreamComponent) -> bool {
    match component {
        UpstreamComponent::CliRelay => starts_with(name, CLIRELAY_ASSET_PREFIX@) && ends_with(name, CLIRELAY_ASSET_SUFFIX@),
        UpstreamComponent::CodeProxy => name == CODEPROXY_ASSET_NAME@,
    }
}

fn is_allowed_asset_name(name: &str, component: UpstreamComponent) -> (r: bool)
    ensures
        r == asset_name_allowed(name@, component),
{
    let n = chars_of(name);
    match component {
        UpstreamComponent::CliRelay => {
            let p = chars_of(CLIRELAY_ASSET_PREFIX);
            let s = chars_of(CLIRELAY_ASSET_SUFFIX);
            has_prefix(n.as_slice(), p.as_slice()) && has_suffix(n.as_slice(), s.as_slice())
        },
        UpstreamComponent::CodeProxy => str_eq(name, CODEPROXY_ASSET_NAME),
    }
}


// ---------------------------------------------------------------------------
// Feeds

/// The Desktop preview feed (`latest-preview.json`).
#[derive(Clone, Debug)]
pub struct LatestPreview {
    pub channel: String,
    pub version: String,
    pub released_at: UtcTime,
    pub minimum_macos: String,
    pub clirelay_version: String,
    pub code_proxy_version: String,
    pub release_notes_summary: Vec<String>,
    pub release_url: WebUrl,
    pub download_url: WebUrl,
    pub sha256: String,
}

/// A GitHub release of an upstream component.
#[derive(Clone, Debug)]
pub struct GithubRelease {
    pub tag_name: String,
    pub prerelease: bool,
    pub draft: bool,
    pub published_at: UtcTime,
    pub html_url: WebUrl,
    pub body: Option<String>,
    pub assets: Vec<GithubReleaseAsset>,
}

/// An asset of a GitHub release.
#[derive(Clone, Debug)]
pub struct GithubReleaseAsset {
    pub name: String,
    pub browser_download_url: WebUrl,
    pub digest: Option<String>,
}

/// The error for a Desktop release page outside the project's releases.
pub open spec fn release_url_error() -> UpdateErrorView {
    UpdateErrorView::InvalidUrl("Desktop release_url 必须指向 github.com/MartianC/CliRelay-Desktop/releases"@)
}

/// The error for a Desktop download outside the project's release downloads.
pub open spec fn download_url_error() -> UpdateErrorView {
    UpdateErrorView::InvalidUrl("Desktop download_url 必须指向 github.com/MartianC/CliRelay-Desktop/releases/download"@)
}

/// What a preview feed is worth: its channel must be `preview`, its version
/// a pre-release, its pages on the project's GitHub releases and its digest a
/// hexadecimal SHA-256; the first failing check is reported.
pub open spec fn preview_outcome(p: LatestPreview) -> Result<(), UpdateErrorView> {
    if p.channel@ != "preview"@ {
        Err(UpdateErrorView::InvalidPreview("latest-preview.json channel 必须是 preview"@))
    } else {
        match version_outcome(p.version@) {
            Err(e) => Err(e),
            Ok(v) => if v.pre.len() == 0 {
                Err(UpdateErrorView::InvalidPreview("latest-preview.json version 必须是 prerelease"@))
            } else if url_path_outcome(p.release_url@, ALLOWED_RELEASE_HOST@, ALLOWED_RELEASE_PATH_PREFIX@) is Err {
                Err(release_url_error())
            } else if url_path_outcome(p.download_url@, ALLOWED_RELEASE_HOST@, ALLOWED_RELEASE_DOWNLOAD_PATH_PREFIX@) is Err {
                Err(download_url_error())
            } else if !is_hex_sha256(p.sha256@) {
                Err(UpdateErrorView::InvalidDigest("SHA-256 必须是 64 位十六进制字符串"@))
            } else {
                Ok(())
            },
        }
    }
}

/// Checks a Desktop preview feed.
pub fn validate_desktop_preview(preview: &LatestPreview) -> (r: Result<(), UpdateCheckError>)
    ensures
        unit_result_view(r) == preview_outcome(*preview),
{
    if !str_eq(preview.channel.as_str(), "preview") {
        return Err(UpdateCheckError::InvalidPreview(owned("latest-preview.json channel 必须是 preview")));
    }
    let version = parse_semver(preview.version.as_str())?;
    if version.pre().unicode_len() == 0 {
        return Err(UpdateCheckError::InvalidPreview(owned("latest-preview.json version 必须是 prerelease")));
    }
    validate_desktop_release_url(&preview.release_url)?;
    validate_desktop_download_url(&preview.download_url)?;
    validate_hex_sha256(preview.sha256.as_str())?;
    Ok(())
}

// ---------------------------------------------------------------------------
// Component release selection

/// What an update is about.
#[derive(Clone, Copy, Debug, PartialEq, Eq, Structural)]
pub enum UpdateSubject {
    Desktop,
    CliRelay,
    CodeProxy,
}

/// The subject of a component's updates.
pub open spec fn component_subject(c: UpstreamComponent) -> UpdateSubject {
    match c {
        UpstreamComponent::CliRelay => UpdateSubject::CliRelay,
        UpstreamComponent::CodeProxy => UpdateSubject::CodeProxy,
    }
}

/// A release asset chosen as a component update.
#[derive(Clone, Debug, PartialEq, Eq)]
pub struct ComponentUpdateCandidate {
    pub subject: UpdateSubject,
    pub version: String,
    pub release_url: WebUrl,
    pub asset_name: String,
    pub asset_url: WebUrl,
    pub asset_sha256: String,
}

/// The parts of a chosen component update.
pub struct CandidateView {
    pub subject: UpdateSubject,
    pub version: Seq<char>,
    pub release_url: WebUrlView,
    pub asset_name: Seq<char>,
    pub asset_url: WebUrlView,
    pub asset_sha256: Seq<char>,
}

impl View for ComponentUpdateCandidate {
    type V = CandidateView;

    open spec fn view(&self) -> CandidateView {
        CandidateView {
            subject: self.subject,
            version: self.version@,
            release_url: self.release_url@,
            asset_name: self.asset_name@,
            asset_url: self.asset_url@,
            asset_sha256: self.asset_sha256@,
        }
    }
}

pub open spec fn asset_allowed_at(r: GithubRelease, c: UpstreamComponent) -> spec_fn(int) -> bool {
    |a: int| asset_name_allowed(r.assets@[a].name@, c)
}

/// The first asset of a release with an allowed name.
pub open spec fn first_allowed_asset(r: GithubRelease, c: UpstreamComponent) -> Option<int> {
    crate::text::first_from(r.assets@.len() as int, asset_allowed_at(r, c), 0)
}

/// The selection over releases `i..`, given the release and asset selected
/// so far: drafts are skipped; every other release needs a valid version;
/// a release without an allowed asset is skipped; the allowed asset needs a
/// valid URL and digest; and a release replaces the selection unless the
/// selected one was published at the same time or later.
pub open spec fn selection_from(rs: Seq<GithubRelease>, c: UpstreamComponent, i: int, sel: Option<(int, int)>) -> Result<
    Option<(int, int)>,
    UpdateErrorView,
>
    decreases rs.len() - i,
{
    if i >= rs.len() || i < 0 {
        Ok(sel)
    } else {
        let r = rs[i];
        if r.draft {
            selection_from(rs, c, i + 1, sel)
        } else {
            match version_outcome(r.tag_name@) {
                Err(e) => Err(e),
                Ok(_) => match first_allowed_asset(r, c) {
                    None => selection_from(rs, c, i + 1, sel),
                    Some(a) => {
                        let asset = r.assets@[a];
                        match asset_url_outcome(asset.browser_download_url@, c) {
                            Err(e) => Err(e),
                            Ok(_) => match digest_outcome(crate::web_url::opt_string_view(asset.digest)) {
                                Err(e) => Err(e),
                                Ok(_) => {
                                    let keep = match sel {
                                        Some((s, _)) => at_or_after(rs[s].published_at, r.published_at),
                                        None => false,
                                    };
                                    selection_from(rs, c, i + 1, if keep { sel } else { Some((i, a)) })
                                },
                            },
                        }
                    },
                },
            }
        }
    }
}

/// A release that can carry a component update: not a draft, and holding
/// an asset the component accepts.
pub open spec fn offers_asset(r: GithubRelease, c: UpstreamComponent) -> bool {
    !r.draft && first_allowed_asset(r, c) is Some
}

/// What a selection over the releases before `i` has established: the
/// selected release offers an asset, is that asset's release, and was
/// published no earlier than any release before `i` that offers one; with
/// nothing selected, no release before `i` offers one.
pub open spec fn selection_so_far(rs: Seq<GithubRelease>, c: UpstreamComponent, i: int, sel: Option<(int, int)>) -> bool {
    match sel {
        Some((s, a)) => {
            &&& 0 <= s < i
            &&& offers_asset(rs[s], c)
            &&& first_allowed_asset(rs[s], c) == Some(a)
            &&& version_outcome(rs[s].tag_name@) is Ok
            &&& asset_url_outcome(rs[s].assets@[a].browser_download_url@, c) is Ok
            &&& digest_outcome(crate::web_url::opt_string_view(rs[s].assets@[a].digest)) is Ok
            &&& forall|j: int|
                0 <= j < i && #[trigger] offers_asset(rs[j], c) ==> at_or_after(rs[s].published_at, rs[j].published_at)
        },
        None => forall|j: int| 0 <= j < i ==> !#[trigger] offers_asset(rs[j], c),
    }
}

proof fn lemma_selection_from_keeps(rs: Seq<GithubRelease>, c: UpstreamComponent, i: int, sel: Option<(int, int)>)
    requires
        0 <= i <= rs.len(),
        selection_so_far(rs, c, i, sel),
    ensures
        selection_from(rs, c, i, sel) matches Ok(found) ==> selection_so_far(rs, c, rs.len() as int, found),
    decreases rs.len() - i,
{
    if i < rs.len() {
        let r = rs[i];
        if r.draft {
            assert(!offers_asset(r, c));
            lemma_selection_from_keeps(rs, c, i + 1, sel);
        } else {
            match first_allowed_asset(r, c) {
                None => {
                    assert(!offers_asset(r, c));
                    lemma_selection_from_keeps(rs, c, i + 1, sel);
                },
                Some(a) => {
                    assert(offers_asset(r, c));
                    let asset = r.assets@[a];
                    if version_outcome(r.tag_name@) is Ok && asset_url_outcome(asset.browser_download_url@, c) is Ok
                        && digest_outcome(crate::web_url::opt_string_view(asset.digest)) is Ok {
                        let keep = match sel {
                            Some((s, _)) => at_or_after(rs[s].published_at, r.published_at),
                            None => false,
                        };
                        let next = if keep {
                            sel
                        } else {
                            Some((i, a))
                        };
                        assert(selection_so_far(rs, c, i + 1, next));
                        lemma_selection_from_keeps(rs, c, i + 1, next);
                    }
                },
            }
        }
    }
}

/// The release chosen for a component offers an allowed asset and was
/// published no earlier than any other release that offers one; no release
/// is chosen only when none offers one.
pub proof fn lemma_selection_is_latest(rs: Seq<GithubRelease>, c: UpstreamComponent)
    ensures
        selection_from(rs, c, 0, None) matches Ok(found) ==> selection_so_far(rs, c, rs.len() as int, found),
{
    lemma_selection_from_keeps(rs, c, 0, None);
}

/// The candidate chosen for a component is made of the chosen release and
/// its first allowed asset: its version and page are the release's, its
/// asset name and download URL are that asset's, the download URL passes the
/// component's URL check, and its digest is the asset's checked digest.
pub proof fn lemma_candidate_is_the_chosen_asset(rs: Seq<GithubRelease>, c: UpstreamComponent)
    ensures
        match selection_from(rs, c, 0, None) {
            Ok(Some((s, a))) => {
                let asset = rs[s].assets@[a];
                let cand = candidate_at(rs, c, s, a);
                &&& selection_outcome(rs, c) == Ok::<Option<CandidateView>, UpdateErrorView>(Some(cand))
                &&& 0 <= s < rs.len()
                &&& !rs[s].draft
                &&& 0 <= a < rs[s].assets@.len()
                &&& asset_name_allowed(asset.name@, c)
                &&& cand.subject == component_subject(c)
                &&& cand.version == rs[s].tag_name@
                &&& cand.release_url == rs[s].html_url@
                &&& cand.asset_name == asset.name@
                &&& cand.asset_url == asset.browser_download_url@
                &&& asset_url_outcome(cand.asset_url, c) is Ok
                &&& digest_outcome(crate::web_url::opt_string_view(asset.digest)) == Ok::<
                    Seq<char>,
                    UpdateErrorView,
                >(cand.asset_sha256)
            },
            _ => true,
        },
{
    lemma_selection_from_keeps(rs, c, 0, None);
    if let Ok(Some((s, a))) = selection_from(rs, c, 0, None) {
        crate::text::lemma_first_from(rs[s].assets@.len() as int, asset_allowed_at(rs[s], c), 0);
    }
}

/// The candidate made of release `i` and its asset `a`.
pub open spec fn candidate_at(rs: Seq<GithubRelease>, c: UpstreamComponent, i: int, a: int) -> CandidateView {
    let r = rs[i];
    let asset = r.assets@[a];
    CandidateView {
        subject: component_subject(c),
        version: r.tag_name@,
        release_url: r.html_url@,
        asset_name: asset.name@,
        asset_url: asset.browser_download_url@,
        asset_sha256: digest_outcome(crate::web_url::opt_string_view(asset.digest))->Ok_0,
    }
}

/// The update candidate of a component among its releases: the latest
/// published acceptable release, or the first refusal met on the way.
pub open spec fn selection_outcome(rs: Seq<GithubRelease>, c: UpstreamComponent) -> Result<Option<CandidateView>, UpdateErrorView> {
    match selection_from(rs, c, 0, None) {
        Err(e) => Err(e),
        Ok(None) => Ok(None),
        Ok(Some((i, a))) => Ok(Some(candidate_at(rs, c, i, a))),
    }
}

pub open spec fn candidate_result_view(r: Result<Option<ComponentUpdateCandidate>, UpdateCheckError>) -> Result<
    Option<CandidateView>,
    UpdateErrorView,
> {
    match r {
        Ok(Some(c)) => Ok(Some(c@)),
        Ok(None) => Ok(None),
        Err(e) => Err(e@),
    }
}

/// A copy of a parsed URL.
pub fn copy_url(u: &WebUrl) -> (r: WebUrl)
    ensures
        r@ == u@,
{
    WebUrl {
        serialization: u.serialization.clone(),
        scheme: u.scheme.clone(),
        host: match &u.host {
            Some(h) => Some(h.clone()),
            None => None,
        },
        port: u.port,
        path: u.path.clone(),
    }
}

fn first_allowed_asset_index(r: &GithubRelease, component: UpstreamComponent) -> (k: Option<usize>)
    ensures
        match k {
            Some(a) => first_allowed_asset(*r, component) == Some(a as int) && a < r.assets@.len(),
            None => first_allowed_asset(*r, component) is None,
        },
{
    let mut a: usize = 0;
    while a < r.assets.len()
        invariant
            0 <= a <= r.assets@.len(),
            forall|j: int| 0 <= j < a ==> !asset_name_allowed(#[trigger] r.assets@[j].name@, component),
        decreases r.assets@.len() - a,
    {
        if is_allowed_asset_name(r.assets[a].name.as_str(), component) {
            proof {
                let p = asset_allowed_at(*r, component);
                assert forall|j: int| 0 <= j < a implies !#[trigger] p(j) by {}
                crate::text::lemma_first_from_unique(r.assets@.len() as int, p, 0, Some(a as int));
            }
            return Some(a);
        }
        a = a + 1;
    }
    proof {
        let p = asset_allowed_at(*r, component);
        assert forall|j: int| 0 <= j < r.assets@.len() implies !#[trigger] p(j) by {}
        crate::text::lemma_first_from_unique(r.assets@.len() as int, p, 0, None);
    }
    None
}

/// Chooses the update candidate of a component among its releases.
pub fn select_component_release(releases: &Vec<GithubRelease>, component: UpstreamComponent) -> (r: Result<
    Option<ComponentUpdateCandidate>,
    UpdateCheckError,
>)
    ensures
        candidate_result_view(r) == selection_outcome(releases@, component),
{
    let ghost rs = releases@;
    let mut selected: Option<(usize, usize, String)> = None;
    let mut i: usize = 0;
    while i < releases.len()
        invariant
            rs == releases@,
            0 <= i <= rs.len(),
            selection_from(rs, component, 0, None) == selection_from(
                rs,
                component,
                i as int,
                match selected {
                    Some((s, a, _)) => Some((s as int, a as int)),
                    None => None,
                },
            ),
            selected matches Some((s, a, d)) ==> s < i && a < rs[s as int].assets@.len() && digest_outcome(
                crate::web_url::opt_string_view(rs[s as int].assets@[a as int].digest),
            ) == Ok::<Seq<char>, UpdateErrorView>(d@),
        decreases rs.len() - i,
    {
        let release = &releases[i];
        if !release.draft {
            parse_semver(release.tag_name.as_str())?;
            match first_allowed_asset_index(release, component) {
                None => {},
                Some(a) => {
                    let asset = &release.assets[a];
                    validate_component_asset_url(&asset.browser_download_url, component)?;
                    let digest = match &asset.digest {
                        Some(d) => Some(d.as_str()),
                        None => None,
                    };
                    let value = validate_component_digest(digest)?;
                    let keep = match &selected {
                        Some((s, _, _)) => releases[*s].published_at.is_at_or_after(&release.published_at),
                        None => false,
                    };
                    if !keep {
                        selected = Some((i, a, value));
                    }
                },
            }
        }
        i = i + 1;
    }
    match selected {
        None => Ok(None),
        Some((s, a, digest)) => {
            let release = &releases[s];
            let asset = &release.assets[a];
            Ok(
                Some(
                    ComponentUpdateCandidate {
                        subject: match component {
                            UpstreamComponent::CliRelay => UpdateSubject::CliRelay,
                            UpstreamComponent::CodeProxy => UpdateSubject::CodeProxy,
                        },
                        version: release.tag_name.clone(),
                        release_url: copy_url(&release.html_url),
                        asset_name: asset.name.clone(),
                        asset_url: copy_url(&asset.browser_download_url),
                        asset_sha256: digest,
                    },
                ),
            )
        },
    }
}

/// The releases API of a component.
pub fn component_releases_api_url(component: UpstreamComponent) -> (r: String)
    ensures
        r@ == (match component {
            UpstreamComponent::CliRelay => CLIRELAY_RELEASES_API@,
            UpstreamComponent::CodeProxy => CODEPROXY_RELEASES_API@,
        }),
{
    match component {
        UpstreamComponent::CliRelay => owned(CLIRELAY_RELEASES_API),
        UpstreamComponent::CodeProxy => owned(CODEPROXY_RELEASES_API),
    }
}


// ---------------------------------------------------------------------------
// The update summary

/// How an update check came out.
#[derive(Clone, Copy, Debug, PartialEq, Eq, Structural)]
pub enum UpdateStatus {
    Unavailable,
    UpToDate,
    UpdateAvailable,
    Error,
}

/// What the Desktop item offers: to open the release page, or nothing.
#[derive(Clone, Copy, Debug, PartialEq, Eq, Structural)]
pub enum DesktopUpdateAction {
    OpenRelease,
    NoAction,
}

impl DesktopUpdateAction {
    /// The action's name.
    pub fn to_string(&self) -> (r: String)
        ensures
            r@ == (match self {
                DesktopUpdateAction::OpenRelease => "OpenRelease"@,
                DesktopUpdateAction::NoAction => "None"@,
            }),
    {
        match self {
            DesktopUpdateAction::OpenRelease => owned("OpenRelease"),
            DesktopUpdateAction::NoAction => owned("None"),
        }
    }
}

/// What the upstream block offers: to check again, or to install in the
/// Desktop app.
#[derive(Clone, Copy, Debug, PartialEq, Eq, Structural)]
pub enum UpstreamUpdateAction {
    Check,
    InstallInDesktop,
    NoAction,
}

/// Which upstream components an install covers.
#[derive(Clone, Copy, Debug, PartialEq, Eq, Structural)]
pub enum UpstreamInstallScope {
    Neither,
    CliRelay,
    CodeProxy,
    Both,
}

/// The versions running now.
#[derive(Clone, Debug, PartialEq, Eq)]
pub struct CurrentVersions {
    pub desktop: String,
    pub clirelay: String,
    pub code_proxy: String,
}

/// The Desktop part of an update summary.
#[derive(Clone, Debug)]
pub struct DesktopUpdateItem {
    pub subject: UpdateSubject,
    pub status: UpdateStatus,
    pub current_version: String,
    pub latest_version: Option<String>,
    pub message: String,
    pub release_url: Option<String>,
    pub action: DesktopUpdateAction,
    pub release_notes_summary: Vec<String>,
}

/// An upstream component's part of an update summary.
#[derive(Clone, Debug)]
pub struct ComponentUpdateItem {
    pub subject: UpdateSubject,
    pub status: UpdateStatus,
    pub current_version: String,
    pub latest_version: Option<String>,
    pub message: String,
    pub release_url: Option<String>,
    pub asset_name: Option<String>,
    pub asset_sha256: Option<String>,
}

/// The upstream part of an update summary.
#[derive(Clone, Debug)]
pub struct UpstreamUpdateBlock {
    pub status: UpdateStatus,
    pub message: String,
    pub clirelay: ComponentUpdateItem,
    pub code_proxy: ComponentUpdateItem,
    pub install_scope: UpstreamInstallScope,
    pub action: UpstreamUpdateAction,
}

/// The summary of an update check.
#[derive(Clone, Debug)]
pub struct UpdateCheckResult {
    pub status: UpdateStatus,
    pub message: String,
    pub checked_at: UtcTime,
    pub desktop: DesktopUpdateItem,
    pub upstream: UpstreamUpdateBlock,
}

pub open spec fn strings_view(v: Seq<String>) -> Seq<Seq<char>> {
    Seq::new(v.len(), |i: int| v[i]@)
}

pub struct DesktopItemView {
    pub subject: UpdateSubject,
    pub status: UpdateStatus,
    pub current_version: Seq<char>,
    pub latest_version: Option<Seq<char>>,
    pub message: Seq<char>,
    pub release_url: Option<Seq<char>>,
    pub action: DesktopUpdateAction,
    pub release_notes_summary: Seq<Seq<char>>,
}

impl View for DesktopUpdateItem {
    type V = DesktopItemView;

    open spec fn view(&self) -> DesktopItemView {
        DesktopItemView {
            subject: self.subject,
            status: self.status,
            current_version: self.current_version@,
            latest_version: crate::web_url::opt_string_view(self.latest_version),
            message: self.message@,
            release_url: crate::web_url::opt_string_view(self.release_url),
            action: self.action,
            release_notes_summary: strings_view(self.release_notes_summary@),
        }
    }
}

pub struct ComponentItemView {
    pub subject: UpdateSubject,
    pub status: UpdateStatus,
    pub current_version: Seq<char>,
    pub latest_version: Option<Seq<char>>,
    pub message: Seq<char>,
    pub release_url: Option<Seq<char>>,
    pub asset_name: Option<Seq<char>>,
    pub asset_sha256: Option<Seq<char>>,
}

impl View for ComponentUpdateItem {
    type V = ComponentItemView;

    open spec fn view(&self) -> ComponentItemView {
        ComponentItemView {
            subject: self.subject,
            status: self.status,
            current_version: self.current_version@,
            latest_version: crate::web_url::opt_string_view(self.latest_version),
            message: self.message@,
            release_url: crate::web_url::opt_string_view(self.release_url),
            asset_name: crate::web_url::opt_string_view(self.asset_name),
            asset_sha256: crate::web_url::opt_string_view(self.asset_sha256),
        }
    }
}

/// The Desktop item of an error.
pub open spec fn desktop_error_view(current: Seq<char>, message: Seq<char>) -> DesktopItemView {
    DesktopItemView {
        subject: UpdateSubject::Desktop,
        status: UpdateStatus::Error,
        current_version: current,
        latest_version: None,
        message: message,
        release_url: None,
        action: DesktopUpdateAction::NoAction,
        release_notes_summary: Seq::empty(),
    }
}

/// Whether a checked preview is newer than the running Desktop.
pub open spec fn desktop_outcome(current: Seq<char>, p: LatestPreview) -> Result<bool, UpdateErrorView> {
    match preview_outcome(p) {
        Err(e) => Err(e),
        Ok(_) => newer_preview_outcome(current, p.version@),
    }
}

/// The Desktop item: unavailable without a feed, an error item when the feed
/// or the versions are refused, and otherwise whether the preview is newer,
/// with its version, release page and notes.
pub open spec fn desktop_item_spec(current: Seq<char>, preview: Option<LatestPreview>) -> DesktopItemView {
    match preview {
        None => DesktopItemView {
            subject: UpdateSubject::Desktop,
            status: UpdateStatus::Unavailable,
            current_version: current,
            latest_version: None,
            message: "桌面预览版更新源不可用"@,
            release_url: None,
            action: DesktopUpdateAction::NoAction,
            release_notes_summary: Seq::empty(),
        },
        Some(p) => match desktop_outcome(current, p) {
            Err(e) => desktop_error_view(current, error_message(e)),
            Ok(newer) => DesktopItemView {
                subject: UpdateSubject::Desktop,
                status: if newer { UpdateStatus::UpdateAvailable } else { UpdateStatus::UpToDate },
                current_version: current,
                latest_version: Some(p.version@),
                message: if newer { "发现桌面预览版更新"@ } else { "桌面预览版已是最新"@ },
                release_url: Some(p.release_url@.serialization),
                action: if newer { DesktopUpdateAction::OpenRelease } else { DesktopUpdateAction::NoAction },
                release_notes_summary: strings_view(p.release_notes_summary@),
            },
        },
    }
}

/// A subject's name in messages.
pub open spec fn subject_label_spec(subject: UpdateSubject) -> Seq<char> {
    match subject {
        UpdateSubject::Desktop => "Desktop"@,
        UpdateSubject::CliRelay => "CliRelay"@,
        UpdateSubject::CodeProxy => "codeProxy"@,
    }
}

fn subject_label(subject: UpdateSubject) -> (r: &'static str)
    ensures
        r@ == subject_label_spec(subject),
{
    match subject {
        UpdateSubject::Desktop => "Desktop",
        UpdateSubject::CliRelay => "CliRelay",
        UpdateSubject::CodeProxy => "codeProxy",
    }
}

/// A candidate is an update when both versions parse and it is greater.
pub open spec fn has_update_spec(latest: Seq<char>, current: Seq<char>) -> bool {
    match (version_outcome(latest), version_outcome(current)) {
        (Ok(l), Ok(c)) => semver_gt(l, c),
        _ => false,
    }
}

/// A component item: unavailable without a candidate; otherwise whether the
/// candidate is an update, with its version, release page and asset.
pub open spec fn component_item_spec(subject: UpdateSubject, current: Seq<char>, candidate: Option<CandidateView>) -> ComponentItemView {
    match candidate {
        None => ComponentItemView {
            subject: subject,
            status: UpdateStatus::Unavailable,
            current_version: current,
            latest_version: None,
            message: subject_label_spec(subject) + " 更新源不可用"@,
            release_url: None,
            asset_name: None,
            asset_sha256: None,
        },
        Some(c) => {
            let up = has_update_spec(c.version, current);
            ComponentItemView {
                subject: subject,
                status: if up { UpdateStatus::UpdateAvailable } else { UpdateStatus::UpToDate },
                current_version: current,
                latest_version: Some(c.version),
                message: subject_label_spec(subject) + if up { " 可更新"@ } else { " 已是最新"@ },
                release_url: Some(c.release_url.serialization),
                asset_name: Some(c.asset_name),
                asset_sha256: Some(c.asset_sha256),
            }
        },
    }
}

pub open spec fn opt_candidate_view(c: Option<ComponentUpdateCandidate>) -> Option<CandidateView> {
    match c {
        Some(v) => Some(v@),
        None => None,
    }
}

fn component_item(subject: UpdateSubject, current_version: String, candidate: Option<ComponentUpdateCandidate>) -> (r:
    ComponentUpdateItem)
    ensures
        r@ == component_item_spec(subject, current_version@, opt_candidate_view(candidate)),
{
    match candidate {
        Some(candidate) => {
            let has_update = match parse_semver(candidate.version.as_str()) {
                Ok(latest) => match parse_semver(current_version.as_str()) {
                    Ok(current) => version_greater(&latest, &current),
                    Err(_) => false,
                },
                Err(_) => false,
            };
            let message = if has_update {
                concat_str(subject_label(subject), " 可更新")
            } else {
                concat_str(subject_label(subject), " 已是最新")
            };
            ComponentUpdateItem {
                subject,
                status: if has_update { UpdateStatus::UpdateAvailable } else { UpdateStatus::UpToDate },
                current_version,
                latest_version: Some(candidate.version),
                message,
                release_url: Some(candidate.release_url.serialization),
                asset_name: Some(candidate.asset_name),
                asset_sha256: Some(candidate.asset_sha256),
            }
        },
        None => ComponentUpdateItem {
            subject,
            status: UpdateStatus::Unavailable,
            current_version,
            latest_version: None,
            message: concat_str(subject_label(subject), " 更新源不可用"),
            release_url: None,
            asset_name: None,
            asset_sha256: None,
        },
    }
}

fn desktop_error_item(current_version: String, message: String) -> (r: DesktopUpdateItem)
    ensures
        r@ == desktop_error_view(current_version@, message@),
{
    let notes: Vec<String> = Vec::new();
    let r = DesktopUpdateItem {
        subject: UpdateSubject::Desktop,
        status: UpdateStatus::Error,
        current_version,
        latest_version: None,
        message,
        release_url: None,
        action: DesktopUpdateAction::NoAction,
        release_notes_summary: notes,
    };
    assert(strings_view(r.release_notes_summary@) =~= Seq::<Seq<char>>::empty());
    r
}

/// The install scope of two component statuses.
pub open spec fn install_scope_spec(clirelay: UpdateStatus, code_proxy: UpdateStatus) -> UpstreamInstallScope {
    match (clirelay == UpdateStatus::UpdateAvailable, code_proxy == UpdateStatus::UpdateAvailable) {
        (true, true) => UpstreamInstallScope::Both,
        (true, false) => UpstreamInstallScope::CliRelay,
        (false, true) => UpstreamInstallScope::CodeProxy,
        (false, false) => UpstreamInstallScope::Neither,
    }
}

/// The upstream status: an update when anything installs; otherwise an
/// error beats unavailability, which beats being up to date.
pub open spec fn upstream_status_spec(scope: UpstreamInstallScope, clirelay: UpdateStatus, code_proxy: UpdateStatus) -> UpdateStatus {
    if scope == UpstreamInstallScope::Neither {
        if clirelay == UpdateStatus::Error || code_proxy == UpdateStatus::Error {
            UpdateStatus::Error
        } else if clirelay == UpdateStatus::Unavailable || code_proxy == UpdateStatus::Unavailable {
            UpdateStatus::Unavailable
        } else {
            UpdateStatus::UpToDate
        }
    } else {
        UpdateStatus::UpdateAvailable
    }
}

/// The upstream block's message.
pub open spec fn upstream_message_spec(scope: UpstreamInstallScope, status: UpdateStatus) -> Seq<char> {
    match scope {
        UpstreamInstallScope::Both => "CliRelay 和 codeProxy 有更新"@,
        UpstreamInstallScope::CliRelay => "CliRelay 有更新"@,
        UpstreamInstallScope::CodeProxy => "codeProxy 有更新"@,
        UpstreamInstallScope::Neither => if status == UpdateStatus::Error {
            "部分上游组件检查失败"@
        } else {
            "上游组件已是最新"@
        },
    }
}

fn upstream_message(install_scope: UpstreamInstallScope, status: UpdateStatus) -> (r: String)
    ensures
        r@ == upstream_message_spec(install_scope, status),
{
    match install_scope {
        UpstreamInstallScope::Both => owned("CliRelay 和 codeProxy 有更新"),
        UpstreamInstallScope::CliRelay => owned("CliRelay 有更新"),
        UpstreamInstallScope::CodeProxy => owned("codeProxy 有更新"),
        UpstreamInstallScope::Neither => if status == UpdateStatus::Error {
            owned("部分上游组件检查失败")
        } else {
            owned("上游组件已是最新")
        },
    }
}

/// The overall status: an update anywhere first, then an error, then
/// unavailability.
pub open spec fn overall_status_spec(desktop: UpdateStatus, upstream: UpdateStatus) -> UpdateStatus {
    if desktop == UpdateStatus::UpdateAvailable || upstream == UpdateStatus::UpdateAvailable {
        UpdateStatus::UpdateAvailable
    } else if desktop == UpdateStatus::Error || upstream == UpdateStatus::Error {
        UpdateStatus::Error
    } else if desktop == UpdateStatus::Unavailable || upstream == UpdateStatus::Unavailable {
        UpdateStatus::Unavailable
    } else {
        UpdateStatus::UpToDate
    }
}

/// The overall message.
pub open spec fn overall_message_spec(status: UpdateStatus) -> Seq<char> {
    match status {
        UpdateStatus::UpdateAvailable => "发现可用更新"@,
        UpdateStatus::UpToDate => "已是最新"@,
        UpdateStatus::Unavailable => "更新源不可用"@,
        UpdateStatus::Error => "部分更新检查失败"@,
    }
}

/// The summary of an update check over the running versions and whatever
/// the feeds returned: the Desktop item, the two component items, the
/// upstream block derived from them and the overall status.
pub open spec fn update_result_matches(
    r: UpdateCheckResult,
    current: CurrentVersions,
    preview: Option<LatestPreview>,
    clirelay: Option<CandidateView>,
    code_proxy: Option<CandidateView>,
    checked_at: UtcTime,
) -> bool {
    let d = desktop_item_spec(current.desktop@, preview);
    let c = component_item_spec(UpdateSubject::CliRelay, current.clirelay@, clirelay);
    let p = component_item_spec(UpdateSubject::CodeProxy, current.code_proxy@, code_proxy);
    let scope = install_scope_spec(c.status, p.status);
    let up = upstream_status_spec(scope, c.status, p.status);
    let overall = overall_status_spec(d.status, up);
    &&& r.desktop@ == d
    &&& r.upstream.clirelay@ == c
    &&& r.upstream.code_proxy@ == p
    &&& r.upstream.install_scope == scope
    &&& r.upstream.status == up
    &&& r.upstream.message@ == upstream_message_spec(scope, up)
    &&& r.upstream.action == (if scope == UpstreamInstallScope::Neither {
        UpstreamUpdateAction::Check
    } else {
        UpstreamUpdateAction::InstallInDesktop
    })
    &&& r.status == overall
    &&& r.message@ == overall_message_spec(overall)
    &&& r.checked_at == checked_at
}

/// What an update check reports overall: an update is available exactly when
/// the Desktop item or one of the components has one; the components that
/// have one make up the install scope, and then the upstream block offers
/// it; the message follows the overall status.
pub proof fn lemma_update_available_follows_items(
    r: UpdateCheckResult,
    current: CurrentVersions,
    preview: Option<LatestPreview>,
    clirelay: Option<CandidateView>,
    code_proxy: Option<CandidateView>,
    checked_at: UtcTime,
)
    requires
        update_result_matches(r, current, preview, clirelay, code_proxy, checked_at),
    ensures
        (r.status == UpdateStatus::UpdateAvailable) <==> (r.desktop@.status == UpdateStatus::UpdateAvailable
            || r.upstream.clirelay@.status == UpdateStatus::UpdateAvailable
            || r.upstream.code_proxy@.status == UpdateStatus::UpdateAvailable),
        (r.upstream.status == UpdateStatus::UpdateAvailable) <==> (r.upstream.install_scope
            != UpstreamInstallScope::Neither),
        r.upstream.install_scope != UpstreamInstallScope::Neither ==> r.status == UpdateStatus::UpdateAvailable,
        (r.upstream.install_scope == UpstreamInstallScope::Both || r.upstream.install_scope
            == UpstreamInstallScope::CliRelay) <==> r.upstream.clirelay@.status == UpdateStatus::UpdateAvailable,
        (r.upstream.install_scope == UpstreamInstallScope::Both || r.upstream.install_scope
            == UpstreamInstallScope::CodeProxy) <==> r.upstream.code_proxy@.status
            == UpdateStatus::UpdateAvailable,
        r.status == UpdateStatus::UpdateAvailable ==> r.message@ == "发现可用更新"@,
        r.status != UpdateStatus::UpdateAvailable ==> r.message@ != "发现可用更新"@,
        r.checked_at == checked_at,
{
    reveal_strlit("发现可用更新");
    reveal_strlit("已是最新");
    reveal_strlit("更新源不可用");
    reveal_strlit("部分更新检查失败");
    assert("更新源不可用"@[0] != "发现可用更新"@[0]);
    assert("已是最新"@.len() != "发现可用更新"@.len());
    assert("部分更新检查失败"@.len() != "发现可用更新"@.len());
}

fn desktop_item(current_version: &String, latest_preview: Option<LatestPreview>) -> (r: DesktopUpdateItem)
    ensures
        r@ == desktop_item_spec(current_version@, latest_preview),
{
    match latest_preview {
        Some(preview) => {
            let outcome = match validate_desktop_preview(&preview) {
                Ok(()) => is_newer_preview_version(current_version.as_str(), preview.version.as_str()),
                Err(e) => Err(e),
            };
            match outcome {
                Ok(newer) => {
                    let ghost notes = strings_view(preview.release_notes_summary@);
                    let ghost url = preview.release_url@.serialization;
                    let ghost version = preview.version@;
                    DesktopUpdateItem {
                        subject: UpdateSubject::Desktop,
                        status: if newer { UpdateStatus::UpdateAvailable } else { UpdateStatus::UpToDate },
                        current_version: current_version.clone(),
                        latest_version: Some(preview.version),
                        message: if newer { owned("发现桌面预览版更新") } else { owned("桌面预览版已是最新") },
                        release_url: Some(preview.release_url.serialization),
                        action: if newer { DesktopUpdateAction::OpenRelease } else { DesktopUpdateAction::NoAction },
                        release_notes_summary: preview.release_notes_summary,
                    }
                },
                Err(error) => desktop_error_item(current_version.clone(), error.to_string()),
            }
        },
        None => {
            let notes: Vec<String> = Vec::new();
            let r = DesktopUpdateItem {
                subject: UpdateSubject::Desktop,
                status: UpdateStatus::Unavailable,
                current_version: current_version.clone(),
                latest_version: None,
                message: owned("桌面预览版更新源不可用"),
                release_url: None,
                action: DesktopUpdateAction::NoAction,
                release_notes_summary: notes,
            };
            assert(strings_view(r.release_notes_summary@) =~= Seq::<Seq<char>>::empty());
            r
        },
    }
}

/// Summarises an update check.
pub fn build_update_check_result(
    current: CurrentVersions,
    latest_preview: Option<LatestPreview>,
    clirelay_candidate: Option<ComponentUpdateCandidate>,
    codeproxy_candidate: Option<ComponentUpdateCandidate>,
    checked_at: UtcTime,
) -> (r: UpdateCheckResult)
    ensures
        update_result_matches(
            r,
            current,
            latest_preview,
            opt_candidate_view(clirelay_candidate),
            opt_candidate_view(codeproxy_candidate),
            checked_at,
        ),
{
    let desktop = desktop_item(&current.desktop, latest_preview);
    let clirelay = component_item(UpdateSubject::CliRelay, current.clirelay, clirelay_candidate);
    let code_proxy = component_item(UpdateSubject::CodeProxy, current.code_proxy, codeproxy_candidate);
    let install_scope = match (
        clirelay.status == UpdateStatus::UpdateAvailable,
        code_proxy.status == UpdateStatus::UpdateAvailable,
    ) {
        (true, true) => UpstreamInstallScope::Both,
        (true, false) => UpstreamInstallScope::CliRelay,
        (false, true) => UpstreamInstallScope::CodeProxy,
        (false, false) => UpstreamInstallScope::Neither,
    };
    let upstream_status = if install_scope == UpstreamInstallScope::Neither {
        if clirelay.status == UpdateStatus::Error || code_proxy.status == UpdateStatus::Error {
            UpdateStatus::Error
        } else if clirelay.status == UpdateStatus::Unavailable || code_proxy.status == UpdateStatus::Unavailable {
            UpdateStatus::Unavailable
        } else {
            UpdateStatus::UpToDate
        }
    } else {
        UpdateStatus::UpdateAvailable
    };
    let upstream_action = if install_scope == UpstreamInstallScope::Neither {
        UpstreamUpdateAction::Check
    } else {
        UpstreamUpdateAction::InstallInDesktop
    };
    let upstream = UpstreamUpdateBlock {
        status: upstream_status,
        message: upstream_message(install_scope, upstream_status),
        clirelay,
        code_proxy,
        install_scope,
        action: upstream_action,
    };
    let status = if desktop.status == UpdateStatus::UpdateAvailable || upstream.status == UpdateStatus::UpdateAvailable {
        UpdateStatus::UpdateAvailable
    } else if desktop.status == UpdateStatus::Error || upstream.status == UpdateStatus::Error {
        UpdateStatus::Error
    } else if desktop.status == UpdateStatus::Unavailable || upstream.status == UpdateStatus::Unavailable {
        UpdateStatus::Unavailable
    } else {
        UpdateStatus::UpToDate
    };
    let message = match status {
        UpdateStatus::UpdateAvailable => owned("发现可用更新"),
        UpdateStatus::UpToDate => owned("已是最新"),
        UpdateStatus::Unavailable => owned("更新源不可用"),
        UpdateStatus::Error => owned("部分更新检查失败"),
    };
    UpdateCheckResult { status, message, checked_at, desktop, upstream }
}


// ---------------------------------------------------------------------------
// Copies of a summary

pub struct UpstreamBlockView {
    pub status: UpdateStatus,
    pub message: Seq<char>,
    pub clirelay: ComponentItemView,
    pub code_proxy: ComponentItemView,
    pub install_scope: UpstreamInstallScope,
    pub action: UpstreamUpdateAction,
}

impl View for UpstreamUpdateBlock {
    type V = UpstreamBlockView;

    open spec fn view(&self) -> UpstreamBlockView {
        UpstreamBlockView {
            status: self.status,
            message: self.message@,
            clirelay: self.clirelay@,
            code_proxy: self.code_proxy@,
            install_scope: self.install_scope,
            action: self.action,
        }
    }
}

pub struct UpdateResultView {
    pub status: UpdateStatus,
    pub message: Seq<char>,
    pub checked_at: UtcTime,
    pub desktop: DesktopItemView,
    pub upstream: UpstreamBlockView,
}

impl View for UpdateCheckResult {
    type V = UpdateResultView;

    open spec fn view(&self) -> UpdateResultView {
        UpdateResultView {
            status: self.status,
            message: self.message@,
            checked_at: self.checked_at,
            desktop: self.desktop@,
            upstream: self.upstream@,
        }
    }
}

pub fn copy_opt_string(s: &Option<String>) -> (r: Option<String>)
    ensures
        crate::web_url::opt_string_view(r) == crate::web_url::opt_string_view(*s),
{
    match s {
        Some(v) => Some(v.clone()),
        None => None,
    }
}

pub fn copy_strings(v: &Vec<String>) -> (r: Vec<String>)
    ensures
        strings_view(r@) == strings_view(v@),
{
    let mut r: Vec<String> = Vec::new();
    let mut i: usize = 0;
    while i < v.len()
        invariant
            0 <= i <= v@.len(),
            r@.len() == i,
            strings_view(r@) == strings_view(v@.subrange(0, i as int)),
        decreases v@.len() - i,
    {
        let ghost before = r@;
        let item = v[i].clone();
        r.push(item);
        proof {
            assert forall|j: int| 0 <= j < i implies r@[j]@ == v@[j]@ by {
                assert(r@[j] == before[j]);
                assert(strings_view(before)[j] == strings_view(v@.subrange(0, i as int))[j]);
            }
        }
        i = i + 1;
        assert(strings_view(r@) =~= strings_view(v@.subrange(0, i as int)));
    }
    assert(v@.subrange(0, v@.len() as int) =~= v@);
    r
}

impl ComponentUpdateItem {
    pub fn copy(&self) -> (r: Self)
        ensures
            r@ == self@,
    {
        ComponentUpdateItem {
            subject: self.subject,
            status: self.status,
            current_version: self.current_version.clone(),
            latest_version: copy_opt_string(&self.latest_version),
            message: self.message.clone(),
            release_url: copy_opt_string(&self.release_url),
            asset_name: copy_opt_string(&self.asset_name),
            asset_sha256: copy_opt_string(&self.asset_sha256),
        }
    }
}

impl UpdateCheckResult {
    /// A copy of the summary.
    pub fn copy(&self) -> (r: Self)
        ensures
            r@ == self@,
    {
        let d = &self.desktop;
        let desktop = DesktopUpdateItem {
            subject: d.subject,
            status: d.status,
            current_version: d.current_version.clone(),
            latest_version: copy_opt_string(&d.latest_version),
            message: d.message.clone(),
            release_url: copy_opt_string(&d.release_url),
            action: d.action,
            release_notes_summary: copy_strings(&d.release_notes_summary),
        };
        let u = &self.upstream;
        let upstream = UpstreamUpdateBlock {
            status: u.status,
            message: u.message.clone(),
            clirelay: u.clirelay.copy(),
            code_proxy: u.code_proxy.copy(),
            install_scope: u.install_scope,
            action: u.action,
        };
        UpdateCheckResult {
            status: self.status,
            message: self.message.clone(),
            checked_at: self.checked_at,
            desktop,
            upstream,
        }
    }
}

} // verus!
