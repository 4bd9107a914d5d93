//! Decisions of the upstream component updates: digests, archive paths and
//! when an update may be installed.
use crate::paths::{join_path, path_join, DesktopPaths};
use crate::service::manager::{status_name, status_name_str};
use crate::service::state::ServiceStatus;
use crate::text::{
    all_hex, ascii_lower, chars_eq, chars_of, concat_str, has_prefix, is_hex, lead_char,
    leading_char_count, push_str, slice_range, starts_with, string_from_chars, to_ascii_lower,
};
use crate::time::{format_utc, utc_format, UtcTime};
use crate::update_check::{
    asset_url_error, asset_url_outcome, copy_opt_string, error_message, validate_component_asset_url,
    CandidateView, ComponentUpdateCandidate, UpdateCheckError, UpdateErrorView, UpdateSubject,
    UpstreamComponent, UpstreamInstallScope,
};
use crate::web_url::opt_string_view;
use vstd::prelude::*;

verus! {

/// Why a component update failed.
#[derive(Debug)]
pub enum ComponentUpdateError {
    InvalidDigest(String),
    InvalidArchivePath(String),
    InvalidServiceStatus(ServiceStatus),
    MissingCliRelayBinary(String),
    MissingPanelEntrypoint(String),
    Io(String),
    Zip(String),
    UpdateCheck(UpdateCheckError),
    Network(String),
}

/// What a GitHub asset digest is worth: the lower-case hex of a
/// `sha256:<64 hex>` digest, or why it is refused.
pub open spec fn digest_outcome(digest: Option<Seq<char>>) -> Result<Seq<char>, UpdateErrorView> {
    match digest {
        None => Err(UpdateErrorView::InvalidDigest("GitHub asset digest 缺失"@)),
        Some(d) => if !crate::text::starts_with(d, "sha256:"@) {
            Err(UpdateErrorView::InvalidDigest("GitHub asset digest 必须以 sha256: 开头"@))
        } else {
            let v = d.subrange(7, d.len() as int);
            if v.len() != 64 || !(forall|j: int| 0 <= j < v.len() ==> is_hex(#[trigger] v[j])) {
                Err(UpdateErrorView::InvalidDigest("GitHub asset digest 必须是 sha256:<64 hex>"@))
            } else {
                Ok(ascii_lower(v))
            }
        },
    }
}

pub open spec fn opt_str_view(s: Option<&str>) -> Option<Seq<char>> {
    match s {
        Some(v) => Some(v@),
        None => None,
    }
}

/// Checks a GitHub asset digest and returns its lower-case hex value.
pub fn validate_component_digest(digest: Option<&str>) -> (r: Result<String, UpdateCheckError>)
    ensures
        match (r, digest_outcome(opt_str_view(digest))) {
            (Ok(v), Ok(w)) => v@ == w,
            (Err(e), Err(w)) => e@ == w,
            _ => false,
        },
{
    let digest = match digest {
        Some(d) => d,
        None => {
            return Err(UpdateCheckError::InvalidDigest(crate::text::owned("GitHub asset digest 缺失")));
        },
    };
    let d = chars_of(digest);
    let prefix = chars_of("sha256:");
    proof {
        reveal_strlit("sha256:");
    }
    if !has_prefix(d.as_slice(), prefix.as_slice()) {
        return Err(UpdateCheckError::InvalidDigest(crate::text::owned("GitHub asset digest 必须以 sha256: 开头")));
    }
    let value = slice_range(d.as_slice(), 7, d.len());
    if value.len() != 64 || !all_hex(value.as_slice()) {
        return Err(UpdateCheckError::InvalidDigest(crate::text::owned("GitHub asset digest 必须是 sha256:<64 hex>")));
    }
    let lower = to_ascii_lower(value.as_slice());
    Ok(string_from_chars(lower.as_slice()))
}

/// The pieces of `s` between the `'/'` separators, empty pieces included.
pub open spec fn split_slash(s: Seq<char>) -> Seq<Seq<char>>
    decreases s.len(),
{
    match crate::text::first_from(s.len() as int, |j: int| s[j] == '/', 0) {
        Some(k) => {
            proof {
                crate::text::lemma_first_from(s.len() as int, |j: int| s[j] == '/', 0);
            }
            if 0 <= k < s.len() {
                seq![s.subrange(0, k)] + split_slash(s.subrange(k + 1, s.len() as int))
            } else {
                seq![s]
            }
        },
        None => seq![s],
    }
}

/// Whether a path piece names something: neither empty nor `.`, as
/// `Path::components` yields `Normal` parts.
pub open spec fn is_named_part(p: Seq<char>) -> bool {
    p.len() > 0 && p != "."@
}

/// `acc` with each named piece of `parts` joined on in turn.
pub open spec fn join_named(acc: Seq<char>, parts: Seq<Seq<char>>) -> Seq<char>
    decreases parts.len(),
{
    if parts.len() == 0 {
        acc
    } else {
        let next = if is_named_part(parts[0]) {
            path_join(acc, parts[0])
        } else {
            acc
        };
        join_named(next, parts.drop_first())
    }
}

/// Where an archive entry lands under `root`: refused (`None`) when it is
/// absolute or has a `..` piece; otherwise `root` joined with its named pieces.
pub open spec fn archive_entry_outcome(root: Seq<char>, entry: Seq<char>) -> Option<Seq<char>> {
    if entry.len() > 0 && entry[0] == '/' {
        None
    } else if split_slash(entry).contains(".."@) {
        None
    } else {
        Some(join_named(root, split_slash(entry)))
    }
}

fn join_if_named(acc: &Vec<char>, piece: &Vec<char>) -> (r: Vec<char>)
    ensures
        r@ == (if is_named_part(piece@) { path_join(acc@, piece@) } else { acc@ }),
{
    let dot = chars_of(".");
    proof {
        reveal_strlit(".");
    }
    if piece.len() == 0 || chars_eq(piece.as_slice(), dot.as_slice()) {
        return acc.clone();
    }
    let mut r = acc.clone();
    if piece[0] == '/' {
        return piece.clone();
    }
    if acc.len() == 0 {
        return piece.clone();
    }
    if acc[acc.len() - 1] != '/' {
        r.push('/');
    }
    crate::text::push_all(&mut r, piece.as_slice());
    r
}

proof fn lemma_split_slash_step(v: Seq<char>, start: int, k: int)
    requires
        0 <= start <= k < v.len(),
        v[k] == '/',
        forall|j: int| start <= j < k ==> v[j] != '/',
    ensures
        split_slash(v.subrange(start, v.len() as int)) == seq![v.subrange(start, k)] + split_slash(
            v.subrange(k + 1, v.len() as int),
        ),
{
    let t = v.subrange(start, v.len() as int);
    let p = |j: int| t[j] == '/';
    assert forall|j: int| 0 <= j < k - start implies !#[trigger] p(j) by {
        assert(t[j] == v[start + j]);
    }
    crate::text::lemma_first_from_unique(t.len() as int, p, 0, Some(k - start));
    assert(t.subrange(0, k - start) =~= v.subrange(start, k));
    assert(t.subrange(k - start + 1, t.len() as int) =~= v.subrange(k + 1, v.len() as int));
}

proof fn lemma_split_slash_last(v: Seq<char>, start: int)
    requires
        0 <= start <= v.len(),
        forall|j: int| start <= j < v.len() ==> v[j] != '/',
    ensures
        split_slash(v.subrange(start, v.len() as int)) == seq![v.subrange(start, v.len() as int)],
{
    let t = v.subrange(start, v.len() as int);
    let p = |j: int| t[j] == '/';
    assert forall|j: int| 0 <= j < t.len() implies !#[trigger] p(j) by {
        assert(t[j] == v[start + j]);
    }
    crate::text::lemma_first_from_unique(t.len() as int, p, 0, None);
}

/// No piece of a split holds a `'/'`.
proof fn lemma_split_slash_pieces(s: Seq<char>)
    ensures
        forall|i: int, j: int|
            0 <= i < split_slash(s).len() && 0 <= j < split_slash(s)[i].len() ==> #[trigger] split_slash(s)[i][j]
                != '/',
    decreases s.len(),
{
    let p = |j: int| s[j] == '/';
    crate::text::lemma_first_from(s.len() as int, p, 0);
    match crate::text::first_from(s.len() as int, p, 0) {
        Some(k) => {
            let rest = s.subrange(k + 1, s.len() as int);
            lemma_split_slash_pieces(rest);
            let head = s.subrange(0, k);
            assert(split_slash(s) == seq![head] + split_slash(rest));
            assert forall|i: int, j: int|
                0 <= i < split_slash(s).len() && 0 <= j < split_slash(s)[i].len() implies #[trigger] split_slash(
                s,
            )[i][j] != '/' by {
                if i == 0 {
                    assert(head[j] == s[j]);
                    assert(!p(j));
                } else {
                    assert(split_slash(s)[i] == split_slash(rest)[i - 1]);
                    assert(split_slash(s)[i][j] == split_slash(rest)[i - 1][j]);
                }
            }
        },
        None => {
            assert(split_slash(s) == seq![s]);
            assert forall|i: int, j: int|
                0 <= i < split_slash(s).len() && 0 <= j < split_slash(s)[i].len() implies #[trigger] split_slash(
                s,
            )[i][j] != '/' by {
                assert(!p(j));
            }
        },
    }
}

/// Joining pieces without a `'/'` onto `acc` keeps `acc` in front.
proof fn lemma_join_named_keeps_front(acc: Seq<char>, parts: Seq<Seq<char>>)
    requires
        forall|i: int, j: int| 0 <= i < parts.len() && 0 <= j < parts[i].len() ==> #[trigger] parts[i][j] != '/',
    ensures
        starts_with(join_named(acc, parts), acc),
    decreases parts.len(),
{
    if parts.len() > 0 {
        let piece = parts[0];
        let next = if is_named_part(piece) {
            path_join(acc, piece)
        } else {
            acc
        };
        if is_named_part(piece) {
            assert(piece[0] != '/');
        }
        assert(next.subrange(0, acc.len() as int) =~= acc);
        let rest = parts.drop_first();
        assert forall|i: int, j: int| 0 <= i < rest.len() && 0 <= j < rest[i].len() implies #[trigger] rest[i][j]
            != '/' by {
            assert(rest[i] == parts[i + 1]);
        }
        lemma_join_named_keeps_front(next, rest);
        let out = join_named(next, rest);
        assert(out.subrange(0, acc.len() as int) =~= out.subrange(0, next.len() as int).subrange(
            0,
            acc.len() as int,
        ));
    } else {
        assert(acc.subrange(0, acc.len() as int) =~= acc);
    }
}

/// An archive entry that is unpacked at all lands under the root: its path
/// starts with the root, and the entry was neither absolute nor had a `..`
/// piece.
pub proof fn lemma_entry_stays_under_root(root: Seq<char>, entry: Seq<char>)
    ensures
        archive_entry_outcome(root, entry) matches Some(p) ==> starts_with(p, root) && !(entry.len() > 0
            && entry[0] == '/') && !split_slash(entry).contains(".."@),
{
    lemma_split_slash_pieces(entry);
    lemma_join_named_keeps_front(root, split_slash(entry));
}

/// Where an archive entry may be unpacked under `root`, refusing absolute
/// entries and entries that climb out with `..`.
pub fn safe_archive_entry_path(root: &str, entry_name: &str) -> (r: Result<String, ComponentUpdateError>)
    ensures
        match (r, archive_entry_outcome(root@, entry_name@)) {
            (Ok(p), Some(q)) => p@ == q,
            (Err(ComponentUpdateError::InvalidArchivePath(e)), None) => e@ == entry_name@,
            _ => false,
        },
{
    let v = chars_of(entry_name);
    if v.len() > 0 && v[0] == '/' {
        return Err(ComponentUpdateError::InvalidArchivePath(crate::text::owned(entry_name)));
    }
    let dotdot = chars_of("..");
    proof {
        reveal_strlit("..");
    }
    let ghost whole = split_slash(v@);
    let mut acc = chars_of(root);
    let mut start: usize = 0;
    let mut i: usize = 0;
    let n = v.len();
    let mut seen_dotdot = false;
    let ghost done: Seq<Seq<char>> = Seq::empty();
    assert(v@.subrange(0, n as int) =~= v@);
    while i < n
        invariant
            n == v@.len(),
            dotdot@ == ".."@,
            whole == split_slash(v@),
            start <= i <= n,
            forall|j: int| start <= j < i ==> v@[j] != '/',
            done + split_slash(v@.subrange(start as int, n as int)) == whole,
            seen_dotdot == done.contains(".."@),
            join_named(acc@, split_slash(v@.subrange(start as int, n as int))) == join_named(root@, whole),
        decreases n - i,
    {
        if v[i] == '/' {
            proof {
                lemma_split_slash_step(v@, start as int, i as int);
            }
            let piece = slice_range(v.as_slice(), start, i);
            if chars_eq(piece.as_slice(), dotdot.as_slice()) {
                seen_dotdot = true;
            }
            let ghost rest = split_slash(v@.subrange(i + 1, n as int));
            proof {
                assert(done.push(piece@) + rest =~= done + (seq![piece@] + rest));
                assert((seq![piece@] + rest).drop_first() =~= rest);
                if done.push(piece@).contains(".."@) && !done.contains(".."@) {
                    let w = choose|w: int| 0 <= w < done.push(piece@).len() && done.push(piece@)[w] == ".."@;
                    assert(w == done.len());
                }
                if piece@ == ".."@ {
                    assert(done.push(piece@)[done.len() as int] == ".."@);
                }
                if done.contains(".."@) {
                    let w = choose|w: int| 0 <= w < done.len() && done[w] == ".."@;
                    assert(done.push(piece@)[w] == ".."@);
                }
            }
            acc = join_if_named(&acc, &piece);
            proof {
                done = done.push(piece@);
            }
            start = i + 1;
        }
        i = i + 1;
    }
    proof {
        lemma_split_slash_last(v@, start as int);
    }
    let piece = slice_range(v.as_slice(), start, n);
    if chars_eq(piece.as_slice(), dotdot.as_slice()) {
        seen_dotdot = true;
    }
    proof {
        let fin = done.push(piece@);
        assert(fin =~= whole);
        if fin.contains(".."@) && !done.contains(".."@) {
            let w = choose|w: int| 0 <= w < fin.len() && fin[w] == ".."@;
            assert(w == done.len());
        }
        if piece@ == ".."@ {
            assert(fin[done.len() as int] == ".."@);
        }
        if done.contains(".."@) {
            let w = choose|w: int| 0 <= w < done.len() && done[w] == ".."@;
            assert(fin[w] == ".."@);
        }
        assert(seq![piece@].drop_first() =~= Seq::<Seq<char>>::empty());
    }
    if seen_dotdot {
        return Err(ComponentUpdateError::InvalidArchivePath(crate::text::owned(entry_name)));
    }
    let ghost before = acc@;
    acc = join_if_named(&acc, &piece);
    proof {
        assert(split_slash(v@.subrange(start as int, n as int)) == seq![piece@]);
        assert(join_named(acc@, Seq::<Seq<char>>::empty()) == acc@);
        assert(join_named(before, seq![piece@]) == join_named(acc@, seq![piece@].drop_first()));
        assert(!whole.contains(".."@));
    }
    Ok(string_from_chars(acc.as_slice()))
}

/// A CliRelay update may be installed over a stopped, running, unhealthy
/// or failed service, but never over an external or transitional one.
pub open spec fn clirelay_installable(status: ServiceStatus) -> bool {
    status == ServiceStatus::Stopped || status == ServiceStatus::Running || status == ServiceStatus::Unhealthy
        || status == ServiceStatus::Error
}

pub fn can_install_clirelay_for_status(status: ServiceStatus) -> (r: bool)
    ensures
        r == clirelay_installable(status),
{
    match status {
        ServiceStatus::Stopped | ServiceStatus::Running | ServiceStatus::Unhealthy | ServiceStatus::Error => true,
        _ => false,
    }
}


/// The message of a component-update error.
pub open spec fn component_error_message(e: ComponentUpdateError) -> Seq<char> {
    match e {
        ComponentUpdateError::InvalidDigest(m) => m@,
        ComponentUpdateError::InvalidArchivePath(p) => "压缩包路径不安全: "@ + p@,
        ComponentUpdateError::InvalidServiceStatus(s) => "当前服务状态不允许安装 CliRelay 热更: "@
            + status_name(s),
        ComponentUpdateError::MissingCliRelayBinary(p) => "CliRelay 解包后缺少 cli-proxy-api: "@ + p@,
        ComponentUpdateError::MissingPanelEntrypoint(p) => "codeProxy 解包后缺少 manage.html: "@ + p@,
        ComponentUpdateError::Io(m) => m@,
        ComponentUpdateError::Zip(m) => m@,
        ComponentUpdateError::UpdateCheck(u) => error_message(u@),
        ComponentUpdateError::Network(m) => m@,
    }
}

impl ComponentUpdateError {
    /// The error's message.
    pub fn to_string(&self) -> (r: String)
        ensures
            r@ == component_error_message(*self),
    {
        match self {
            ComponentUpdateError::InvalidDigest(m) => m.clone(),
            ComponentUpdateError::InvalidArchivePath(p) => concat_str("压缩包路径不安全: ", p.as_str()),
            ComponentUpdateError::InvalidServiceStatus(s) => {
                let mut v: Vec<char> = Vec::new();
                push_str(&mut v, "当前服务状态不允许安装 CliRelay 热更: ");
                let name = status_name_str(*s);
                push_str(&mut v, name);
                string_from_chars(v.as_slice())
            },
            ComponentUpdateError::MissingCliRelayBinary(p) => concat_str(
                "CliRelay 解包后缺少 cli-proxy-api: ",
                p.as_str(),
            ),
            ComponentUpdateError::MissingPanelEntrypoint(p) => concat_str(
                "codeProxy 解包后缺少 manage.html: ",
                p.as_str(),
            ),
            ComponentUpdateError::Io(m) => m.clone(),
            ComponentUpdateError::Zip(m) => m.clone(),
            ComponentUpdateError::UpdateCheck(u) => u.to_string(),
            ComponentUpdateError::Network(m) => m.clone(),
        }
    }

    /// An update-check error met during a component update.
    pub fn from_update_check(error: UpdateCheckError) -> (r: Self)
        ensures
            r == ComponentUpdateError::UpdateCheck(error),
    {
        ComponentUpdateError::UpdateCheck(error)
    }
}

/// What is recorded about an installed upstream component.
#[derive(Clone, Debug)]
pub struct ComponentRecord {
    pub version: String,
    pub asset_name: String,
    pub asset_url: Option<String>,
    pub asset_sha256: String,
    pub installed_at: UtcTime,
}

/// The installed upstream components.
#[derive(Clone, Debug)]
pub struct ComponentState {
    pub schema_version: u32,
    pub clirelay: Option<ComponentRecord>,
    pub code_proxy: Option<ComponentRecord>,
}

pub struct RecordView {
    pub version: Seq<char>,
    pub asset_name: Seq<char>,
    pub asset_url: Option<Seq<char>>,
    pub asset_sha256: Seq<char>,
    pub installed_at: UtcTime,
}

impl View for ComponentRecord {
    type V = RecordView;

    open spec fn view(&self) -> RecordView {
        RecordView {
            version: self.version@,
            asset_name: self.asset_name@,
            asset_url: opt_string_view(self.asset_url),
            asset_sha256: self.asset_sha256@,
            installed_at: self.installed_at,
        }
    }
}

pub struct ComponentStateView {
    pub schema_version: u32,
    pub clirelay: Option<RecordView>,
    pub code_proxy: Option<RecordView>,
}

pub open spec fn opt_record_view(r: Option<ComponentRecord>) -> Option<RecordView> {
    match r {
        Some(x) => Some(x@),
        None => None,
    }
}

impl View for ComponentState {
    type V = ComponentStateView;

    open spec fn view(&self) -> ComponentStateView {
        ComponentStateView {
            schema_version: self.schema_version,
            clirelay: opt_record_view(self.clirelay),
            code_proxy: opt_record_view(self.code_proxy),
        }
    }
}

impl Default for ComponentState {
    /// Nothing recorded, schema 0 (what an unreadable state file counts as).
    fn default() -> (r: Self)
        ensures
            r@ == (ComponentStateView { schema_version: 0, clirelay: None, code_proxy: None }),
    {
        ComponentState { schema_version: 0, clirelay: None, code_proxy: None }
    }
}

impl ComponentState {
    /// The state when no state file exists yet: schema 1, nothing installed.
    pub fn initial() -> (r: Self)
        ensures
            r@ == (ComponentStateView { schema_version: 1, clirelay: None, code_proxy: None }),
    {
        ComponentState { schema_version: 1, clirelay: None, code_proxy: None }
    }
}

fn copy_record(r: &ComponentRecord) -> (c: ComponentRecord)
    ensures
        c@ == r@,
{
    ComponentRecord {
        version: r.version.clone(),
        asset_name: r.asset_name.clone(),
        asset_url: copy_opt_string(&r.asset_url),
        asset_sha256: r.asset_sha256.clone(),
        installed_at: r.installed_at,
    }
}

fn copy_opt_record(r: &Option<ComponentRecord>) -> (c: Option<ComponentRecord>)
    ensures
        opt_record_view(c) == opt_record_view(*r),
{
    match r {
        Some(x) => Some(copy_record(x)),
        None => None,
    }
}

/// The record of a candidate installed at `at`.
pub open spec fn record_of(c: CandidateView, at: UtcTime) -> RecordView {
    RecordView {
        version: c.version,
        asset_name: c.asset_name,
        asset_url: Some(c.asset_url.serialization),
        asset_sha256: c.asset_sha256,
        installed_at: at,
    }
}

/// `state` after `candidate` was installed at `at`: schema 1, and the
/// candidate's component recorded (a desktop candidate records nothing).
pub open spec fn state_after_install(state: ComponentStateView, c: CandidateView, at: UtcTime) -> ComponentStateView {
    match c.subject {
        UpdateSubject::CliRelay => ComponentStateView {
            schema_version: 1,
            clirelay: Some(record_of(c, at)),
            ..state
        },
        UpdateSubject::CodeProxy => ComponentStateView {
            schema_version: 1,
            code_proxy: Some(record_of(c, at)),
            ..state
        },
        UpdateSubject::Desktop => ComponentStateView { schema_version: 1, ..state },
    }
}

/// Records an installed candidate.
/// Recording an installed component records that component only: its
/// record holds the candidate's version, asset, digest and the install time,
/// the other component's record is kept as it was, and a Desktop candidate
/// records nothing.
pub proof fn lemma_install_records_only_its_component(state: ComponentStateView, c: CandidateView, at: UtcTime)
    ensures
        ({
            let n = state_after_install(state, c, at);
            let mine = if c.subject == UpdateSubject::CliRelay {
                n.clirelay
            } else {
                n.code_proxy
            };
            &&& n.schema_version == 1
            &&& c.subject == UpdateSubject::CliRelay ==> n.code_proxy == state.code_proxy
            &&& c.subject == UpdateSubject::CodeProxy ==> n.clirelay == state.clirelay
            &&& c.subject == UpdateSubject::Desktop ==> n.clirelay == state.clirelay && n.code_proxy
                == state.code_proxy
            &&& c.subject != UpdateSubject::Desktop ==> (mine matches Some(rec) && rec.version == c.version
                && rec.asset_name == c.asset_name && rec.asset_url == Some(c.asset_url.serialization)
                && rec.asset_sha256 == c.asset_sha256 && rec.installed_at == at)
        }),
{
}

pub fn record_installed_component(
    state: &ComponentState,
    candidate: &ComponentUpdateCandidate,
    installed_at: UtcTime,
) -> (r: ComponentState)
    ensures
        r@ == state_after_install(state@, candidate@, installed_at),
{
    let record = ComponentRecord {
        version: candidate.version.clone(),
        asset_name: candidate.asset_name.clone(),
        asset_url: Some(candidate.asset_url.serialization.clone()),
        asset_sha256: candidate.asset_sha256.clone(),
        installed_at,
    };
    match candidate.subject {
        UpdateSubject::CliRelay => ComponentState {
            schema_version: 1,
            clirelay: Some(record),
            code_proxy: copy_opt_record(&state.code_proxy),
        },
        UpdateSubject::CodeProxy => ComponentState {
            schema_version: 1,
            clirelay: copy_opt_record(&state.clirelay),
            code_proxy: Some(record),
        },
        UpdateSubject::Desktop => ComponentState {
            schema_version: 1,
            clirelay: copy_opt_record(&state.clirelay),
            code_proxy: copy_opt_record(&state.code_proxy),
        },
    }
}

/// The versions and sidecar digest that ship with the app.
#[derive(Clone, Debug)]
pub struct BundledVersions {
    pub clirelay_version: String,
    pub code_proxy_version: String,
    pub clirelay_sha256: String,
}

/// The installed version of each component, or the bundled one where none is
/// recorded: (CliRelay, codeProxy).
pub fn current_component_versions(state: &ComponentState, bundled: &BundledVersions) -> (r: (String, String))
    ensures
        r.0@ == match state@.clirelay {
            Some(rec) => rec.version,
            None => bundled.clirelay_version@,
        },
        r.1@ == match state@.code_proxy {
            Some(rec) => rec.version,
            None => bundled.code_proxy_version@,
        },
{
    let clirelay = match &state.clirelay {
        Some(rec) => rec.version.clone(),
        None => bundled.clirelay_version.clone(),
    };
    let code_proxy = match &state.code_proxy {
        Some(rec) => rec.version.clone(),
        None => bundled.code_proxy_version.clone(),
    };
    (clirelay, code_proxy)
}

/// The digest of the sidecar in use: that of the installed CliRelay asset,
/// or the bundled one.
pub fn current_sidecar_sha256(state: &ComponentState, bundled: &BundledVersions) -> (r: String)
    ensures
        r@ == match state@.clirelay {
            Some(rec) => rec.asset_sha256,
            None => bundled.clirelay_sha256@,
        },
{
    match &state.clirelay {
        Some(rec) => rec.asset_sha256.clone(),
        None => bundled.clirelay_sha256.clone(),
    }
}

/// The runtime sidecar is used only when it is a file and an installed
/// CliRelay is on record in a readable state.
pub fn runtime_sidecar_if_valid(paths: &DesktopPaths, sidecar_is_file: bool, state: Option<&ComponentState>) -> (r: Option<String>)
    ensures
        match r {
            Some(p) => sidecar_is_file && (match state {
                Some(st) => st@.clirelay is Some,
                None => false,
            }) && p@ == paths.runtime_sidecar_executable@,
            None => !sidecar_is_file || (match state {
                Some(st) => st@.clirelay is None,
                None => true,
            }),
        },
{
    if !sidecar_is_file {
        return None;
    }
    let st = match state {
        Some(st) => st,
        None => {
            return None;
        },
    };
    if st.clirelay.is_none() {
        return None;
    }
    Some(paths.runtime_sidecar_executable.clone())
}

/// How an install went.
#[derive(Clone, Copy, Debug, PartialEq, Eq, Structural)]
pub enum InstallStatus {
    Success,
    PartialSuccess,
    NoUpdates,
}

/// The outcome of an install: its status, message and what was installed.
#[derive(Clone, Debug)]
pub struct ComponentInstallResult {
    pub status: InstallStatus,
    pub message: String,
    pub installed_scope: UpstreamInstallScope,
}

/// A component unpacked and ready to replace the one in use.
#[derive(Clone, Debug)]
pub struct PreparedComponentArtifact {
    pub candidate: ComponentUpdateCandidate,
    pub prepared_dir: String,
}

/// The components prepared for one update.
#[derive(Clone, Debug)]
pub struct PreparedComponentUpdate {
    pub install_scope: UpstreamInstallScope,
    pub clirelay: Option<PreparedComponentArtifact>,
    pub code_proxy: Option<PreparedComponentArtifact>,
    pub prepared_at: UtcTime,
}

/// The subject of a component's updates.
pub open spec fn subject_of(component: UpstreamComponent) -> UpdateSubject {
    match component {
        UpstreamComponent::CliRelay => UpdateSubject::CliRelay,
        UpstreamComponent::CodeProxy => UpdateSubject::CodeProxy,
    }
}

/// A candidate may be prepared as `component` only when it is that
/// component's and its asset comes from that component's releases.
pub open spec fn candidate_check(c: CandidateView, component: UpstreamComponent) -> Option<ComponentErrorKind> {
    if c.subject != subject_of(component) {
        Some(ComponentErrorKind::InvalidArchivePath(c.asset_name))
    } else if asset_url_outcome(c.asset_url, component) is Err {
        Some(ComponentErrorKind::UpdateCheck(asset_url_error(component)))
    } else {
        None
    }
}

/// The kind and text of a component-update error.
pub enum ComponentErrorKind {
    InvalidArchivePath(Seq<char>),
    UpdateCheck(UpdateErrorView),
}

/// Checks a candidate before it is downloaded and unpacked as `component`.
pub fn check_candidate(candidate: &ComponentUpdateCandidate, component: UpstreamComponent) -> (r: Result<(), ComponentUpdateError>)
    ensures
        match (r, candidate_check(candidate@, component)) {
            (Ok(()), None) => true,
            (Err(ComponentUpdateError::InvalidArchivePath(p)), Some(ComponentErrorKind::InvalidArchivePath(q))) => p@ == q,
            (Err(ComponentUpdateError::UpdateCheck(u)), Some(ComponentErrorKind::UpdateCheck(w))) => u@ == w,
            _ => false,
        },
{
    let expected = match component {
        UpstreamComponent::CliRelay => UpdateSubject::CliRelay,
        UpstreamComponent::CodeProxy => UpdateSubject::CodeProxy,
    };
    if candidate.subject != expected {
        return Err(ComponentUpdateError::InvalidArchivePath(candidate.asset_name.clone()));
    }
    match validate_component_asset_url(&candidate.asset_url, component) {
        Ok(()) => Ok(()),
        Err(e) => Err(ComponentUpdateError::UpdateCheck(e)),
    }
}


/// The lower-case hex digit of a value below 16.
pub open spec fn hex_digit(d: int) -> char {
    if d < 10 {
        ((d + 48) as u32) as char
    } else {
        ((d + 87) as u32) as char
    }
}

/// `bytes` in lower-case hex: two digits per byte, high nibble first.
pub open spec fn hex_text(bytes: Seq<u8>) -> Seq<char> {
    Seq::new(
        2 * bytes.len(),
        |i: int|
            if i % 2 == 0 {
                hex_digit((bytes[i / 2] / 16) as int)
            } else {
                hex_digit((bytes[i / 2] % 16) as int)
            },
    )
}

/// `hex::encode`: the contract states the documented lower-case encoding,
/// two digits per byte, high nibble first.
#[verifier::external_body]
fn hex_encode(bytes: &[u8]) -> (r: String)
    ensures
        r@ == hex_text(bytes@),
{
    hex::encode(bytes)
}

/// The SHA-256 digest of a byte string.
pub uninterp spec fn sha256_of(data: Seq<u8>) -> Seq<u8>;

/// `sha2::Sha256::digest`: the contract names the digest and states that it
/// has 32 bytes.
#[verifier::external_body]
fn sha256_digest(data: &[u8]) -> (r: Vec<u8>)
    ensures
        r@ == sha256_of(data@),
        r@.len() == 32,
{
    <sha2::Sha256 as sha2::Digest>::digest(data).to_vec()
}

/// The message of a downloaded file whose digest differs from the expected.
pub open spec fn digest_mismatch_message(expected: Seq<char>, actual: Seq<char>) -> Seq<char> {
    "下载文件 SHA-256 不匹配: expected "@ + expected + ", actual "@ + actual
}

/// A downloaded file is accepted only when the lower-case hex of its SHA-256
/// equals the expected digest in lower case.
pub fn verify_sha256(data: &[u8], expected: &str) -> (r: Result<(), ComponentUpdateError>)
    ensures
        hex_text(sha256_of(data@)) == ascii_lower(expected@) ==> r is Ok,
        hex_text(sha256_of(data@)) != ascii_lower(expected@) ==> (match r {
            Err(ComponentUpdateError::InvalidDigest(m)) => m@ == digest_mismatch_message(
                expected@,
                hex_text(sha256_of(data@)),
            ),
            _ => false,
        }),
{
    let digest = sha256_digest(data);
    let actual = hex_encode(digest.as_slice());
    let expected_chars = chars_of(expected);
    let lower = to_ascii_lower(expected_chars.as_slice());
    let actual_chars = chars_of(actual.as_str());
    if chars_eq(actual_chars.as_slice(), lower.as_slice()) {
        Ok(())
    } else {
        let mut v: Vec<char> = Vec::new();
        push_str(&mut v, "下载文件 SHA-256 不匹配: expected ");
        push_str(&mut v, expected);
        push_str(&mut v, ", actual ");
        push_str(&mut v, actual.as_str());
        Err(ComponentUpdateError::InvalidDigest(string_from_chars(v.as_slice())))
    }
}

/// Where a component's asset is downloaded: the directory
/// `<downloads>/<component>/<version>` and in it `<asset name>.download`.
pub open spec fn download_dir_of(paths: DesktopPaths, component_dir: Seq<char>, version: Seq<char>) -> Seq<char> {
    path_join(path_join(paths.update_downloads_dir@, component_dir), version)
}

pub fn download_target(paths: &DesktopPaths, component_dir: &str, candidate: &ComponentUpdateCandidate) -> (r: (String, String))
    ensures
        r.0@ == download_dir_of(*paths, component_dir@, candidate.version@),
        r.1@ == path_join(
            download_dir_of(*paths, component_dir@, candidate.version@),
            candidate.asset_name@ + ".download"@,
        ),
{
    let base = join_path(paths.update_downloads_dir.as_str(), component_dir);
    let dir = join_path(base.as_str(), candidate.version.as_str());
    let name = concat_str(candidate.asset_name.as_str(), ".download");
    let file = join_path(dir.as_str(), name.as_str());
    (dir, file)
}

/// Where a component version is unpacked: `<staging>/<component>/<version>`.
pub open spec fn staging_dir_of(paths: DesktopPaths, component_dir: Seq<char>, version: Seq<char>) -> Seq<char> {
    path_join(path_join(paths.update_staging_dir@, component_dir), version)
}

pub fn staging_dir(paths: &DesktopPaths, component_dir: &str, version: &str) -> (r: String)
    ensures
        r@ == staging_dir_of(*paths, component_dir@, version@),
{
    let base = join_path(paths.update_staging_dir.as_str(), component_dir);
    join_path(base.as_str(), version)
}

/// Where an old component is moved before it is replaced:
/// `<backups>/<component>/<version without leading v's>-<timestamp>`.
pub open spec fn backup_dir_of(paths: DesktopPaths, component_dir: Seq<char>, version: Seq<char>, timestamp: Seq<char>) -> Seq<char> {
    path_join(
        path_join(paths.backups_dir@, component_dir),
        version.subrange(lead_char(version, 'v'), version.len() as int) + seq!['-'] + timestamp,
    )
}

pub fn backup_dir(paths: &DesktopPaths, component_dir: &str, version: &str, timestamp: &str) -> (r: String)
    ensures
        r@ == backup_dir_of(*paths, component_dir@, version@, timestamp@),
{
    let base = join_path(paths.backups_dir.as_str(), component_dir);
    let v = chars_of(version);
    let skip = leading_char_count(v.as_slice(), 'v');
    let mut name = slice_range(v.as_slice(), skip, v.len());
    name.push('-');
    push_str(&mut name, timestamp);
    let name = string_from_chars(name.as_slice());
    join_path(base.as_str(), name.as_str())
}

/// The timestamp format of backup directory names.
pub const BACKUP_TIMESTAMP_FORMAT: &'static str = "%Y%m%d%H%M%S";

/// Where an old component is moved at the instant `now`: `backup_dir` named
/// with `now` written as `BACKUP_TIMESTAMP_FORMAT`, or `None` when chrono
/// cannot write that instant.
pub fn backup_target(paths: &DesktopPaths, component_dir: &str, version: &str, now: UtcTime) -> (r: Option<String>)
    ensures
        match utc_format(now, BACKUP_TIMESTAMP_FORMAT@) {
            Some(ts) => r matches Some(d) && d@ == backup_dir_of(*paths, component_dir@, version@, ts),
            None => r is None,
        },
{
    match format_utc(now, BACKUP_TIMESTAMP_FORMAT) {
        Some(ts) => Some(backup_dir(paths, component_dir, version, ts.as_str())),
        None => None,
    }
}

} // verus!
