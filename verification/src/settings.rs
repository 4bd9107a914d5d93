//! Desktop settings, and the rendering of CliRelay's runtime `config.yaml`.
use crate::text::{
    first_from, lemma_first_from_unique, chars_eq, ends_with, lead_char, leading_char_count,
    chars_of, decimal, decimal_chars, has_prefix, is_blank, is_blank_chars, join_lines,
    join_with_newlines, lead_ws, leading_whitespace_len, lemma_trim_empty_iff_blank, lines_of,
    push_all, space_chars, spaces, split_lines, starts_with, string_from_chars, trim, trimmed,
    views,
};
use crate::json::{json_escaped, json_string_literal, lemma_literal};
use crate::lines::{line_equiv, no_newline};
use crate::paths::DesktopPaths;
use crate::text::{differs_from, is_ws, lemma_lead_ws};
use crate::time::UtcTime;
use crate::update_check::{UpdateCheckResult, UpdateResultView};
use vstd::prelude::*;

verus! {

pub const SETTINGS_SCHEMA_VERSION: u32 = 1;
pub const DEFAULT_SERVICE_PORT: u16 = 8317;
pub const MIN_SERVICE_PORT: u16 = 1024;

/// Why a settings or configuration operation failed.
#[derive(Debug)]
pub enum SettingsError {
    InvalidPort(u16),
    MissingTopLevelPort,
    MissingAutoUpdateEnabled,
    MissingPanelEntrypoint(String),
    Io(String),
    Json(String),
}

/// The language of the desktop UI.
#[derive(Clone, Copy, Debug, PartialEq, Eq, Structural)]
pub enum DesktopLocale {
    ZhCn,
    En,
}

/// The language code the management panel uses for a locale.
pub open spec fn panel_language(locale: DesktopLocale) -> Seq<char> {
    match locale {
        DesktopLocale::ZhCn => "zh-CN"@,
        DesktopLocale::En => "en"@,
    }
}

impl DesktopLocale {
    pub fn as_panel_language(self) -> (r: &'static str)
        ensures
            r@ == panel_language(self),
    {
        match self {
            DesktopLocale::ZhCn => "zh-CN",
            DesktopLocale::En => "en",
        }
    }
}

impl Default for DesktopLocale {
    fn default() -> (r: Self)
        ensures
            r == DesktopLocale::ZhCn,
    {
        DesktopLocale::ZhCn
    }
}

/// The desktop app's settings.
#[derive(Clone, Debug)]
pub struct DesktopSettings {
    pub schema_version: u32,
    pub first_run_completed: bool,
    pub auto_start_app: bool,
    pub auto_start_service: bool,
    pub open_panel_on_start: bool,
    pub port: u16,
    pub auto_check_new_versions: bool,
    pub last_update_check_at: Option<UtcTime>,
    pub last_update_check_result: Option<UpdateCheckResult>,
    pub locale: DesktopLocale,
}

pub open spec fn opt_result_view(r: Option<UpdateCheckResult>) -> Option<UpdateResultView> {
    match r {
        Some(v) => Some(v@),
        None => None,
    }
}

/// The settings as values.
pub struct DesktopSettingsView {
    pub schema_version: u32,
    pub first_run_completed: bool,
    pub auto_start_app: bool,
    pub auto_start_service: bool,
    pub open_panel_on_start: bool,
    pub port: u16,
    pub auto_check_new_versions: bool,
    pub last_update_check_at: Option<UtcTime>,
    pub last_update_check_result: Option<UpdateResultView>,
    pub locale: DesktopLocale,
}

impl View for DesktopSettings {
    type V = DesktopSettingsView;

    open spec fn view(&self) -> DesktopSettingsView {
        DesktopSettingsView {
            schema_version: self.schema_version,
            first_run_completed: self.first_run_completed,
            auto_start_app: self.auto_start_app,
            auto_start_service: self.auto_start_service,
            open_panel_on_start: self.open_panel_on_start,
            port: self.port,
            auto_check_new_versions: self.auto_check_new_versions,
            last_update_check_at: self.last_update_check_at,
            last_update_check_result: opt_result_view(self.last_update_check_result),
            locale: self.locale,
        }
    }
}

/// The settings of a first run.
pub open spec fn default_settings() -> DesktopSettingsView {
    DesktopSettingsView {
        schema_version: SETTINGS_SCHEMA_VERSION,
        first_run_completed: false,
        auto_start_app: false,
        auto_start_service: false,
        open_panel_on_start: true,
        port: DEFAULT_SERVICE_PORT,
        auto_check_new_versions: false,
        last_update_check_at: None,
        last_update_check_result: None,
        locale: DesktopLocale::ZhCn,
    }
}

impl Default for DesktopSettings {
    fn default() -> (r: Self)
        ensures
            r@ == default_settings(),
    {
        DesktopSettings {
            schema_version: SETTINGS_SCHEMA_VERSION,
            first_run_completed: false,
            auto_start_app: false,
            auto_start_service: false,
            open_panel_on_start: true,
            port: DEFAULT_SERVICE_PORT,
            auto_check_new_versions: false,
            last_update_check_at: None,
            last_update_check_result: None,
            locale: DesktopLocale::ZhCn,
        }
    }
}

impl DesktopSettings {
    /// A service port must be at least 1024.
    pub fn validate_port(port: u16) -> (r: Result<(), SettingsError>)
        ensures
            port >= MIN_SERVICE_PORT <==> r is Ok,
            r is Err ==> r->Err_0 == SettingsError::InvalidPort(port),
    {
        if port < MIN_SERVICE_PORT {
            return Err(SettingsError::InvalidPort(port));
        }
        Ok(())
    }

    /// The settings with another port, refused below 1024.
    pub fn with_port(self, port: u16) -> (r: Result<Self, SettingsError>)
        ensures
            port >= MIN_SERVICE_PORT <==> r is Ok,
            r is Ok ==> r->Ok_0@ == (DesktopSettingsView { port, ..self@ }),
            r is Err ==> r->Err_0 == SettingsError::InvalidPort(port),
    {
        Self::validate_port(port)?;
        let mut updated = self;
        updated.port = port;
        Ok(updated)
    }

    /// A copy of the settings.
    pub fn copy(&self) -> (r: Self)
        ensures
            r@ == self@,
    {
        DesktopSettings {
            schema_version: self.schema_version,
            first_run_completed: self.first_run_completed,
            auto_start_app: self.auto_start_app,
            auto_start_service: self.auto_start_service,
            open_panel_on_start: self.open_panel_on_start,
            port: self.port,
            auto_check_new_versions: self.auto_check_new_versions,
            last_update_check_at: self.last_update_check_at,
            last_update_check_result: match &self.last_update_check_result {
                Some(r) => Some(r.copy()),
                None => None,
            },
            locale: self.locale,
        }
    }
}

/// The message of a settings error.
pub open spec fn settings_error_message(e: SettingsError) -> Seq<char> {
    match e {
        SettingsError::InvalidPort(port) => "端口必须在 1024-65535 范围内: "@ + decimal(port as nat),
        SettingsError::MissingTopLevelPort => "config.example.yaml 中未找到顶层 port"@,
        SettingsError::MissingAutoUpdateEnabled => "config.example.yaml 中未找到 auto-update.enabled"@,
        SettingsError::MissingPanelEntrypoint(path) => "panel 入口文件不存在: "@ + path@,
        SettingsError::Io(m) => m@,
        SettingsError::Json(m) => m@,
    }
}

impl SettingsError {
    /// The error's message.
    pub fn to_string(&self) -> (r: String)
        ensures
            r@ == settings_error_message(*self),
    {
        match self {
            SettingsError::InvalidPort(port) => {
                let mut v = chars_of("端口必须在 1024-65535 范围内: ");
                let d = decimal_chars(*port as u64);
                push_all(&mut v, d.as_slice());
                string_from_chars(v.as_slice())
            },
            SettingsError::MissingTopLevelPort => crate::text::owned("config.example.yaml 中未找到顶层 port"),
            SettingsError::MissingAutoUpdateEnabled => crate::text::owned("config.example.yaml 中未找到 auto-update.enabled"),
            SettingsError::MissingPanelEntrypoint(path) => crate::text::concat_str("panel 入口文件不存在: ", path.as_str()),
            SettingsError::Io(m) => m.clone(),
            SettingsError::Json(m) => m.clone(),
        }
    }
}

// ---------------------------------------------------------------------------
// Runtime config rendering

/// A line at column 0 that reads `auto-update:` once trimmed.
pub open spec fn is_auto_update_header(l: Seq<char>) -> bool {
    lead_ws(l) == 0 && trim(l) == "auto-update:"@
}

/// A line at column 0 whose trimmed text starts with `port:`.
pub open spec fn is_top_level_port(l: Seq<char>) -> bool {
    lead_ws(l) == 0 && starts_with(trim(l), "port:"@)
}

/// A non-blank line at column 0, which closes any section above it.
pub open spec fn closes_section(l: Seq<char>) -> bool {
    !is_blank(l) && lead_ws(l) == 0
}

/// Line `j` lies in an `auto-update:` section: some earlier line is the
/// section header and no line after it, up to and including `j`, closes it.
pub open spec fn in_auto_update(ls: Seq<Seq<char>>, j: int) -> bool {
    exists|k: int|
        0 <= k < j && #[trigger] is_auto_update_header(ls[k]) && forall|m: int|
            k < m <= j ==> !closes_section(#[trigger] ls[m])
}

/// The section is open after the first `i` lines.
pub open spec fn open_after(ls: Seq<Seq<char>>, i: int) -> bool {
    exists|k: int|
        0 <= k < i && #[trigger] is_auto_update_header(ls[k]) && forall|m: int|
            k < m < i ==> !closes_section(#[trigger] ls[m])
}

/// Line `j` is the `enabled:` key of an `auto-update:` section.
pub open spec fn is_auto_update_enabled(ls: Seq<Seq<char>>, j: int) -> bool {
    in_auto_update(ls, j) && starts_with(trim(ls[j]), "enabled:"@)
}

/// Line `j` of the rendered config: a top-level `port:` line carries the
/// desktop port, the `enabled:` key of `auto-update:` reads `false` at the
/// same indentation, and every other line is kept.
pub open spec fn rendered_config_line(ls: Seq<Seq<char>>, j: int, port: u16) -> Seq<char> {
    let l = ls[j];
    if is_auto_update_header(l) {
        l
    } else if is_top_level_port(l) {
        "port: "@ + decimal(port as nat)
    } else if is_auto_update_enabled(ls, j) {
        spaces(lead_ws(l) as nat) + "enabled: false"@
    } else {
        l
    }
}

/// The lines of `ls` rendered one by one.
pub open spec fn rendered_lines(ls: Seq<Seq<char>>, port: u16) -> Seq<Seq<char>> {
    Seq::new(ls.len(), |j: int| rendered_config_line(ls, j, port))
}

/// The rendered config: the lines of `source` rendered one by one, joined
/// by line feeds, with a final line feed when `source` ends with one.
pub open spec fn rendered_config(source: Seq<char>, port: u16) -> Seq<char> {
    join_lines(rendered_lines(lines_of(source), port)) + if source.len() > 0
        && source.last() == '\n' {
        seq!['\n']
    } else {
        Seq::empty()
    }
}

/// The outcome of rendering the bundled example config for `port`.
pub open spec fn render_outcome(source: Seq<char>, port: u16) -> Result<Seq<char>, SettingsError> {
    let ls = lines_of(source);
    if port < MIN_SERVICE_PORT {
        Err(SettingsError::InvalidPort(port))
    } else if !exists|j: int| 0 <= j < ls.len() && #[trigger] is_top_level_port(ls[j]) {
        Err(SettingsError::MissingTopLevelPort)
    } else if !exists|j: int| 0 <= j < ls.len() && #[trigger] is_auto_update_enabled(ls, j) {
        Err(SettingsError::MissingAutoUpdateEnabled)
    } else {
        Ok(rendered_config(source, port))
    }
}

/// The view of a rendering result: the text of an `Ok`, the error otherwise.
pub open spec fn text_result_view(r: Result<String, SettingsError>) -> Result<Seq<char>, SettingsError> {
    match r {
        Ok(s) => Ok(s@),
        Err(e) => Err(e),
    }
}

proof fn lemma_open_step(ls: Seq<Seq<char>>, i: int)
    requires
        0 <= i < ls.len(),
    ensures
        (open_after(ls, i) && !closes_section(ls[i])) == in_auto_update(ls, i),
        open_after(ls, i + 1) == (is_auto_update_header(ls[i]) || in_auto_update(ls, i)),
{
    if open_after(ls, i) && !closes_section(ls[i]) {
        let k = choose|k: int|
            0 <= k < i && #[trigger] is_auto_update_header(ls[k]) && forall|m: int|
                k < m < i ==> !closes_section(#[trigger] ls[m]);
        assert(forall|m: int| k < m <= i ==> !closes_section(#[trigger] ls[m]));
    }
    if in_auto_update(ls, i) {
        let k = choose|k: int|
            0 <= k < i && #[trigger] is_auto_update_header(ls[k]) && forall|m: int|
                k < m <= i ==> !closes_section(#[trigger] ls[m]);
        assert(forall|m: int| k < m < i ==> !closes_section(#[trigger] ls[m]));
        assert(open_after(ls, i));
        assert(forall|m: int| k < m < i + 1 ==> !closes_section(#[trigger] ls[m]));
    }
    if is_auto_update_header(ls[i]) {
        assert(forall|m: int| i < m < i + 1 ==> !closes_section(#[trigger] ls[m]));
    }
    if open_after(ls, i + 1) && !is_auto_update_header(ls[i]) {
        let k = choose|k: int|
            0 <= k < i + 1 && #[trigger] is_auto_update_header(ls[k]) && forall|m: int|
                k < m < i + 1 ==> !closes_section(#[trigger] ls[m]);
        assert(k < i);
        assert(forall|m: int| k < m <= i ==> !closes_section(#[trigger] ls[m]));
    }
}

/// Line `j` under the rendering rule, with its classification computed.
fn render_config_line(
    line: &Vec<char>,
    port_line: &Vec<char>,
    is_header: bool,
    is_port: bool,
    is_enabled: bool,
) -> (r: Vec<char>)
    ensures
        r@ == (if is_header {
            line@
        } else if is_port {
            port_line@
        } else if is_enabled {
            spaces(lead_ws(line@) as nat) + "enabled: false"@
        } else {
            line@
        }),
{
    if is_header {
        line.clone()
    } else if is_port {
        port_line.clone()
    } else if is_enabled {
        let mut r = space_chars(leading_whitespace_len(line.as_slice()));
        let tail = chars_of("enabled: false");
        push_all(&mut r, tail.as_slice());
        r
    } else {
        line.clone()
    }
}

/// Renders the bundled example config for the desktop runtime: the
/// top-level `port:` takes the desktop port and `auto-update.enabled` is
/// turned off. Fails when the port is below 1024 or either key is missing.
pub fn render_runtime_config(source: &str, port: u16) -> (r: Result<String, SettingsError>)
    ensures
        text_result_view(r) == render_outcome(source@, port),
{
    if port < MIN_SERVICE_PORT {
        return Err(SettingsError::InvalidPort(port));
    }
    let src = chars_of(source);
    let ls = split_lines(src.as_slice());
    let ghost lsv = lines_of(source@);
    let header = chars_of("auto-update:");
    let port_key = chars_of("port:");
    let enabled_key = chars_of("enabled:");
    let mut port_line = chars_of("port: ");
    let digits = decimal_chars(port as u64);
    push_all(&mut port_line, digits.as_slice());
    let mut found_port = false;
    let mut found_enabled = false;
    let mut in_section = false;
    let mut output: Vec<Vec<char>> = Vec::new();
    let mut i: usize = 0;
    while i < ls.len()
        invariant
            views(ls@) == lsv,
            lsv == lines_of(source@),
            0 <= i <= ls@.len(),
            header@ == "auto-update:"@,
            port_key@ == "port:"@,
            enabled_key@ == "enabled:"@,
            port_line@ == "port: "@ + decimal(port as nat),
            in_section == open_after(lsv, i as int),
            found_port == exists|j: int| 0 <= j < i && #[trigger] is_top_level_port(lsv[j]),
            found_enabled == exists|j: int| 0 <= j < i && #[trigger] is_auto_update_enabled(lsv, j),
            views(output@) == Seq::new(i as nat, |j: int| rendered_config_line(lsv, j, port)),
        decreases ls@.len() - i,
    {
        let line = &ls[i];
        assert(line@ == lsv[i as int]);
        let indent = leading_whitespace_len(line.as_slice());
        let t = trimmed(line.as_slice());
        let blank = is_blank_chars(line.as_slice());
        proof {
            lemma_trim_empty_iff_blank(line@);
            lemma_open_step(lsv, i as int);
        }
        let closes = !blank && indent == 0;
        let in_now = in_section && !closes;
        let is_header = indent == 0 && crate::text::chars_eq(t.as_slice(), header.as_slice());
        let is_port = indent == 0 && has_prefix(t.as_slice(), port_key.as_slice());
        let is_enabled = in_now && has_prefix(t.as_slice(), enabled_key.as_slice());
        assert(is_header == is_auto_update_header(lsv[i as int]));
        assert(is_port == is_top_level_port(lsv[i as int]));
        assert(in_now == in_auto_update(lsv, i as int));
        assert(is_enabled == is_auto_update_enabled(lsv, i as int));
        let rendered = render_config_line(line, &port_line, is_header, is_port, is_enabled);
        let ghost before = output@;
        let ghost rv = rendered@;
        assert(rv == rendered_config_line(lsv, i as int, port));
        assert(views(before).len() == i);
        output.push(rendered);
        proof {
            assert(output@.len() == i + 1);
            assert(output@[i as int]@ == rv);
            assert forall|j: int| 0 <= j < i implies views(output@)[j] == rendered_config_line(lsv, j, port) by {
                assert(output@[j] == before[j]);
                assert(views(before)[j] == before[j]@);
            }
            assert(views(output@) =~= Seq::new((i + 1) as nat, |j: int| rendered_config_line(lsv, j, port)));
        }
        if is_port {
            found_port = true;
        }
        if is_enabled {
            found_enabled = true;
        }
        in_section = is_header || in_now;
        i = i + 1;
    }
    if !found_port {
        return Err(SettingsError::MissingTopLevelPort);
    }
    if !found_enabled {
        return Err(SettingsError::MissingAutoUpdateEnabled);
    }
    let mut rendered = join_with_newlines(&output);
    assert(views(output@) =~= rendered_lines(lsv, port));
    let ghost joined = rendered@;
    if src.len() > 0 && src[src.len() - 1] == '\n' {
        rendered.push('\n');
        assert(rendered@ =~= joined + seq!['\n']);
    } else {
        assert(rendered@ =~= joined + Seq::<char>::empty());
    }
    assert(rendered@ == rendered_config(source@, port));
    Ok(string_from_chars(rendered.as_slice()))
}


// ---------------------------------------------------------------------------
// The management secret in `remote-management:`

/// Whether the management secret is configured in the runtime config.
#[derive(Clone, Copy, Debug, PartialEq, Eq, Structural)]
pub enum ManagementSecretStatus {
    Configured,
    Missing,
}

/// A line at column 0 that reads `remote-management:` once trimmed.
pub open spec fn is_remote_management_header(l: Seq<char>) -> bool {
    lead_ws(l) == 0 && trim(l) == "remote-management:"@
}

/// The first `remote-management:` header line.
pub open spec fn section_start_spec(ls: Seq<Seq<char>>) -> Option<int> {
    first_from(ls.len() as int, |j: int| is_remote_management_header(ls[j]), 0)
}

/// Where the section starting at `start` ends: the next line that closes a
/// section, or the end of the text.
pub open spec fn section_end_spec(ls: Seq<Seq<char>>, start: int) -> int {
    match first_from(ls.len() as int, |j: int| closes_section(ls[j]), start + 1) {
        Some(e) => e,
        None => ls.len() as int,
    }
}

/// The indentation of the section's keys: that of its first indented
/// non-blank line, or 2 when it has none.
pub open spec fn child_indent_spec(ls: Seq<Seq<char>>, start: int, end: int) -> int {
    match first_from(end, |j: int| !is_blank(ls[j]) && lead_ws(ls[j]) != 0, start + 1) {
        Some(c) => lead_ws(ls[c]),
        None => 2,
    }
}

/// A non-blank line at the keys' indentation whose trimmed text starts
/// with `key:`.
pub open spec fn is_key_line(l: Seq<char>, indent: int, key: Seq<char>) -> bool {
    !is_blank(l) && lead_ws(l) == indent && starts_with(trim(l), key + ":"@)
}

/// The first line of the section that holds `key`.
pub open spec fn key_line_at(ls: Seq<Seq<char>>, indent: int, key: Seq<char>) -> spec_fn(int) -> bool {
    |j: int| is_key_line(ls[j], indent, key)
}

pub open spec fn key_line_spec(ls: Seq<Seq<char>>, start: int, end: int, indent: int, key: Seq<char>) -> Option<int> {
    first_from(end, key_line_at(ls, indent, key), start + 1)
}

/// The value of `key` in the top-level `remote-management:` section: the
/// trimmed text after `key:` on its line.
pub open spec fn remote_management_scalar(ls: Seq<Seq<char>>, key: Seq<char>) -> Option<Seq<char>> {
    match section_start_spec(ls) {
        None => None,
        Some(s) => {
            let e = section_end_spec(ls, s);
            let ci = child_indent_spec(ls, s, e);
            match key_line_spec(ls, s, e, ci, key) {
                Some(k) => {
                    let t = trim(ls[k]);
                    Some(trim(t.subrange(key.len() as int + 1, t.len() as int)))
                },
                None => None,
            }
        },
    }
}

/// `s` without leading and trailing copies of `c`, as `str::trim_matches(c)`.
pub open spec fn strip_char(s: Seq<char>, c: char) -> Seq<char> {
    if lead_char(s, c) == s.len() {
        Seq::empty()
    } else {
        s.subrange(lead_char(s, c), s.len() - lead_char(s.reverse(), c))
    }
}

/// The management secret status of a runtime config: configured when
/// `remote-management.secret-key` holds a value that is not empty once quotes
/// and whitespace are stripped.
pub open spec fn secret_status_spec(config: Seq<char>) -> ManagementSecretStatus {
    match remote_management_scalar(lines_of(config), "secret-key"@) {
        None => ManagementSecretStatus::Missing,
        Some(v) => if trim(strip_char(strip_char(v, '"'), '\'')).len() == 0 {
            ManagementSecretStatus::Missing
        } else {
            ManagementSecretStatus::Configured
        },
    }
}

fn strip_matches(v: &[char], c: char) -> (r: Vec<char>)
    ensures
        r@ == strip_char(v@, c),
{
    let lead = leading_char_count(v, c);
    if lead == v.len() {
        return Vec::new();
    }
    let mut rev: Vec<char> = Vec::new();
    let mut i: usize = v.len();
    while i > 0
        invariant
            0 <= i <= v@.len(),
            rev@ == v@.subrange(i as int, v@.len() as int).reverse(),
        decreases i,
    {
        i = i - 1;
        rev.push(v[i]);
        assert(rev@ =~= v@.subrange(i as int, v@.len() as int).reverse());
    }
    assert(v@.subrange(0, v@.len() as int) =~= v@);
    let trail = leading_char_count(rev.as_slice(), c);
    proof {
        if trail > v@.len() - lead - 1 {
            let j = v@.len() - 1 - lead;
            assert(0 <= j < trail);
            assert(rev@[j] == v@[lead as int]);
        }
        assert(rev@ == v@.reverse());
    }
    crate::text::slice_range(v, lead, v.len() - trail)
}

/// The first top-level `remote-management:` header line.
fn find_top_level_remote_management_section(ls: &Vec<Vec<char>>) -> (r: Option<usize>)
    ensures
        match r {
            Some(k) => section_start_spec(views(ls@)) == Some(k as int) && k < ls@.len(),
            None => section_start_spec(views(ls@)) is None,
        },
{
    let ghost lv = views(ls@);
    let header = chars_of("remote-management:");
    let mut i: usize = 0;
    while i < ls.len()
        invariant
            lv == views(ls@),
            header@ == "remote-management:"@,
            0 <= i <= ls@.len(),
            forall|j: int| 0 <= j < i ==> !is_remote_management_header(#[trigger] lv[j]),
        decreases ls@.len() - i,
    {
        let indent = leading_whitespace_len(ls[i].as_slice());
        let t = trimmed(ls[i].as_slice());
        if indent == 0 && chars_eq(t.as_slice(), header.as_slice()) {
            proof {
                let p = |j: int| is_remote_management_header(lv[j]);
                assert forall|j: int| 0 <= j < i implies !#[trigger] p(j) by {}
                lemma_first_from_unique(lv.len() as int, p, 0, Some(i as int));
            }
            return Some(i);
        }
        assert(!is_remote_management_header(lv[i as int]));
        i = i + 1;
    }
    proof {
        let p = |j: int| is_remote_management_header(lv[j]);
        assert forall|j: int| 0 <= j < lv.len() implies !#[trigger] p(j) by {}
        lemma_first_from_unique(lv.len() as int, p, 0, None);
    }
    None
}

/// Where the section starting at `start` ends.
fn remote_management_section_end(ls: &Vec<Vec<char>>, start: usize) -> (e: usize)
    requires
        start < ls@.len(),
    ensures
        e == section_end_spec(views(ls@), start as int),
        start < e <= ls@.len(),
{
    let ghost lv = views(ls@);
    let n = ls.len();
    let mut i: usize = start + 1;
    while i < ls.len()
        invariant
            lv == views(ls@),
            start + 1 <= i <= ls@.len(),
            forall|j: int| start + 1 <= j < i ==> !closes_section(#[trigger] lv[j]),
        decreases ls@.len() - i,
    {
        let blank = is_blank_chars(ls[i].as_slice());
        let indent = leading_whitespace_len(ls[i].as_slice());
        if !blank && indent == 0 {
            proof {
                let p = |j: int| closes_section(lv[j]);
                assert forall|j: int| start + 1 <= j < i implies !#[trigger] p(j) by {}
                lemma_first_from_unique(lv.len() as int, p, start + 1, Some(i as int));
            }
            return i;
        }
        assert(!closes_section(lv[i as int]));
        i = i + 1;
    }
    proof {
        let p = |j: int| closes_section(lv[j]);
        assert forall|j: int| start + 1 <= j < lv.len() implies !#[trigger] p(j) by {}
        lemma_first_from_unique(lv.len() as int, p, start + 1, None);
    }
    ls.len()
}

/// The indentation of the section's keys.
fn remote_management_child_indent(ls: &Vec<Vec<char>>, start: usize, end: usize) -> (ci: usize)
    requires
        start < end <= ls@.len(),
    ensures
        ci == child_indent_spec(views(ls@), start as int, end as int),
{
    let ghost lv = views(ls@);
    let mut i: usize = start + 1;
    while i < end
        invariant
            lv == views(ls@),
            start < end <= ls@.len(),
            start + 1 <= i <= end,
            forall|j: int| start + 1 <= j < i ==> !(!is_blank(#[trigger] lv[j]) && lead_ws(lv[j]) != 0),
        decreases end - i,
    {
        let blank = is_blank_chars(ls[i].as_slice());
        let indent = leading_whitespace_len(ls[i].as_slice());
        if !blank && indent != 0 {
            proof {
                let p = |j: int| !is_blank(lv[j]) && lead_ws(lv[j]) != 0;
                assert forall|j: int| start + 1 <= j < i implies !#[trigger] p(j) by {}
                lemma_first_from_unique(end as int, p, start + 1, Some(i as int));
            }
            return indent;
        }
        i = i + 1;
    }
    proof {
        let p = |j: int| !is_blank(lv[j]) && lead_ws(lv[j]) != 0;
        assert forall|j: int| start + 1 <= j < end implies !#[trigger] p(j) by {}
        lemma_first_from_unique(end as int, p, start + 1, None);
    }
    2
}

/// The first line of the section that holds `key` (given as `key:`).
fn find_key_line(ls: &Vec<Vec<char>>, start: usize, end: usize, indent: usize, key_prefix: &Vec<char>) -> (r: Option<usize>)
    requires
        start < end <= ls@.len(),
        key_prefix@.len() > 0,
        key_prefix@.last() == ':',
    ensures
        match r {
            Some(k) => key_line_spec(views(ls@), start as int, end as int, indent as int, key_prefix@.drop_last()) == Some(
                k as int,
            ) && start < k < end,
            None => key_line_spec(views(ls@), start as int, end as int, indent as int, key_prefix@.drop_last()) is None,
        },
{
    let ghost lv = views(ls@);
    let ghost key = key_prefix@.drop_last();
    assert(key + ":"@ =~= key_prefix@) by {
        reveal_strlit(":");
    }
    let mut i: usize = start + 1;
    while i < end
        invariant
            lv == views(ls@),
            key + ":"@ == key_prefix@,
            key == key_prefix@.drop_last(),
            key_prefix@.len() > 0,
            start < end <= ls@.len(),
            start + 1 <= i <= end,
            forall|j: int| start + 1 <= j < i ==> !is_key_line(#[trigger] lv[j], indent as int, key),
        decreases end - i,
    {
        let blank = is_blank_chars(ls[i].as_slice());
        let ind = leading_whitespace_len(ls[i].as_slice());
        let t = trimmed(ls[i].as_slice());
        assert(lv[i as int] == ls@[i as int]@);
        if !blank && ind == indent && has_prefix(t.as_slice(), key_prefix.as_slice()) {
            proof {
                let p = key_line_at(lv, indent as int, key);
                assert forall|j: int| start + 1 <= j < i implies !#[trigger] p(j) by {}
                lemma_first_from_unique(end as int, p, start + 1, Some(i as int));
            }
            return Some(i);
        }
        i = i + 1;
    }
    proof {
        let p = key_line_at(lv, indent as int, key);
        assert forall|j: int| start + 1 <= j < end implies !#[trigger] p(j) by {}
        lemma_first_from_unique(end as int, p, start + 1, None);
    }
    None
}

/// The value of `key` in the top-level `remote-management:` section.
fn find_remote_management_scalar(config: &str, key: &str) -> (r: Option<Vec<char>>)
    ensures
        match r {
            Some(v) => remote_management_scalar(lines_of(config@), key@) == Some(v@),
            None => remote_management_scalar(lines_of(config@), key@) is None,
        },
{
    let src = chars_of(config);
    let ls = split_lines(src.as_slice());
    let start = match find_top_level_remote_management_section(&ls) {
        Some(s) => s,
        None => {
            return None;
        },
    };
    let end = remote_management_section_end(&ls, start);
    let indent = remote_management_child_indent(&ls, start, end);
    let mut key_prefix = chars_of(key);
    key_prefix.push(':');
    assert(key_prefix@.drop_last() =~= key@);
    match find_key_line(&ls, start, end, indent, &key_prefix) {
        Some(k) => {
            let t = trimmed(ls[k].as_slice());
            proof {
                assert(views(ls@)[k as int] == ls@[k as int]@);
                let lv = views(ls@);
                let s0 = section_start_spec(lv)->0;
                let p = key_line_at(lv, indent as int, key@);
                crate::text::lemma_first_from(end as int, p, start + 1);
                assert(p(k as int));
                reveal_strlit(":");
                assert(crate::text::starts_with(t@, key@ + ":"@));
            }
            let rest = crate::text::slice_range(t.as_slice(), key_prefix.len(), t.len());
            Some(trimmed(rest.as_slice()))
        },
        None => None,
    }
}

/// The management secret status of a runtime config.
pub fn management_secret_state_from_config(config: &str) -> (r: Result<ManagementSecretStatus, SettingsError>)
    ensures
        r == Ok::<ManagementSecretStatus, SettingsError>(secret_status_spec(config@)),
{
    let value = match find_remote_management_scalar(config, "secret-key") {
        Some(v) => v,
        None => {
            return Ok(ManagementSecretStatus::Missing);
        },
    };
    let a = strip_matches(value.as_slice(), '"');
    let b = strip_matches(a.as_slice(), '\'');
    let c = trimmed(b.as_slice());
    if c.len() == 0 {
        Ok(ManagementSecretStatus::Missing)
    } else {
        Ok(ManagementSecretStatus::Configured)
    }
}


/// The line that holds `key: value` at `indent`.
pub open spec fn scalar_line(key: Seq<char>, value: Seq<char>, indent: nat) -> Seq<char> {
    spaces(indent) + key + ": "@ + value
}

/// The lines of a config with `key: value` set in `remote-management:`: an
/// existing key line is replaced, a missing key is inserted right under the
/// header, and a missing section is appended with the key at indentation 2.
pub open spec fn lines_with_scalar(ls: Seq<Seq<char>>, key: Seq<char>, value: Seq<char>) -> Seq<Seq<char>> {
    match section_start_spec(ls) {
        Some(s) => {
            let e = section_end_spec(ls, s);
            let ci = child_indent_spec(ls, s, e);
            let nl = scalar_line(key, value, ci as nat);
            match key_line_spec(ls, s, e, ci, key) {
                Some(k) => ls.update(k, nl),
                None => ls.insert(s + 1, nl),
            }
        },
        None => ls + seq!["remote-management:"@, scalar_line(key, value, 2)],
    }
}

/// The config text with `key: value` set in `remote-management:`, ending with
/// a line feed when the given config does.
pub open spec fn config_with_scalar(config: Seq<char>, key: Seq<char>, value: Seq<char>) -> Seq<char> {
    join_lines(lines_with_scalar(lines_of(config), key, value)) + if config.len() > 0 && config.last()
        == '\n' {
        seq!['\n']
    } else {
        Seq::empty()
    }
}

fn scalar_line_chars(key: &str, value: &str, indent: usize) -> (r: Vec<char>)
    ensures
        r@ == scalar_line(key@, value@, indent as nat),
{
    let mut r = space_chars(indent);
    let k = chars_of(key);
    push_all(&mut r, k.as_slice());
    let sep = chars_of(": ");
    push_all(&mut r, sep.as_slice());
    let v = chars_of(value);
    push_all(&mut r, v.as_slice());
    r
}

/// Sets `key: value` in the top-level `remote-management:` section.
fn render_remote_management_scalar(config: &str, key: &str, value: &str) -> (r: String)
    requires
        key@.len() > 0,
    ensures
        r@ == config_with_scalar(config@, key@, value@),
{
    let src = chars_of(config);
    let mut ls = split_lines(src.as_slice());
    let ghost lv = views(ls@);
    assert(lv == lines_of(config@));
    match find_top_level_remote_management_section(&ls) {
        Some(start) => {
            let end = remote_management_section_end(&ls, start);
            let indent = remote_management_child_indent(&ls, start, end);
            let nl = scalar_line_chars(key, value, indent);
            let mut key_prefix = chars_of(key);
            key_prefix.push(':');
            assert(key_prefix@.drop_last() =~= key@);
            match find_key_line(&ls, start, end, indent, &key_prefix) {
                Some(k) => {
                    let ghost nlv = nl@;
                    ls.set(k, nl);
                    assert(views(ls@) =~= lv.update(k as int, nlv));
                },
                None => {
                    let ghost nlv = nl@;
                    ls.insert(start + 1, nl);
                    assert(views(ls@) =~= lv.insert(start + 1, nlv));
                },
            }
        },
        None => {
            let header = chars_of("remote-management:");
            let nl = scalar_line_chars(key, value, 2);
            let ghost hv = header@;
            let ghost nlv = nl@;
            ls.push(header);
            ls.push(nl);
            assert(views(ls@) =~= lv + seq![hv, nlv]);
        },
    }
    assert(views(ls@) == lines_with_scalar(lv, key@, value@));
    let mut out = join_with_newlines(&ls);
    let ghost joined = out@;
    if src.len() > 0 && src[src.len() - 1] == '\n' {
        out.push('\n');
        assert(out@ =~= joined + seq!['\n']);
    } else {
        assert(out@ =~= joined + Seq::<char>::empty());
    }
    string_from_chars(out.as_slice())
}

/// The runtime config with the management secret set to `secret_key`,
/// written as a JSON string literal so that any character survives YAML.
pub fn render_config_with_management_secret(config: &str, secret_key: &str) -> (r: Result<String, SettingsError>)
    ensures
        r matches Ok(v) && v@ == config_with_scalar(
            config@,
            "secret-key"@,
            crate::json::json_string_literal(secret_key@),
        ),
{
    let secret_value = match crate::json::encode_json_string(secret_key) {
        Ok(v) => v,
        Err(message) => {
            return Err(SettingsError::Json(message));
        },
    };
    proof {
        reveal_strlit("secret-key");
    }
    Ok(render_remote_management_scalar(config, "secret-key", secret_value.as_str()))
}

// ---------------------------------------------------------------------------
// Reading back a written management secret

/// Equivalent lines hold the same `remote-management` scalar.
proof fn lemma_scalar_congruent(a: Seq<Seq<char>>, b: Seq<Seq<char>>, key: Seq<char>)
    requires
        a.len() == b.len(),
        forall|j: int| 0 <= j < a.len() ==> line_equiv(#[trigger] a[j], b[j]),
    ensures
        remote_management_scalar(a, key) == remote_management_scalar(b, key),
{
    reveal_strlit("remote-management:");
    let n = a.len() as int;
    assert forall|j: int| 0 <= j < n implies (is_blank(#[trigger] a[j]) == is_blank(b[j]) && (!is_blank(
        a[j],
    ) ==> lead_ws(a[j]) == lead_ws(b[j])) && trim(a[j]) == trim(b[j])) by {
        assert(line_equiv(a[j], b[j]));
        lemma_trim_empty_iff_blank(a[j]);
        lemma_trim_empty_iff_blank(b[j]);
    }
    let ha = |j: int| is_remote_management_header(a[j]);
    let hb = |j: int| is_remote_management_header(b[j]);
    assert forall|j: int| 0 <= j < n implies #[trigger] ha(j) == hb(j) by {
        if trim(a[j]) == "remote-management:"@ {
            assert(trim(a[j]).len() > 0);
            lemma_trim_empty_iff_blank(a[j]);
        }
    }
    crate::lines::lemma_first_from_congruent(n, ha, hb, 0);
    crate::text::lemma_first_from(n, ha, 0);
    match section_start_spec(a) {
        None => {},
        Some(s) => {
            let ca = |j: int| closes_section(a[j]);
            let cb = |j: int| closes_section(b[j]);
            assert forall|j: int| s + 1 <= j < n implies #[trigger] ca(j) == cb(j) by {
                assert(line_equiv(a[j], b[j]));
                lemma_trim_empty_iff_blank(a[j]);
                lemma_trim_empty_iff_blank(b[j]);
            }
            crate::lines::lemma_first_from_congruent(n, ca, cb, s + 1);
            let e = section_end_spec(a, s);
            assert(e == section_end_spec(b, s));
            crate::text::lemma_first_from(n, ca, s + 1);
            assert(e <= n);
            let ia = |j: int| !is_blank(a[j]) && lead_ws(a[j]) != 0;
            let ib = |j: int| !is_blank(b[j]) && lead_ws(b[j]) != 0;
            assert forall|j: int| s + 1 <= j < e implies #[trigger] ia(j) == ib(j) by {
                assert(line_equiv(a[j], b[j]));
                lemma_trim_empty_iff_blank(a[j]);
                lemma_trim_empty_iff_blank(b[j]);
            }
            crate::lines::lemma_first_from_congruent(e, ia, ib, s + 1);
            crate::text::lemma_first_from(e, ia, s + 1);
            let ci = child_indent_spec(a, s, e);
            assert(ci == child_indent_spec(b, s, e));
            let ka = key_line_at(a, ci, key);
            let kb = key_line_at(b, ci, key);
            assert forall|j: int| s + 1 <= j < e implies #[trigger] ka(j) == kb(j) by {}
            crate::lines::lemma_first_from_congruent(e, ka, kb, s + 1);
            crate::text::lemma_first_from(e, ka, s + 1);
        },
    }
}

/// The written line: `value` after `key: ` at `indent`, non-blank, indented
/// by `indent`, a key line for `key`, and read back as `value`.
proof fn lemma_scalar_line_reads(key: Seq<char>, value: Seq<char>, indent: nat)
    requires
        key.len() > 0,
        !is_ws(key[0]),
        value.len() > 0,
        !is_ws(value[0]),
        !is_ws(value.last()),
    ensures
        lead_ws(scalar_line(key, value, indent)) == indent,
        trim(scalar_line(key, value, indent)) == key + ": "@ + value,
        !is_blank(scalar_line(key, value, indent)),
        starts_with(trim(scalar_line(key, value, indent)), key + ":"@),
        trim(
            trim(scalar_line(key, value, indent)).subrange(
                key.len() as int + 1,
                trim(scalar_line(key, value, indent)).len() as int,
            ),
        ) == value,
{
    reveal_strlit(": ");
    reveal_strlit(":");
    let x = key + ": "@ + value;
    assert(scalar_line(key, value, indent) =~= spaces(indent) + x);
    assert(x[0] == key[0]);
    assert(x.last() == value.last());
    crate::lines::lemma_trim_padded(indent, x);
    lemma_trim_empty_iff_blank(scalar_line(key, value, indent));
    assert(x.subrange(0, key.len() as int + 1) =~= key + ":"@);
    assert(x.subrange(key.len() as int + 1, x.len() as int) =~= spaces(1) + value);
    crate::lines::lemma_trim_padded(1, value);
}

/// Setting a key the section already holds: its line is replaced in place
/// and the section reads back the new value.
proof fn lemma_write_replaces(ls: Seq<Seq<char>>, key: Seq<char>, value: Seq<char>)
    requires
        key.len() > 0,
        !is_ws(key[0]),
        value.len() > 0,
        !is_ws(value[0]),
        !is_ws(value.last()),
        section_start_spec(ls) is Some,
        key_line_spec(
            ls,
            section_start_spec(ls)->0,
            section_end_spec(ls, section_start_spec(ls)->0),
            child_indent_spec(ls, section_start_spec(ls)->0, section_end_spec(ls, section_start_spec(ls)->0)),
            key,
        ) is Some,
    ensures
        remote_management_scalar(lines_with_scalar(ls, key, value), key) == Some(value),
{
    let n = ls.len() as int;
    let s = section_start_spec(ls)->0;
    let e = section_end_spec(ls, s);
    let ci = child_indent_spec(ls, s, e);
    let k = key_line_spec(ls, s, e, ci, key)->0;
    let ha = |j: int| is_remote_management_header(ls[j]);
    crate::text::lemma_first_from(n, ha, 0);
    let ca = |j: int| closes_section(ls[j]);
    crate::text::lemma_first_from(n, ca, s + 1);
    let ia = |j: int| !is_blank(ls[j]) && lead_ws(ls[j]) != 0;
    crate::text::lemma_first_from(e, ia, s + 1);
    if let Some(c) = first_from(e, ia, s + 1) {
        lemma_lead_ws(ls[c]);
    }
    assert(ci >= 1);
    let ka = key_line_at(ls, ci, key);
    crate::text::lemma_first_from(e, ka, s + 1);
    assert(s < k < e <= n);
    let nl = scalar_line(key, value, ci as nat);
    lemma_scalar_line_reads(key, value, ci as nat);
    let lw = ls.update(k, nl);
    assert(lines_with_scalar(ls, key, value) == lw);
    let hb = |j: int| is_remote_management_header(lw[j]);
    assert forall|j: int| 0 <= j < n implies #[trigger] ha(j) == hb(j) by {
        if j == k {
            assert(ka(k));
        }
    }
    crate::lines::lemma_first_from_congruent(n, ha, hb, 0);
    let cb = |j: int| closes_section(lw[j]);
    assert forall|j: int| s + 1 <= j < n implies #[trigger] ca(j) == cb(j) by {
        if j == k {
            assert(ka(k));
        }
    }
    crate::lines::lemma_first_from_congruent(n, ca, cb, s + 1);
    assert(section_end_spec(lw, s) == e);
    let ib = |j: int| !is_blank(lw[j]) && lead_ws(lw[j]) != 0;
    assert forall|j: int| s + 1 <= j < e implies #[trigger] ia(j) == ib(j) by {
        if j == k {
            assert(ka(k));
        }
    }
    crate::lines::lemma_first_from_congruent(e, ia, ib, s + 1);
    match first_from(e, ia, s + 1) {
        Some(c) => {
            if c == k {
                assert(ka(k));
            }
            assert(lead_ws(lw[c]) == lead_ws(ls[c]));
        },
        None => {},
    }
    assert(child_indent_spec(lw, s, e) == ci);
    let kb = key_line_at(lw, ci, key);
    assert forall|j: int| s + 1 <= j < e implies #[trigger] ka(j) == kb(j) by {
        if j == k {
            assert(ka(k));
        }
    }
    crate::lines::lemma_first_from_congruent(e, ka, kb, s + 1);
    assert(key_line_spec(lw, s, e, ci, key) == Some(k));
}

/// Setting a key the section lacks: the line goes right under the header
/// and the section reads back the value.
proof fn lemma_write_inserts(ls: Seq<Seq<char>>, key: Seq<char>, value: Seq<char>)
    requires
        key.len() > 0,
        !is_ws(key[0]),
        value.len() > 0,
        !is_ws(value[0]),
        !is_ws(value.last()),
        section_start_spec(ls) is Some,
        key_line_spec(
            ls,
            section_start_spec(ls)->0,
            section_end_spec(ls, section_start_spec(ls)->0),
            child_indent_spec(ls, section_start_spec(ls)->0, section_end_spec(ls, section_start_spec(ls)->0)),
            key,
        ) is None,
    ensures
        remote_management_scalar(lines_with_scalar(ls, key, value), key) == Some(value),
{
    let n = ls.len() as int;
    let s = section_start_spec(ls)->0;
    let e = section_end_spec(ls, s);
    let ci = child_indent_spec(ls, s, e);
    let ha = |j: int| is_remote_management_header(ls[j]);
    crate::text::lemma_first_from(n, ha, 0);
    let ca = |j: int| closes_section(ls[j]);
    crate::text::lemma_first_from(n, ca, s + 1);
    let ia = |j: int| !is_blank(ls[j]) && lead_ws(ls[j]) != 0;
    crate::text::lemma_first_from(e, ia, s + 1);
    if let Some(c) = first_from(e, ia, s + 1) {
        lemma_lead_ws(ls[c]);
    }
    assert(ci >= 1);
    assert(s < e <= n);
    let nl = scalar_line(key, value, ci as nat);
    lemma_scalar_line_reads(key, value, ci as nat);
    let lw = ls.insert(s + 1, nl);
    assert(lines_with_scalar(ls, key, value) == lw);
    let hb = |j: int| is_remote_management_header(lw[j]);
    assert forall|j: int| 0 <= j < s implies !#[trigger] hb(j) by {
        assert(lw[j] == ls[j]);
        assert(!ha(j));
    }
    assert(lw[s] == ls[s]);
    lemma_first_from_unique(n + 1, hb, 0, Some(s));
    let cb = |j: int| closes_section(lw[j]);
    assert forall|j: int| s + 1 <= j < e + 1 implies !#[trigger] cb(j) by {
        if j > s + 1 {
            assert(lw[j] == ls[j - 1]);
            assert(!ca(j - 1));
        }
    }
    if e < n {
        assert(lw[e + 1] == ls[e]);
        assert(ca(e));
        lemma_first_from_unique(n + 1, cb, s + 1, Some(e + 1));
    } else {
        lemma_first_from_unique(n + 1, cb, s + 1, None);
    }
    assert(section_end_spec(lw, s) == e + 1);
    let ib = |j: int| !is_blank(lw[j]) && lead_ws(lw[j]) != 0;
    assert(ib(s + 1));
    lemma_first_from_unique(e + 1, ib, s + 1, Some(s + 1));
    assert(child_indent_spec(lw, s, e + 1) == ci);
    let kb = key_line_at(lw, ci, key);
    assert(kb(s + 1));
    lemma_first_from_unique(e + 1, kb, s + 1, Some(s + 1));
}

/// Setting a key in a config without the section: the section is appended
/// and reads back the value.
proof fn lemma_write_appends(ls: Seq<Seq<char>>, key: Seq<char>, value: Seq<char>)
    requires
        key.len() > 0,
        !is_ws(key[0]),
        value.len() > 0,
        !is_ws(value[0]),
        !is_ws(value.last()),
        section_start_spec(ls) is None,
    ensures
        remote_management_scalar(lines_with_scalar(ls, key, value), key) == Some(value),
{
    reveal_strlit("remote-management:");
    let n = ls.len() as int;
    let header = "remote-management:"@;
    let ha = |j: int| is_remote_management_header(ls[j]);
    crate::text::lemma_first_from(n, ha, 0);
    let nl = scalar_line(key, value, 2);
    lemma_scalar_line_reads(key, value, 2);
    let lw = ls + seq![header, nl];
    assert(lines_with_scalar(ls, key, value) == lw);
    assert(spaces(0) + header =~= header);
    crate::lines::lemma_trim_padded(0, header);
    let hb = |j: int| is_remote_management_header(lw[j]);
    assert forall|j: int| 0 <= j < n implies !#[trigger] hb(j) by {
        assert(lw[j] == ls[j]);
        assert(!ha(j));
    }
    assert(lw[n] == header);
    lemma_first_from_unique(n + 2, hb, 0, Some(n));
    let cb = |j: int| closes_section(lw[j]);
    assert(lw[n + 1] == nl);
    assert(!cb(n + 1));
    lemma_first_from_unique(n + 2, cb, n + 1, None);
    assert(section_end_spec(lw, n) == n + 2);
    let ib = |j: int| !is_blank(lw[j]) && lead_ws(lw[j]) != 0;
    assert(ib(n + 1));
    lemma_first_from_unique(n + 2, ib, n + 1, Some(n + 1));
    assert(child_indent_spec(lw, n, n + 2) == 2);
    let kb = key_line_at(lw, 2, key);
    assert(kb(n + 1));
    lemma_first_from_unique(n + 2, kb, n + 1, Some(n + 1));
}

/// The written lines: at least one, none with a line feed, and the last one
/// non-empty when the last given line was.
proof fn lemma_written_lines(ls: Seq<Seq<char>>, key: Seq<char>, value: Seq<char>)
    requires
        key.len() > 0,
        no_newline(key),
        no_newline(value),
        forall|j: int| 0 <= j < ls.len() ==> no_newline(#[trigger] ls[j]),
    ensures
        lines_with_scalar(ls, key, value).len() >= 1,
        forall|j: int|
            0 <= j < lines_with_scalar(ls, key, value).len() ==> no_newline(
                #[trigger] lines_with_scalar(ls, key, value)[j],
            ),
        (ls.len() == 0 || ls.last().len() > 0) ==> lines_with_scalar(ls, key, value).last().len() > 0,
{
    reveal_strlit("remote-management:");
    reveal_strlit(": ");
    let n = ls.len() as int;
    let w = lines_with_scalar(ls, key, value);
    let ha = |j: int| is_remote_management_header(ls[j]);
    crate::text::lemma_first_from(n, ha, 0);
    match section_start_spec(ls) {
        Some(s) => {
            let e = section_end_spec(ls, s);
            let ci = child_indent_spec(ls, s, e);
            let ca = |j: int| closes_section(ls[j]);
            crate::text::lemma_first_from(n, ca, s + 1);
            let ka = key_line_at(ls, ci, key);
            crate::text::lemma_first_from(e, ka, s + 1);
            let ia = |j: int| !is_blank(ls[j]) && lead_ws(ls[j]) != 0;
            crate::text::lemma_first_from(e, ia, s + 1);
            if let Some(c) = first_from(e, ia, s + 1) {
                lemma_lead_ws(ls[c]);
            }
            assert(ci >= 0);
            let nl = scalar_line(key, value, ci as nat);
            assert(no_newline(nl)) by {
                assert forall|k: int| 0 <= k < nl.len() implies nl[k] != '\n' by {
                    if k < ci {
                        assert(nl[k] == ' ');
                    } else if k < ci + key.len() {
                        assert(nl[k] == key[k - ci]);
                    } else if k >= ci + key.len() + 2 {
                        assert(nl[k] == value[k - ci - key.len() - 2]);
                    }
                }
            }
            match key_line_spec(ls, s, e, ci, key) {
                Some(k) => {
                    assert(w == ls.update(k, nl));
                },
                None => {
                    assert(w == ls.insert(s + 1, nl));
                    assert forall|j: int| 0 <= j < w.len() implies no_newline(#[trigger] w[j]) by {
                        if j > s + 1 {
                            assert(w[j] == ls[j - 1]);
                        }
                    }
                },
            }
        },
        None => {
            let nl = scalar_line(key, value, 2);
            assert(no_newline(nl)) by {
                assert forall|k: int| 0 <= k < nl.len() implies nl[k] != '\n' by {
                    if k < 2 {
                        assert(nl[k] == ' ');
                    } else if k < 2 + key.len() {
                        assert(nl[k] == key[k - 2]);
                    } else if k >= 2 + key.len() + 2 {
                        assert(nl[k] == value[k - 2 - key.len() - 2]);
                    }
                }
            }
            assert(w == ls + seq!["remote-management:"@, nl]);
            assert forall|j: int| 0 <= j < w.len() implies no_newline(#[trigger] w[j]) by {
                if j == n {
                    assert(w[j] == "remote-management:"@);
                }
            }
        },
    }
}

/// Stripping `c` from a text keeps every position from the first to the
/// last of two characters other than `c`.
proof fn lemma_strip_char_range(s: Seq<char>, c: char, a: int, b: int)
    requires
        0 <= a <= b < s.len(),
        s[a] != c,
        s[b] != c,
    ensures
        0 <= lead_char(s, c) <= a,
        0 <= lead_char(s.reverse(), c),
        b < s.len() - lead_char(s.reverse(), c),
        strip_char(s, c) == s.subrange(lead_char(s, c), s.len() - lead_char(s.reverse(), c)),
{
    let p = differs_from(s, c);
    assert(p(a));
    crate::text::lemma_first_from(s.len() as int, p, 0);
    let r = s.reverse();
    let q = differs_from(r, c);
    let m = s.len() - 1 - b;
    assert(r[m] == s[b]);
    assert(q(m));
    crate::text::lemma_first_from(r.len() as int, q, 0);
}

/// The management secret written into any config reads back from it: the
/// `secret-key` of `remote-management:` is the secret's JSON string literal,
/// and the config counts as having a secret whenever the secret, with
/// apostrophes stripped from both ends and then trimmed, is not empty.
pub proof fn lemma_written_secret_reads_back(config: Seq<char>, secret_key: Seq<char>)
    ensures
        remote_management_scalar(
            lines_of(config_with_scalar(config, "secret-key"@, json_string_literal(secret_key))),
            "secret-key"@,
        ) == Some(json_string_literal(secret_key)),
        trim(strip_char(secret_key, '\'')).len() > 0 ==> secret_status_spec(
            config_with_scalar(config, "secret-key"@, json_string_literal(secret_key)),
        ) == ManagementSecretStatus::Configured,
{
    reveal_strlit("secret-key");
    let key = "secret-key"@;
    let lit = json_string_literal(secret_key);
    lemma_literal(secret_key);
    let ls = lines_of(config);
    crate::lines::lemma_lines_have_no_newline(config);
    match section_start_spec(ls) {
        Some(s) => {
            let e = section_end_spec(ls, s);
            let ci = child_indent_spec(ls, s, e);
            if key_line_spec(ls, s, e, ci, key) is Some {
                lemma_write_replaces(ls, key, lit);
            } else {
                lemma_write_inserts(ls, key, lit);
            }
        },
        None => {
            lemma_write_appends(ls, key, lit);
        },
    }
    let w = lines_with_scalar(ls, key, lit);
    lemma_written_lines(ls, key, lit);
    let final_newline = config.len() > 0 && config.last() == '\n';
    if config.len() > 0 && !final_newline {
        crate::lines::lemma_last_line_nonempty(config);
    }
    let tail = if final_newline {
        seq!['\n']
    } else {
        Seq::<char>::empty()
    };
    crate::lines::lemma_lines_of_join_equiv(w, tail);
    let text = config_with_scalar(config, key, lit);
    assert(text == join_lines(w) + tail);
    lemma_scalar_congruent(lines_of(text), w, key);
    if trim(strip_char(secret_key, '\'')).len() > 0 {
        lemma_configured_when_key_shows(secret_key);
    }
}

/// A secret that shows a character once apostrophes and whitespace are
/// stripped from its ends keeps one in its JSON literal after the same
/// stripping (quotes first).
proof fn lemma_configured_when_key_shows(k: Seq<char>)
    requires
        trim(strip_char(k, '\'')).len() > 0,
    ensures
        trim(strip_char(strip_char(json_string_literal(k), '"'), '\'')).len() > 0,
{
    let n = k.len() as int;
    let inner = strip_char(k, '\'');
    assert(inner.len() > 0) by {
        if inner.len() == 0 {
            assert(is_blank(inner));
            lemma_trim_empty_iff_blank(inner);
        }
    }
    let pa = differs_from(k, '\'');
    crate::text::lemma_first_from(n, pa, 0);
    let la = lead_char(k, '\'');
    assert(la < n);
    let rk = k.reverse();
    let pr = differs_from(rk, '\'');
    assert(rk[n - 1 - la] == k[la]);
    assert(pr(n - 1 - la));
    crate::text::lemma_first_from(n, pr, 0);
    let tr = lead_char(rk, '\'');
    assert(tr <= n - 1 - la);
    let hi = n - tr;
    assert(inner == k.subrange(la, hi));
    assert(la < hi);
    let m = hi - 1;
    assert(k[m] == rk[tr]);
    assert(k[la] != '\'' && k[m] != '\'');
    lemma_trim_empty_iff_blank(inner);
    let j0 = choose|j: int| 0 <= j < inner.len() && !is_ws(#[trigger] inner[j]);
    let i = la + j0;
    assert(k[i] == inner[j0]);
    let e = json_escaped(k);
    crate::json::lemma_escape_position(k, la, i);
    crate::json::lemma_escape_position(k, i, m);
    crate::json::lemma_escape_position(k, m, m);
    crate::json::lemma_char_escape(k[la]);
    crate::json::lemma_char_escape(k[i]);
    crate::json::lemma_char_escape(k[m]);
    let p0 = json_escaped(k.subrange(0, la)).len() as int;
    let pi = json_escaped(k.subrange(0, i)).len() as int;
    let p1 = json_escaped(k.subrange(0, m)).len() as int;
    let lit = json_string_literal(k);
    assert(lit[p0 + 1] == e[p0]);
    assert(lit[pi + 1] == e[pi]);
    assert(lit[p1 + 1] == e[p1]);
    lemma_strip_char_range(lit, '"', p0 + 1, p1 + 1);
    let lo1 = lead_char(lit, '"');
    let once = strip_char(lit, '"');
    assert(once[p0 + 1 - lo1] == lit[p0 + 1]);
    assert(once[p1 + 1 - lo1] == lit[p1 + 1]);
    lemma_strip_char_range(once, '\'', p0 + 1 - lo1, p1 + 1 - lo1);
    let lo2 = lead_char(once, '\'');
    let twice = strip_char(once, '\'');
    let w = pi + 1 - lo1 - lo2;
    assert(twice[w] == lit[pi + 1]);
    assert(!is_blank(twice)) by {
        assert(!is_ws(twice[w]));
    }
    lemma_trim_empty_iff_blank(twice);
}

// ---------------------------------------------------------------------------
// Rendering a rendered config again

/// Whether a text ends with a line feed.
pub open spec fn ends_with_feed(s: Seq<char>) -> bool {
    s.len() > 0 && s.last() == '\n'
}

/// Whether a line ends with a carriage return.
pub open spec fn ends_with_cr(l: Seq<char>) -> bool {
    l.len() > 0 && l.last() == '\r'
}

/// No rendered line that a line feed ends still ends with a carriage
/// return. Only a source line kept as it is, that ended in `\r\r\n`, leaves
/// one behind: splitting the text drops one carriage return before a feed.
pub open spec fn no_cr_before_feed(source: Seq<char>, port: u16) -> bool {
    let w = rendered_lines(lines_of(source), port);
    forall|j: int|
        0 <= j < w.len() && (j + 1 < w.len() || ends_with_feed(source)) ==> !ends_with_cr(#[trigger] w[j])
}

/// The digits of a number: at least one, none whitespace or a line break.
proof fn lemma_decimal_plain(n: nat)
    ensures
        decimal(n).len() > 0,
        forall|k: int|
            0 <= k < decimal(n).len() ==> !is_ws(#[trigger] decimal(n)[k]) && decimal(n)[k] != '\n'
                && decimal(n)[k] != '\r',
    decreases n,
{
    if n >= 10 {
        lemma_decimal_plain(n / 10);
        let d = decimal(n / 10);
        assert forall|k: int| 0 <= k < decimal(n).len() implies !is_ws(#[trigger] decimal(n)[k])
            && decimal(n)[k] != '\n' && decimal(n)[k] != '\r' by {
            if k < d.len() {
                assert(decimal(n)[k] == d[k]);
            }
        }
    }
}

/// The port line and the switched-off `enabled:` line: their indentation,
/// their trimmed text, and neither holds a line break.
proof fn lemma_written_line_shapes(port: u16, indent: nat)
    ensures
        lead_ws("port: "@ + decimal(port as nat)) == 0,
        trim("port: "@ + decimal(port as nat)) == "port: "@ + decimal(port as nat),
        starts_with("port: "@ + decimal(port as nat), "port:"@),
        "port: "@ + decimal(port as nat) != "auto-update:"@,
        no_newline("port: "@ + decimal(port as nat)),
        !ends_with_cr("port: "@ + decimal(port as nat)),
        lead_ws(spaces(indent) + "enabled: false"@) == indent,
        trim(spaces(indent) + "enabled: false"@) == "enabled: false"@,
        starts_with("enabled: false"@, "enabled:"@),
        "enabled: false"@ != "auto-update:"@,
        !starts_with("enabled: false"@, "port:"@),
        no_newline(spaces(indent) + "enabled: false"@),
        !ends_with_cr(spaces(indent) + "enabled: false"@),
{
    reveal_strlit("port: ");
    reveal_strlit("port:");
    reveal_strlit("auto-update:");
    reveal_strlit("enabled: false");
    reveal_strlit("enabled:");
    lemma_decimal_plain(port as nat);
    let x = "port: "@ + decimal(port as nat);
    let d = decimal(port as nat);
    assert(x.last() == d.last());
    assert(spaces(0) + x =~= x);
    crate::lines::lemma_trim_padded(0, x);
    assert(x.subrange(0, 5) =~= "port:"@);
    assert(x[0] != "auto-update:"@[0]);
    assert forall|k: int| 0 <= k < x.len() implies x[k] != '\n' by {
        if k >= 6 {
            assert(x[k] == d[k - 6]);
        }
    }
    let y = "enabled: false"@;
    crate::lines::lemma_trim_padded(indent, y);
    assert(y.subrange(0, 8) =~= "enabled:"@);
    assert(y.len() != "auto-update:"@.len());
    assert(y[0] != 'p');
    let z = spaces(indent) + y;
    assert forall|k: int| 0 <= k < z.len() implies z[k] != '\n' by {
        if k >= indent {
            assert(z[k] == y[k - indent]);
        }
    }
    assert(z.last() == y.last());
}

/// A rendered line keeps the line's header and section-closing status, holds
/// no line break, is empty only when the line is, and ends with a carriage
/// return only when the line does.
proof fn lemma_rendered_line_kept_shape(ls: Seq<Seq<char>>, j: int, port: u16)
    requires
        0 <= j < ls.len(),
        no_newline(ls[j]),
    ensures
        is_auto_update_header(rendered_lines(ls, port)[j]) == is_auto_update_header(ls[j]),
        closes_section(rendered_lines(ls, port)[j]) == closes_section(ls[j]),
        no_newline(rendered_lines(ls, port)[j]),
        ls[j].len() > 0 ==> rendered_lines(ls, port)[j].len() > 0,
        ends_with_cr(rendered_lines(ls, port)[j]) ==> ends_with_cr(ls[j]),
{
    let l = ls[j];
    let w = rendered_lines(ls, port)[j];
    lemma_lead_ws(l);
    let indent = lead_ws(l) as nat;
    lemma_written_line_shapes(port, indent);
    lemma_trim_empty_iff_blank(l);
    lemma_trim_empty_iff_blank(w);
    if !is_auto_update_header(l) && is_top_level_port(l) {
        reveal_strlit("port:");
        assert(trim(l).len() > 0);
    } else if !is_auto_update_header(l) && is_auto_update_enabled(ls, j) {
        reveal_strlit("enabled:");
        assert(trim(l).len() > 0);
        assert(!closes_section(l));
        assert(indent >= 1);
        assert(w.len() > 0);
    }
}

/// Lines that agree on headers and on what closes a section agree on which
/// lines lie in an `auto-update:` section.
proof fn lemma_same_sections(a: Seq<Seq<char>>, b: Seq<Seq<char>>, j: int)
    requires
        a.len() == b.len(),
        forall|m: int|
            0 <= m < a.len() ==> is_auto_update_header(#[trigger] a[m]) == is_auto_update_header(b[m])
                && closes_section(a[m]) == closes_section(b[m]),
        0 <= j < a.len(),
    ensures
        in_auto_update(a, j) == in_auto_update(b, j),
{
    if in_auto_update(a, j) {
        let k = choose|k: int|
            0 <= k < j && #[trigger] is_auto_update_header(a[k]) && forall|m: int|
                k < m <= j ==> !closes_section(#[trigger] a[m]);
        assert(is_auto_update_header(b[k]));
        assert forall|m: int| k < m <= j implies !closes_section(#[trigger] b[m]) by {
            assert(!closes_section(a[m]));
        }
    }
    if in_auto_update(b, j) {
        let k = choose|k: int|
            0 <= k < j && #[trigger] is_auto_update_header(b[k]) && forall|m: int|
                k < m <= j ==> !closes_section(#[trigger] b[m]);
        assert(is_auto_update_header(a[k]));
        assert forall|m: int| k < m <= j implies !closes_section(#[trigger] a[m]) by {
            assert(!closes_section(b[m]));
        }
    }
}

/// Rendering rendered lines again changes none of them, and keeps the
/// top-level port and the switched-off `enabled:` line where they were.
proof fn lemma_rerender_lines(ls: Seq<Seq<char>>, port: u16)
    requires
        forall|j: int| 0 <= j < ls.len() ==> no_newline(#[trigger] ls[j]),
    ensures
        rendered_lines(rendered_lines(ls, port), port) == rendered_lines(ls, port),
        forall|j: int|
            0 <= j < ls.len() && is_top_level_port(ls[j]) ==> #[trigger] is_top_level_port(
                rendered_lines(ls, port)[j],
            ),
        forall|j: int|
            0 <= j < ls.len() && is_auto_update_enabled(ls, j) ==> #[trigger] is_auto_update_enabled(
                rendered_lines(ls, port),
                j,
            ),
{
    let w = rendered_lines(ls, port);
    assert forall|m: int| 0 <= m < ls.len() implies is_auto_update_header(#[trigger] w[m])
        == is_auto_update_header(ls[m]) && closes_section(w[m]) == closes_section(ls[m]) by {
        lemma_rendered_line_kept_shape(ls, m, port);
    }
    assert forall|j: int| 0 <= j < ls.len() implies #[trigger] rendered_config_line(w, j, port) == w[j]
        && (is_top_level_port(ls[j]) ==> is_top_level_port(w[j])) && (is_auto_update_enabled(ls, j)
        ==> is_auto_update_enabled(w, j)) by {
        lemma_same_sections(w, ls, j);
        lemma_rendered_line_kept_shape(ls, j, port);
        let l = ls[j];
        lemma_lead_ws(l);
        let indent = lead_ws(l) as nat;
        lemma_written_line_shapes(port, indent);
        if is_auto_update_header(l) {
        } else if is_top_level_port(l) {
        } else if is_auto_update_enabled(ls, j) {
            reveal_strlit("enabled:");
            lemma_trim_empty_iff_blank(l);
            assert(trim(l).len() > 0);
            assert(!closes_section(l));
            assert(indent >= 1);
        }
    }
    assert(rendered_lines(w, port) =~= w);
    assert forall|j: int| 0 <= j < ls.len() && is_top_level_port(ls[j]) implies #[trigger] is_top_level_port(
        w[j],
    ) by {
        assert(rendered_config_line(w, j, port) == w[j]);
    }
    assert forall|j: int| 0 <= j < ls.len() && is_auto_update_enabled(ls, j) implies #[trigger] is_auto_update_enabled(
        w,
        j,
    ) by {
        assert(rendered_config_line(w, j, port) == w[j]);
    }
}

/// A rendered config has as many lines as its source and ends with a line
/// feed exactly when the source does. Its lines are the rendered lines, and
/// rendering it again for the same port gives it back unchanged, unless a
/// line it keeps from the source ended in `\r\r\n`: then splitting the
/// output drops that line's remaining carriage return.
pub proof fn lemma_rendering_is_stable(source: Seq<char>, port: u16)
    ensures
        render_outcome(source, port) matches Ok(out) ==> lines_of(out).len() == lines_of(source).len()
            && ends_with_feed(out) == ends_with_feed(source) && (no_cr_before_feed(source, port) ==> lines_of(out)
            == rendered_lines(lines_of(source), port) && render_outcome(out, port) == Ok::<
            Seq<char>,
            SettingsError,
        >(out)),
{
    if let Ok(out) = render_outcome(source, port) {
        let ls = lines_of(source);
        let w = rendered_lines(ls, port);
        crate::lines::lemma_lines_have_no_newline(source);
        assert(ls.len() >= 1);
        assert forall|j: int| 0 <= j < w.len() implies no_newline(#[trigger] w[j]) by {
            lemma_rendered_line_kept_shape(ls, j, port);
        }
        let feed = ends_with_feed(source);
        let tail = if feed {
            seq!['\n']
        } else {
            Seq::<char>::empty()
        };
        if !feed {
            crate::lines::lemma_last_line_nonempty(source);
            lemma_rendered_line_kept_shape(ls, ls.len() - 1, port);
        }
        crate::lines::lemma_lines_of_join_equiv(w, tail);
        assert(out == join_lines(w) + tail);
        if feed {
            crate::lines::lemma_lines_of_joined_newline(w);
        } else {
            assert(join_lines(w) + tail =~= join_lines(w));
            crate::lines::lemma_lines_of_joined(w);
            lemma_join_lines_last(w);
        }
        if no_cr_before_feed(source, port) {
            let back = lines_of(out);
            assert forall|j: int| 0 <= j < w.len() implies #[trigger] back[j] == w[j] by {
                if j + 1 < w.len() || feed {
                    assert(!ends_with_cr(w[j]));
                }
            }
            assert(back =~= w);
            lemma_rerender_lines(ls, port);
            let pj = choose|j: int| 0 <= j < ls.len() && #[trigger] is_top_level_port(ls[j]);
            assert(is_top_level_port(w[pj]));
            let ej = choose|j: int| 0 <= j < ls.len() && #[trigger] is_auto_update_enabled(ls, j);
            assert(is_auto_update_enabled(w, ej));
            assert(ends_with_feed(out) == feed);
            assert(rendered_config(out, port) == join_lines(rendered_lines(w, port)) + tail);
        }
    }
}

/// Joined lines whose last one is not empty end with that line's last
/// character.
proof fn lemma_join_lines_last(ls: Seq<Seq<char>>)
    requires
        ls.len() >= 1,
        ls.last().len() > 0,
    ensures
        join_lines(ls).len() > 0,
        join_lines(ls).last() == ls.last().last(),
{
    if ls.len() > 1 {
        let front = join_lines(ls.drop_last()) + seq!['\n'];
        assert(join_lines(ls) == front + ls.last());
        assert(join_lines(ls)[join_lines(ls).len() - 1] == ls.last()[ls.last().len() - 1]);
    }
}

// ---------------------------------------------------------------------------
// Panel resources

/// The entry page of a panel directory.
pub open spec fn panel_entrypoint_of(dir: Seq<char>) -> Seq<char> {
    crate::paths::path_join(dir, "manage.html"@)
}

pub fn panel_entrypoint(dir: &str) -> (r: String)
    ensures
        r@ == panel_entrypoint_of(dir@),
{
    crate::paths::join_path(dir, "manage.html")
}

/// The panel directory to rebuild: none when its entry page is a file,
/// otherwise the runtime panel directory.
pub open spec fn panel_rebuild_target(paths: DesktopPaths, runtime_entrypoint_is_file: bool) -> Option<Seq<char>> {
    if runtime_entrypoint_is_file {
        None
    } else {
        Some(paths.panel_dir@)
    }
}

/// The check of a panel directory: its entry page, named when missing.
pub open spec fn panel_entry_check(dir: Seq<char>, entrypoint_is_file: bool) -> Result<(), Seq<char>> {
    if entrypoint_is_file {
        Ok(())
    } else {
        Err(panel_entrypoint_of(dir))
    }
}

/// The runtime panel directory to fill from the bundle, or `None` when its
/// entry page is already a file; the panel counts as rebuilt exactly when a
/// directory is returned.
pub fn ensure_panel_resources(paths: &DesktopPaths, runtime_entrypoint_is_file: bool) -> (r: Option<String>)
    ensures
        crate::web_url::opt_string_view(r) == panel_rebuild_target(*paths, runtime_entrypoint_is_file),
{
    if runtime_entrypoint_is_file {
        return None;
    }
    Some(paths.panel_dir.clone())
}

/// A panel directory is usable only with its entry page; otherwise the
/// missing entry page is reported.
pub fn check_panel_entrypoint(dir: &str, entrypoint_is_file: bool) -> (r: Result<(), SettingsError>)
    ensures
        match (r, panel_entry_check(dir@, entrypoint_is_file)) {
            (Ok(()), Ok(())) => true,
            (Err(SettingsError::MissingPanelEntrypoint(p)), Err(q)) => p@ == q,
            _ => false,
        },
{
    if entrypoint_is_file {
        return Ok(());
    }
    Err(SettingsError::MissingPanelEntrypoint(panel_entrypoint(dir)))
}

/// The files of a panel directory, by their names relative to it, hold its
/// entry page.
pub open spec fn has_entry_page(files: Set<Seq<char>>) -> bool {
    files.contains("manage.html"@)
}

/// Making sure the runtime panel has its entry page, over the files of the
/// runtime panel and of the bundled one: nothing to do (`Ok(false)`) when
/// the runtime entry page is there; the bundle's missing entry page reported
/// with the runtime panel left as it was; otherwise the runtime panel
/// replaced by a copy of the bundled one (`Ok(true)`). Gives the outcome and
/// the runtime panel's files afterwards.
pub open spec fn panel_sync(
    paths: DesktopPaths,
    bundle_dir: Seq<char>,
    runtime: Set<Seq<char>>,
    bundle: Set<Seq<char>>,
) -> (Result<bool, Seq<char>>, Set<Seq<char>>) {
    match panel_rebuild_target(paths, has_entry_page(runtime)) {
        None => (Ok(false), runtime),
        Some(_) => match panel_entry_check(bundle_dir, has_entry_page(bundle)) {
            Err(missing) => (Err(missing), runtime),
            Ok(()) => (Ok(true), bundle),
        },
    }
}

/// Making sure of the panel twice in a row: whatever the first time did,
/// the second finds nothing to do unless the first reported the bundle's
/// missing entry page; after a rebuild, the rebuilt panel has its entry page
/// and is not rebuilt again.
pub proof fn lemma_panel_sync_settles(
    paths: DesktopPaths,
    bundle_dir: Seq<char>,
    runtime: Set<Seq<char>>,
    bundle: Set<Seq<char>>,
)
    ensures
        panel_sync(paths, bundle_dir, runtime, bundle).0 is Ok ==> panel_sync(
            paths,
            bundle_dir,
            panel_sync(paths, bundle_dir, runtime, bundle).1,
            bundle,
        ) == (Ok::<bool, Seq<char>>(false), panel_sync(paths, bundle_dir, runtime, bundle).1),
        panel_sync(paths, bundle_dir, runtime, bundle).0 == Ok::<bool, Seq<char>>(true) ==> panel_rebuild_target(
            paths,
            has_entry_page(panel_sync(paths, bundle_dir, runtime, bundle).1),
        ) is None,
{
}

} // verus!
