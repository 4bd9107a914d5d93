//! The management panel window: its address, which navigations it allows, and
//! the script that tells it the UI language.
use crate::json::{encode_json_string, json_string_literal};
use crate::settings::{panel_language, DesktopLocale};
use crate::text::{decimal, decimal_chars, push_all, push_str, string_from_chars};
use crate::web_url::WebUrl;
use vstd::prelude::*;

verus! {

pub const PANEL_WINDOW_LABEL: &'static str = "panel";

/// What the panel window does with a navigation request.
#[derive(Clone, Copy, Debug, PartialEq, Eq, Structural)]
pub enum PanelNavigationDecision {
    Allow,
    OpenExternal,
    Block,
}

pub fn panel_window_title() -> (r: &'static str)
    ensures
        r@ == crate::APP_DISPLAY_NAME@,
{
    crate::APP_DISPLAY_NAME
}

/// The panel's address on the loopback interface.
pub open spec fn panel_address(port: u16) -> Seq<char> {
    "http://127.0.0.1:"@ + decimal(port as nat) + "/manage"@
}

pub fn panel_url(port: u16) -> (r: String)
    ensures
        r@ == panel_address(port),
{
    let mut v: Vec<char> = Vec::new();
    push_str(&mut v, "http://127.0.0.1:");
    let digits = decimal_chars(port as u64);
    push_all(&mut v, digits.as_slice());
    push_str(&mut v, "/manage");
    string_from_chars(v.as_slice())
}

/// The JSON string literal of `s`; serde_json writes one for every string.
fn json_literal(s: &str) -> (r: String)
    ensures
        r@ == json_string_literal(s@),
{
    match encode_json_string(s) {
        Ok(text) => text,
        Err(_) => String::new(),
    }
}

/// The value the panel keeps under its language key: a compact JSON object
/// `{"language":L,"state":{"language":L}}`, keys in serde_json's sorted order.
pub open spec fn language_storage_value(locale: DesktopLocale) -> Seq<char> {
    let lit = json_string_literal(panel_language(locale));
    "{\"language\":"@ + lit + ",\"state\":{\"language\":"@ + lit + "}}"@
}

pub fn panel_language_storage_value(locale: DesktopLocale) -> (r: String)
    ensures
        r@ == language_storage_value(locale),
{
    let language = locale.as_panel_language();
    let lit = json_literal(language);
    let mut v: Vec<char> = Vec::new();
    push_str(&mut v, "{\"language\":");
    push_str(&mut v, lit.as_str());
    push_str(&mut v, ",\"state\":{\"language\":");
    push_str(&mut v, lit.as_str());
    push_str(&mut v, "}}");
    string_from_chars(v.as_slice())
}

/// The script run in the panel: store the language value, set the document
/// language, and reload when asked.
pub open spec fn language_sync_script(locale: DesktopLocale, reload: bool) -> Seq<char> {
    "localStorage.setItem('cli-proxy-language', "@ + json_string_literal(
        language_storage_value(locale),
    ) + "); document.documentElement.lang = "@ + json_string_literal(panel_language(locale))
        + ";"@ + (if reload {
        " window.location.reload();"@
    } else {
        Seq::empty()
    })
}

pub fn panel_language_sync_script(locale: DesktopLocale, reload: bool) -> (r: String)
    ensures
        r@ == language_sync_script(locale, reload),
{
    let language = locale.as_panel_language();
    let storage_value = panel_language_storage_value(locale);
    let storage_value_literal = json_literal(storage_value.as_str());
    let language_literal = json_literal(language);
    let mut v: Vec<char> = Vec::new();
    push_str(&mut v, "localStorage.setItem('cli-proxy-language', ");
    push_str(&mut v, storage_value_literal.as_str());
    push_str(&mut v, "); document.documentElement.lang = ");
    push_str(&mut v, language_literal.as_str());
    push_str(&mut v, ";");
    if reload {
        push_str(&mut v, " window.location.reload();");
    }
    proof {
        if !reload {
            assert(v@ =~= v@ + Seq::<char>::empty());
        }
    }
    string_from_chars(v.as_slice())
}

/// The host is the loopback address or `localhost`.
pub open spec fn local_host(host: Option<Seq<char>>) -> bool {
    host == Some("127.0.0.1"@) || host == Some("localhost"@)
}

/// The URL is the panel itself: plain http on a loopback host and the
/// service's current port.
pub open spec fn current_panel_origin(current_port: u16, url: WebUrl) -> bool {
    url.scheme@ == "http"@ && url.port == Some(current_port) && local_host(url@.host)
}

/// The panel's own pages load in place; https pages elsewhere open in the
/// browser; everything else is refused.
pub open spec fn navigation_decision(current_port: u16, url: WebUrl) -> PanelNavigationDecision {
    if current_panel_origin(current_port, url) {
        PanelNavigationDecision::Allow
    } else if url.scheme@ == "https"@ && !local_host(url@.host) {
        PanelNavigationDecision::OpenExternal
    } else {
        PanelNavigationDecision::Block
    }
}

fn is_local_host(host: &Option<String>) -> (r: bool)
    ensures
        r == local_host(crate::web_url::opt_string_view(*host)),
{
    match host {
        Some(h) => crate::text::str_eq(h.as_str(), "127.0.0.1") || crate::text::str_eq(
            h.as_str(),
            "localhost",
        ),
        None => false,
    }
}

fn is_current_panel_origin(current_port: u16, url: &WebUrl) -> (r: bool)
    ensures
        r == current_panel_origin(current_port, *url),
{
    crate::text::str_eq(url.scheme.as_str(), "http") && url.port == Some(current_port)
        && is_local_host(&url.host)
}

pub fn decide_panel_navigation(current_port: u16, url: &WebUrl) -> (r: PanelNavigationDecision)
    ensures
        r == navigation_decision(current_port, *url),
{
    if is_current_panel_origin(current_port, url) {
        return PanelNavigationDecision::Allow;
    }
    if crate::text::str_eq(url.scheme.as_str(), "https") && !is_local_host(&url.host) {
        return PanelNavigationDecision::OpenExternal;
    }
    PanelNavigationDecision::Block
}

/// Only a page of the panel itself is ever loaded in the panel window, and
/// nothing on a loopback host is ever handed to the browser.
pub proof fn lemma_navigation_stays_local(current_port: u16, url: WebUrl)
    ensures
        navigation_decision(current_port, url) == PanelNavigationDecision::Allow ==> url.scheme@
            == "http"@ && url.port == Some(current_port) && local_host(url@.host),
        navigation_decision(current_port, url) == PanelNavigationDecision::OpenExternal
            ==> !local_host(url@.host),
{
}

} // verus!
