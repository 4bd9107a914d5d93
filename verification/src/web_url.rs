//! Parsed URLs, as the plain parts that the update and navigation rules read.
use vstd::prelude::*;

verus! {

/// A parsed URL: its serialization, scheme, host, port (explicit or the
/// scheme's default) and path.
#[derive(Clone, Debug, PartialEq, Eq)]
pub struct WebUrl {
    pub serialization: String,
    pub scheme: String,
    pub host: Option<String>,
    pub port: Option<u16>,
    pub path: String,
}

/// The parts of a parsed URL.
pub struct WebUrlView {
    pub serialization: Seq<char>,
    pub scheme: Seq<char>,
    pub host: Option<Seq<char>>,
    pub port: Option<u16>,
    pub path: Seq<char>,
}

pub open spec fn opt_string_view(s: Option<String>) -> Option<Seq<char>> {
    match s {
        Some(v) => Some(v@),
        None => None,
    }
}

impl View for WebUrl {
    type V = WebUrlView;

    open spec fn view(&self) -> WebUrlView {
        WebUrlView {
            serialization: self.serialization@,
            scheme: self.scheme@,
            host: opt_string_view(self.host),
            port: self.port,
            path: self.path@,
        }
    }
}

/// What `url::Url::parse` makes of `input`: the URL's parts, or `None` when
/// it is not a valid absolute URL.
pub uninterp spec fn parsed_url(input: Seq<char>) -> Option<WebUrlView>;

/// A URL read from text: its parts when `input` is a valid absolute URL.
pub fn parse_web_url(input: &str) -> (r: Option<WebUrl>)
    ensures
        match r {
            Some(u) => parsed_url(input@) == Some(u@),
            None => parsed_url(input@) is None,
        },
{
    url_parse(input)
}

/// `url::Url::parse`, with the result taken apart into its serialization
/// (`as_str`), `scheme`, `host_str`, `port_or_known_default` and `path`.
/// The contract names the result; the URL grammar is not restated.
#[verifier::external_body]
fn url_parse(input: &str) -> (r: Option<WebUrl>)
    ensures
        match r {
            Some(u) => parsed_url(input@) == Some(u@),
            None => parsed_url(input@) is None,
        },
{
    url::Url::parse(input).ok().map(|u| WebUrl {
        serialization: u.as_str().to_string(),
        scheme: u.scheme().to_string(),
        host: u.host_str().map(|h| h.to_string()),
        port: u.port_or_known_default(),
        path: u.path().to_string(),
    })
}

} // verus!
