//! Health of the local service: counting failed checks, reading the HTTP
//! answers of the management panel, and what a probe of the port concludes.
use crate::service::state::ServiceEvent;
use crate::text::{
    ascii_lower, chars_of, decimal, decimal_chars, find, find_chars, first_from, is_whitespace_char,
    is_ws, lemma_first_from, lemma_first_from_unique, lines_of, push_all, push_str, slice_range,
    split_lines, string_from_chars, to_ascii_lower, trim, trimmed, views,
};
use vstd::prelude::*;

verus! {

/// Seconds to wait for the service to answer HTTP after it was spawned.
pub const HTTP_READY_TIMEOUT_SECS: u64 = 20;
/// Seconds to wait for the management panel to be served.
pub const PANEL_READY_TIMEOUT_SECS: u64 = 40;
/// Seconds a single request may take.
pub const SINGLE_REQUEST_TIMEOUT_SECS: u64 = 1;
/// Seconds between health checks of a running service.
pub const RUNNING_HEALTH_CHECK_INTERVAL_SECS: u64 = 5;
/// Failed checks in a row after which the service counts as unhealthy.
pub const CONSECUTIVE_FAILURE_THRESHOLD: u8 = 3;

/// The outcome of one health check.
#[derive(Clone, Copy, Debug, PartialEq, Eq, Structural)]
pub enum HealthStatus {
    TcpClosed,
    HttpReachable,
    ManageReady,
    ManageTimeout,
}

/// What is listening on the configured port.
#[derive(Clone, Copy, Debug, PartialEq, Eq, Structural)]
pub enum PortProbe {
    Free,
    OccupiedCliRelayLike,
    OccupiedUnknown,
}

/// A closed port and a panel that did not come up count as failures.
pub open spec fn is_failure_status(status: HealthStatus) -> bool {
    status == HealthStatus::TcpClosed || status == HealthStatus::ManageTimeout
}

impl HealthStatus {
    pub fn is_failure(self) -> (r: bool)
        ensures
            r == is_failure_status(self),
    {
        match self {
            HealthStatus::TcpClosed | HealthStatus::ManageTimeout => true,
            _ => false,
        }
    }
}

/// Counts failed health checks in a row.
#[derive(Clone, Debug)]
pub struct HealthFailureTracker {
    consecutive_failures: u8,
}

/// The count after one more check: one more failure (held at 255), or back to
/// zero after a success.
pub open spec fn next_failure_count(count: u8, status: HealthStatus) -> u8 {
    if is_failure_status(status) {
        if count == 255 {
            255
        } else {
            (count + 1) as u8
        }
    } else {
        0
    }
}

/// The count after a series of checks.
pub open spec fn failure_count_after(start: u8, statuses: Seq<HealthStatus>) -> u8
    decreases statuses.len(),
{
    if statuses.len() == 0 {
        start
    } else {
        next_failure_count(failure_count_after(start, statuses.drop_last()), statuses.last())
    }
}

/// The number of failures at the end of a series of checks.
pub open spec fn trailing_failures(statuses: Seq<HealthStatus>) -> nat
    decreases statuses.len(),
{
    if statuses.len() == 0 {
        0
    } else if is_failure_status(statuses.last()) {
        trailing_failures(statuses.drop_last()) + 1
    } else {
        0
    }
}

/// The event a check raises, given the count after it: unhealthy exactly
/// when the count reaches the threshold.
pub open spec fn health_event(count: u8) -> Option<ServiceEvent> {
    if count == CONSECUTIVE_FAILURE_THRESHOLD {
        Some(ServiceEvent::HealthFailedThreeTimes)
    } else {
        None
    }
}

impl HealthFailureTracker {
    pub closed spec fn count(&self) -> u8 {
        self.consecutive_failures
    }

    /// Records a check. The unhealthy event comes exactly when this check
    /// makes the third failure in a row.
    pub fn record(&mut self, status: HealthStatus) -> (r: Option<ServiceEvent>)
        ensures
            final(self).count() == next_failure_count(old(self).count(), status),
            r == health_event(final(self).count()),
    {
        if status.is_failure() {
            if self.consecutive_failures < 255 {
                self.consecutive_failures = self.consecutive_failures + 1;
            }
        } else {
            self.consecutive_failures = 0;
        }
        if self.consecutive_failures == CONSECUTIVE_FAILURE_THRESHOLD {
            Some(ServiceEvent::HealthFailedThreeTimes)
        } else {
            None
        }
    }
}

impl Default for HealthFailureTracker {
    fn default() -> (r: Self)
        ensures
            r.count() == 0,
    {
        HealthFailureTracker { consecutive_failures: 0 }
    }
}

/// From a fresh tracker, the count is the number of failures at the end of
/// the checks so far (held at 255): the unhealthy event fires on exactly the
/// check that makes the third failure in a row.
pub proof fn lemma_count_is_trailing_failures(statuses: Seq<HealthStatus>)
    ensures
        failure_count_after(0, statuses) == (if trailing_failures(statuses) > 255 {
            255
        } else {
            trailing_failures(statuses)
        }),
    decreases statuses.len(),
{
    if statuses.len() > 0 {
        lemma_count_is_trailing_failures(statuses.drop_last());
    }
}

/// Over any run of checks recorded on a fresh tracker (`trackers[i + 1]` is
/// `trackers[i]` after recording `statuses[i]`, which raised `events[i]`),
/// the unhealthy event is raised by exactly the checks that fail right after
/// two failures in a row since the start or the last success: a success
/// raises nothing and restarts the streak, and the fourth and later failures
/// in a row raise nothing.
pub proof fn lemma_unhealthy_on_third_failure_in_a_row(
    trackers: Seq<HealthFailureTracker>,
    statuses: Seq<HealthStatus>,
    events: Seq<Option<ServiceEvent>>,
)
    requires
        trackers.len() == statuses.len() + 1,
        events.len() == statuses.len(),
        trackers[0].count() == 0,
        forall|i: int|
            0 <= i < statuses.len() ==> #[trigger] trackers[i + 1].count() == next_failure_count(
                trackers[i].count(),
                statuses[i],
            ) && events[i] == health_event(trackers[i + 1].count()),
    ensures
        forall|i: int|
            0 <= i < statuses.len() ==> (#[trigger] events[i] == Some(ServiceEvent::HealthFailedThreeTimes)
                <==> (is_failure_status(statuses[i]) && trailing_failures(statuses.take(i)) == 2)),
{
    lemma_tracker_counts(trackers, statuses, statuses.len() as int);
    assert forall|i: int| 0 <= i < statuses.len() implies (#[trigger] events[i]
        == Some(ServiceEvent::HealthFailedThreeTimes) <==> (is_failure_status(statuses[i])
        && trailing_failures(statuses.take(i)) == 2)) by {
        lemma_tracker_counts(trackers, statuses, i);
        lemma_count_is_trailing_failures(statuses.take(i));
        assert(trackers[i + 1].count() == next_failure_count(trackers[i].count(), statuses[i]));
    }
}

/// After `n` recorded checks, a fresh tracker holds the count of those checks.
proof fn lemma_tracker_counts(trackers: Seq<HealthFailureTracker>, statuses: Seq<HealthStatus>, n: int)
    requires
        trackers.len() == statuses.len() + 1,
        trackers[0].count() == 0,
        forall|i: int|
            0 <= i < statuses.len() ==> #[trigger] trackers[i + 1].count() == next_failure_count(
                trackers[i].count(),
                statuses[i],
            ),
        0 <= n <= statuses.len(),
    ensures
        trackers[n].count() == failure_count_after(0, statuses.take(n)),
    decreases n,
{
    if n > 0 {
        lemma_tracker_counts(trackers, statuses, n - 1);
        assert(statuses.take(n).drop_last() =~= statuses.take(n - 1));
        assert(trackers[(n - 1) + 1].count() == next_failure_count(trackers[n - 1].count(), statuses[n - 1]));
    } else {
        assert(statuses.take(0) =~= Seq::<HealthStatus>::empty());
    }
}

/// Whether `c` is an ASCII decimal digit.
pub open spec fn is_digit(c: char) -> bool {
    '0' <= c && c <= '9'
}

/// The value of a string of decimal digits.
pub open spec fn digits_value(s: Seq<char>) -> nat
    decreases s.len(),
{
    if s.len() == 0 {
        0
    } else {
        digits_value(s.drop_last()) * 10 + ((s.last() as u32) - ('0' as u32)) as nat
    }
}

/// Whether every character of `d` is a decimal digit.
pub open spec fn all_digits(d: Seq<char>) -> bool {
    forall|j: int| 0 <= j < d.len() ==> is_digit(#[trigger] d[j])
}

/// `s` without one leading `+`.
pub open spec fn unsigned_digits(s: Seq<char>) -> Seq<char> {
    if s.len() > 0 && s[0] == '+' {
        s.subrange(1, s.len() as int)
    } else {
        s
    }
}

/// `s` read as a `u16` as `str::parse::<u16>` reads it: an optional `+`, then
/// one or more decimal digits of a value below 65536.
pub open spec fn parse_u16(s: Seq<char>) -> Option<u16> {
    let d = unsigned_digits(s);
    if d.len() > 0 && all_digits(d) && digits_value(d) <= 65535 {
        Some(digits_value(d) as u16)
    } else {
        None
    }
}

fn parse_u16_chars(s: &[char]) -> (r: Option<u16>)
    ensures
        r == parse_u16(s@),
{
    let start: usize = if s.len() > 0 && s[0] == '+' {
        1
    } else {
        0
    };
    let ghost d = unsigned_digits(s@);
    proof {
        if start == 0 {
            assert(s@.subrange(0, s@.len() as int) =~= d);
        }
    }
    if start == s.len() {
        return None;
    }
    let mut value: u32 = 0;
    let mut i: usize = start;
    while i < s.len()
        invariant
            start <= i <= s@.len(),
            start < s@.len(),
            d == s@.subrange(start as int, s@.len() as int),
            d == unsigned_digits(s@),
            forall|j: int| start <= j < i ==> is_digit(#[trigger] s@[j]),
            value == (if digits_value(s@.subrange(start as int, i as int)) > 65535 {
                65536
            } else {
                digits_value(s@.subrange(start as int, i as int))
            }),
        decreases s@.len() - i,
    {
        let c = s[i];
        if !('0' <= c && c <= '9') {
            proof {
                let j = i - start;
                assert(d[j] == c);
                assert(!is_digit(d[j]));
                assert(!all_digits(d));

            }
            return None;
        }
        let ghost prev = s@.subrange(start as int, i as int);
        let ghost next = s@.subrange(start as int, i + 1);
        assert(next.drop_last() =~= prev);
        let digit: u32 = (c as u32) - ('0' as u32);
        if value <= 65535 {
            let v = value * 10 + digit;
            value = if v > 65535 {
                65536
            } else {
                v
            };
        }
        i = i + 1;
    }
    assert(s@.subrange(start as int, s@.len() as int) =~= d);
    if value > 65535 {
        None
    } else {
        Some(value as u16)
    }
}

/// The first index at or after `i` whose character is (when `ws`) or is not
/// (otherwise) whitespace; the length when there is none.
pub open spec fn scan_from(s: Seq<char>, i: int, ws: bool) -> int {
    match first_from(s.len() as int, |j: int| is_ws(s[j]) == ws, i) {
        Some(k) => k,
        None => s.len() as int,
    }
}

fn scan_chars(s: &[char], i: usize, ws: bool) -> (r: usize)
    requires
        i <= s@.len(),
    ensures
        r == scan_from(s@, i as int, ws),
        i <= r <= s@.len(),
{
    let mut k: usize = i;
    while k < s.len()
        invariant
            i <= k <= s@.len(),
            forall|j: int| i <= j < k ==> is_ws(#[trigger] s@[j]) != ws,
        decreases s@.len() - k,
    {
        if is_whitespace_char(s[k]) == ws {
            proof {
                lemma_first_from_unique(s@.len() as int, |j: int| is_ws(s@[j]) == ws, i as int, Some(k as int));
            }
            return k;
        }
        k = k + 1;
    }
    proof {
        lemma_first_from_unique(s@.len() as int, |j: int| is_ws(s@[j]) == ws, i as int, None);
    }
    k
}

/// The second whitespace-separated word of `s`, as
/// `s.split_whitespace().nth(1)` yields it.
pub open spec fn second_word(s: Seq<char>) -> Option<Seq<char>> {
    let a = scan_from(s, 0, false);
    let b = scan_from(s, a, true);
    let c = scan_from(s, b, false);
    let d = scan_from(s, c, true);
    if a >= s.len() || c >= s.len() {
        None
    } else {
        Some(s.subrange(c, d))
    }
}

fn second_word_chars(s: &[char]) -> (r: Option<Vec<char>>)
    ensures
        match r {
            Some(w) => second_word(s@) == Some(w@),
            None => second_word(s@) is None,
        },
{
    let a = scan_chars(s, 0, false);
    if a >= s.len() {
        return None;
    }
    let b = scan_chars(s, a, true);
    let c = scan_chars(s, b, false);
    if c >= s.len() {
        return None;
    }
    let d = scan_chars(s, c, true);
    Some(slice_range(s, c, d))
}

/// A response as plain values: the status code and the headers in the order
/// they came, each name lower-cased and both parts trimmed.
pub struct HttpResponseView {
    pub status_code: u16,
    pub headers: Seq<(Seq<char>, Seq<char>)>,
}

/// The status code and headers of an HTTP response.
#[derive(Clone, Debug)]
pub struct HttpResponse {
    pub status_code: u16,
    pub headers: Vec<(String, String)>,
}

pub open spec fn header_views(h: Seq<(String, String)>) -> Seq<(Seq<char>, Seq<char>)> {
    Seq::new(h.len(), |i: int| (h[i].0@, h[i].1@))
}

impl View for HttpResponse {
    type V = HttpResponseView;

    open spec fn view(&self) -> HttpResponseView {
        HttpResponseView { status_code: self.status_code, headers: header_views(self.headers@) }
    }
}

/// A header line split at its first colon into the lower-cased, trimmed name
/// and the trimmed value; lines without a colon are skipped.
pub open spec fn header_entry(line: Seq<char>) -> Option<(Seq<char>, Seq<char>)> {
    match find(line, seq![':']) {
        Some(k) => Some(
            (ascii_lower(trim(line.subrange(0, k))), trim(line.subrange(k + 1, line.len() as int))),
        ),
        None => None,
    }
}

/// The header entries of a series of lines, in order.
pub open spec fn header_entries(lines: Seq<Seq<char>>) -> Seq<(Seq<char>, Seq<char>)>
    decreases lines.len(),
{
    if lines.len() == 0 {
        Seq::empty()
    } else {
        let prev = header_entries(lines.drop_last());
        match header_entry(lines.last()) {
            Some(e) => prev.push(e),
            None => prev,
        }
    }
}

/// The value of the header `name`: the last entry of that name wins, as in a
/// map that each header line is inserted into.
pub open spec fn header_value(headers: Seq<(Seq<char>, Seq<char>)>, name: Seq<char>) -> Option<Seq<char>>
    decreases headers.len(),
{
    if headers.len() == 0 {
        None
    } else if headers.last().0 == name {
        Some(headers.last().1)
    } else {
        header_value(headers.drop_last(), name)
    }
}

/// The blank line that ends the head of a response.
pub open spec fn head_end() -> Seq<char> {
    seq!['\r', '\n', '\r', '\n']
}

/// What a raw response says: `None` without a complete head, without a status
/// line, or when the status line's second word is not a `u16`.
pub open spec fn parsed_response(raw: Seq<char>) -> Option<HttpResponseView> {
    match find(raw, head_end()) {
        None => None,
        Some(k) => {
            let lines = lines_of(raw.subrange(0, k));
            if lines.len() == 0 {
                None
            } else {
                match second_word(lines[0]) {
                    None => None,
                    Some(word) => match parse_u16(word) {
                        None => None,
                        Some(code) => Some(
                            HttpResponseView {
                                status_code: code,
                                headers: header_entries(lines.subrange(1, lines.len() as int)),
                            },
                        ),
                    },
                }
            }
        },
    }
}

/// The response is an HTML page served with status 200.
pub open spec fn html_ok(r: HttpResponseView) -> bool {
    r.status_code == 200 && match header_value(r.headers, "content-type"@) {
        Some(v) => find(ascii_lower(v), "text/html"@) is Some,
        None => false,
    }
}

/// The response redirects (301 or 302) to exactly `location`.
pub open spec fn redirects_to(r: HttpResponseView, location: Seq<char>) -> bool {
    (r.status_code == 301 || r.status_code == 302) && header_value(r.headers, "location"@) == Some(
        location,
    )
}

fn header_entry_chars(line: &[char]) -> (r: Option<(String, String)>)
    ensures
        match r {
            Some(e) => header_entry(line@) == Some((e.0@, e.1@)),
            None => header_entry(line@) is None,
        },
{
    let colon: Vec<char> = vec![':'];
    assert(colon@ =~= seq![':']);
    let n = line.len();
    let found = find_chars(line, colon.as_slice());
    match found {
        Some(k) => {
            assert(colon@.len() == 1);
            assert(k + colon@.len() <= line@.len());
            let name_raw = slice_range(line, 0, k);
            let name_trim = trimmed(name_raw.as_slice());
            let name = to_ascii_lower(name_trim.as_slice());
            let value_raw = slice_range(line, k + 1, n);
            let value = trimmed(value_raw.as_slice());
            Some((string_from_chars(name.as_slice()), string_from_chars(value.as_slice())))
        },
        None => None,
    }
}

fn lookup_header<'a>(headers: &'a Vec<(String, String)>, name: &str) -> (r: Option<&'a String>)
    ensures
        match r {
            Some(v) => header_value(header_views(headers@), name@) == Some(v@),
            None => header_value(header_views(headers@), name@) is None,
        },
{
    let mut i: usize = headers.len();
    assert(headers@.subrange(0, i as int) =~= headers@);
    while i > 0
        invariant
            0 <= i <= headers@.len(),
            header_value(header_views(headers@), name@) == header_value(
                header_views(headers@.subrange(0, i as int)),
                name@,
            ),
        decreases i,
    {
        let ghost cur = header_views(headers@.subrange(0, i as int));
        assert(cur.last() == (headers@[i - 1].0@, headers@[i - 1].1@));
        assert(cur.drop_last() =~= header_views(headers@.subrange(0, i - 1)));
        if crate::text::str_eq(headers[i - 1].0.as_str(), name) {
            return Some(&headers[i - 1].1);
        }
        i = i - 1;
    }
    None
}

impl HttpResponse {
    /// Reads the status code and headers of a raw response.
    pub fn parse(raw: &str) -> (r: Option<Self>)
        ensures
            match r {
                Some(resp) => parsed_response(raw@) == Some(resp@),
                None => parsed_response(raw@) is None,
            },
    {
        let chars = chars_of(raw);
        let sep: Vec<char> = vec!['\r', '\n', '\r', '\n'];
        assert(sep@ =~= head_end());
        let k = match find_chars(chars.as_slice(), sep.as_slice()) {
            Some(k) => k,
            None => {
                return None;
            },
        };
        let head = slice_range(chars.as_slice(), 0, k);
        let lines = split_lines(head.as_slice());
        let ghost lv = lines_of(head@);
        assert(views(lines@) == lv);
        if lines.len() == 0 {
            return None;
        }
        assert(lines@[0]@ == lv[0]);
        let word = match second_word_chars(lines[0].as_slice()) {
            Some(w) => w,
            None => {
                return None;
            },
        };
        let code = match parse_u16_chars(word.as_slice()) {
            Some(c) => c,
            None => {
                return None;
            },
        };
        let mut headers: Vec<(String, String)> = Vec::new();
        let mut i: usize = 1;
        while i < lines.len()
            invariant
                1 <= i <= lines@.len(),
                views(lines@) == lv,
                header_views(headers@) == header_entries(lv.subrange(1, i as int)),
            decreases lines@.len() - i,
        {
            let ghost prev = lv.subrange(1, i as int);
            let ghost next = lv.subrange(1, i + 1);
            assert(next.drop_last() =~= prev);
            assert(next.last() == lines@[i as int]@);
            let ghost before = headers@;
            match header_entry_chars(lines[i].as_slice()) {
                Some(e) => {
                    headers.push(e);
                    assert(header_views(headers@) =~= header_views(before).push((e.0@, e.1@)));
                },
                None => {},
            }
            i = i + 1;
        }
        Some(HttpResponse { status_code: code, headers })
    }

    /// Whether this is an HTML page served with status 200.
    pub fn is_html_ok(&self) -> (r: bool)
        ensures
            r == html_ok(self@),
    {
        if self.status_code != 200 {
            return false;
        }
        match lookup_header(&self.headers, "content-type") {
            Some(v) => {
                let vc = chars_of(v.as_str());
                let lower = to_ascii_lower(vc.as_slice());
                let needle = chars_of("text/html");
                find_chars(lower.as_slice(), needle.as_slice()).is_some()
            },
            None => false,
        }
    }

    /// Whether this redirects (301 or 302) to exactly `expected_location`.
    pub fn is_redirect_to(&self, expected_location: &str) -> (r: bool)
        ensures
            r == redirects_to(self@, expected_location@),
    {
        if !(self.status_code == 301 || self.status_code == 302) {
            return false;
        }
        match lookup_header(&self.headers, "location") {
            Some(v) => crate::text::str_eq(v.as_str(), expected_location),
            None => false,
        }
    }
}

/// The request line and headers of a plain GET.
pub open spec fn get_request_text(host: Seq<char>, port: u16, path: Seq<char>) -> Seq<char> {
    "GET "@ + path + " HTTP/1.1\r\nHost: "@ + host + ":"@ + decimal(port as nat)
        + "\r\nConnection: close\r\nAccept: text/html,*/*\r\n\r\n"@
}

/// The text of a GET request for `path` on `host:port`.
pub fn http_get_request(host: &str, port: u16, path: &str) -> (r: String)
    ensures
        r@ == get_request_text(host@, port, path@),
{
    let mut v: Vec<char> = Vec::new();
    push_str(&mut v, "GET ");
    push_str(&mut v, path);
    push_str(&mut v, " HTTP/1.1\r\nHost: ");
    push_str(&mut v, host);
    push_str(&mut v, ":");
    let digits = decimal_chars(port as u64);
    push_all(&mut v, digits.as_slice());
    push_str(&mut v, "\r\nConnection: close\r\nAccept: text/html,*/*\r\n\r\n");
    string_from_chars(v.as_slice())
}

/// Why a request got no usable answer: the connection was refused, it timed
/// out, or anything else (including an answer that is not HTTP).
#[derive(Clone, Copy, Debug, PartialEq, Eq, Structural)]
pub enum FetchErrorKind {
    ConnectionRefused,
    TimedOut,
    Other,
}

/// Where a check of the panel stands: first `/manage`, then the login page
/// after a redirect to it, then the login page on its own.
#[derive(Clone, Copy, Debug, PartialEq, Eq, Structural)]
pub enum PanelCheckStage {
    Manage,
    RedirectedLogin,
    Login,
}

/// What the check does next: fetch the page of a stage, finish with a status,
/// or stop on the error that ended it.
#[derive(Clone, Copy, Debug, PartialEq, Eq, Structural)]
pub enum PanelCheckStep {
    Fetch(PanelCheckStage),
    Finished(HealthStatus),
    Failed(FetchErrorKind),
}

pub const MANAGE_PATH: &'static str = "/manage";
pub const LOGIN_PATH: &'static str = "/manage/login";

/// The page a stage fetches.
pub open spec fn stage_path(stage: PanelCheckStage) -> Seq<char> {
    match stage {
        PanelCheckStage::Manage => MANAGE_PATH@,
        _ => LOGIN_PATH@,
    }
}

pub fn panel_check_path(stage: PanelCheckStage) -> (r: &'static str)
    ensures
        r@ == stage_path(stage),
{
    match stage {
        PanelCheckStage::Manage => MANAGE_PATH,
        _ => LOGIN_PATH,
    }
}

/// The order of the stages: each step moves forward or finishes.
pub open spec fn stage_rank(stage: PanelCheckStage) -> int {
    match stage {
        PanelCheckStage::Manage => 0,
        PanelCheckStage::RedirectedLogin => 1,
        PanelCheckStage::Login => 2,
    }
}

/// The next step after the fetch of a stage's page gave `fetched` (a raw
/// response or the error): an HTML page is ready; `/manage` redirecting to the
/// login page fetches that page; a page that is not ready falls back to the
/// login page; an error before the last stage ends the check with the error,
/// and at the last stage counts as the panel not being up.
pub open spec fn panel_check_next(stage: PanelCheckStage, fetched: Result<Seq<char>, FetchErrorKind>) -> PanelCheckStep {
    let response = match fetched {
        Ok(raw) => match parsed_response(raw) {
            Some(r) => Ok(r),
            None => Err(FetchErrorKind::Other),
        },
        Err(e) => Err(e),
    };
    match response {
        Err(e) => match stage {
            PanelCheckStage::Login => PanelCheckStep::Finished(HealthStatus::ManageTimeout),
            _ => PanelCheckStep::Failed(e),
        },
        Ok(r) => if html_ok(r) {
            PanelCheckStep::Finished(HealthStatus::ManageReady)
        } else {
            match stage {
                PanelCheckStage::Manage => if redirects_to(r, LOGIN_PATH@) {
                    PanelCheckStep::Fetch(PanelCheckStage::RedirectedLogin)
                } else {
                    PanelCheckStep::Fetch(PanelCheckStage::Login)
                },
                PanelCheckStage::RedirectedLogin => PanelCheckStep::Fetch(PanelCheckStage::Login),
                PanelCheckStage::Login => PanelCheckStep::Finished(HealthStatus::ManageTimeout),
            }
        },
    }
}

/// One step of the panel check. Every step moves to a later stage or
/// finishes, so a check makes at most three requests; the panel counts as
/// ready only on an HTML page served with status 200.
pub fn panel_check_step(stage: PanelCheckStage, fetched: Result<&str, FetchErrorKind>) -> (r: PanelCheckStep)
    ensures
        r == panel_check_next(
            stage,
            match fetched {
                Ok(raw) => Ok(raw@),
                Err(e) => Err(e),
            },
        ),
        r matches PanelCheckStep::Fetch(next) ==> stage_rank(next) > stage_rank(stage),
        r == PanelCheckStep::Finished(HealthStatus::ManageReady) ==> (match fetched {
            Ok(raw) => (match parsed_response(raw@) {
                Some(resp) => html_ok(resp),
                None => false,
            }),
            Err(_) => false,
        }),
{
    let response = match fetched {
        Ok(raw) => match HttpResponse::parse(raw) {
            Some(r) => Ok(r),
            None => Err(FetchErrorKind::Other),
        },
        Err(e) => Err(e),
    };
    match response {
        Err(e) => match stage {
            PanelCheckStage::Login => PanelCheckStep::Finished(HealthStatus::ManageTimeout),
            _ => PanelCheckStep::Failed(e),
        },
        Ok(r) => {
            if r.is_html_ok() {
                PanelCheckStep::Finished(HealthStatus::ManageReady)
            } else {
                match stage {
                    PanelCheckStage::Manage => {
                        if r.is_redirect_to(LOGIN_PATH) {
                            PanelCheckStep::Fetch(PanelCheckStage::RedirectedLogin)
                        } else {
                            PanelCheckStep::Fetch(PanelCheckStage::Login)
                        }
                    },
                    PanelCheckStage::RedirectedLogin => PanelCheckStep::Fetch(PanelCheckStage::Login),
                    PanelCheckStage::Login => PanelCheckStep::Finished(HealthStatus::ManageTimeout),
                }
            }
        },
    }
}

/// What a finished panel check says about the port: a panel means a
/// CliRelay-like service; another answer or a timeout means something else
/// holds the port; a refused connection or any other error means it is free.
pub open spec fn port_probe_of(check: Result<HealthStatus, FetchErrorKind>) -> PortProbe {
    match check {
        Ok(HealthStatus::ManageReady) => PortProbe::OccupiedCliRelayLike,
        Ok(_) => PortProbe::OccupiedUnknown,
        Err(FetchErrorKind::TimedOut) => PortProbe::OccupiedUnknown,
        Err(_) => PortProbe::Free,
    }
}

/// The port's state from a finished panel check.
pub fn probe_port(check: Result<HealthStatus, FetchErrorKind>) -> (r: PortProbe)
    ensures
        r == port_probe_of(check),
{
    match check {
        Ok(HealthStatus::ManageReady) => PortProbe::OccupiedCliRelayLike,
        Ok(_) => PortProbe::OccupiedUnknown,
        Err(FetchErrorKind::ConnectionRefused) => PortProbe::Free,
        Err(FetchErrorKind::TimedOut) => PortProbe::OccupiedUnknown,
        Err(_) => PortProbe::Free,
    }
}

/// The panel's health from a finished panel check: an error counts as the
/// panel not being up.
pub fn check_panel_ready(check: Result<HealthStatus, FetchErrorKind>) -> (r: HealthStatus)
    ensures
        r == match check {
            Ok(s) => s,
            Err(_) => HealthStatus::ManageTimeout,
        },
{
    match check {
        Ok(s) => s,
        Err(_) => HealthStatus::ManageTimeout,
    }
}

} // verus!
