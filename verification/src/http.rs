//! What each request to the dashboard is answered.

use crate::config;
use crate::text;
use tiny_http::HeaderField;
use vstd::prelude::*;
use vstd::utf8::*;

verus! {

/// The entry points that carry a trailing slash.
#[derive(PartialEq, Eq, Structural, Clone, Copy, Debug)]
pub enum Entry {
    /// `/watchlite/`
    Prefix,
    /// `/m/`
    Mobile,
    /// `/watchlite/m/`
    PrefixMobile,
}

/// The files of the dashboard.
#[derive(PartialEq, Eq, Structural, Clone, Copy, Debug)]
pub enum Asset {
    IndexHtml,
    AppJs,
    StyleCss,
    MobileHtml,
    MobileJs,
    MobileCss,
    FaviconSvg,
}

/// What a request is answered.
#[derive(PartialEq, Eq, Structural, Clone, Copy, Debug)]
pub enum Answer {
    /// The process serves HTTP.
    Healthy,
    /// The request carries no credentials, or other ones.
    Unauthorized,
    /// The page is at another path.
    Redirect(Entry),
    /// A file of the dashboard.
    Asset(Asset),
    /// The latest snapshot.
    Stats,
    /// The ring buffer of samples.
    History,
    /// The text for Prometheus.
    Metrics,
    /// There is nothing at the path.
    NotFound,
}

/// A header of a request.
pub struct RequestHeader {
    pub field: String,
    pub value: String,
}

/// The field and the value of a header.
pub open spec fn header_view(h: RequestHeader) -> (Seq<char>, Seq<char>) {
    (h.field@, h.value@)
}

/// The fields and the values of headers.
pub open spec fn header_views(s: Seq<RequestHeader>) -> Seq<(Seq<char>, Seq<char>)> {
    s.map_values(|h: RequestHeader| header_view(h))
}

/// The path of a URL: what stands before its query.
pub open spec fn path_of(url: Seq<char>) -> Seq<char> {
    text::before(url, '?')
}

/// Two names that differ in the case of ASCII letters at most.
pub open spec fn same_field(a: Seq<char>, b: Seq<char>) -> bool {
    text::ascii_lower(a) == text::ascii_lower(b)
}

/// The value of the first header with the field `name`.
pub open spec fn header_value(headers: Seq<(Seq<char>, Seq<char>)>, name: Seq<char>) -> Option<
    Seq<char>,
>
    decreases headers.len(),
{
    if headers.len() == 0 {
        None
    } else if same_field(headers[0].0, name) {
        Some(headers[0].1)
    } else {
        header_value(headers.skip(1), name)
    }
}

/// The request may see what is behind the credentials: there are none, or the first
/// `Authorization` header has the value that carries them.
pub open spec fn authorized(
    auth: Option<Seq<char>>,
    headers: Seq<(Seq<char>, Seq<char>)>,
) -> bool {
    auth matches Some(expected) ==> header_value(headers, "Authorization"@) == Some(expected)
}

/// Where an entry point is to be asked for with its trailing slash.
pub open spec fn redirect(path: Seq<char>) -> Option<Entry> {
    if path == "/watchlite"@ {
        Some(Entry::Prefix)
    } else if path == "/m"@ || path == "/mobile"@ {
        Some(Entry::Mobile)
    } else if path == "/watchlite/m"@ {
        Some(Entry::PrefixMobile)
    } else {
        None
    }
}

/// What is served at a path that is not redirected.
pub open spec fn served(path: Seq<char>) -> Answer {
    if path == "/"@ || path == "/index.html"@ || path == "/watchlite/"@ {
        Answer::Asset(Asset::IndexHtml)
    } else if path == "/app.js"@ {
        Answer::Asset(Asset::AppJs)
    } else if path == "/style.css"@ {
        Answer::Asset(Asset::StyleCss)
    } else if path == "/m/"@ || path == "/mobile/"@ || path == "/watchlite/m/"@ {
        Answer::Asset(Asset::MobileHtml)
    } else if path == "/mobile.js"@ {
        Answer::Asset(Asset::MobileJs)
    } else if path == "/mobile.css"@ {
        Answer::Asset(Asset::MobileCss)
    } else if path == "/favicon.svg"@ || path == "/favicon.ico"@ {
        Answer::Asset(Asset::FaviconSvg)
    } else if path == "/api/stats"@ {
        Answer::Stats
    } else if path == "/api/history"@ {
        Answer::History
    } else if path == "/metrics"@ {
        Answer::Metrics
    } else {
        Answer::NotFound
    }
}

/// What a request is answered.
pub open spec fn answer(
    url: Seq<char>,
    auth: Option<Seq<char>>,
    headers: Seq<(Seq<char>, Seq<char>)>,
) -> Answer {
    let path = path_of(url);
    if path == "/healthz"@ {
        Answer::Healthy
    } else if !authorized(auth, headers) {
        Answer::Unauthorized
    } else {
        match redirect(path) {
            Some(entry) => Answer::Redirect(entry),
            None => served(path),
        }
    }
}

/// Calls `tiny_http::HeaderField::equiv` on the field that `HeaderField::from_bytes` makes of the
/// text: the two names are the same but for the case of ASCII letters. A text that is not ASCII
/// is no field, and is then not the same as any name that is.
#[verifier::external_body]
fn field_equiv(field: &str, name: &'static str) -> (r: bool)
    requires
        is_ascii_chars(name@),
    ensures
        r == same_field(field@, name@),
{
    match HeaderField::from_bytes(field.as_bytes()) {
        Ok(f) => f.equiv(name),
        Err(_) => false,
    }
}

/// Equal-time comparison so auth failures don't leak the match prefix via timing.
pub fn constant_time_eq(a: &str, b: &str) -> (r: bool)
    ensures
        r == (a@ == b@),
{
    let x = a.as_bytes();
    let y = b.as_bytes();
    if x.len() != y.len() {
        return false;
    }
    let mut acc: u8 = 0;
    let mut i: usize = 0;
    assert(x@.take(0) =~= y@.take(0));
    while i < x.len()
        invariant
            x@ == encode_utf8(a@),
            y@ == encode_utf8(b@),
            i <= x@.len(),
            x@.len() == y@.len(),
            acc == 0 <==> x@.take(i as int) == y@.take(i as int),
        decreases x@.len() - i,
    {
        let p = x[i];
        let q = y[i];
        assert((acc | (p ^ q)) == 0 <==> acc == 0 && p == q) by (bit_vector);
        acc = acc | (p ^ q);
        i = i + 1;
        proof {
            let before_x = x@.take(i - 1);
            let before_y = y@.take(i - 1);
            assert(x@.take(i as int) =~= before_x.push(p));
            assert(y@.take(i as int) =~= before_y.push(q));
            if x@.take(i as int) == y@.take(i as int) {
                assert(x@.take(i as int).drop_last() =~= before_x);
                assert(y@.take(i as int).drop_last() =~= before_y);
                assert(x@.take(i as int).last() == p);
            }
        }
    }
    proof {
        assert(x@.take(i as int) =~= x@);
        assert(y@.take(i as int) =~= y@);
        if acc == 0 {
            text::lemma_bytes_determine_text(a@, b@);
        }
    }
    acc == 0
}

/// Whether a request carries the expected `Authorization`.
fn carries(headers: &Vec<RequestHeader>, expected: &str) -> (r: bool)
    ensures
        r == (header_value(header_views(headers@), "Authorization"@) == Some(expected@)),
{
    let ghost all = header_views(headers@);
    let n: usize = headers.len();
    let mut i: usize = 0;
    assert(all.skip(0) =~= all);
    while i < n
        invariant
            n == headers@.len(),
            all == header_views(headers@),
            i <= n,
            header_value(all, "Authorization"@) == header_value(
                all.skip(i as int),
                "Authorization"@,
            ),
        decreases n - i,
    {
        let ghost rest = all.skip(i as int);
        assert(rest[0] == header_view(headers@[i as int]));
        assert(rest.skip(1) =~= all.skip(i + 1));
        proof {
            reveal_strlit("Authorization");
        }
        if field_equiv(headers[i].field.as_str(), "Authorization") {
            return constant_time_eq(headers[i].value.as_str(), expected);
        }
        i = i + 1;
    }
    false
}

fn redirect_for(path: &str) -> (r: Option<Entry>)
    ensures
        r == redirect(path@),
{
    if text::same_text(path, "/watchlite") {
        Some(Entry::Prefix)
    } else if text::same_text(path, "/m") || text::same_text(path, "/mobile") {
        Some(Entry::Mobile)
    } else if text::same_text(path, "/watchlite/m") {
        Some(Entry::PrefixMobile)
    } else {
        None
    }
}

fn serve_path(path: &str) -> (r: Answer)
    ensures
        r == served(path@),
{
    if text::same_text(path, "/") || text::same_text(path, "/index.html") || text::same_text(
        path,
        "/watchlite/",
    ) {
        Answer::Asset(Asset::IndexHtml)
    } else if text::same_text(path, "/app.js") {
        Answer::Asset(Asset::AppJs)
    } else if text::same_text(path, "/style.css") {
        Answer::Asset(Asset::StyleCss)
    } else if text::same_text(path, "/m/") || text::same_text(path, "/mobile/")
        || text::same_text(path, "/watchlite/m/") {
        Answer::Asset(Asset::MobileHtml)
    } else if text::same_text(path, "/mobile.js") {
        Answer::Asset(Asset::MobileJs)
    } else if text::same_text(path, "/mobile.css") {
        Answer::Asset(Asset::MobileCss)
    } else if text::same_text(path, "/favicon.svg") || text::same_text(path, "/favicon.ico") {
        Answer::Asset(Asset::FaviconSvg)
    } else if text::same_text(path, "/api/stats") {
        Answer::Stats
    } else if text::same_text(path, "/api/history") {
        Answer::History
    } else if text::same_text(path, "/metrics") {
        Answer::Metrics
    } else {
        Answer::NotFound
    }
}

/// What a request is answered: its URL, the value that its `Authorization` must have where one is
/// asked for, and its headers in order.
pub fn handle(url: &str, auth: &Option<String>, headers: &Vec<RequestHeader>) -> (r: Answer)
    ensures
        r == answer(url@, config::args::opt(*auth), header_views(headers@)),
{
    let path = text::text_before(url, '?');
    // liveness probe: no auth, reveals nothing but "the process serves HTTP"
    if text::same_text(path, "/healthz") {
        return Answer::Healthy;
    }
    if let Some(expected) = auth {
        if !carries(headers, expected.as_str()) {
            return Answer::Unauthorized;
        }
    }
    match redirect_for(path) {
        Some(entry) => Answer::Redirect(entry),
        None => serve_path(path),
    }
}

// ---------------------------------------------------------------------------------------------
// Heads and texts of the answers
// ---------------------------------------------------------------------------------------------

/// The kinds of content that are sent.
#[derive(PartialEq, Eq, Structural, Clone, Copy, Debug)]
pub enum ContentType {
    Html,
    Js,
    Css,
    Svg,
    Json,
    /// The text exposition format of Prometheus.
    Prometheus,
}

/// The name of the text exposition format of Prometheus.
pub const PROMETHEUS_TYPE: &'static str = "text/plain; version=0.0.4; charset=utf-8";

/// The names of the kinds of content that come with the files of the dashboard.
pub struct TypeNames {
    pub html: &'static str,
    pub js: &'static str,
    pub css: &'static str,
    pub svg: &'static str,
    pub json: &'static str,
}

/// The name of a kind of content, as a `Content-Type` header has it.
pub open spec fn content_name(kind: ContentType, names: TypeNames) -> Seq<char> {
    match kind {
        ContentType::Html => names.html@,
        ContentType::Js => names.js@,
        ContentType::Css => names.css@,
        ContentType::Svg => names.svg@,
        ContentType::Json => names.json@,
        ContentType::Prometheus => PROMETHEUS_TYPE@,
    }
}

impl ContentType {
    /// The name of the kind of content, as a `Content-Type` header has it.
    pub fn name(self, names: &TypeNames) -> (r: &'static str)
        ensures
            r@ == content_name(self, *names),
    {
        match self {
            ContentType::Html => names.html,
            ContentType::Js => names.js,
            ContentType::Css => names.css,
            ContentType::Svg => names.svg,
            ContentType::Json => names.json,
            ContentType::Prometheus => PROMETHEUS_TYPE,
        }
    }
}

/// The status and the headers of an answer.
pub struct Head {
    pub status: u16,
    pub content_type: Option<ContentType>,
    pub cache_control: Option<&'static str>,
    pub location: Option<&'static str>,
    pub www_authenticate: Option<&'static str>,
}

/// The status and the headers of an answer, as mathematical values.
pub struct HeadView {
    pub status: u16,
    pub content_type: Option<ContentType>,
    pub cache_control: Option<Seq<char>>,
    pub location: Option<Seq<char>>,
    pub www_authenticate: Option<Seq<char>>,
}

/// The text of an optional literal.
pub open spec fn lit(s: Option<&'static str>) -> Option<Seq<char>> {
    match s {
        Some(x) => Some(x@),
        None => None,
    }
}

impl View for Head {
    type V = HeadView;

    open spec fn view(&self) -> HeadView {
        HeadView {
            status: self.status,
            content_type: self.content_type,
            cache_control: lit(self.cache_control),
            location: lit(self.location),
            www_authenticate: lit(self.www_authenticate),
        }
    }
}

/// The path of an entry point.
pub open spec fn entry_path(entry: Entry) -> Seq<char> {
    match entry {
        Entry::Prefix => "/watchlite/"@,
        Entry::Mobile => "/m/"@,
        Entry::PrefixMobile => "/watchlite/m/"@,
    }
}

/// The content type of a file of the dashboard.
pub open spec fn asset_type(asset: Asset) -> ContentType {
    match asset {
        Asset::IndexHtml | Asset::MobileHtml => ContentType::Html,
        Asset::AppJs | Asset::MobileJs => ContentType::Js,
        Asset::StyleCss | Asset::MobileCss => ContentType::Css,
        Asset::FaviconSvg => ContentType::Svg,
    }
}

/// A head with a status and no headers.
pub open spec fn bare_head(status: u16) -> HeadView {
    HeadView {
        status,
        content_type: None,
        cache_control: None,
        location: None,
        www_authenticate: None,
    }
}

/// The status and the headers of an answer. The files may be kept but are asked for again each
/// time, so that an upgrade shows on a plain refresh; what changes with time is not kept at all.
pub open spec fn head_of(a: Answer) -> HeadView {
    match a {
        Answer::Healthy => HeadView { cache_control: Some("no-store"@), ..bare_head(200) },
        Answer::Unauthorized => HeadView {
            www_authenticate: Some("Basic realm=\"watchlite\""@),
            ..bare_head(401)
        },
        Answer::Redirect(entry) => HeadView {
            location: Some(entry_path(entry)),
            cache_control: Some("no-store"@),
            ..bare_head(301)
        },
        Answer::Asset(asset) => HeadView {
            content_type: Some(asset_type(asset)),
            cache_control: Some("no-cache"@),
            ..bare_head(200)
        },
        Answer::Stats | Answer::History => HeadView {
            content_type: Some(ContentType::Json),
            cache_control: Some("no-store"@),
            ..bare_head(200)
        },
        Answer::Metrics => HeadView {
            content_type: Some(ContentType::Prometheus),
            cache_control: Some("no-store"@),
            ..bare_head(200)
        },
        Answer::NotFound => bare_head(404),
    }
}

/// The body of an answer that is the same each time.
pub open spec fn fixed_text(a: Answer) -> Option<Seq<char>> {
    match a {
        Answer::Healthy => Some("ok"@),
        Answer::Unauthorized => Some("401 Unauthorized"@),
        Answer::Redirect(_) => Some(""@),
        Answer::NotFound => Some("404 Not Found"@),
        _ => None,
    }
}

/// The body of a history answer, around the samples as JSON; an empty list where they could not
/// be written as JSON.
pub open spec fn history_text(points: Option<Seq<char>>) -> Seq<char> {
    "{\"points\":"@ + match points {
        Some(p) => p,
        None => "[]"@,
    } + "}"@
}

/// The body of an answer, where `json` is the latest snapshot, `prom` the text for Prometheus and
/// `points` the samples as JSON. That of a file is the file.
pub open spec fn body_of(
    a: Answer,
    json: Seq<char>,
    prom: Seq<char>,
    points: Option<Seq<char>>,
) -> Option<Seq<char>> {
    match a {
        Answer::Stats => Some(json),
        Answer::Metrics => Some(prom),
        Answer::History => Some(history_text(points)),
        Answer::Asset(_) => None,
        _ => fixed_text(a),
    }
}

impl Entry {
    /// The path of the entry point.
    pub fn path(self) -> (r: &'static str)
        ensures
            r@ == entry_path(self),
    {
        match self {
            Entry::Prefix => "/watchlite/",
            Entry::Mobile => "/m/",
            Entry::PrefixMobile => "/watchlite/m/",
        }
    }
}

impl Asset {
    /// The content type of the file.
    pub fn content_type(self) -> (r: ContentType)
        ensures
            r == asset_type(self),
    {
        match self {
            Asset::IndexHtml | Asset::MobileHtml => ContentType::Html,
            Asset::AppJs | Asset::MobileJs => ContentType::Js,
            Asset::StyleCss | Asset::MobileCss => ContentType::Css,
            Asset::FaviconSvg => ContentType::Svg,
        }
    }
}

impl Answer {
    /// The status and the headers of the answer.
    pub fn head(self) -> (r: Head)
        ensures
            r@ == head_of(self),
    {
        let mut head = Head {
            status: 200,
            content_type: None,
            cache_control: None,
            location: None,
            www_authenticate: None,
        };
        match self {
            Answer::Healthy => {
                head.cache_control = Some("no-store");
            },
            Answer::Unauthorized => {
                head.status = 401;
                head.www_authenticate = Some("Basic realm=\"watchlite\"");
            },
            Answer::Redirect(entry) => {
                head.status = 301;
                head.location = Some(entry.path());
                head.cache_control = Some("no-store");
            },
            Answer::Asset(asset) => {
                head.content_type = Some(asset.content_type());
                head.cache_control = Some("no-cache");
            },
            Answer::Stats | Answer::History => {
                head.content_type = Some(ContentType::Json);
                head.cache_control = Some("no-store");
            },
            Answer::Metrics => {
                head.content_type = Some(ContentType::Prometheus);
                head.cache_control = Some("no-store");
            },
            Answer::NotFound => {
                head.status = 404;
            },
        }
        head
    }

    /// The body of the answer, if it is the same each time.
    pub fn text(self) -> (r: Option<&'static str>)
        ensures
            lit(r) == fixed_text(self),
    {
        match self {
            Answer::Healthy => Some("ok"),
            Answer::Unauthorized => Some("401 Unauthorized"),
            Answer::Redirect(_) => Some(""),
            Answer::NotFound => Some("404 Not Found"),
            _ => None,
        }
    }

    /// The body of the answer, from what is published: the latest snapshot, the text for
    /// Prometheus, and the samples as JSON, which only a history answer needs. None for a file.
    pub fn body(self, json: &str, prom: &str, points: Option<String>) -> (r: Option<String>)
        ensures
            config::args::opt(r) == body_of(self, json@, prom@, config::args::opt(points)),
    {
        match self {
            Answer::Stats => Some(json.to_owned()),
            Answer::Metrics => Some(prom.to_owned()),
            Answer::History => Some(history_body(points)),
            _ => match self.text() {
                Some(text) => Some(text.to_owned()),
                None => None,
            },
        }
    }
}

/// The body of a history answer, around the samples as JSON; an empty list where they could not
/// be written as JSON.
pub fn history_body(points: Option<String>) -> (r: String)
    ensures
        r@ == history_text(config::args::opt(points)),
{
    let mut out = "{\"points\":".to_owned();
    match points {
        Some(p) => out.append(p.as_str()),
        None => out.append("[]"),
    }
    out.append("}");
    out
}

// ---------------------------------------------------------------------------------------------
// Laws
// ---------------------------------------------------------------------------------------------

/// The liveness probe is answered the same, whatever credentials are asked for or carried.
pub proof fn law_probe_needs_no_credentials(
    url: Seq<char>,
    auth: Option<Seq<char>>,
    headers: Seq<(Seq<char>, Seq<char>)>,
)
    requires
        path_of(url) == "/healthz"@,
    ensures
        answer(url, auth, headers) == Answer::Healthy,
{
}

/// Without the right credentials every other path is answered with the same refusal: neither the
/// answer, nor its head, nor its body tells what is at the path or what is published.
pub proof fn law_refusal_tells_nothing(
    url: Seq<char>,
    expected: Seq<char>,
    headers: Seq<(Seq<char>, Seq<char>)>,
    json: Seq<char>,
    prom: Seq<char>,
    points: Option<Seq<char>>,
)
    requires
        path_of(url) != "/healthz"@,
        header_value(headers, "Authorization"@) != Some(expected),
    ensures
        answer(url, Some(expected), headers) == Answer::Unauthorized,
        head_of(answer(url, Some(expected), headers)).status == 401,
        body_of(answer(url, Some(expected), headers), json, prom, points) == Some(
            "401 Unauthorized"@,
        ),
{
}

/// Those who may see it get what is published, fresh: the latest snapshot, the samples, the text
/// for Prometheus, each at its path.
pub proof fn law_published_texts_are_served(
    url: Seq<char>,
    auth: Option<Seq<char>>,
    headers: Seq<(Seq<char>, Seq<char>)>,
    json: Seq<char>,
    prom: Seq<char>,
    points: Option<Seq<char>>,
    names: TypeNames,
)
    requires
        authorized(auth, headers),
        path_of(url) == "/api/stats"@ || path_of(url) == "/api/history"@ || path_of(url)
            == "/metrics"@,
    ensures
        ({
            let a = answer(url, auth, headers);
            let head = head_of(a);
            let body = body_of(a, json, prom, points);
            let kind = content_name(head.content_type->0, names);
            &&& head.status == 200
            &&& head.cache_control == Some("no-store"@)
            &&& head.content_type is Some
            &&& path_of(url) == "/api/stats"@ ==> body == Some(json) && kind == names.json@
            &&& path_of(url) == "/api/history"@ ==> body == Some(history_text(points)) && kind
                == names.json@
            &&& path_of(url) == "/metrics"@ ==> body == Some(prom) && kind
                == "text/plain; version=0.0.4; charset=utf-8"@
        }),
{
    reveal_strlit("/api/stats");
    reveal_strlit("/api/history");
    reveal_strlit("/metrics");
    reveal_strlit("/healthz");
    reveal_strlit("/watchlite");
    reveal_strlit("/m");
    reveal_strlit("/mobile");
    reveal_strlit("/watchlite/m");
    reveal_strlit("/");
    reveal_strlit("/index.html");
    reveal_strlit("/watchlite/");
    reveal_strlit("/app.js");
    reveal_strlit("/style.css");
    reveal_strlit("/m/");
    reveal_strlit("/mobile/");
    reveal_strlit("/watchlite/m/");
    reveal_strlit("/mobile.js");
    reveal_strlit("/mobile.css");
    reveal_strlit("/favicon.svg");
    reveal_strlit("/favicon.ico");
    let path = path_of(url);
    if path == "/metrics"@ {
        assert(path[1] == 'm' && path[2] == 'e');
        assert(path.len() == 8);
    } else {
        assert(path[1] == 'a' && path[2] == 'p' && path[3] == 'i');
        assert(path.len() == 10 || path.len() == 12);
    }
    assert(path != "/healthz"@);
    assert(redirect(path) is None);
}

/// With the right credentials a request is answered as if none were asked for.
pub proof fn law_right_credentials_open_everything(
    url: Seq<char>,
    expected: Seq<char>,
    headers: Seq<(Seq<char>, Seq<char>)>,
)
    requires
        header_value(headers, "Authorization"@) == Some(expected),
    ensures
        answer(url, Some(expected), headers) == answer(url, None, headers),
        answer(url, Some(expected), headers) != Answer::Unauthorized,
{
}

/// A request that carries the header value of some credentials is refused exactly where they are
/// not the credentials that are asked for.
pub proof fn law_only_the_credentials_asked_for(
    url: Seq<char>,
    asked: Seq<char>,
    given: Seq<char>,
    headers: Seq<(Seq<char>, Seq<char>)>,
)
    requires
        path_of(url) != "/healthz"@,
        header_value(headers, "Authorization"@) == Some(config::basic_auth(given)),
    ensures
        answer(url, Some(config::basic_auth(asked)), headers) == Answer::Unauthorized <==> given
            != asked,
{
    if config::basic_auth(given) == config::basic_auth(asked) {
        config::law_credentials_have_their_own_header(given, asked);
    }
}

/// The query does not matter.
pub proof fn law_query_does_not_matter(
    url: Seq<char>,
    auth: Option<Seq<char>>,
    headers: Seq<(Seq<char>, Seq<char>)>,
)
    ensures
        answer(url, auth, headers) == answer(path_of(url), auth, headers),
{
    url.index_of_first_ensures('?');
    text::lemma_no_split(path_of(url), '?');
}

/// A redirect leads, in one step, to a page: the path that it names is not redirected again.
pub proof fn law_redirect_leads_to_a_page(
    url: Seq<char>,
    auth: Option<Seq<char>>,
    headers: Seq<(Seq<char>, Seq<char>)>,
)
    requires
        answer(url, auth, headers) is Redirect,
    ensures
        ({
            let there = head_of(answer(url, auth, headers)).location->0;
            let page = answer(there, auth, headers);
            page == Answer::Asset(Asset::IndexHtml) || page == Answer::Asset(Asset::MobileHtml)
        }),
{
    reveal_strlit("/healthz");
    reveal_strlit("/watchlite");
    reveal_strlit("/m");
    reveal_strlit("/mobile");
    reveal_strlit("/watchlite/m");
    reveal_strlit("/");
    reveal_strlit("/index.html");
    reveal_strlit("/watchlite/");
    reveal_strlit("/app.js");
    reveal_strlit("/style.css");
    reveal_strlit("/m/");
    reveal_strlit("/watchlite/m/");
    let there = head_of(answer(url, auth, headers)).location->0;
    assert(!there.contains('?'));
    text::lemma_no_split(there, '?');
    assert(there[there.len() - 1] == '/');
}

/// Everything that is written into a head is ASCII.
pub proof fn law_heads_are_ascii(a: Answer)
    ensures
        head_of(a).cache_control matches Some(s) ==> is_ascii_chars(s),
        head_of(a).location matches Some(s) ==> is_ascii_chars(s),
        head_of(a).www_authenticate matches Some(s) ==> is_ascii_chars(s),
        is_ascii_chars(PROMETHEUS_TYPE@),
{
    reveal_strlit("text/plain; version=0.0.4; charset=utf-8");
    reveal_strlit("no-store");
    reveal_strlit("no-cache");
    reveal_strlit("Basic realm=\"watchlite\"");
    reveal_strlit("/watchlite/");
    reveal_strlit("/m/");
    reveal_strlit("/watchlite/m/");
}

} // verus!
