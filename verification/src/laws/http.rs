//! Laws of the answers to requests.

use crate::http;
use crate::http::{Answer, Asset, ContentType, Entry, Head, RequestHeader, TypeNames};
use crate::laws;
use crate::text;
use vstd::prelude::*;

verus! {

/// The URL asks for `path`, with or without a query.
pub open spec fn at_path(url: Seq<char>, path: Seq<char>) -> bool {
    &&& !path.contains('?')
    &&& path.len() <= url.len()
    &&& forall|k: int| 0 <= k < path.len() ==> #[trigger] url[k] == path[k]
    &&& path.len() < url.len() ==> url[path.len() as int] == '?'
}

/// The header is one for credentials.
pub open spec fn for_credentials(h: RequestHeader) -> bool {
    laws::in_any_case(h.field@, "authorization"@)
}

/// A URL asks for one path.
proof fn lemma_at_path(url: Seq<char>, path: Seq<char>)
    ensures
        at_path(url, path) <==> http::path_of(url) == path,
{
    url.index_of_first_ensures('?');
    if at_path(url, path) {
        assert(url.take(path.len() as int) =~= path);
        if path.len() < url.len() {
            assert forall|j: int| 0 <= j < path.len() implies url[j] != '?' by {
                assert(path.contains(path[j]));
            }
            text::lemma_index_of_first(url, '?', path.len() as int);
        } else {
            assert(url =~= path);
        }
    }
    if http::path_of(url) == path {
        if url.contains('?') {
            let i = url.index_of_first('?')->0;
            assert(path == url.take(i));
            assert(!path.contains('?'));
        }
    }
}

proof fn lemma_credentials_field(h: RequestHeader)
    ensures
        for_credentials(h) <==> http::same_field(h.field@, "Authorization"@),
{
    reveal_strlit("Authorization");
    reveal_strlit("authorization");
    assert(text::ascii_lower("Authorization"@) =~= "authorization"@);
    laws::lemma_lower_is_any_case(h.field@, "authorization"@);
}

/// The first header for credentials is the one that is looked up, wherever it stands.
proof fn lemma_first_credentials(headers: Seq<RequestHeader>, i: int)
    requires
        0 <= i <= headers.len(),
        forall|j: int| 0 <= j < i ==> !for_credentials(#[trigger] headers[j]),
        i < headers.len() ==> for_credentials(headers[i]),
    ensures
        http::header_value(http::header_views(headers), "Authorization"@) == if i < headers.len() {
            Some(headers[i].value@)
        } else {
            None
        },
    decreases i,
{
    let views = http::header_views(headers);
    if headers.len() > 0 {
        lemma_credentials_field(headers[0]);
        assert(views[0] == (headers[0].field@, headers[0].value@));
        if i > 0 {
            let rest = headers.skip(1);
            assert(views.skip(1) =~= http::header_views(rest));
            lemma_first_credentials(rest, i - 1);
        }
    }
}

/// Where credentials are asked for, the first header that carries any decides, wherever it stands
/// among the headers and however its field is written: the request is let through exactly where
/// the value of that header is the one asked for.
pub proof fn law_first_credentials_decide(
    url: &str,
    auth: &Option<String>,
    headers: &Vec<RequestHeader>,
    r: Answer,
    i: int,
)
    requires
        call_ensures(http::handle, (url, auth, headers), r),
        *auth is Some,
        !at_path(url@, "/healthz"@),
        0 <= i < headers@.len(),
        for_credentials(headers@[i]),
        forall|j: int| 0 <= j < i ==> !for_credentials(#[trigger] headers@[j]),
    ensures
        r == Answer::Unauthorized <==> headers@[i].value@ != (*auth)->0@,
{
    lemma_at_path(url@, "/healthz"@);
    lemma_first_credentials(headers@, i);
}

/// Where credentials are asked for, a request without any header for them is refused.
pub proof fn law_missing_credentials_are_refused(
    url: &str,
    auth: &Option<String>,
    headers: &Vec<RequestHeader>,
    r: Answer,
)
    requires
        call_ensures(http::handle, (url, auth, headers), r),
        *auth is Some,
        !at_path(url@, "/healthz"@),
        forall|j: int| 0 <= j < headers@.len() ==> !for_credentials(#[trigger] headers@[j]),
    ensures
        r == Answer::Unauthorized,
{
    lemma_at_path(url@, "/healthz"@);
    lemma_first_credentials(headers@, headers@.len() as int);
}

/// Where no credentials are asked for, nothing is refused; and credentials change nothing in the
/// answer to a request that is let through.
pub proof fn law_credentials_only_gate(
    url: &str,
    auth: &Option<String>,
    headers: &Vec<RequestHeader>,
    r: Answer,
    none: &Option<String>,
    others: &Vec<RequestHeader>,
    open: Answer,
)
    requires
        call_ensures(http::handle, (url, auth, headers), r),
        call_ensures(http::handle, (url, none, others), open),
        *none is None,
    ensures
        open != Answer::Unauthorized,
        r == open || r == Answer::Unauthorized,
{
}

/// What each path is answered, to those who may see it: the probe, the pages, the files, what is
/// published; and nothing is at any other path.
pub proof fn law_paths(
    url: &str,
    auth: &Option<String>,
    headers: &Vec<RequestHeader>,
    r: Answer,
    path: Seq<char>,
)
    requires
        call_ensures(http::handle, (url, auth, headers), r),
        at_path(url@, path),
    ensures
        r == Answer::Healthy <==> path == "/healthz"@,
        r != Answer::Unauthorized ==> {
            &&& r == Answer::Redirect(Entry::Prefix) <==> path == "/watchlite"@
            &&& r == Answer::Redirect(Entry::Mobile) <==> path == "/m"@ || path == "/mobile"@
            &&& r == Answer::Redirect(Entry::PrefixMobile) <==> path == "/watchlite/m"@
            &&& r == Answer::Asset(Asset::IndexHtml) <==> path == "/"@ || path == "/index.html"@
                || path == "/watchlite/"@
            &&& r == Answer::Asset(Asset::MobileHtml) <==> path == "/m/"@ || path == "/mobile/"@
                || path == "/watchlite/m/"@
            &&& r == Answer::Asset(Asset::AppJs) <==> path == "/app.js"@
            &&& r == Answer::Asset(Asset::StyleCss) <==> path == "/style.css"@
            &&& r == Answer::Asset(Asset::MobileJs) <==> path == "/mobile.js"@
            &&& r == Answer::Asset(Asset::MobileCss) <==> path == "/mobile.css"@
            &&& r == Answer::Asset(Asset::FaviconSvg) <==> path == "/favicon.svg"@ || path
                == "/favicon.ico"@
            &&& r == Answer::Stats <==> path == "/api/stats"@
            &&& r == Answer::History <==> path == "/api/history"@
            &&& r == Answer::Metrics <==> path == "/metrics"@
        },
{
    reveal_strlit("/healthz");
    reveal_strlit("/watchlite");
    reveal_strlit("/m");
    reveal_strlit("/mobile");
    reveal_strlit("/watchlite/m");
    reveal_strlit("/");
    reveal_strlit("/index.html");
    reveal_strlit("/watchlite/");
    reveal_strlit("/m/");
    reveal_strlit("/mobile/");
    reveal_strlit("/watchlite/m/");
    reveal_strlit("/app.js");
    reveal_strlit("/style.css");
    reveal_strlit("/mobile.js");
    reveal_strlit("/mobile.css");
    reveal_strlit("/favicon.svg");
    reveal_strlit("/favicon.ico");
    reveal_strlit("/api/stats");
    reveal_strlit("/api/history");
    reveal_strlit("/metrics");
    lemma_at_path(url@, path);
    assert(path == "/healthz"@ ==> path.len() == 8 && path[1] == 'h' && path[2] == 'e');
    assert(path == "/watchlite"@ ==> path.len() == 10 && path[1] == 'w' && path[2] == 'a');
    assert(path == "/m"@ ==> path.len() == 2);
    assert(path == "/mobile"@ ==> path.len() == 7 && path[1] == 'm' && path[2] == 'o');
    assert(path == "/watchlite/m"@ ==> path.len() == 12 && path[1] == 'w' && path[2] == 'a'
        && path[9] == 'e');
    assert(path == "/"@ ==> path.len() == 1);
    assert(path == "/index.html"@ ==> path.len() == 11 && path[1] == 'i' && path[2] == 'n');
    assert(path == "/watchlite/"@ ==> path.len() == 11 && path[1] == 'w' && path[2] == 'a');
    assert(path == "/m/"@ ==> path.len() == 3);
    assert(path == "/mobile/"@ ==> path.len() == 8 && path[1] == 'm' && path[2] == 'o');
    assert(path == "/watchlite/m/"@ ==> path.len() == 13 && path[1] == 'w' && path[2] == 'a');
    assert(path == "/app.js"@ ==> path.len() == 7 && path[1] == 'a' && path[2] == 'p');
    assert(path == "/style.css"@ ==> path.len() == 10 && path[1] == 's' && path[2] == 't');
    assert(path == "/mobile.js"@ ==> path.len() == 10 && path[1] == 'm' && path[2] == 'o');
    assert(path == "/mobile.css"@ ==> path.len() == 11 && path[1] == 'm' && path[2] == 'o');
    assert(path == "/favicon.svg"@ ==> path.len() == 12 && path[1] == 'f' && path[2] == 'a'
        && path[9] == 's');
    assert(path == "/favicon.ico"@ ==> path.len() == 12 && path[1] == 'f' && path[2] == 'a'
        && path[9] == 'i');
    assert(path == "/api/stats"@ ==> path.len() == 10 && path[1] == 'a' && path[2] == 'p');
    assert(path == "/api/history"@ ==> path.len() == 12 && path[1] == 'a' && path[2] == 'p'
        && path[9] == 'o');
    assert(path == "/metrics"@ ==> path.len() == 8 && path[1] == 'm' && path[2] == 'e');
}

/// The literal, if the option holds it.
pub open spec fn holds(s: Option<&'static str>, lit: Seq<char>) -> bool {
    s matches Some(x) && x@ == lit
}

/// The status and the headers of each answer.
pub proof fn law_heads(a: Answer, h: Head)
    requires
        call_ensures(Answer::head, (a,), h),
    ensures
        h.status == 200 <==> a != Answer::Unauthorized && !(a is Redirect) && a != Answer::NotFound,
        h.status == 401 <==> a == Answer::Unauthorized,
        h.status == 301 <==> a is Redirect,
        h.status == 404 <==> a == Answer::NotFound,
        h.www_authenticate is Some <==> a == Answer::Unauthorized,
        a == Answer::Unauthorized ==> holds(h.www_authenticate, "Basic realm=\"watchlite\""@),
        h.location is Some <==> a is Redirect,
        a == Answer::Redirect(Entry::Prefix) ==> holds(h.location, "/watchlite/"@),
        a == Answer::Redirect(Entry::Mobile) ==> holds(h.location, "/m/"@),
        a == Answer::Redirect(Entry::PrefixMobile) ==> holds(h.location, "/watchlite/m/"@),
        h.cache_control is None <==> a == Answer::Unauthorized || a == Answer::NotFound,
        a is Asset ==> holds(h.cache_control, "no-cache"@),
        h.cache_control is Some && !(a is Asset) ==> holds(h.cache_control, "no-store"@),
        h.content_type is Some <==> a is Asset || a == Answer::Stats || a == Answer::History || a
            == Answer::Metrics,
        h.content_type == Some(ContentType::Html) <==> a == Answer::Asset(Asset::IndexHtml) || a
            == Answer::Asset(Asset::MobileHtml),
        h.content_type == Some(ContentType::Js) <==> a == Answer::Asset(Asset::AppJs) || a
            == Answer::Asset(Asset::MobileJs),
        h.content_type == Some(ContentType::Css) <==> a == Answer::Asset(Asset::StyleCss) || a
            == Answer::Asset(Asset::MobileCss),
        h.content_type == Some(ContentType::Svg) <==> a == Answer::Asset(Asset::FaviconSvg),
        h.content_type == Some(ContentType::Json) <==> a == Answer::Stats || a == Answer::History,
        h.content_type == Some(ContentType::Prometheus) <==> a == Answer::Metrics,
{
    let v = h@;
}

/// The name that a kind of content is sent under: the one that comes with the files, and that of
/// the text exposition format for Prometheus.
pub proof fn law_content_names(kind: ContentType, names: &TypeNames, r: &'static str)
    requires
        call_ensures(ContentType::name, (kind, names), r),
    ensures
        kind == ContentType::Html ==> r@ == names.html@,
        kind == ContentType::Js ==> r@ == names.js@,
        kind == ContentType::Css ==> r@ == names.css@,
        kind == ContentType::Svg ==> r@ == names.svg@,
        kind == ContentType::Json ==> r@ == names.json@,
        kind == ContentType::Prometheus ==> r@ == "text/plain; version=0.0.4; charset=utf-8"@,
{
}

/// What each answer carries: what is published at the paths for it, whatever that is; a fixed
/// text where there is nothing to tell; and nothing of its own where it is a file.
pub proof fn law_bodies(
    a: Answer,
    json: &str,
    prom: &str,
    points: Option<String>,
    r: Option<String>,
)
    requires
        call_ensures(Answer::body, (a, json, prom, points), r),
    ensures
        r is None <==> a is Asset,
        a == Answer::Stats ==> r->0@ == json@,
        a == Answer::Metrics ==> r->0@ == prom@,
        a == Answer::History && points is Some ==> r->0@ == "{\"points\":"@ + points->0@ + "}"@,
        a == Answer::History && points is None ==> r->0@ == "{\"points\":[]}"@,
        a == Answer::Healthy ==> r->0@ == "ok"@,
        a == Answer::Unauthorized ==> r->0@ == "401 Unauthorized"@,
        a == Answer::NotFound ==> r->0@ == "404 Not Found"@,
        a is Redirect ==> r->0@.len() == 0,
{
    reveal_strlit("");
    reveal_strlit("{\"points\":");
    reveal_strlit("[]");
    reveal_strlit("}");
    reveal_strlit("{\"points\":[]}");
    assert("{\"points\":"@ + "[]"@ + "}"@ =~= "{\"points\":[]}"@);
}

/// Two texts count as equal exactly where they have the same characters, in the same places.
pub proof fn law_comparison_misses_nothing(a: &str, b: &str, r: bool)
    requires
        call_ensures(http::constant_time_eq, (a, b), r),
    ensures
        r <==> a@.len() == b@.len() && forall|k: int| 0 <= k < a@.len() ==> a@[k] == b@[k],
{
    if a@.len() == b@.len() && (forall|k: int| 0 <= k < a@.len() ==> a@[k] == b@[k]) {
        assert(a@ =~= b@);
    }
}

} // verus!
