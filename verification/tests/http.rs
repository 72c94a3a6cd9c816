use watchlite::config::basic_auth_value;
use watchlite::http::{
    constant_time_eq, handle, history_body, Answer, Asset, ContentType, Entry, RequestHeader,
    TypeNames,
};

fn open(url: &str) -> Answer {
    handle(url, &None, &Vec::new())
}

fn header(field: &str, value: &str) -> RequestHeader {
    RequestHeader { field: field.to_string(), value: value.to_string() }
}

#[test]
fn pages() {
    for url in ["/", "/index.html", "/watchlite/", "/?theme=light"] {
        assert_eq!(open(url), Answer::Asset(Asset::IndexHtml));
    }
    for url in ["/m/", "/mobile/", "/watchlite/m/"] {
        assert_eq!(open(url), Answer::Asset(Asset::MobileHtml));
    }
    assert_eq!(open("/app.js"), Answer::Asset(Asset::AppJs));
    assert_eq!(open("/style.css"), Answer::Asset(Asset::StyleCss));
    assert_eq!(open("/mobile.js"), Answer::Asset(Asset::MobileJs));
    assert_eq!(open("/mobile.css"), Answer::Asset(Asset::MobileCss));
    assert_eq!(open("/favicon.svg"), Answer::Asset(Asset::FaviconSvg));
    assert_eq!(open("/favicon.ico"), Answer::Asset(Asset::FaviconSvg));
    assert_eq!(open("/api/stats"), Answer::Stats);
    assert_eq!(open("/api/history"), Answer::History);
    assert_eq!(open("/metrics?x=1"), Answer::Metrics);
    assert_eq!(open("/api"), Answer::NotFound);
    assert_eq!(open(""), Answer::NotFound);
}

#[test]
fn entry_points_get_their_slash() {
    for (url, entry, to) in [
        ("/watchlite", Entry::Prefix, "/watchlite/"),
        ("/m", Entry::Mobile, "/m/"),
        ("/mobile", Entry::Mobile, "/m/"),
        ("/watchlite/m", Entry::PrefixMobile, "/watchlite/m/"),
    ] {
        let answer = open(url);
        assert_eq!(answer, Answer::Redirect(entry));
        let head = answer.head();
        assert_eq!(head.status, 301);
        assert_eq!(head.location, Some(to));
        assert_eq!(head.cache_control, Some("no-store"));
        assert_eq!(answer.text(), Some(""));
        assert!(matches!(open(to), Answer::Asset(_)));
    }
}

#[test]
fn probe_needs_no_credentials() {
    let auth = Some(basic_auth_value("admin:secret"));
    assert_eq!(handle("/healthz", &auth, &Vec::new()), Answer::Healthy);
    assert_eq!(handle("/healthz?x", &auth, &Vec::new()), Answer::Healthy);
    assert_eq!(Answer::Healthy.text(), Some("ok"));
    assert_eq!(Answer::Healthy.head().status, 200);
    assert_eq!(Answer::Healthy.head().cache_control, Some("no-store"));
}

#[test]
fn refusals_look_the_same_everywhere() {
    let auth = Some(basic_auth_value("admin:secret"));
    for url in ["/", "/api/stats", "/metrics", "/m", "/nothing", "/healthz/"] {
        assert_eq!(handle(url, &auth, &Vec::new()), Answer::Unauthorized);
        let wrong = vec![header("Authorization", &basic_auth_value("admin:guess"))];
        assert_eq!(handle(url, &auth, &wrong), Answer::Unauthorized);
    }
    let head = Answer::Unauthorized.head();
    assert_eq!(head.status, 401);
    assert_eq!(head.www_authenticate, Some("Basic realm=\"watchlite\""));
    assert_eq!(head.content_type, None);
    assert_eq!(Answer::Unauthorized.text(), Some("401 Unauthorized"));
}

#[test]
fn right_credentials_open_everything() {
    let auth = Some(basic_auth_value("admin:secret"));
    let value = basic_auth_value("admin:secret");
    for field in ["Authorization", "authorization", "AUTHORIZATION", "aUTHORIZATIOn"] {
        let headers = vec![header("Host", "x"), header(field, &value)];
        assert_eq!(handle("/api/stats", &auth, &headers), Answer::Stats);
        assert_eq!(handle("/m", &auth, &headers), Answer::Redirect(Entry::Mobile));
    }
}

#[test]
fn only_the_first_authorization_counts() {
    let auth = Some(basic_auth_value("admin:secret"));
    let right = header("authorization", &basic_auth_value("admin:secret"));
    let wrong = header("Authorization", "Basic x");
    assert_eq!(handle("/", &auth, &vec![wrong, right]), Answer::Unauthorized);
}

#[test]
fn other_fields_do_not_authorize() {
    let auth = Some("v".to_string());
    for field in ["Authorizatio", "Authorization ", "Proxy-Authorization", "\u{212a}", "Auth\u{f6}rization", ""] {
        assert_eq!(handle("/", &auth, &vec![header(field, "v")]), Answer::Unauthorized);
    }
}

#[test]
fn comparison_is_equality() {
    assert!(constant_time_eq("", ""));
    assert!(constant_time_eq("Basic x", "Basic x"));
    assert!(!constant_time_eq("Basic x", "Basic y"));
    assert!(!constant_time_eq("Aasic x", "Basic x"));
    assert!(!constant_time_eq("Basic", "Basic x"));
}

#[test]
fn heads_of_the_data() {
    let files = Answer::Asset(Asset::MobileCss).head();
    assert_eq!(files.status, 200);
    assert_eq!(files.content_type, Some(ContentType::Css));
    assert_eq!(files.cache_control, Some("no-cache"));
    assert_eq!(Answer::Asset(Asset::IndexHtml).head().content_type, Some(ContentType::Html));
    assert_eq!(Answer::Asset(Asset::AppJs).head().content_type, Some(ContentType::Js));
    assert_eq!(Answer::Asset(Asset::FaviconSvg).head().content_type, Some(ContentType::Svg));
    for a in [Answer::Stats, Answer::History] {
        assert_eq!(a.head().content_type, Some(ContentType::Json));
        assert_eq!(a.head().cache_control, Some("no-store"));
        assert_eq!(a.text(), None);
    }
    assert_eq!(Answer::Metrics.head().content_type, Some(ContentType::Prometheus));
    assert_eq!(Answer::NotFound.head().status, 404);
    assert_eq!(Answer::NotFound.head().cache_control, None);
    assert_eq!(Answer::NotFound.text(), Some("404 Not Found"));
    assert_eq!(watchlite::http::PROMETHEUS_TYPE, "text/plain; version=0.0.4; charset=utf-8");
}

#[test]
fn history_is_wrapped() {
    assert_eq!(history_body(Some("[1,2]".to_string())), "{\"points\":[1,2]}");
    assert_eq!(history_body(None), "{\"points\":[]}");
}

#[test]
fn published_texts_have_their_paths() {
    let body = |url: &str| open(url).body("{json}", "prom 1", Some("[1]".to_string()));
    assert_eq!(body("/api/stats").as_deref(), Some("{json}"));
    assert_eq!(body("/metrics").as_deref(), Some("prom 1"));
    assert_eq!(body("/api/history?x").as_deref(), Some("{\"points\":[1]}"));
    assert_eq!(body("/healthz").as_deref(), Some("ok"));
    assert_eq!(body("/m").as_deref(), Some(""));
    assert_eq!(body("/nothing").as_deref(), Some("404 Not Found"));
    assert_eq!(body("/"), None);
    assert_eq!(body("/app.js"), None);
    assert_eq!(
        Answer::History.body("{json}", "prom 1", None).as_deref(),
        Some("{\"points\":[]}")
    );
    let auth = Some(basic_auth_value("admin:secret"));
    for url in ["/api/stats", "/api/history", "/metrics", "/"] {
        let refused = handle(url, &auth, &Vec::new());
        assert_eq!(refused.body("{json}", "prom 1", None).as_deref(), Some("401 Unauthorized"));
    }
}

#[test]
fn content_types_have_names() {
    let names = TypeNames { html: "h", js: "j", css: "c", svg: "s", json: "o" };
    let name = |url: &str| open(url).head().content_type.map(|k| k.name(&names));
    assert_eq!(name("/metrics"), Some("text/plain; version=0.0.4; charset=utf-8"));
    assert_eq!(name("/api/stats"), Some("o"));
    assert_eq!(name("/api/history"), Some("o"));
    assert_eq!(name("/"), Some("h"));
    assert_eq!(name("/m/"), Some("h"));
    assert_eq!(name("/app.js"), Some("j"));
    assert_eq!(name("/mobile.js"), Some("j"));
    assert_eq!(name("/style.css"), Some("c"));
    assert_eq!(name("/mobile.css"), Some("c"));
    assert_eq!(name("/favicon.ico"), Some("s"));
    assert_eq!(name("/healthz"), None);
    assert_eq!(name("/nothing"), None);
}
